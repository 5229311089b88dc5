use tabiew::engine::{compile_filter, execute};
use tabiew::expr::{BinaryOp, Operation};
use tabiew::registry::Registry;
use tabiew::resolve::QueryError;
use tabiew::table::{Column, Table};
use tabiew::value::{DataType, Value};

fn int_column(name: &str, values: &[Option<i64>]) -> Column {
    let values: Vec<Value> = values
        .iter()
        .map(|v| match v {
            Some(i) => Value::Integer(*i),
            None => Value::Null,
        })
        .collect();
    Column::new(name, DataType::Integer, values).unwrap()
}

fn text_column(name: &str, values: &[&str]) -> Column {
    let values: Vec<Value> = values.iter().map(|s| Value::text(s)).collect();
    Column::new(name, DataType::Text, values).unwrap()
}

fn people() -> Table {
    Table::new(vec![
        text_column("name", &["Al", "Bo"]),
        int_column("age", &[Some(30), Some(25)]),
    ])
    .unwrap()
}

fn staff() -> Table {
    Table::new(vec![
        text_column("name", &["Al", "Bo", "Cy", "Di", "Ed"]),
        text_column("team", &["red", "blue", "red", "blue", "red"]),
        int_column("pay", &[Some(10), Some(20), None, Some(5), Some(-3)]),
    ])
    .unwrap()
}

fn teams() -> Table {
    Table::new(vec![
        text_column("team", &["blue", "red", "green"]),
        int_column("floor", &[Some(1), Some(2), Some(3)]),
    ])
    .unwrap()
}

fn registry() -> Registry {
    let mut reg = Registry::new();
    reg.register("people", people(), None).unwrap();
    reg.register("staff", staff(), None).unwrap();
    reg.register("teams", teams(), None).unwrap();
    reg
}

fn names(t: &Table) -> Vec<String> {
    (0..t.width()).map(|c| t.column(c).name().to_string()).collect()
}

fn rows(t: &Table) -> Vec<Vec<Value>> {
    t.rows()
}

fn num(i: i64) -> Value {
    Value::Integer(i)
}

fn text(s: &str) -> Value {
    Value::text(s)
}

#[test]
fn select_name_where_age_above_26() {
    let reg = registry();
    let t = execute("select name from people where age > 26", &reg).unwrap();
    assert_eq!(t.width(), 1);
    assert_eq!(t.height(), 1);
    assert_eq!(names(&t), vec!["name"]);
    assert_eq!(rows(&t), vec![vec![text("Al")]]);
}

#[test]
fn select_star_gives_the_table() {
    let reg = registry();
    let t = execute("SELECT * FROM people", &reg).unwrap();
    assert_eq!(names(&t), vec!["name", "age"]);
    assert_eq!(rows(&t), vec![vec![text("Al"), num(30)], vec![text("Bo"), num(25)]]);
    assert_eq!(t.column(0).data_type(), DataType::Text);
    assert_eq!(t.column(1).data_type(), DataType::Integer);
}

#[test]
fn computed_and_named_columns() {
    let reg = registry();
    let t = execute(
        "select name, age + 1 as next, age * 2 - 10 / 3, -age % 7, age from people",
        &reg,
    )
    .unwrap();
    assert_eq!(names(&t), vec!["name", "next", "age * 2 - 10 / 3", "-age % 7", "age"]);
    assert_eq!(
        rows(&t),
        vec![
            vec![text("Al"), num(31), num(57), num(-2), num(30)],
            vec![text("Bo"), num(26), num(47), num(-4), num(25)],
        ]
    );
}

#[test]
fn columns_of_one_name_are_told_apart() {
    let reg = registry();
    let t = execute("select age, age, age as age_2, name age from people", &reg).unwrap();
    assert_eq!(names(&t), vec!["age", "age_2", "age_2_2", "age_3"]);
}

#[test]
fn order_by_several_keys() {
    let reg = registry();
    let t = execute("select name from staff order by team desc, pay", &reg).unwrap();
    assert_eq!(
        rows(&t),
        vec![
            vec![text("Cy")],
            vec![text("Ed")],
            vec![text("Al")],
            vec![text("Di")],
            vec![text("Bo")],
        ]
    );
    let t = execute("select name from staff order by team, name desc", &reg).unwrap();
    assert_eq!(
        rows(&t),
        vec![
            vec![text("Di")],
            vec![text("Bo")],
            vec![text("Ed")],
            vec![text("Cy")],
            vec![text("Al")],
        ]
    );
}

#[test]
fn order_keeps_rows_of_equal_keys_as_they_were() {
    let reg = registry();
    let t = execute("select name from staff order by team", &reg).unwrap();
    assert_eq!(
        rows(&t),
        vec![
            vec![text("Bo")],
            vec![text("Di")],
            vec![text("Al")],
            vec![text("Cy")],
            vec![text("Ed")],
        ]
    );
}

#[test]
fn groups_and_aggregates() {
    let reg = registry();
    let t = execute(
        "select team, count(*), count(pay), sum(pay), avg(pay), min(pay), max(name) \
         from staff group by team",
        &reg,
    )
    .unwrap();
    assert_eq!(
        names(&t),
        vec!["team", "count(*)", "count(pay)", "sum(pay)", "avg(pay)", "min(pay)", "max(name)"]
    );
    assert_eq!(
        rows(&t),
        vec![
            vec![text("red"), num(3), num(2), num(7), num(3), num(-3), text("Ed")],
            vec![text("blue"), num(2), num(2), num(25), num(12), num(5), text("Di")],
        ]
    );
}

#[test]
fn average_rounds_toward_zero() {
    let mut reg = Registry::new();
    let t = Table::new(vec![int_column("x", &[Some(-3), Some(-4)])]).unwrap();
    reg.register("t", t, None).unwrap();
    let r = execute("select avg(x), sum(x) / 2, -7 / 2, 7 / -2, -7 % 2, 7 % -2 from t", &reg).unwrap();
    assert_eq!(rows(&r), vec![vec![num(-3), num(-3), num(-3), num(-3), num(-1), num(1)]]);
}

#[test]
fn aggregates_over_no_rows() {
    let reg = registry();
    let t = execute(
        "select count(*), count(pay), sum(pay), avg(pay), min(pay), max(pay) from staff where pay > 100",
        &reg,
    )
    .unwrap();
    assert_eq!(
        rows(&t),
        vec![vec![num(0), num(0), Value::Null, Value::Null, Value::Null, Value::Null]]
    );
    let t = execute("select team, count(*) from staff where pay > 100 group by team", &reg).unwrap();
    assert_eq!(t.height(), 0);
    assert_eq!(t.width(), 2);
}

#[test]
fn order_by_an_aggregate() {
    let reg = registry();
    let t = execute(
        "select team, sum(pay) as total from staff group by team order by sum(pay) desc",
        &reg,
    )
    .unwrap();
    assert_eq!(rows(&t), vec![vec![text("blue"), num(25)], vec![text("red"), num(7)]]);
}

#[test]
fn join_on_equal_values() {
    let reg = registry();
    let t = execute(
        "select s.name, t.floor from staff s join teams t on s.team = t.team where s.pay > 0 order by s.name",
        &reg,
    )
    .unwrap();
    assert_eq!(names(&t), vec!["name", "floor"]);
    assert_eq!(
        rows(&t),
        vec![
            vec![text("Al"), num(2)],
            vec![text("Bo"), num(1)],
            vec![text("Di"), num(1)],
        ]
    );
}

#[test]
fn join_on_a_range() {
    let reg = registry();
    let t = execute(
        "select name, floor from people join teams on floor * 10 < age and floor >= 2",
        &reg,
    )
    .unwrap();
    assert_eq!(
        rows(&t),
        vec![vec![text("Al"), num(2)], vec![text("Bo"), num(2)]]
    );
}

#[test]
fn join_star_names_both_tables_columns() {
    let reg = registry();
    let t = execute("select * from staff join teams on staff.team = teams.team", &reg).unwrap();
    assert_eq!(names(&t), vec!["name", "team", "pay", "team_2", "floor"]);
    assert_eq!(t.height(), 5);
    assert!(t.height() <= 5 * 3);
}

#[test]
fn three_valued_logic() {
    let reg = registry();
    let t = execute("select name from staff where pay > 0 or name = 'Cy'", &reg).unwrap();
    assert_eq!(t.height(), 4);
    let t = execute("select name from staff where not (pay > 0)", &reg).unwrap();
    assert_eq!(rows(&t), vec![vec![text("Ed")]]);
    let t = execute("select pay > 0 and null, pay > 0 or null, pay = null from staff", &reg).unwrap();
    assert_eq!(
        rows(&t)[0],
        vec![Value::Null, Value::Boolean(true), Value::Null]
    );
    assert_eq!(
        rows(&t)[4],
        vec![Value::Boolean(false), Value::Null, Value::Null]
    );
}

#[test]
fn arithmetic_outside_the_range_is_null() {
    let reg = registry();
    let t = execute(
        "select 9223372036854775807 + age, age / 0, age % 0, -9223372036854775807 - 2 from people",
        &reg,
    )
    .unwrap();
    assert_eq!(rows(&t)[0], vec![Value::Null, Value::Null, Value::Null, Value::Null]);
}

#[test]
fn quoted_names_and_keywords_in_any_case() {
    let mut reg = Registry::new();
    let t = Table::new(vec![int_column("unit price", &[Some(4), Some(9)])]).unwrap();
    reg.register("price list", t, None).unwrap();
    let r = execute(
        "SeLeCt \"unit price\" * 2 As double FROM \"price list\" WHERE \"unit price\" <> 4",
        &reg,
    )
    .unwrap();
    assert_eq!(names(&r), vec!["double"]);
    assert_eq!(rows(&r), vec![vec![num(18)]]);
}

#[test]
fn unknown_table_is_named() {
    let reg = registry();
    assert_eq!(
        execute("select * from nobody", &reg).err(),
        Some(QueryError::UnknownTable { name: "nobody".to_string() })
    );
    assert_eq!(
        execute("select * from people join nothing on true", &reg).err(),
        Some(QueryError::UnknownTable { name: "nothing".to_string() })
    );
}

#[test]
fn unknown_column_is_named() {
    let reg = registry();
    assert_eq!(
        execute("select name, height from people", &reg).err(),
        Some(QueryError::UnknownColumn { table: "people".to_string(), name: "height".to_string() })
    );
    assert_eq!(
        execute("select p.name from people p order by q.age", &reg).err(),
        Some(QueryError::UnknownColumn { table: "q".to_string(), name: "age".to_string() })
    );
}

#[test]
fn type_mismatch_is_reported() {
    let reg = registry();
    assert_eq!(
        execute("select name + 1 from people", &reg).err(),
        Some(QueryError::TypeMismatch {
            operation: Operation::Binary(BinaryOp::Add),
            left_type: DataType::Text,
            right_type: DataType::Integer,
        })
    );
    assert_eq!(
        execute("select name from people where age", &reg).err(),
        Some(QueryError::TypeMismatch {
            operation: Operation::Filter,
            left_type: DataType::Integer,
            right_type: DataType::Boolean,
        })
    );
    assert_eq!(
        execute("select name from people where name > 3", &reg).err(),
        Some(QueryError::TypeMismatch {
            operation: Operation::Binary(BinaryOp::Gt),
            left_type: DataType::Text,
            right_type: DataType::Integer,
        })
    );
}

#[test]
fn parse_errors_name_their_place() {
    let reg = registry();
    assert_eq!(
        execute("select name people", &reg).err(),
        Some(QueryError::ParseError { message: "expected FROM".to_string(), position: 18 })
    );
    assert_eq!(
        execute("select name from people where age > ", &reg).err(),
        Some(QueryError::ParseError { message: "expected an expression".to_string(), position: 36 })
    );
    assert_eq!(
        execute("select name from people where age # 1", &reg).err(),
        Some(QueryError::ParseError { message: "unexpected character".to_string(), position: 34 })
    );
    assert_eq!(
        execute("select 'open from people", &reg).err(),
        Some(QueryError::ParseError {
            message: "text without closing quote".to_string(),
            position: 7
        })
    );
    assert_eq!(
        execute("select 9223372036854775808 from people", &reg).err(),
        Some(QueryError::ParseError { message: "number too large".to_string(), position: 7 })
    );
    assert_eq!(
        execute("select name from people where count(*) > 1", &reg).err(),
        Some(QueryError::ParseError {
            message: "aggregate not allowed here".to_string(),
            position: 30
        })
    );
    assert_eq!(
        execute("update people", &reg).err(),
        Some(QueryError::ParseError { message: "expected SELECT".to_string(), position: 0 })
    );
    assert_eq!(
        execute("select name from people limit 1", &reg).err(),
        Some(QueryError::ParseError {
            message: "unexpected text after the query".to_string(),
            position: 30
        })
    );
}

#[test]
fn deep_nesting_is_refused() {
    let reg = registry();
    let mut q = String::from("select ");
    for _ in 0..100 {
        q.push('(');
    }
    q.push('1');
    for _ in 0..100 {
        q.push(')');
    }
    q.push_str(" from people");
    match execute(&q, &reg) {
        Err(QueryError::ParseError { message, .. }) => {
            assert_eq!(message, "expression nested too deep")
        }
        other => panic!("{:?}", other.map(|t| t.height())),
    }
}

#[test]
fn query_leaves_the_registry_as_it_is() {
    let reg = registry();
    let before = rows(reg.lookup("staff").unwrap());
    execute("select name from staff where pay > 0 order by pay desc", &reg).unwrap();
    assert_eq!(rows(reg.lookup("staff").unwrap()), before);
    assert_eq!(reg.len(), 3);
}

#[test]
fn result_can_be_registered_and_queried() {
    let mut reg = registry();
    let t = execute("select team, count(*) as n from staff group by team", &reg).unwrap();
    let name = reg.register("query", t, None).unwrap();
    assert_eq!(name, "query");
    let t = execute("select team from query where n = 3", &reg).unwrap();
    assert_eq!(rows(&t), vec![vec![text("red")]]);
}

#[test]
fn filter_is_compiled_like_a_condition_of_a_query() {
    let t = people();
    assert!(compile_filter("age > 26 and name <> 'Bo'", &t).is_ok());
    assert_eq!(
        compile_filter("age >", &t).err(),
        Some(QueryError::ParseError { message: "expected an expression".to_string(), position: 5 })
    );
    assert_eq!(
        compile_filter("salary > 1", &t).err(),
        Some(QueryError::UnknownColumn { table: "".to_string(), name: "salary".to_string() })
    );
    assert_eq!(
        compile_filter("age + 1", &t).err(),
        Some(QueryError::TypeMismatch {
            operation: Operation::Filter,
            left_type: DataType::Integer,
            right_type: DataType::Boolean,
        })
    );
}

#[test]
fn result_has_the_declared_columns_and_no_more_rows_than_the_product() {
    let reg = registry();
    let t = execute("select name, pay * 2 as twice, team from staff where pay > 0", &reg).unwrap();
    assert_eq!(names(&t), vec!["name", "twice", "team"]);
    assert_eq!(t.width(), 3);
    assert!(t.height() <= 5);
    assert_eq!(t.height(), 3);
    let t = execute("select * from staff join teams on true", &reg).unwrap();
    assert_eq!(t.height(), 15);
    assert_eq!(t.width(), 5);
    let t = execute("select * from staff join teams on staff.pay > teams.floor * 4", &reg).unwrap();
    assert!(t.height() <= 15);
    assert_eq!(t.height(), 6);
    let t = execute("select s.name from staff s join teams t on false", &reg).unwrap();
    assert_eq!(t.height(), 0);
    assert_eq!(names(&t), vec!["name"]);
    let t = execute("select team from staff group by team", &reg).unwrap();
    assert!(t.height() <= 5);
    assert_eq!(rows(&t), vec![vec![text("red")], vec![text("blue")]]);
}

#[test]
fn an_aggregate_over_an_empty_table_gives_one_row() {
    let mut reg = Registry::new();
    let t = Table::new(vec![int_column("x", &[])]).unwrap();
    reg.register("none", t, None).unwrap();
    let r = execute("select count(*), sum(x), max(x) from none", &reg).unwrap();
    assert_eq!(rows(&r), vec![vec![num(0), Value::Null, Value::Null]]);
    let r = execute("select x from none", &reg).unwrap();
    assert_eq!(r.height(), 0);
    assert_eq!(names(&r), vec!["x"]);
}
