use tabiew::registry::{candidate_name, unique_name, Registry, RegistryError};
use tabiew::table::{Column, Table, TableError};
use tabiew::text::as_ascii;
use tabiew::value::{compare_values, DataType, Value};

fn people() -> Table {
    let name = Column::new(
        "name",
        DataType::Text,
        vec![Value::text("Al"), Value::text("Bo")],
    )
    .unwrap();
    let age = Column::new(
        "age",
        DataType::Integer,
        vec![Value::Integer(30), Value::Integer(25)],
    )
    .unwrap();
    Table::new(vec![name, age]).unwrap()
}

#[test]
fn ascii_byte_of_a_character() {
    assert_eq!(as_ascii(','), Some(44));
    assert_eq!(as_ascii('\u{7f}'), Some(127));
    assert_eq!(as_ascii('\u{80}'), None);
    assert_eq!(as_ascii('é'), None);
}

#[test]
fn values_render_as_text() {
    assert_eq!(Value::Null.rendered(), "");
    assert_eq!(Value::Boolean(true).rendered(), "true");
    assert_eq!(Value::Boolean(false).rendered(), "false");
    assert_eq!(Value::Integer(0).rendered(), "0");
    assert_eq!(Value::Integer(-120).rendered(), "-120");
    assert_eq!(Value::Integer(i64::MIN).rendered(), "-9223372036854775808");
    assert_eq!(Value::Temporal(905).rendered(), "905");
    assert_eq!(Value::text("Al").rendered(), "Al");
}

#[test]
fn values_are_ordered() {
    assert_eq!(compare_values(&Value::Null, &Value::Integer(-5)), -1);
    assert_eq!(compare_values(&Value::Integer(3), &Value::Integer(3)), 0);
    assert_eq!(compare_values(&Value::Integer(4), &Value::Integer(3)), 1);
    assert_eq!(compare_values(&Value::Boolean(false), &Value::Boolean(true)), -1);
    assert_eq!(compare_values(&Value::text("Al"), &Value::text("Alf")), -1);
    assert_eq!(compare_values(&Value::text("Bo"), &Value::text("Al")), 1);
    assert_eq!(compare_values(&Value::text("x"), &Value::Integer(9)), 1);
}

#[test]
fn column_refuses_a_value_of_another_type() {
    let r = Column::new(
        "age",
        DataType::Integer,
        vec![Value::Integer(1), Value::Null, Value::text("x")],
    );
    assert_eq!(r.err(), Some(TableError::WrongType { row: 2 }));
}

#[test]
fn table_refuses_unequal_columns_and_shared_names() {
    let a = Column::new("a", DataType::Integer, vec![Value::Integer(1)]).unwrap();
    let b = Column::new("b", DataType::Integer, vec![]).unwrap();
    assert_eq!(
        Table::new(vec![a, b]).err(),
        Some(TableError::UnequalLength { column: 1 })
    );
    let a = Column::new("a", DataType::Integer, vec![Value::Integer(1)]).unwrap();
    let c = Column::new("c", DataType::Integer, vec![Value::Integer(1)]).unwrap();
    let a2 = Column::new("a", DataType::Text, vec![Value::Null]).unwrap();
    assert_eq!(
        Table::new(vec![a, c, a2]).err(),
        Some(TableError::DuplicateName { column: 2 })
    );
}

#[test]
fn table_cells_and_columns() {
    let t = people();
    assert_eq!(t.width(), 2);
    assert_eq!(t.height(), 2);
    assert_eq!(t.column_index("age"), Some(1));
    assert_eq!(t.column_index("Age"), None);
    assert_eq!(t.cell(1, 0), &Value::text("Bo"));
    assert_eq!(t.get(0, 1), Some(&Value::Integer(30)));
    assert_eq!(t.get(2, 0), None);
    let copy = t.clone();
    assert_eq!(copy.cell(0, 1), &Value::Integer(30));
    assert_eq!(Table::empty().height(), 0);
}

#[test]
fn series_of_names() {
    assert_eq!(candidate_name("people", 1), "people");
    assert_eq!(candidate_name("people", 2), "people_2");
    assert_eq!(candidate_name("people", 13), "people_13");
    let taken = vec!["t".to_string(), "t_3".to_string(), "t_2".to_string()];
    assert_eq!(unique_name("t", &taken), "t_4");
    assert_eq!(unique_name("u", &taken), "u");
}

#[test]
fn lookup_gives_the_registered_table() {
    let mut reg = Registry::new();
    let stored = reg.register("people", people(), Some("people.csv".to_string())).unwrap();
    assert_eq!(stored, "people");
    let t = reg.lookup("people").unwrap();
    assert_eq!(t.cell(0, 0), &Value::text("Al"));
    assert_eq!(reg.origin("people"), Some(&"people.csv".to_string()));
    assert_eq!(reg.lookup("nobody").err(), Some(RegistryError::NotFound));
}

#[test]
fn second_registration_takes_the_next_name() {
    let mut reg = Registry::new();
    reg.register("people", people(), None).unwrap();
    let other = Table::new(vec![
        Column::new("n", DataType::Integer, vec![Value::Integer(7)]).unwrap()
    ])
    .unwrap();
    let stored = reg.register("people", other, None).unwrap();
    assert_eq!(stored, "people_2");
    assert_eq!(reg.lookup("people").unwrap().width(), 2);
    assert_eq!(reg.lookup("people").unwrap().cell(1, 1), &Value::Integer(25));
    assert_eq!(reg.lookup("people_2").unwrap().cell(0, 0), &Value::Integer(7));
    let third = reg.register("people", Table::empty(), None).unwrap();
    assert_eq!(third, "people_3");
    let list = reg.list();
    assert_eq!(list.len(), 3);
    assert_eq!((list[0].name.as_str(), list[0].rows, list[0].columns), ("people", 2, 2));
    assert_eq!((list[1].name.as_str(), list[1].rows, list[1].columns), ("people_2", 1, 1));
    assert_eq!((list[2].name.as_str(), list[2].rows, list[2].columns), ("people_3", 0, 0));
}

#[test]
fn empty_name_is_refused() {
    let mut reg = Registry::new();
    assert_eq!(reg.register("", people(), None).err(), Some(RegistryError::EmptyName));
    assert_eq!(reg.len(), 0);
}
