use tabiew::order::SortKey;
use tabiew::resolve::QueryError;
use tabiew::table::{Column, Table};
use tabiew::value::{DataType, Value};
use tabiew::view::{nearest, shifted, visible_rows, width_hints, ViewState};

fn staff() -> Table {
    let names = ["Al", "Bo", "Cy", "Di", "Ed"];
    let ages = [30, 25, 41, 0, 33];
    let name = Column::new(
        "name",
        DataType::Text,
        names.iter().map(|s| Value::text(s)).collect(),
    )
    .unwrap();
    let age = Column::new(
        "age",
        DataType::Integer,
        ages.iter().map(|a| Value::Integer(*a)).collect(),
    )
    .unwrap();
    Table::new(vec![name, age]).unwrap()
}

fn people() -> Table {
    let name = Column::new(
        "name",
        DataType::Text,
        vec![Value::text("Al"), Value::text("Bo")],
    )
    .unwrap();
    let age = Column::new(
        "age",
        DataType::Integer,
        vec![Value::Integer(30), Value::Integer(25)],
    )
    .unwrap();
    Table::new(vec![name, age]).unwrap()
}

#[test]
fn view_starts_with_all_rows() {
    let t = staff();
    let v = ViewState::new(&t);
    assert_eq!(v.visible(), &vec![0, 1, 2, 3, 4]);
    assert_eq!(v.selected(), 0);
    assert_eq!(v.column(), 0);
    assert_eq!(v.scroll(), 0);
    assert_eq!(v.sort(), None);
    assert!(!v.is_filtered());
    assert_eq!(v.selected_row(), Some(0));
}

#[test]
fn sort_puts_rows_in_order() {
    let t = staff();
    let mut v = ViewState::new(&t);
    v.set_sort(1, true, &t);
    assert_eq!(v.visible(), &vec![3, 1, 0, 4, 2]);
    assert_eq!(v.sort(), Some(SortKey { column: 1, descending: false }));
    v.set_sort(1, false, &t);
    assert_eq!(v.visible(), &vec![2, 4, 0, 1, 3]);
    v.set_sort(0, false, &t);
    assert_eq!(v.visible(), &vec![4, 3, 2, 1, 0]);
    v.clear_sort(&t);
    assert_eq!(v.visible(), &vec![0, 1, 2, 3, 4]);
    assert_eq!(v.sort(), None);
}

#[test]
fn sort_by_a_missing_column_keeps_the_order_of_the_table() {
    let t = staff();
    let mut v = ViewState::new(&t);
    v.set_sort(7, false, &t);
    assert_eq!(v.visible(), &vec![0, 1, 2, 3, 4]);
}

#[test]
fn sort_descending_then_filter_keeps_descending_order() {
    let t = people();
    let mut v = ViewState::new(&t);
    v.set_sort(1, false, &t);
    assert_eq!(v.visible(), &vec![0, 1]);
    v.set_filter("age > 0", &t).unwrap();
    assert_eq!(v.visible(), &vec![0, 1]);

    let t = staff();
    let mut v = ViewState::new(&t);
    v.set_sort(1, false, &t);
    v.set_filter("age > 0", &t).unwrap();
    assert_eq!(v.visible(), &vec![2, 4, 0, 1]);
    let ages: Vec<Value> = v.visible().iter().map(|r| t.cell(*r, 1).clone()).collect();
    assert_eq!(
        ages,
        vec![Value::Integer(41), Value::Integer(33), Value::Integer(30), Value::Integer(25)]
    );
    v.set_filter("age > 26 and name <> 'Cy'", &t).unwrap();
    assert_eq!(v.visible(), &vec![4, 0]);
}

#[test]
fn filter_then_sort_gives_the_same_as_sort_then_filter() {
    let t = staff();
    let mut a = ViewState::new(&t);
    a.set_filter("age < 35", &t).unwrap();
    a.set_sort(0, false, &t);
    let mut b = ViewState::new(&t);
    b.set_sort(0, false, &t);
    b.set_filter("age < 35", &t).unwrap();
    assert_eq!(a.visible(), b.visible());
    assert_eq!(a.visible(), &vec![4, 3, 1, 0]);
}

#[test]
fn clearing_a_filter_restores_rows_and_order() {
    let t = staff();
    let mut v = ViewState::new(&t);
    let before = v.visible().clone();
    v.set_filter("age > 26", &t).unwrap();
    assert_eq!(v.visible(), &vec![0, 2, 4]);
    assert!(v.is_filtered());
    v.clear_filter(&t);
    assert_eq!(v.visible(), &before);
    assert!(!v.is_filtered());

    v.set_sort(1, false, &t);
    let before = v.visible().clone();
    v.set_filter("name = 'Bo' or name = 'Ed'", &t).unwrap();
    assert_eq!(v.visible(), &vec![4, 1]);
    v.clear_filter(&t);
    assert_eq!(v.visible(), &before);
    assert_eq!(v.sort(), Some(SortKey { column: 1, descending: true }));
}

#[test]
fn a_refused_filter_leaves_the_view_as_it_was() {
    let t = staff();
    let mut v = ViewState::new(&t);
    v.set_filter("age > 26", &t).unwrap();
    v.move_selection(2);
    let r = v.set_filter("height > 1", &t);
    assert_eq!(
        r.err(),
        Some(QueryError::UnknownColumn { table: String::new(), name: "height".to_string() })
    );
    assert_eq!(v.visible(), &vec![0, 2, 4]);
    assert_eq!(v.selected(), 2);
    assert!(v.is_filtered());
    assert!(matches!(v.set_filter("age >", &t), Err(QueryError::ParseError { .. })));
    assert!(matches!(v.set_filter("name", &t), Err(QueryError::TypeMismatch { .. })));
    assert_eq!(v.visible(), &vec![0, 2, 4]);
}

#[test]
fn move_down_at_the_last_row_changes_nothing() {
    let t = staff();
    let mut v = ViewState::new(&t);
    v.move_selection(4);
    assert_eq!(v.selected(), 4);
    for _ in 0..3 {
        v.move_selection(1);
        assert_eq!(v.selected(), 4);
    }
    v.move_selection(i64::MAX);
    assert_eq!(v.selected(), 4);
    assert_eq!(v.selected_row(), Some(4));
}

#[test]
fn move_up_at_the_first_row_changes_nothing() {
    let t = staff();
    let mut v = ViewState::new(&t);
    v.move_selection(-1);
    assert_eq!(v.selected(), 0);
    v.move_selection(i64::MIN);
    assert_eq!(v.selected(), 0);
    v.move_selection(3);
    v.move_selection(-2);
    assert_eq!(v.selected(), 1);
    v.move_selection(-7);
    assert_eq!(v.selected(), 0);
}

#[test]
fn selection_stays_among_the_rows_shown() {
    let t = staff();
    let mut v = ViewState::new(&t);
    v.move_selection(4);
    v.set_scroll(3);
    v.set_filter("age > 30", &t).unwrap();
    assert_eq!(v.visible(), &vec![2, 4]);
    assert_eq!(v.selected(), 1);
    assert_eq!(v.scroll(), 1);
    v.set_filter("age > 100", &t).unwrap();
    assert_eq!(v.visible(), &Vec::<usize>::new());
    assert_eq!(v.selected(), 0);
    assert_eq!(v.scroll(), 0);
    assert_eq!(v.selected_row(), None);
    v.move_selection(1);
    assert_eq!(v.selected(), 0);
    v.clear_filter(&t);
    assert_eq!(v.selected(), 0);
    assert_eq!(v.visible().len(), 5);
}

#[test]
fn rows_and_columns_are_selected_by_place() {
    let t = staff();
    let mut v = ViewState::new(&t);
    v.select_row(3);
    assert_eq!(v.selected(), 3);
    v.select_row(99);
    assert_eq!(v.selected(), 4);
    v.select_numbered(1);
    assert_eq!(v.selected(), 0);
    v.select_numbered(3);
    assert_eq!(v.selected(), 2);
    v.select_numbered(0);
    assert_eq!(v.selected(), 0);
    v.select_numbered(i64::MAX);
    assert_eq!(v.selected(), 4);
    v.select_column(1);
    assert_eq!(v.column(), 1);
    v.select_column(5);
    assert_eq!(v.column(), 1);
    v.move_column(-1);
    assert_eq!(v.column(), 0);
    v.move_column(-1);
    assert_eq!(v.column(), 0);
    v.move_column(9);
    assert_eq!(v.column(), 1);
}

#[test]
fn scroll_follows_the_selection() {
    let t = staff();
    let mut v = ViewState::new(&t);
    v.set_scroll(9);
    assert_eq!(v.scroll(), 4);
    v.set_scroll(0);
    v.move_selection(3);
    v.follow(2);
    assert_eq!(v.scroll(), 2);
    v.follow(2);
    assert_eq!(v.scroll(), 2);
    v.move_selection(-3);
    v.follow(2);
    assert_eq!(v.scroll(), 0);
    v.move_selection(4);
    v.follow(0);
    assert_eq!(v.scroll(), 0);
    v.follow(5);
    assert_eq!(v.scroll(), 0);
    v.follow(1);
    assert_eq!(v.scroll(), 4);
}

#[test]
fn width_hints_fit_names_and_values() {
    let name = Column::new(
        "n",
        DataType::Text,
        vec![Value::text("Alexander"), Value::Null, Value::text("Bo")],
    )
    .unwrap();
    let number = Column::new(
        "a number",
        DataType::Integer,
        vec![Value::Integer(-1234), Value::Integer(7), Value::Null],
    )
    .unwrap();
    let t = Table::new(vec![name, number]).unwrap();
    assert_eq!(width_hints(&t), vec![9, 8]);
    let v = ViewState::new(&t);
    assert_eq!(v.widths(), &vec![9, 8]);
    assert_eq!(width_hints(&Table::empty()), Vec::<usize>::new());
}

#[test]
fn search_finds_the_next_match_and_goes_round() {
    let t = staff();
    let mut v = ViewState::new(&t);
    assert_eq!(v.find_match(&t, "3", true, true), Some(4));
    assert_eq!(v.find_match(&t, "3", true, false), Some(4));
    v.select_row(4);
    assert_eq!(v.find_match(&t, "3", true, true), Some(0));
    assert_eq!(v.find_match(&t, "3", true, false), Some(0));
    assert_eq!(v.find_match(&t, "Ed", true, true), Some(4));
    assert_eq!(v.find_match(&t, "zz", true, true), None);
    v.select_row(1);
    assert_eq!(v.find_match(&t, "", true, true), Some(2));
    assert_eq!(v.find_match(&t, "", true, false), Some(0));
    assert!(v.select_match(&t, "Di", true, false));
    assert_eq!(v.selected(), 3);
    assert!(!v.select_match(&t, "Zed", true, true));
    assert_eq!(v.selected(), 3);
}

#[test]
fn search_heeds_case_only_when_asked() {
    let t = staff();
    let v = ViewState::new(&t);
    assert_eq!(v.find_match(&t, "cy", true, true), None);
    assert_eq!(v.find_match(&t, "cy", false, true), Some(2));
    assert_eq!(v.find_match(&t, "CY", false, true), Some(2));
    assert_eq!(v.find_match(&t, "Cy", true, true), Some(2));
}

#[test]
fn search_looks_only_at_the_rows_shown() {
    let t = staff();
    let mut v = ViewState::new(&t);
    v.set_filter("age > 26", &t).unwrap();
    v.set_sort(1, false, &t);
    assert_eq!(v.visible(), &vec![2, 4, 0]);
    assert_eq!(v.find_match(&t, "Bo", true, true), None);
    assert_eq!(v.find_match(&t, "Al", true, true), Some(2));
    assert_eq!(v.find_match(&t, "Ed", true, false), Some(1));
}

#[test]
fn an_empty_table_has_an_empty_view() {
    let t = Table::empty();
    let mut v = ViewState::new(&t);
    assert_eq!(v.visible(), &Vec::<usize>::new());
    v.move_selection(1);
    v.set_scroll(3);
    v.select_column(2);
    v.set_sort(0, true, &t);
    v.clear_filter(&t);
    assert_eq!((v.selected(), v.scroll(), v.column()), (0, 0, 0));
    assert_eq!(v.find_match(&t, "a", true, true), None);
    assert_eq!(v.selected_row(), None);
}

#[test]
fn nearest_and_shifted_indices() {
    assert_eq!(nearest(3, 5), 3);
    assert_eq!(nearest(5, 5), 4);
    assert_eq!(nearest(0, 0), 0);
    assert_eq!(nearest(9, 0), 0);
    assert_eq!(shifted(2, 1, 5), 3);
    assert_eq!(shifted(2, 9, 5), 4);
    assert_eq!(shifted(2, -2, 5), 0);
    assert_eq!(shifted(2, -3, 5), 0);
    assert_eq!(shifted(9, -1, 5), 4);
    assert_eq!(shifted(9, 0, 5), 4);
    assert_eq!(shifted(usize::MAX, i64::MAX, usize::MAX), usize::MAX - 1);
    assert_eq!(shifted(1, 1, 0), 0);
}

#[test]
fn visible_rows_of_rows_given_directly() {
    let rows = vec![
        vec![Value::Integer(2), Value::text("b")],
        vec![Value::Null, Value::text("a")],
        vec![Value::Integer(2), Value::text("a")],
        vec![Value::Integer(1), Value::text("c")],
    ];
    assert_eq!(visible_rows(&rows, &None, &None), vec![0, 1, 2, 3]);
    let key = Some(SortKey { column: 0, descending: false });
    assert_eq!(visible_rows(&rows, &key, &None), vec![1, 3, 0, 2]);
    let key = Some(SortKey { column: 0, descending: true });
    assert_eq!(visible_rows(&rows, &key, &None), vec![0, 2, 3, 1]);
}
