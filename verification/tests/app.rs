use tabiew::app::{App, Event, Mode, Pending};
use tabiew::command::CommandError;
use tabiew::keymap::Key;
use tabiew::order::SortKey;
use tabiew::registry::RegistryError;
use tabiew::resolve::QueryError;
use tabiew::table::{Column, Table};
use tabiew::value::{DataType, Value};

fn table(names: &[&str], ages: &[i64]) -> Table {
    let name = Column::new(
        "name",
        DataType::Text,
        names.iter().map(|s| Value::text(s)).collect(),
    )
    .unwrap();
    let age = Column::new(
        "age",
        DataType::Integer,
        ages.iter().map(|a| Value::Integer(*a)).collect(),
    )
    .unwrap();
    Table::new(vec![name, age]).unwrap()
}

fn people() -> Table {
    table(&["Al", "Bo"], &[30, 25])
}

fn staff() -> Table {
    table(&["Al", "Bo", "Cy", "Di", "Ed"], &[30, 25, 41, 0, 33])
}

fn app() -> App {
    let mut app = App::standard();
    assert_eq!(app.load("people", people(), Some("people.csv".to_string())).unwrap(), "people");
    app
}

fn strings(v: &[&str]) -> Vec<String> {
    v.iter().map(|s| s.to_string()).collect()
}

fn press(app: &mut App, keys: &str) {
    for c in keys.chars() {
        app.handle_event(Event::Key(Key::Char(c)));
    }
}

fn enter(app: &mut App) {
    app.handle_event(Event::Key(Key::Enter));
}

fn is_normal(app: &App) -> bool {
    matches!(app.mode(), Mode::Normal)
}

#[test]
fn viewer_starts_browsing_without_tabs() {
    let app = App::standard();
    assert!(is_normal(&app));
    assert!(app.running());
    assert_eq!(app.tabs().len(), 0);
    assert_eq!(app.active(), 0);
    assert_eq!(app.status(), "");
    assert!(!app.is_exact());
    assert!(app.front().is_none());
    assert_eq!(app.registry().len(), 0);
    let snap = app.snapshot();
    assert!(snap.pane.is_none());
    assert_eq!(snap.titles, Vec::<String>::new());
}

#[test]
fn unknown_command_returns_to_normal_with_its_name() {
    let mut app = app();
    let r = app.dispatch(":zzq", &Vec::new());
    match r {
        Err(CommandError::UnknownCommand { name }) => assert_eq!(name, ":zzq"),
        other => panic!("{:?}", other),
    }
    assert!(is_normal(&app));
    assert!(app.status().contains("zzq"));
    assert_eq!(app.status(), "unknown command: :zzq");
    assert_eq!(app.tabs().len(), 1);
    assert!(app.running());
}

#[test]
fn unknown_command_typed_in_command_entry() {
    let mut app = app();
    press(&mut app, ":");
    assert!(matches!(app.mode(), Mode::Command(b) if b.is_empty()));
    press(&mut app, "zzq");
    assert!(matches!(app.mode(), Mode::Command(b) if b == "zzq"));
    enter(&mut app);
    assert!(is_normal(&app));
    assert!(app.status().contains("zzq"));
    assert_eq!(app.status(), "unknown command: zzq");
}

#[test]
fn second_registration_leaves_the_open_tab_unchanged() {
    let mut app = app();
    app.dispatch("move", &strings(&["1"])).unwrap();
    let before = app.tabs()[0].table().rows();
    let visible = app.tabs()[0].state().visible().clone();
    let stored = app.load("people", staff(), None).unwrap();
    assert_eq!(stored, "people_2");
    assert_eq!(app.tabs().len(), 2);
    assert_eq!(app.active(), 1);
    assert_eq!(app.tabs()[0].table().rows(), before);
    assert_eq!(app.tabs()[0].state().visible(), &visible);
    assert_eq!(app.tabs()[0].state().selected(), 1);
    assert_eq!(app.tabs()[0].title(), "people");
    assert_eq!(app.tabs()[1].title(), "people_2");
    assert_eq!(app.registry().lookup("people").unwrap().rows(), before);
    assert_eq!(app.registry().lookup("people_2").unwrap().height(), 5);
    assert_eq!(app.registry().origin("people").unwrap(), "people.csv");
    assert!(app.registry().origin("people_2").is_none());
}

#[test]
fn load_refuses_an_empty_name() {
    let mut app = app();
    assert_eq!(app.load("", staff(), None).err(), Some(RegistryError::EmptyName));
    assert_eq!(app.tabs().len(), 1);
    assert_eq!(app.registry().len(), 1);
}

#[test]
fn query_opens_its_result_in_a_new_tab() {
    let mut app = app();
    app.dispatch("query", &strings(&["select name from people where age > 26"])).unwrap();
    assert!(is_normal(&app));
    assert_eq!(app.status(), "");
    assert_eq!(app.tabs().len(), 2);
    assert_eq!(app.active(), 1);
    let tab = app.front().unwrap();
    assert_eq!(tab.title(), "query");
    assert!(tab.is_derived());
    assert_eq!(tab.table().rows(), vec![vec![Value::text("Al")]]);
    assert_eq!(tab.table().column(0).name(), "name");
    assert!(!app.tabs()[0].is_derived());
    assert_eq!(app.tabs()[0].table().height(), 2);
    assert_eq!(app.registry().len(), 2);

    app.run_line("query select name from query");
    assert_eq!(app.tabs().len(), 3);
    assert_eq!(app.front().unwrap().title(), "query_2");
    assert_eq!(app.front().unwrap().table().rows(), vec![vec![Value::text("Al")]]);
    let names: Vec<String> = app.registry().list().into_iter().map(|l| l.name).collect();
    assert_eq!(names, strings(&["people", "query", "query_2"]));
}

#[test]
fn refused_query_leaves_tabs_and_registry() {
    let mut app = app();
    let r = app.dispatch("query", &strings(&["select height from people"]));
    match r {
        Err(CommandError::Query(QueryError::UnknownColumn { table, name })) => {
            assert_eq!((table.as_str(), name.as_str()), ("people", "height"))
        }
        other => panic!("{:?}", other),
    }
    assert!(is_normal(&app));
    assert_eq!(app.status(), "unknown column: people.height");
    assert_eq!(app.tabs().len(), 1);
    assert_eq!(app.registry().len(), 1);
    app.run_line("query select * from nobody");
    assert_eq!(app.status(), "unknown table: nobody");
    app.run_line("query select");
    assert_eq!(app.status(), "expected an expression at 6");
    app.run_line("query select name + 1 from people");
    assert_eq!(app.status(), "type mismatch: + on text and integer");
    assert_eq!(app.tabs().len(), 1);
}

#[test]
fn wrong_number_of_arguments_is_refused() {
    let mut app = app();
    match app.dispatch("rename", &strings(&["people"])) {
        Err(CommandError::ArityMismatch { name, expected, found }) => {
            assert_eq!((name.as_str(), expected, found), ("rename", 2, 1))
        }
        other => panic!("{:?}", other),
    }
    assert_eq!(app.status(), "rename takes 2 arguments, not 1");
    assert!(is_normal(&app));
    assert!(matches!(
        app.dispatch("quit", &strings(&["now"])),
        Err(CommandError::ArityMismatch { .. })
    ));
    assert!(app.running());
    app.run_line("query");
    assert_eq!(app.status(), "query takes 1 arguments, not 0");
    app.run_line("goto 1 2");
    assert_eq!(app.status(), "goto takes 1 arguments, not 2");
}

#[test]
fn rename_changes_the_registry_and_no_tab() {
    let mut app = app();
    app.load("staff", staff(), None).unwrap();
    app.run_line("rename people folk");
    assert_eq!(app.status(), "");
    assert!(app.registry().lookup("people").is_err());
    assert_eq!(app.registry().lookup("folk").unwrap().height(), 2);
    assert_eq!(app.tabs()[0].title(), "people");
    assert_eq!(app.tabs()[0].table().height(), 2);
    app.run_line("query select age from folk order by age");
    assert_eq!(
        app.front().unwrap().table().rows(),
        vec![vec![Value::Integer(25)], vec![Value::Integer(30)]]
    );

    assert!(matches!(
        app.dispatch("rename", &strings(&["nobody", "x"])),
        Err(CommandError::Registry(RegistryError::NotFound))
    ));
    assert_eq!(app.status(), "no table of that name");
    assert!(matches!(
        app.dispatch("rename", &strings(&["folk", "staff"])),
        Err(CommandError::Registry(RegistryError::NameTaken))
    ));
    assert_eq!(app.status(), "the name is taken");
    assert!(app.dispatch("rename", &strings(&["folk", "folk"])).is_ok());
    assert!(matches!(
        app.dispatch("rename", &strings(&["folk", ""])),
        Err(CommandError::Registry(RegistryError::EmptyName))
    ));
    assert_eq!(app.registry().len(), 3);
}

#[test]
fn commands_on_the_view_of_the_tab_in_front() {
    let mut app = App::standard();
    app.load("staff", staff(), None).unwrap();
    app.run_line("goto 3");
    assert_eq!(app.front().unwrap().state().selected(), 2);
    app.run_line("move 2");
    assert_eq!(app.front().unwrap().state().selected(), 4);
    app.run_line("move 1");
    assert_eq!(app.front().unwrap().state().selected(), 4);
    app.run_line("move -9");
    assert_eq!(app.front().unwrap().state().selected(), 0);
    app.run_line("goto 0");
    assert_eq!(app.status(), "not a number: 0");
    app.run_line("goto -1");
    assert_eq!(app.status(), "not a number: -1");
    app.run_line("goto x");
    assert_eq!(app.status(), "not a number: x");
    app.run_line("move 1.5");
    assert_eq!(app.status(), "not a number: 1.5");
    app.run_line("column age");
    assert_eq!(app.status(), "");
    assert_eq!(app.front().unwrap().state().column(), 1);
    app.run_line("shift -1");
    assert_eq!(app.front().unwrap().state().column(), 0);
    app.run_line("shift 5");
    assert_eq!(app.front().unwrap().state().column(), 1);
    app.run_line("column height");
    assert_eq!(app.status(), "unknown column: height");
    assert_eq!(app.front().unwrap().state().column(), 1);

    app.run_line("rsort age");
    assert_eq!(app.front().unwrap().state().visible(), &vec![2, 4, 0, 1, 3]);
    assert_eq!(
        app.front().unwrap().state().sort(),
        Some(SortKey { column: 1, descending: true })
    );
    app.run_line("filter age > 0");
    assert_eq!(app.front().unwrap().state().visible(), &vec![2, 4, 0, 1]);
    app.run_line("sort name");
    assert_eq!(app.front().unwrap().state().visible(), &vec![0, 1, 2, 4]);
    app.run_line("sort height");
    assert_eq!(app.status(), "unknown column: height");
    app.run_line("filter height > 0");
    assert_eq!(app.status(), "unknown column: height");
    assert_eq!(app.front().unwrap().state().visible(), &vec![0, 1, 2, 4]);
    app.run_line("reset");
    assert_eq!(app.front().unwrap().state().visible(), &vec![0, 1, 2, 3, 4]);
    assert_eq!(app.front().unwrap().state().sort(), None);
    assert!(!app.front().unwrap().state().is_filtered());
    assert_eq!(app.front().unwrap().table().rows(), staff().rows());
}

#[test]
fn commands_on_a_tab_need_a_tab() {
    let mut app = App::standard();
    for line in ["close", "goto 1", "move 1", "shift 1", "column a", "sort a", "rsort a", "filter a", "reset"] {
        app.run_line(line);
        assert_eq!(app.status(), "no table is open", "{}", line);
        assert!(is_normal(&app));
    }
    app.run_line("next");
    assert_eq!(app.status(), "");
    app.run_line("previous");
    assert_eq!(app.active(), 0);
    press(&mut app, "/");
    press(&mut app, "a");
    enter(&mut app);
    assert_eq!(app.status(), "no table is open");
}

#[test]
fn tabs_come_to_the_front_in_turn() {
    let mut app = app();
    app.load("staff", staff(), None).unwrap();
    app.load("more", staff(), None).unwrap();
    assert_eq!(app.active(), 2);
    app.run_line("next");
    assert_eq!(app.active(), 0);
    app.run_line("next");
    assert_eq!(app.active(), 1);
    app.run_line("previous");
    assert_eq!(app.active(), 0);
    app.run_line("previous");
    assert_eq!(app.active(), 2);
    app.handle_event(Event::Key(Key::Tab));
    assert_eq!(app.active(), 0);
    press(&mut app, "H");
    assert_eq!(app.active(), 2);
}

#[test]
fn closing_a_loaded_tab_needs_no_consent() {
    let mut app = app();
    app.load("staff", staff(), None).unwrap();
    app.run_line("previous");
    app.run_line("close");
    assert!(is_normal(&app));
    assert_eq!(app.tabs().len(), 1);
    assert_eq!(app.active(), 0);
    assert_eq!(app.front().unwrap().title(), "staff");
    assert_eq!(app.registry().len(), 2);
    press(&mut app, "x");
    assert_eq!(app.tabs().len(), 0);
    assert_eq!(app.active(), 0);
    assert!(app.front().is_none());
}

#[test]
fn closing_a_result_asks_for_consent() {
    let mut app = app();
    app.run_line("query select * from people");
    app.run_line("close");
    assert!(matches!(app.mode(), Mode::Confirm(Pending::Close)));
    assert_eq!(app.status(), "close the result of the query? (y/n)");
    assert_eq!(app.tabs().len(), 2);
    press(&mut app, "n");
    assert!(is_normal(&app));
    assert_eq!(app.status(), "cancelled");
    assert_eq!(app.tabs().len(), 2);
    app.run_line("close");
    press(&mut app, "y");
    assert!(is_normal(&app));
    assert_eq!(app.status(), "");
    assert_eq!(app.tabs().len(), 1);
    assert_eq!(app.active(), 0);
    assert_eq!(app.front().unwrap().title(), "people");
    assert_eq!(app.registry().lookup("query").unwrap().height(), 2);
}

#[test]
fn quit_ends_the_session() {
    let mut app = app();
    press(&mut app, "q");
    assert!(!app.running());
    let before = app.snapshot();
    press(&mut app, ":");
    app.handle_event(Event::Key(Key::Char('j')));
    app.handle_event(Event::Resize { rows: 3 });
    app.handle_event(Event::Tick);
    let after = app.snapshot();
    assert!(matches!(after.mode, Mode::Normal));
    assert_eq!(after.status, before.status);
    assert_eq!(app.page(), 0);
    assert!(!after.running);
}

#[test]
fn quit_with_results_open_asks_for_consent() {
    let mut app = app();
    app.run_line("query select * from people");
    app.run_line("previous");
    app.run_line("quit");
    assert!(app.running());
    assert!(matches!(app.mode(), Mode::Confirm(Pending::Quit)));
    assert_eq!(app.status(), "quit and lose the results of queries? (y/n)");
    app.handle_event(Event::Key(Key::Escape));
    assert!(app.running());
    assert!(is_normal(&app));
    assert_eq!(app.status(), "cancelled");
    app.run_line("quit");
    enter(&mut app);
    assert!(!app.running());
}

#[test]
fn command_entry_is_edited_and_abandoned() {
    let mut app = app();
    press(&mut app, ":");
    press(&mut app, "gotp");
    app.handle_event(Event::Key(Key::Backspace));
    press(&mut app, "o 2");
    app.handle_event(Event::Key(Key::Up));
    assert!(matches!(app.mode(), Mode::Command(b) if b == "goto 2"));
    enter(&mut app);
    assert!(is_normal(&app));
    assert_eq!(app.front().unwrap().state().selected(), 1);

    press(&mut app, ":");
    press(&mut app, "goto 1");
    app.handle_event(Event::Key(Key::Escape));
    assert!(is_normal(&app));
    assert_eq!(app.front().unwrap().state().selected(), 1);

    press(&mut app, ":");
    press(&mut app, "a");
    app.handle_event(Event::Key(Key::Backspace));
    assert!(matches!(app.mode(), Mode::Command(b) if b.is_empty()));
    app.handle_event(Event::Key(Key::Backspace));
    assert!(is_normal(&app));

    press(&mut app, ":");
    press(&mut app, "   ");
    enter(&mut app);
    assert!(is_normal(&app));
    assert_eq!(app.status(), "");
    press(&mut app, ":");
    enter(&mut app);
    assert!(is_normal(&app));
}

#[test]
fn search_selects_the_next_match() {
    let mut app = App::standard();
    app.load("staff", staff(), None).unwrap();
    press(&mut app, "/");
    assert!(matches!(app.mode(), Mode::Search(b, true) if b.is_empty()));
    press(&mut app, "3");
    enter(&mut app);
    assert!(is_normal(&app));
    assert_eq!(app.front().unwrap().state().selected(), 4);
    press(&mut app, "/");
    press(&mut app, "3");
    enter(&mut app);
    assert_eq!(app.front().unwrap().state().selected(), 0);
    press(&mut app, "?");
    assert!(matches!(app.mode(), Mode::Search(_, false)));
    press(&mut app, "Bo");
    enter(&mut app);
    assert_eq!(app.front().unwrap().state().selected(), 1);
    press(&mut app, "/");
    press(&mut app, "zed");
    enter(&mut app);
    assert!(is_normal(&app));
    assert_eq!(app.status(), "no match: zed");
    assert_eq!(app.front().unwrap().state().selected(), 1);
    press(&mut app, "/");
    press(&mut app, "Cy");
    app.handle_event(Event::Key(Key::Escape));
    assert!(is_normal(&app));
    assert_eq!(app.front().unwrap().state().selected(), 1);
    app.search("Ed", true);
    assert_eq!(app.front().unwrap().state().selected(), 4);
}

#[test]
fn case_of_searches_is_toggled() {
    let mut app = App::standard();
    app.load("staff", staff(), None).unwrap();
    press(&mut app, "/");
    press(&mut app, "cy");
    app.handle_event(Event::Key(Key::Tab));
    assert!(app.is_exact());
    assert!(matches!(app.mode(), Mode::Search(b, true) if b == "cy"));
    enter(&mut app);
    assert_eq!(app.status(), "no match: cy");
    assert_eq!(app.front().unwrap().state().selected(), 0);
    app.run_line("case");
    assert!(!app.is_exact());
    assert!(is_normal(&app));
    press(&mut app, "/");
    press(&mut app, "cy");
    enter(&mut app);
    assert_eq!(app.front().unwrap().state().selected(), 2);
}

#[test]
fn keys_move_the_selection() {
    let mut app = App::standard();
    app.load("staff", staff(), None).unwrap();
    press(&mut app, "jj");
    assert_eq!(app.front().unwrap().state().selected(), 2);
    app.handle_event(Event::Key(Key::Up));
    assert_eq!(app.front().unwrap().state().selected(), 1);
    press(&mut app, "G");
    assert_eq!(app.front().unwrap().state().selected(), 4);
    press(&mut app, "j");
    assert_eq!(app.front().unwrap().state().selected(), 4);
    app.handle_event(Event::Key(Key::Home));
    assert_eq!(app.front().unwrap().state().selected(), 0);
    press(&mut app, "k");
    assert_eq!(app.front().unwrap().state().selected(), 0);
    app.handle_event(Event::Key(Key::PageDown));
    assert_eq!(app.front().unwrap().state().selected(), 4);
    press(&mut app, "l");
    assert_eq!(app.front().unwrap().state().column(), 1);
    app.handle_event(Event::Key(Key::Left));
    assert_eq!(app.front().unwrap().state().column(), 0);
    press(&mut app, "z");
    assert!(is_normal(&app));
    assert_eq!(app.front().unwrap().state().selected(), 4);
}

#[test]
fn ticks_and_the_mouse_change_nothing() {
    let mut app = app();
    press(&mut app, ":");
    press(&mut app, "go");
    app.handle_event(Event::Tick);
    app.handle_event(Event::Mouse);
    assert!(matches!(app.mode(), Mode::Command(b) if b == "go"));
    assert_eq!(app.tabs().len(), 1);
    assert!(app.running());
}

#[test]
fn the_screen_shows_the_rows_around_the_selection() {
    let mut app = App::standard();
    app.load("staff", staff(), None).unwrap();
    app.handle_event(Event::Resize { rows: 2 });
    assert_eq!(app.page(), 2);
    let snap = app.snapshot();
    let pane = snap.pane.unwrap();
    assert_eq!(pane.headers, strings(&["name", "age"]));
    assert_eq!(pane.widths, vec![4, 3]);
    assert_eq!(pane.rows, vec![strings(&["Al", "30"]), strings(&["Bo", "25"])]);
    assert_eq!((pane.first, pane.selected, pane.column, pane.total), (0, 0, 0, 5));
    assert_eq!(snap.titles, strings(&["staff"]));
    assert_eq!(snap.active, 0);
    assert!(snap.running);

    press(&mut app, "jjj");
    let pane = app.snapshot().pane.unwrap();
    assert_eq!(pane.rows, vec![strings(&["Cy", "41"]), strings(&["Di", "0"])]);
    assert_eq!((pane.first, pane.selected), (2, 3));
    press(&mut app, "j");
    let pane = app.snapshot().pane.unwrap();
    assert_eq!(pane.rows, vec![strings(&["Di", "0"]), strings(&["Ed", "33"])]);
    app.handle_event(Event::Resize { rows: 1 });
    let pane = app.snapshot().pane.unwrap();
    assert_eq!(pane.rows, vec![strings(&["Ed", "33"])]);
    app.handle_event(Event::Resize { rows: 10 });
    let pane = app.snapshot().pane.unwrap();
    assert_eq!(pane.first, 4);
    assert_eq!(pane.rows, vec![strings(&["Ed", "33"])]);
    press(&mut app, "g");
    let pane = app.snapshot().pane.unwrap();
    assert_eq!(pane.rows.len(), 5);
    app.run_line("rsort age");
    app.run_line("filter age > 26");
    let snap = app.snapshot();
    let pane = snap.pane.unwrap();
    assert_eq!(
        pane.rows,
        vec![strings(&["Cy", "41"]), strings(&["Ed", "33"]), strings(&["Al", "30"])]
    );
    assert_eq!(pane.total, 3);
    app.handle_event(Event::Resize { rows: 0 });
    assert_eq!(app.snapshot().pane.unwrap().rows.len(), 0);
}

#[test]
fn a_snapshot_is_not_changed_by_later_events() {
    let mut app = app();
    app.handle_event(Event::Resize { rows: 5 });
    let snap = app.snapshot();
    press(&mut app, ":");
    press(&mut app, "close");
    enter(&mut app);
    assert_eq!(app.tabs().len(), 0);
    assert_eq!(snap.titles, strings(&["people"]));
    assert!(matches!(snap.mode, Mode::Normal));
    assert_eq!(snap.pane.unwrap().rows.len(), 2);
}
