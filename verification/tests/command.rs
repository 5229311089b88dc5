use tabiew::command::{
    arguments, parse_line, parse_number, split_line, table_of, words, Action, Command,
    CommandError, CommandTable, ConfigError,
};
use tabiew::expr::{BinaryOp, Operation};
use tabiew::keymap::{keymap_of, Binding, Key, Keymap, ModeKind};
use tabiew::message::{command_text, operation_text, query_text, registry_text};
use tabiew::registry::RegistryError;
use tabiew::resolve::QueryError;
use tabiew::value::DataType;

fn chars(s: &str) -> Vec<char> {
    s.chars().collect()
}

fn strings(v: &[&str]) -> Vec<String> {
    v.iter().map(|s| s.to_string()).collect()
}

#[test]
fn standard_commands_are_accepted() {
    let table = CommandTable::standard();
    assert_eq!(table.len(), 18);
    let query = table.find("query").unwrap();
    assert_eq!((query.arity, query.action), (1, Action::Query));
    let rename = table.find("rename").unwrap();
    assert_eq!((rename.arity, rename.action), (2, Action::Rename));
    let quit = table.find("quit").unwrap();
    assert_eq!((quit.arity, quit.action), (0, Action::Quit));
    assert!(table.find("zzq").is_none());
    assert!(table.find("Query").is_none());
    assert!(table.find("").is_none());
}

#[test]
fn a_name_given_twice_is_a_configuration_error() {
    let mut table = CommandTable::new();
    assert!(table.register("open", 1, Action::Query).is_ok());
    assert!(table.register("shut", 0, Action::Close).is_ok());
    match table.register("open", 0, Action::Quit) {
        Err(ConfigError::DuplicateCommand { name }) => assert_eq!(name, "open"),
        other => panic!("{:?}", other),
    }
    assert_eq!(table.len(), 2);
    assert_eq!(table.find("open").unwrap().action, Action::Query);

    let list = vec![
        Command { name: "a".to_string(), arity: 0, action: Action::Quit },
        Command { name: "b".to_string(), arity: 0, action: Action::Close },
        Command { name: "a".to_string(), arity: 0, action: Action::Reset },
    ];
    match table_of(&list) {
        Err(ConfigError::DuplicateCommand { name }) => assert_eq!(name, "a"),
        other => panic!("{:?}", other.map(|t| t.len())),
    }
}

#[test]
fn a_wrong_number_of_arguments_is_a_configuration_error() {
    let mut table = CommandTable::new();
    match table.register("q", 0, Action::Query) {
        Err(ConfigError::WrongArity { name }) => assert_eq!(name, "q"),
        other => panic!("{:?}", other),
    }
    match table.register("mv", 1, Action::Rename) {
        Err(ConfigError::WrongArity { name }) => assert_eq!(name, "mv"),
        other => panic!("{:?}", other),
    }
    assert_eq!(table.len(), 0);
    assert_eq!(Action::Rename.arguments(), 2);
    assert_eq!(Action::Filter.arguments(), 1);
    assert_eq!(Action::Quit.arguments(), 0);
    assert!(Action::Query.reads_text());
    assert!(Action::Filter.reads_text());
    assert!(!Action::Rename.reads_text());
}

#[test]
fn a_line_is_split_into_name_and_rest() {
    let (name, rest) = split_line(&chars("  query   select a,  b from t  "));
    assert_eq!(name, "query");
    assert_eq!(rest, chars("select a,  b from t  "));
    let (name, rest) = split_line(&chars("quit"));
    assert_eq!(name, "quit");
    assert_eq!(rest, chars(""));
    let (name, rest) = split_line(&chars(""));
    assert_eq!(name, "");
    assert_eq!(rest, chars(""));
    let (name, rest) = split_line(&chars(" \t "));
    assert_eq!(name, "");
    assert_eq!(rest, chars(""));
    let (name, rest) = split_line(&chars(":zzq\tx"));
    assert_eq!(name, ":zzq");
    assert_eq!(rest, chars("x"));
}

#[test]
fn words_are_runs_without_white_space() {
    assert_eq!(words(&chars("  old   new\tlast ")), strings(&["old", "new", "last"]));
    assert_eq!(words(&chars("one")), strings(&["one"]));
    assert_eq!(words(&chars("")), Vec::<String>::new());
    assert_eq!(words(&chars("   ")), Vec::<String>::new());
    assert_eq!(arguments(&chars("a  b"), false), strings(&["a", "b"]));
    assert_eq!(arguments(&chars("a  b"), true), strings(&["a  b"]));
    assert_eq!(arguments(&chars(""), true), Vec::<String>::new());
    assert_eq!(arguments(&chars(""), false), Vec::<String>::new());
}

#[test]
fn a_line_is_read_as_its_command_takes_it() {
    let table = CommandTable::standard();
    let inv = parse_line(&chars("query select 'a  b' from t"), &table);
    assert_eq!(inv.name, "query");
    assert_eq!(inv.args, strings(&["select 'a  b' from t"]));
    let inv = parse_line(&chars("rename  people  staff"), &table);
    assert_eq!(inv.name, "rename");
    assert_eq!(inv.args, strings(&["people", "staff"]));
    let inv = parse_line(&chars("zzq select 'a  b'"), &table);
    assert_eq!(inv.name, "zzq");
    assert_eq!(inv.args, strings(&["select", "'a", "b'"]));
    let inv = parse_line(&chars("filter"), &table);
    assert_eq!(inv.name, "filter");
    assert_eq!(inv.args, Vec::<String>::new());
}

#[test]
fn numbers_are_read_from_decimal_digits() {
    assert_eq!(parse_number("0"), Some(0));
    assert_eq!(parse_number("007"), Some(7));
    assert_eq!(parse_number("-12"), Some(-12));
    assert_eq!(parse_number("-0"), Some(0));
    assert_eq!(parse_number("9223372036854775807"), Some(i64::MAX));
    assert_eq!(parse_number("-9223372036854775807"), Some(-i64::MAX));
    assert_eq!(parse_number("9223372036854775808"), None);
    assert_eq!(parse_number("-9223372036854775808"), None);
    assert_eq!(parse_number(""), None);
    assert_eq!(parse_number("-"), None);
    assert_eq!(parse_number("+1"), None);
    assert_eq!(parse_number("12a"), None);
    assert_eq!(parse_number("1 2"), None);
    assert_eq!(parse_number("--1"), None);
    assert_eq!(parse_number(" 1"), None);
}

#[test]
fn messages_of_refused_commands() {
    assert_eq!(
        command_text(&CommandError::UnknownCommand { name: "zzq".to_string() }),
        "unknown command: zzq"
    );
    assert_eq!(
        command_text(&CommandError::ArityMismatch {
            name: "rename".to_string(),
            expected: 2,
            found: 10
        }),
        "rename takes 2 arguments, not 10"
    );
    assert_eq!(
        command_text(&CommandError::NotANumber { argument: "x1".to_string() }),
        "not a number: x1"
    );
    assert_eq!(
        command_text(&CommandError::UnknownColumn { name: "height".to_string() }),
        "unknown column: height"
    );
    assert_eq!(command_text(&CommandError::NoTab), "no table is open");
    assert_eq!(
        command_text(&CommandError::Registry(RegistryError::NameTaken)),
        "the name is taken"
    );
    assert_eq!(
        command_text(&CommandError::Query(QueryError::UnknownTable { name: "t".to_string() })),
        "unknown table: t"
    );
    assert_eq!(registry_text(RegistryError::EmptyName), "the name is empty");
    assert_eq!(registry_text(RegistryError::NotFound), "no table of that name");
}

#[test]
fn messages_of_refused_queries() {
    assert_eq!(
        query_text(&QueryError::ParseError { message: "expected FROM".to_string(), position: 18 }),
        "expected FROM at 18"
    );
    assert_eq!(
        query_text(&QueryError::ParseError { message: "m".to_string(), position: 0 }),
        "m at 0"
    );
    assert_eq!(
        query_text(&QueryError::UnknownTable { name: "nobody".to_string() }),
        "unknown table: nobody"
    );
    assert_eq!(
        query_text(&QueryError::UnknownColumn {
            table: "people".to_string(),
            name: "height".to_string()
        }),
        "unknown column: people.height"
    );
    assert_eq!(
        query_text(&QueryError::UnknownColumn { table: String::new(), name: "height".to_string() }),
        "unknown column: height"
    );
    assert_eq!(
        query_text(&QueryError::TypeMismatch {
            operation: Operation::Binary(BinaryOp::Add),
            left_type: DataType::Text,
            right_type: DataType::Integer,
        }),
        "type mismatch: + on text and integer"
    );
    assert_eq!(
        query_text(&QueryError::TypeMismatch {
            operation: Operation::Filter,
            left_type: DataType::Integer,
            right_type: DataType::Boolean,
        }),
        "type mismatch: where on integer and boolean"
    );
    assert_eq!(query_text(&QueryError::Cancelled), "query cancelled");
    assert_eq!(operation_text(Operation::Binary(BinaryOp::Ne)), "<>");
    assert_eq!(operation_text(Operation::Join), "on");
}

#[test]
fn standard_keys_are_bound() {
    let table = CommandTable::standard();
    let keys = Keymap::standard(&table).unwrap();
    assert_eq!(keys.len(), 24);
    let down = keys.resolve(Key::Char('j'), ModeKind::Normal).unwrap();
    assert_eq!(down.name, "move");
    assert_eq!(down.args, strings(&["1"]));
    let up = keys.resolve(Key::Up, ModeKind::Normal).unwrap();
    assert_eq!(up.name, "move");
    assert_eq!(up.args, strings(&["-1"]));
    let command = keys.resolve(Key::Char(':'), ModeKind::Normal).unwrap();
    assert_eq!(command.name, "command");
    assert_eq!(command.args, Vec::<String>::new());
    assert_eq!(keys.resolve(Key::Tab, ModeKind::Normal).unwrap().name, "next");
    assert_eq!(keys.resolve(Key::Tab, ModeKind::Search).unwrap().name, "case");
    assert!(keys.resolve(Key::Char('j'), ModeKind::Search).is_none());
    assert!(keys.resolve(Key::Char('j'), ModeKind::Command).is_none());
    assert!(keys.resolve(Key::Char('z'), ModeKind::Normal).is_none());
    assert!(keys.resolve(Key::Escape, ModeKind::Normal).is_none());
}

#[test]
fn the_later_binding_of_a_key_counts() {
    let table = CommandTable::standard();
    let mut keys = Keymap::standard(&table).unwrap();
    assert!(keys.bind(Key::Char('j'), ModeKind::Normal, "move", strings(&["5"]), &table).is_ok());
    let down = keys.resolve(Key::Char('j'), ModeKind::Normal).unwrap();
    assert_eq!(down.args, strings(&["5"]));
    let arrow = keys.resolve(Key::Down, ModeKind::Normal).unwrap();
    assert_eq!(arrow.args, strings(&["1"]));
    assert_eq!(keys.len(), 25);
}

#[test]
fn a_malformed_binding_is_a_configuration_error() {
    let table = CommandTable::standard();
    let mut keys = Keymap::new();
    match keys.bind(Key::Char('a'), ModeKind::Normal, "zzq", Vec::new(), &table) {
        Err(ConfigError::MalformedBinding { name }) => assert_eq!(name, "zzq"),
        other => panic!("{:?}", other),
    }
    match keys.bind(Key::Char('a'), ModeKind::Normal, "move", Vec::new(), &table) {
        Err(ConfigError::MalformedBinding { name }) => assert_eq!(name, "move"),
        other => panic!("{:?}", other),
    }
    match keys.bind(Key::Char('a'), ModeKind::Command, "quit", Vec::new(), &table) {
        Err(ConfigError::MalformedBinding { name }) => assert_eq!(name, "quit"),
        other => panic!("{:?}", other),
    }
    assert!(keys.bind(Key::Char('a'), ModeKind::Confirm, "quit", Vec::new(), &table).is_err());
    assert_eq!(keys.len(), 0);
    assert!(keys.bind(Key::Char('a'), ModeKind::Search, "quit", Vec::new(), &table).is_ok());
    assert_eq!(keys.len(), 1);

    let list = vec![
        Binding {
            key: Key::Char('a'),
            mode: ModeKind::Normal,
            invocation: tabiew::command::Invocation { name: "quit".to_string(), args: Vec::new() },
        },
        Binding {
            key: Key::Char('b'),
            mode: ModeKind::Normal,
            invocation: tabiew::command::Invocation { name: "nope".to_string(), args: Vec::new() },
        },
    ];
    match keymap_of(&list, &table) {
        Err(ConfigError::MalformedBinding { name }) => assert_eq!(name, "nope"),
        other => panic!("{:?}", other.map(|k| k.len())),
    }
}
