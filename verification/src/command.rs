//! Commands: names for the operations of the viewer.
//!
//! The commands form a closed set of operations. A table, filled once when the
//! viewer starts, gives each of them a name and the number of arguments it
//! takes. A line that the user types is split into a name and arguments.

use vstd::prelude::*;
use crate::lexer::{lemma_run_end, numeral, read_numeral, run_end, scan, CharClass};
use crate::registry::{string_views, RegistryError};
use crate::resolve::{QueryError, QueryErrorView};
use crate::table::{lemma_position_in, lemma_position_prefix, position_in};
use crate::text::{chars_of, digit, is_digit, is_space, string_of_range};

verus! {

/// What a command does.
#[derive(Clone, Copy, PartialEq, Eq, Debug, Structural)]
pub enum Action {
    /// Answers a query and opens its result in a new tab.
    Query,
    /// Closes the tab in front.
    Close,
    /// Gives a registered table another name.
    Rename,
    /// Selects a row by its number, counted from one.
    Goto,
    /// Selects a column by its name.
    Column,
    /// Moves the selection by a number of rows.
    Move,
    /// Moves the selection by a number of columns.
    Shift,
    /// Orders the rows by a column, the least value first.
    Sort,
    /// Orders the rows by a column, the greatest value first.
    SortDescending,
    /// Shows only the rows on which a condition is true.
    Filter,
    /// Shows all rows again, as they stand in the table.
    Reset,
    /// Makes searches heed the case of letters, or no longer heed it.
    ToggleCase,
    /// Brings the next tab to the front.
    NextTab,
    /// Brings the previous tab to the front.
    PreviousTab,
    /// Starts the entry of a command.
    EnterCommand,
    /// Starts a search toward the last row.
    SearchForward,
    /// Starts a search toward the first row.
    SearchBackward,
    /// Ends the session.
    Quit,
}

impl Action {
    /// Whether the command takes all that follows its name as one argument,
    /// spaces included.
    pub open spec fn takes_text(self) -> bool {
        self == Action::Query || self == Action::Filter
    }

    /// The number of arguments that the command works on.
    pub open spec fn arity(self) -> usize {
        match self {
            Action::Rename => 2,
            Action::Query => 1,
            Action::Goto => 1,
            Action::Column => 1,
            Action::Move => 1,
            Action::Shift => 1,
            Action::Sort => 1,
            Action::SortDescending => 1,
            Action::Filter => 1,
            _ => 0,
        }
    }

    /// The number of arguments that the command works on.
    #[verifier::when_used_as_spec(arity)]
    pub fn arguments(self) -> (r: usize)
        ensures
            r == self.arity(),
    {
        match self {
            Action::Rename => 2,
            Action::Query => 1,
            Action::Goto => 1,
            Action::Column => 1,
            Action::Move => 1,
            Action::Shift => 1,
            Action::Sort => 1,
            Action::SortDescending => 1,
            Action::Filter => 1,
            _ => 0,
        }
    }

    /// Whether the command takes all that follows its name as one argument,
    /// spaces included.
    #[verifier::when_used_as_spec(takes_text)]
    pub fn reads_text(self) -> (r: bool)
        ensures
            r == self.takes_text(),
    {
        match self {
            Action::Query => true,
            Action::Filter => true,
            _ => false,
        }
    }
}

/// A command: its name, the number of its arguments, and what it does.
#[derive(Debug)]
pub struct Command {
    pub name: String,
    pub arity: usize,
    pub action: Action,
}

/// The model of a command.
pub struct CommandView {
    pub name: Seq<char>,
    pub arity: usize,
    pub action: Action,
}

impl View for Command {
    type V = CommandView;

    open spec fn view(&self) -> CommandView {
        CommandView { name: self.name@, arity: self.arity, action: self.action }
    }
}

/// Why the configuration of the viewer was refused.
#[derive(Debug)]
pub enum ConfigError {
    /// Two commands were given one name.
    DuplicateCommand { name: String },
    /// A command was declared with another number of arguments than it works
    /// on.
    WrongArity { name: String },
    /// A key was bound to a command that the table lacks, or with another
    /// number of arguments than the command takes.
    MalformedBinding { name: String },
}

/// The model of a `ConfigError`.
pub enum ConfigErrorView {
    DuplicateCommand { name: Seq<char> },
    WrongArity { name: Seq<char> },
    MalformedBinding { name: Seq<char> },
}

impl View for ConfigError {
    type V = ConfigErrorView;

    open spec fn view(&self) -> ConfigErrorView {
        match self {
            ConfigError::DuplicateCommand { name } => ConfigErrorView::DuplicateCommand { name: name@ },
            ConfigError::WrongArity { name } => ConfigErrorView::WrongArity { name: name@ },
            ConfigError::MalformedBinding { name } => ConfigErrorView::MalformedBinding { name: name@ },
        }
    }
}

/// Why a command was not carried out.
#[derive(Debug)]
pub enum CommandError {
    /// The table has no command of this name.
    UnknownCommand { name: String },
    /// The command takes `expected` arguments and was given `found`.
    ArityMismatch { name: String, expected: usize, found: usize },
    /// The argument is not a number, or not a number that the command takes.
    NotANumber { argument: String },
    /// The table in front has no column of this name.
    UnknownColumn { name: String },
    /// No tab is open.
    NoTab,
    /// The query or the condition was refused.
    Query(QueryError),
    /// The registry refused the request.
    Registry(RegistryError),
}

/// The model of a `CommandError`.
pub enum CommandErrorView {
    UnknownCommand { name: Seq<char> },
    ArityMismatch { name: Seq<char>, expected: usize, found: usize },
    NotANumber { argument: Seq<char> },
    UnknownColumn { name: Seq<char> },
    NoTab,
    Query(QueryErrorView),
    Registry(RegistryError),
}

impl View for CommandError {
    type V = CommandErrorView;

    open spec fn view(&self) -> CommandErrorView {
        match self {
            CommandError::UnknownCommand { name } => CommandErrorView::UnknownCommand { name: name@ },
            CommandError::ArityMismatch { name, expected, found } => CommandErrorView::ArityMismatch {
                name: name@,
                expected: *expected,
                found: *found,
            },
            CommandError::NotANumber { argument } => CommandErrorView::NotANumber {
                argument: argument@,
            },
            CommandError::UnknownColumn { name } => CommandErrorView::UnknownColumn { name: name@ },
            CommandError::NoTab => CommandErrorView::NoTab,
            CommandError::Query(e) => CommandErrorView::Query(e@),
            CommandError::Registry(e) => CommandErrorView::Registry(*e),
        }
    }
}

/// The model of a table of commands: the commands in the order in which they
/// were entered.
pub struct CommandTableView {
    pub commands: Seq<CommandView>,
}

impl CommandTableView {
    /// The names of the commands, in order.
    pub open spec fn names(self) -> Seq<Seq<char>> {
        Seq::new(self.commands.len(), |i: int| self.commands[i].name)
    }

    /// No two commands share a name, and every command is declared with the
    /// number of arguments it works on.
    pub open spec fn wf(self) -> bool {
        &&& forall|i: int, j: int|
            0 <= i < j < self.commands.len() ==> (#[trigger] self.commands[i]).name != (
            #[trigger] self.commands[j]).name
        &&& forall|i: int|
            0 <= i < self.commands.len() ==> (#[trigger] self.commands[i]).arity
                == self.commands[i].action.arity()
    }

    /// The command called `name`, if there is one.
    pub open spec fn find(self, name: Seq<char>) -> Option<CommandView> {
        match position_in(self.names(), name) {
            Some(i) => Some(self.commands[i]),
            None => None,
        }
    }

    /// The table with one more command; refused where the command is declared
    /// with another number of arguments than it works on, and where the table
    /// has a command of that name.
    pub open spec fn with(self, command: CommandView) -> Result<CommandTableView, ConfigErrorView> {
        if command.arity != command.action.arity() {
            Err(ConfigErrorView::WrongArity { name: command.name })
        } else if self.find(command.name) is Some {
            Err(ConfigErrorView::DuplicateCommand { name: command.name })
        } else {
            Ok(CommandTableView { commands: self.commands.push(command) })
        }
    }
}

/// A table that a command was entered in is still well formed, and finds the
/// command under its name.
pub proof fn lemma_with(table: CommandTableView, command: CommandView)
    requires
        table.wf(),
        table.with(command) is Ok,
    ensures
        table.with(command)->Ok_0.wf(),
        table.with(command)->Ok_0.find(command.name) == Some(command),
{
    let after = table.with(command)->Ok_0;
    lemma_position_in(table.names(), command.name);
    lemma_position_in(after.names(), command.name);
    assert forall|i: int, j: int| 0 <= i < j < after.commands.len() implies (
    #[trigger] after.commands[i]).name != (#[trigger] after.commands[j]).name by {
        if j == table.commands.len() {
            assert(table.names()[i] == table.commands[i].name);
        }
    }
    let last = table.commands.len() as int;
    assert(after.names()[last] == command.name);
    let found = position_in(after.names(), command.name)->Some_0;
    if found < last {
        assert(after.names()[found] == table.names()[found]);
    }
}

/// The table of commands.
#[derive(Debug)]
pub struct CommandTable {
    commands: Vec<Command>,
}

impl View for CommandTable {
    type V = CommandTableView;

    closed spec fn view(&self) -> CommandTableView {
        CommandTableView { commands: Seq::new(self.commands.len() as nat, |i: int| self.commands[i]@) }
    }
}

impl CommandTable {
    /// The table without commands.
    pub fn new() -> (r: CommandTable)
        ensures
            r@.commands.len() == 0,
            r@.wf(),
    {
        CommandTable { commands: Vec::new() }
    }

    /// The number of commands.
    pub fn len(&self) -> (r: usize)
        ensures
            r == self@.commands.len(),
    {
        self.commands.len()
    }

    /// The command called `name`, if there is one.
    pub fn find(&self, name: &str) -> (r: Option<&Command>)
        ensures
            match r {
                Some(c) => self@.find(name@) == Some(c@),
                None => self@.find(name@) is None,
            },
    {
        let wanted = name.to_owned();
        let ghost names = self@.names();
        let mut i: usize = 0;
        while i < self.commands.len()
            invariant
                i <= self.commands.len(),
                wanted@ == name@,
                names == self@.names(),
                position_in(names.take(i as int), name@) is None,
            decreases self.commands.len() - i,
        {
            assert(names.take(i + 1).drop_last() =~= names.take(i as int));
            if String::eq(&self.commands[i].name, &wanted) {
                proof {
                    assert(names[i as int] == name@);
                    lemma_position_prefix(names, name@, i + 1);
                }
                return Some(&self.commands[i]);
            }
            i += 1;
        }
        assert(names.take(self.commands.len() as int) =~= names);
        None
    }

    /// Enters a command in the table. A command declared with another number
    /// of arguments than it works on is refused, and so is a name that the
    /// table has; the table then stays as it is.
    pub fn register(&mut self, name: &str, arity: usize, action: Action) -> (r: Result<(), ConfigError>)
        ensures
            match old(self)@.with(CommandView { name: name@, arity, action }) {
                Ok(table) => r is Ok && final(self)@ == table,
                Err(e) => r is Err && r->Err_0@ == e && final(self)@ == old(self)@,
            },
            old(self)@.wf() ==> final(self)@.wf(),
    {
        if arity != action.arguments() {
            return Err(ConfigError::WrongArity { name: name.to_owned() });
        }
        if self.find(name).is_some() {
            return Err(ConfigError::DuplicateCommand { name: name.to_owned() });
        }
        let ghost before = self@;
        let ghost command = CommandView { name: name@, arity, action };
        self.commands.push(Command { name: name.to_owned(), arity, action });
        proof {
            assert(self@.commands =~= before.commands.push(command));
            if before.wf() {
                lemma_with(before, command);
            }
        }
        Ok(())
    }
}

/// The table after the commands of a list were entered one after the other;
/// the first refusal where one was refused.
pub open spec fn entered(table: CommandTableView, list: Seq<CommandView>) -> Result<
    CommandTableView,
    ConfigErrorView,
>
    decreases list.len(),
{
    if list.len() == 0 {
        Ok(table)
    } else {
        match table.with(list[0]) {
            Err(e) => Err(e),
            Ok(next) => entered(next, list.skip(1)),
        }
    }
}

/// The commands that the viewer knows.
pub open spec fn standard_commands() -> Seq<CommandView> {
    seq![
        CommandView { name: "query"@, arity: 1, action: Action::Query },
        CommandView { name: "close"@, arity: 0, action: Action::Close },
        CommandView { name: "rename"@, arity: 2, action: Action::Rename },
        CommandView { name: "goto"@, arity: 1, action: Action::Goto },
        CommandView { name: "column"@, arity: 1, action: Action::Column },
        CommandView { name: "move"@, arity: 1, action: Action::Move },
        CommandView { name: "shift"@, arity: 1, action: Action::Shift },
        CommandView { name: "sort"@, arity: 1, action: Action::Sort },
        CommandView { name: "rsort"@, arity: 1, action: Action::SortDescending },
        CommandView { name: "filter"@, arity: 1, action: Action::Filter },
        CommandView { name: "reset"@, arity: 0, action: Action::Reset },
        CommandView { name: "case"@, arity: 0, action: Action::ToggleCase },
        CommandView { name: "next"@, arity: 0, action: Action::NextTab },
        CommandView { name: "previous"@, arity: 0, action: Action::PreviousTab },
        CommandView { name: "command"@, arity: 0, action: Action::EnterCommand },
        CommandView { name: "search"@, arity: 0, action: Action::SearchForward },
        CommandView { name: "rsearch"@, arity: 0, action: Action::SearchBackward },
        CommandView { name: "quit"@, arity: 0, action: Action::Quit },
    ]
}

/// The model of a table of commands or of the reason why there is none.
pub open spec fn table_outcome(r: Result<CommandTable, ConfigError>) -> Result<
    CommandTableView,
    ConfigErrorView,
> {
    match r {
        Ok(t) => Ok(t@),
        Err(e) => Err(e@),
    }
}

fn standard_list() -> (r: Vec<Command>)
    ensures
        r@.map_values(|c: Command| c@) == standard_commands(),
{
    let mut r: Vec<Command> = Vec::new();
    r.push(Command { name: "query".to_owned(), arity: 1, action: Action::Query });
    r.push(Command { name: "close".to_owned(), arity: 0, action: Action::Close });
    r.push(Command { name: "rename".to_owned(), arity: 2, action: Action::Rename });
    r.push(Command { name: "goto".to_owned(), arity: 1, action: Action::Goto });
    r.push(Command { name: "column".to_owned(), arity: 1, action: Action::Column });
    r.push(Command { name: "move".to_owned(), arity: 1, action: Action::Move });
    r.push(Command { name: "shift".to_owned(), arity: 1, action: Action::Shift });
    r.push(Command { name: "sort".to_owned(), arity: 1, action: Action::Sort });
    r.push(Command { name: "rsort".to_owned(), arity: 1, action: Action::SortDescending });
    r.push(Command { name: "filter".to_owned(), arity: 1, action: Action::Filter });
    r.push(Command { name: "reset".to_owned(), arity: 0, action: Action::Reset });
    r.push(Command { name: "case".to_owned(), arity: 0, action: Action::ToggleCase });
    r.push(Command { name: "next".to_owned(), arity: 0, action: Action::NextTab });
    r.push(Command { name: "previous".to_owned(), arity: 0, action: Action::PreviousTab });
    r.push(Command { name: "command".to_owned(), arity: 0, action: Action::EnterCommand });
    r.push(Command { name: "search".to_owned(), arity: 0, action: Action::SearchForward });
    r.push(Command { name: "rsearch".to_owned(), arity: 0, action: Action::SearchBackward });
    r.push(Command { name: "quit".to_owned(), arity: 0, action: Action::Quit });
    assert(r@.map_values(|c: Command| c@) =~= standard_commands());
    r
}

/// The table of the commands in a list, entered one after the other.
pub fn table_of(list: &Vec<Command>) -> (r: Result<CommandTable, ConfigError>)
    ensures
        table_outcome(r) == entered(
            CommandTableView { commands: Seq::empty() },
            list@.map_values(|c: Command| c@),
        ),
        match r {
            Ok(t) => t@.wf(),
            Err(_) => true,
        },
{
    let ghost all = list@.map_values(|c: Command| c@);
    let ghost start = CommandTableView { commands: Seq::empty() };
    let mut table = CommandTable::new();
    assert(table@.commands =~= start.commands);
    assert(all.skip(0) =~= all);
    let mut i: usize = 0;
    while i < list.len()
        invariant
            i <= list.len(),
            all == list@.map_values(|c: Command| c@),
            start == (CommandTableView { commands: Seq::empty() }),
            table@.wf(),
            entered(start, all) == entered(table@, all.skip(i as int)),
        decreases list.len() - i,
    {
        proof {
            assert(all.skip(i as int)[0] == list[i as int]@);
            assert(all.skip(i as int).skip(1) =~= all.skip(i + 1));
        }
        let ghost before = table@;
        match table.register(list[i].name.as_str(), list[i].arity, list[i].action) {
            Err(e) => {
                assert(before.with(all.skip(i as int)[0]) == Err::<
                    CommandTableView,
                    ConfigErrorView,
                >(e@));
                assert(entered(before, all.skip(i as int)) == Err::<
                    CommandTableView,
                    ConfigErrorView,
                >(e@));
                return Err(e);
            },
            Ok(_) => {},
        }
        i += 1;
    }
    Ok(table)
}

/// The name of the command on a line: its first word.
pub open spec fn name_of_line(line: Seq<char>) -> Seq<char> {
    let start = run_end(line, 0, CharClass::Space);
    line.subrange(start, run_end(line, start, CharClass::Solid))
}

/// What follows the name of the command on a line, without the white space
/// that stands between the two.
pub open spec fn rest_of_line(line: Seq<char>) -> Seq<char> {
    let start = run_end(line, 0, CharClass::Space);
    let end = run_end(line, start, CharClass::Solid);
    line.subrange(run_end(line, end, CharClass::Space), line.len() as int)
}

/// The words of a text from `from` on: the runs of characters that are not
/// white space.
pub open spec fn words_from(text: Seq<char>, from: int) -> Seq<Seq<char>>
    decreases text.len() - from,
    via words_from_decreases
{
    let start = run_end(text, from, CharClass::Space);
    if 0 <= from && start < text.len() {
        let end = run_end(text, start, CharClass::Solid);
        seq![text.subrange(start, end)] + words_from(text, end)
    } else {
        Seq::empty()
    }
}

#[via_fn]
proof fn words_from_decreases(text: Seq<char>, from: int) {
    let start = run_end(text, from, CharClass::Space);
    if 0 <= from && start < text.len() {
        lemma_word(text, from);
    }
}

/// A word that starts within the text has at least one character and ends
/// within the text.
pub proof fn lemma_word(text: Seq<char>, from: int)
    requires
        0 <= from <= text.len(),
    ensures
        from <= run_end(text, from, CharClass::Space) <= text.len(),
        run_end(text, from, CharClass::Space) < text.len() ==> run_end(text, from, CharClass::Space)
            < run_end(text, run_end(text, from, CharClass::Space), CharClass::Solid) <= text.len(),
{
    lemma_run_end(text, from, CharClass::Space);
    let start = run_end(text, from, CharClass::Space);
    lemma_space_ends(text, from);
    if start < text.len() {
        lemma_run_end(text, start + 1, CharClass::Solid);
    }
}

/// A run of white space ends at the end of the text or before a character that
/// is not white space.
pub proof fn lemma_space_ends(text: Seq<char>, from: int)
    requires
        0 <= from <= text.len(),
    ensures
        run_end(text, from, CharClass::Space) < text.len() ==> !is_space(
            text[run_end(text, from, CharClass::Space)],
        ),
    decreases text.len() - from,
{
    if from < text.len() && is_space(text[from]) {
        lemma_space_ends(text, from + 1);
    }
}

/// The arguments of a command that stand in `rest`: the whole of it, if it is
/// not empty, for a command that takes text; its words for every other.
pub open spec fn arguments_of(rest: Seq<char>, text: bool) -> Seq<Seq<char>> {
    if text {
        if rest.len() == 0 {
            Seq::empty()
        } else {
            seq![rest]
        }
    } else {
        words_from(rest, 0)
    }
}

/// The name of the command on a line and what follows it.
pub fn split_line(line: &Vec<char>) -> (r: (String, Vec<char>))
    ensures
        r.0@ == name_of_line(line@),
        r.1@ == rest_of_line(line@),
{
    let start = scan(line, 0, CharClass::Space);
    let end = scan(line, start, CharClass::Solid);
    let next = scan(line, end, CharClass::Space);
    let name = string_of_range(line, start, end);
    let mut rest: Vec<char> = Vec::new();
    let mut i: usize = next;
    while i < line.len()
        invariant
            next <= i <= line.len(),
            rest@ =~= line@.subrange(next as int, i as int),
        decreases line.len() - i,
    {
        rest.push(line[i]);
        i += 1;
    }
    (name, rest)
}

/// The words of a text.
pub fn words(text: &Vec<char>) -> (r: Vec<String>)
    ensures
        string_views(r@) == words_from(text@, 0),
{
    let mut r: Vec<String> = Vec::new();
    let mut from: usize = 0;
    assert(string_views(r@) =~= Seq::empty());
    loop
        invariant
            from <= text.len(),
            words_from(text@, 0) == string_views(r@) + words_from(text@, from as int),
        decreases text.len() - from,
    {
        let start = scan(text, from, CharClass::Space);
        if start >= text.len() {
            assert(words_from(text@, from as int) =~= Seq::empty());
            assert(string_views(r@) + Seq::<Seq<char>>::empty() =~= string_views(r@));
            return r;
        }
        let end = scan(text, start, CharClass::Solid);
        proof {
            lemma_word(text@, from as int);
        }
        let ghost before = string_views(r@);
        r.push(string_of_range(text, start, end));
        proof {
            let word = text@.subrange(start as int, end as int);
            assert(string_views(r@) =~= before.push(word));
            assert(before.push(word) + words_from(text@, end as int) =~= before + (seq![word]
                + words_from(text@, end as int)));
        }
        from = end;
    }
}

/// The arguments of a command that stand in `rest`.
pub fn arguments(rest: &Vec<char>, text: bool) -> (r: Vec<String>)
    ensures
        string_views(r@) == arguments_of(rest@, text),
{
    if text {
        let mut r: Vec<String> = Vec::new();
        if rest.len() > 0 {
            let all = string_of_range(rest, 0, rest.len());
            assert(rest@.subrange(0, rest.len() as int) =~= rest@);
            r.push(all);
            assert(string_views(r@) =~= seq![rest@]);
        } else {
            assert(string_views(r@) =~= Seq::empty());
        }
        r
    } else {
        words(rest)
    }
}

/// The number that the digits of `s` from `start` on spell; nothing where
/// there is no digit, where another character stands among them, and where
/// the number exceeds the greatest 64-bit integer.
pub open spec fn digits_value(s: Seq<char>, start: int) -> Option<int> {
    if 0 <= start < s.len() && forall|i: int| start <= i < s.len() ==> is_digit(#[trigger] s[i]) {
        numeral(s, start, s.len() as int)
    } else {
        None
    }
}

/// The number that a text spells in decimal digits, with a minus sign before
/// them or without.
pub open spec fn number_of(s: Seq<char>) -> Option<int> {
    if s.len() > 0 && s[0] == '-' {
        match digits_value(s, 1) {
            Some(v) => Some(-v),
            None => None,
        }
    } else {
        digits_value(s, 0)
    }
}

fn read_digits(s: &Vec<char>, start: usize) -> (r: Option<i64>)
    ensures
        match r {
            Some(v) => digits_value(s@, start as int) == Some(v as int) && v >= 0,
            None => digits_value(s@, start as int) is None,
        },
{
    if start >= s.len() {
        return None;
    }
    let mut i: usize = start;
    while i < s.len()
        invariant
            start <= i <= s.len(),
            forall|k: int| start <= k < i ==> is_digit(#[trigger] s@[k]),
        decreases s.len() - i,
    {
        if !digit(s[i]) {
            return None;
        }
        i += 1;
    }
    let r = read_numeral(s, start, s.len());
    proof {
        lemma_numeral_sign(s@, start as int, s.len() as int);
    }
    r
}

/// A numeral has no negative value.
pub proof fn lemma_numeral_sign(s: Seq<char>, start: int, end: int)
    requires
        forall|i: int| start <= i < end ==> is_digit(#[trigger] s[i]),
    ensures
        match numeral(s, start, end) {
            Some(v) => v >= 0,
            None => true,
        },
    decreases end - start,
{
    if end > start {
        lemma_numeral_sign(s, start, end - 1);
        assert(is_digit(s[end - 1]));
    }
}

/// The number that a text spells.
pub fn parse_number(text: &str) -> (r: Option<i64>)
    ensures
        match r {
            Some(v) => number_of(text@) == Some(v as int),
            None => number_of(text@) is None,
        },
{
    let s = chars_of(text);
    if s.len() > 0 && s[0] == '-' {
        match read_digits(&s, 1) {
            Some(v) => Some(-v),
            None => None,
        }
    } else {
        read_digits(&s, 0)
    }
}

/// A command to carry out: its name and its arguments.
#[derive(Debug)]
pub struct Invocation {
    pub name: String,
    pub args: Vec<String>,
}

/// The model of an invocation.
pub struct InvocationView {
    pub name: Seq<char>,
    pub args: Seq<Seq<char>>,
}

impl View for Invocation {
    type V = InvocationView;

    open spec fn view(&self) -> InvocationView {
        InvocationView { name: self.name@, args: string_views(self.args@) }
    }
}


/// A copy of a list of strings.
pub fn copy_strings(v: &Vec<String>) -> (r: Vec<String>)
    ensures
        string_views(r@) == string_views(v@),
{
    let mut r: Vec<String> = Vec::new();
    let mut i: usize = 0;
    while i < v.len()
        invariant
            i <= v.len(),
            r.len() == i,
            forall|k: int| 0 <= k < i ==> (#[trigger] r[k])@ == v[k]@,
        decreases v.len() - i,
    {
        r.push(v[i].clone());
        i += 1;
    }
    assert(string_views(r@) =~= string_views(v@));
    r
}

impl Clone for Invocation {
    fn clone(&self) -> (r: Self)
        ensures
            r@ == self@,
    {
        Invocation { name: self.name.clone(), args: copy_strings(&self.args) }
    }
}

/// The command that a line spells: its first word is the name of the command;
/// what follows are its arguments, split as the command of that name takes
/// them.
pub open spec fn invocation_of(line: Seq<char>, table: CommandTableView) -> InvocationView {
    let name = name_of_line(line);
    let text = match table.find(name) {
        Some(c) => c.action.takes_text(),
        None => false,
    };
    InvocationView { name, args: arguments_of(rest_of_line(line), text) }
}

/// The command that a line spells.
pub fn parse_line(line: &Vec<char>, table: &CommandTable) -> (r: Invocation)
    ensures
        r@ == invocation_of(line@, table@),
{
    let (name, rest) = split_line(line);
    let text = match table.find(name.as_str()) {
        Some(c) => c.action.reads_text(),
        None => false,
    };
    let args = arguments(&rest, text);
    Invocation { name, args }
}

/// The names of the commands of a list.
pub open spec fn command_names(list: Seq<CommandView>) -> Seq<Seq<char>> {
    Seq::new(list.len(), |i: int| list[i].name)
}

/// Whether the commands of a list can be entered in a table: each is declared
/// with the number of arguments it works on, and no two share a name.
pub open spec fn enterable(list: Seq<CommandView>) -> bool {
    &&& forall|i: int| 0 <= i < list.len() ==> (#[trigger] list[i]).arity == list[i].action.arity()
    &&& forall|i: int, j: int|
        0 <= i < j < list.len() ==> (#[trigger] list[i]).name != (#[trigger] list[j]).name
}

/// Commands that can be entered are entered: after them the table holds the
/// commands it held, followed by those of the list.
pub proof fn lemma_entered(table: CommandTableView, list: Seq<CommandView>)
    requires
        enterable(table.commands + list),
    ensures
        entered(table, list) == Ok::<CommandTableView, ConfigErrorView>(
            CommandTableView { commands: table.commands + list },
        ),
    decreases list.len(),
{
    let all = table.commands + list;
    if list.len() == 0 {
        assert(all =~= table.commands);
    } else {
        let first = list[0];
        assert(all[table.commands.len() as int] == first);
        lemma_position_in(table.names(), first.name);
        assert forall|k: int| 0 <= k < table.names().len() implies table.names()[k]
            != first.name by {
            assert(all[k] == table.commands[k]);
        }
        let next = CommandTableView { commands: table.commands.push(first) };
        assert(table.with(first) == Ok::<CommandTableView, ConfigErrorView>(next));
        assert(next.commands + list.skip(1) =~= all);
        lemma_entered(next, list.skip(1));
    }
}

/// A table finds each of its commands under its name.
pub proof fn lemma_finds(table: CommandTableView, i: int)
    requires
        table.wf(),
        0 <= i < table.commands.len(),
    ensures
        table.find(table.commands[i].name) == Some(table.commands[i]),
{
    let name = table.commands[i].name;
    lemma_position_in(table.names(), name);
    assert(table.names()[i] == name);
    let found = position_in(table.names(), name)->Some_0;
    assert(table.names()[found] == table.commands[found].name);
    if found < i {
        assert(table.commands[found].name != table.commands[i].name);
    }
}

/// The length and the first two characters of a name.
spec fn mark(name: Seq<char>) -> (nat, char, char) {
    (name.len(), name[0], name[1])
}

/// The table of the commands that the viewer knows.
pub open spec fn standard_table() -> CommandTableView {
    CommandTableView { commands: standard_commands() }
}

/// The commands that the viewer knows can be entered in a table: no two of
/// them share a name, and each is declared as it works.
pub proof fn lemma_standard_commands()
    ensures
        enterable(standard_commands()),
        standard_table().wf(),
        entered(CommandTableView { commands: Seq::empty() }, standard_commands()) == Ok::<
            CommandTableView,
            ConfigErrorView,
        >(standard_table()),
{
    reveal_strlit("query");
    reveal_strlit("close");
    reveal_strlit("rename");
    reveal_strlit("goto");
    reveal_strlit("column");
    reveal_strlit("move");
    reveal_strlit("shift");
    reveal_strlit("sort");
    reveal_strlit("rsort");
    reveal_strlit("filter");
    reveal_strlit("reset");
    reveal_strlit("case");
    reveal_strlit("next");
    reveal_strlit("previous");
    reveal_strlit("command");
    reveal_strlit("search");
    reveal_strlit("rsearch");
    reveal_strlit("quit");
    let list = standard_commands();
    assert(list.len() == 18);
    assert(mark(list[0].name) == (5nat, 'q', 'u'));
    assert(mark(list[1].name) == (5nat, 'c', 'l'));
    assert(mark(list[2].name) == (6nat, 'r', 'e'));
    assert(mark(list[3].name) == (4nat, 'g', 'o'));
    assert(mark(list[4].name) == (6nat, 'c', 'o'));
    assert(mark(list[5].name) == (4nat, 'm', 'o'));
    assert(mark(list[6].name) == (5nat, 's', 'h'));
    assert(mark(list[7].name) == (4nat, 's', 'o'));
    assert(mark(list[8].name) == (5nat, 'r', 's'));
    assert(mark(list[9].name) == (6nat, 'f', 'i'));
    assert(mark(list[10].name) == (5nat, 'r', 'e'));
    assert(mark(list[11].name) == (4nat, 'c', 'a'));
    assert(mark(list[12].name) == (4nat, 'n', 'e'));
    assert(mark(list[13].name) == (8nat, 'p', 'r'));
    assert(mark(list[14].name) == (7nat, 'c', 'o'));
    assert(mark(list[15].name) == (6nat, 's', 'e'));
    assert(mark(list[16].name) == (7nat, 'r', 's'));
    assert(mark(list[17].name) == (4nat, 'q', 'u'));
    assert forall|i: int, j: int| 0 <= i < j < list.len() implies (#[trigger] list[i]).name != (
    #[trigger] list[j]).name by {
        assert(mark(list[i].name) != mark(list[j].name));
    }
    assert(enterable(list));
    let start = CommandTableView { commands: Seq::empty() };
    assert(start.commands + list =~= list);
    lemma_entered(start, list);
}

impl CommandTable {
    /// The table of the commands that the viewer knows: what comes of
    /// entering them one after the other in an empty table.
    pub fn standard() -> (r: CommandTable)
        ensures
            r@ == standard_table(),
            r@.wf(),
            entered(CommandTableView { commands: Seq::empty() }, standard_commands()) == Ok::<
                CommandTableView,
                ConfigErrorView,
            >(r@),
    {
        proof {
            lemma_standard_commands();
        }
        let commands = standard_list();
        let r = CommandTable { commands };
        assert(r@.commands =~= standard_commands());
        r
    }
}

} // verus!
