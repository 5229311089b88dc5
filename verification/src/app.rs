//! The viewer: its tabs, its mode and its transitions.
//!
//! The viewer is in one of four modes. Each event leads to at most one
//! transition, which is a function of the state before it and the event. A
//! command that cannot be carried out leaves everything as it was, but for a
//! message in the status line and the return to browsing.

use vstd::prelude::*;
use crate::command::{
    invocation_of, number_of, parse_line, parse_number, standard_table, Action, CommandError,
    CommandErrorView, CommandTable, CommandTableView, Invocation, InvocationView,
};
use crate::engine::{execute, filter_of, query_result};
use crate::keymap::{
    lemma_standard_bindings, standard_keymap, Key, Keymap, KeymapView, ModeKind,
};
use crate::message::{command_message, command_text, law_unknown_command_is_named};
use crate::order::SortKey;
use crate::plan::{free_name, lemma_free_name};
use crate::registry::{
    law_lookup_after_register, law_register_keeps_entries, lemma_first_free_unique, optional_view,
    string_views, EntryView, Registry, RegistryError, RegistryView,
};
use crate::resolve::QueryError;
use crate::table::{Table, TableView};
use crate::text::{chars_of, contains_text, push_text, string_of, string_of_range};
use crate::view::{
    clamp, lemma_changes_keep_fit, lemma_shown_bounds, nearest, ViewState, ViewStateView,
};

verus! {

/// What waits for the user's consent.
#[derive(Clone, Copy, PartialEq, Eq, Debug, Structural)]
pub enum Pending {
    /// Closing the tab in front, which shows the result of a query.
    Close,
    /// Ending the session while results of queries are shown.
    Quit,
}

/// The mode of the viewer.
#[derive(Debug)]
pub enum Mode {
    /// Browsing: keys are looked up in the keymap.
    Normal,
    /// A command is being entered; the text entered so far.
    Command(String),
    /// The text of a search is being entered; the text entered so far, and
    /// whether the search goes toward the last row.
    Search(String, bool),
    /// The user is asked to consent.
    Confirm(Pending),
}

/// The model of a mode.
pub enum ModeView {
    Normal,
    Command(Seq<char>),
    Search(Seq<char>, bool),
    Confirm(Pending),
}

impl View for Mode {
    type V = ModeView;

    open spec fn view(&self) -> ModeView {
        match self {
            Mode::Normal => ModeView::Normal,
            Mode::Command(buffer) => ModeView::Command(buffer@),
            Mode::Search(buffer, forward) => ModeView::Search(buffer@, *forward),
            Mode::Confirm(pending) => ModeView::Confirm(*pending),
        }
    }
}

impl ModeView {
    /// The kind of the mode.
    pub open spec fn kind(self) -> ModeKind {
        match self {
            ModeView::Normal => ModeKind::Normal,
            ModeView::Command(_) => ModeKind::Command,
            ModeView::Search(_, _) => ModeKind::Search,
            ModeView::Confirm(_) => ModeKind::Confirm,
        }
    }
}

impl Mode {
    /// The kind of the mode.
    pub fn kind(&self) -> (r: ModeKind)
        ensures
            r == self@.kind(),
    {
        match self {
            Mode::Normal => ModeKind::Normal,
            Mode::Command(_) => ModeKind::Command,
            Mode::Search(_, _) => ModeKind::Search,
            Mode::Confirm(_) => ModeKind::Confirm,
        }
    }
}

impl Clone for Mode {
    fn clone(&self) -> (r: Self)
        ensures
            r@ == self@,
    {
        match self {
            Mode::Normal => Mode::Normal,
            Mode::Command(buffer) => Mode::Command(buffer.clone()),
            Mode::Search(buffer, forward) => Mode::Search(buffer.clone(), *forward),
            Mode::Confirm(pending) => Mode::Confirm(*pending),
        }
    }
}

/// What happens to the viewer.
#[derive(Clone, Copy, PartialEq, Eq, Debug, Structural)]
pub enum Event {
    /// Time has passed.
    Tick,
    /// A key was pressed.
    Key(Key),
    /// The screen now has room for `rows` rows of a table.
    Resize { rows: usize },
    /// The mouse was used.
    Mouse,
}

/// The model of a tab.
pub struct TabView {
    pub table: TableView,
    pub view: ViewStateView,
    pub title: Seq<char>,
    /// Whether the table is the result of a query.
    pub derived: bool,
}

impl TabView {
    /// The table is well formed and the view fits it.
    pub open spec fn wf(self) -> bool {
        self.table.wf() && self.view.wf(self.table)
    }

    /// The tab with another state of its view.
    pub open spec fn with_view(self, view: ViewStateView) -> TabView {
        TabView { view, ..self }
    }

    /// A tab that was just opened on a table.
    pub open spec fn open(table: TableView, title: Seq<char>, derived: bool) -> TabView {
        TabView { table, view: ViewStateView::start(table), title, derived }
    }
}

/// A tab: a table of its own and the state of the view of it.
pub struct Tab {
    table: Table,
    view: ViewState,
    title: String,
    derived: bool,
}

impl View for Tab {
    type V = TabView;

    closed spec fn view(&self) -> TabView {
        TabView { table: self.table@, view: self.view@, title: self.title@, derived: self.derived }
    }
}

impl Tab {
    /// A tab that shows a table from its first row on.
    pub fn new(table: Table, title: String, derived: bool) -> (r: Tab)
        ensures
            r@ == TabView::open(table@, title@, derived),
            r@.wf(),
    {
        proof {
            use_type_invariant(&table);
        }
        let view = ViewState::new(&table);
        Tab { table, view, title, derived }
    }

    /// The table of the tab.
    pub fn table(&self) -> (r: &Table)
        ensures
            r@ == self@.table,
    {
        &self.table
    }

    /// The state of the view.
    pub fn state(&self) -> (r: &ViewState)
        ensures
            r@ == self@.view,
    {
        &self.view
    }

    /// The title of the tab.
    pub fn title(&self) -> (r: &String)
        ensures
            r@ == self@.title,
    {
        &self.title
    }

    /// Whether the table is the result of a query.
    pub fn is_derived(&self) -> (r: bool)
        ensures
            r == self@.derived,
    {
        self.derived
    }

    /// Puts the rows in the order of a column.
    pub fn set_sort(&mut self, column: usize, ascending: bool)
        requires
            old(self)@.wf(),
        ensures
            final(self)@ == old(self)@.with_view(
                old(self)@.view.with_sort(
                    old(self)@.table,
                    Some(SortKey { column, descending: !ascending }),
                ),
            ),
            final(self)@.wf(),
    {
        self.view.set_sort(column, ascending, &self.table);
    }

    /// Puts the rows back in the order they have in the table.
    pub fn clear_sort(&mut self)
        requires
            old(self)@.wf(),
        ensures
            final(self)@ == old(self)@.with_view(old(self)@.view.with_sort(old(self)@.table, None)),
            final(self)@.wf(),
    {
        self.view.clear_sort(&self.table);
    }

    /// Shows only the rows on which the condition that `text` spells is true.
    /// Where the text spells no condition over the columns of the table, the
    /// tab stays as it is.
    pub fn set_filter(&mut self, text: &str) -> (r: Result<(), QueryError>)
        requires
            old(self)@.wf(),
        ensures
            final(self)@.wf(),
            match filter_of(text@, old(self)@.table) {
                Ok(e) => r is Ok && final(self)@ == old(self)@.with_view(
                    old(self)@.view.with_filter(old(self)@.table, Some(e)),
                ),
                Err(e) => r is Err && r->Err_0@ == e && final(self)@ == old(self)@,
            },
    {
        self.view.set_filter(text, &self.table)
    }

    /// Shows all rows again.
    pub fn clear_filter(&mut self)
        requires
            old(self)@.wf(),
        ensures
            final(self)@ == old(self)@.with_view(old(self)@.view.with_filter(old(self)@.table, None)),
            final(self)@.wf(),
    {
        self.view.clear_filter(&self.table);
    }

    /// Moves the selection by `delta` rows, as far as there are rows.
    pub fn move_selection(&mut self, delta: i64)
        requires
            old(self)@.wf(),
        ensures
            final(self)@ == old(self)@.with_view(old(self)@.view.moved(delta as int)),
            final(self)@.wf(),
    {
        proof {
            lemma_changes_keep_fit(self@.view, self@.table);
        }
        self.view.move_selection(delta);
    }

    /// Selects the row with a number, the first row shown having the number
    /// one.
    pub fn select_numbered(&mut self, number: i64)
        requires
            old(self)@.wf(),
        ensures
            final(self)@ == old(self)@.with_view(old(self)@.view.at_row(number - 1)),
            final(self)@.wf(),
    {
        proof {
            lemma_changes_keep_fit(self@.view, self@.table);
        }
        self.view.select_numbered(number);
    }

    /// Selects a column; the last column where there is no such column.
    pub fn select_column(&mut self, column: usize)
        requires
            old(self)@.wf(),
        ensures
            final(self)@ == old(self)@.with_view(old(self)@.view.at_column(column as int)),
            final(self)@.wf(),
    {
        proof {
            lemma_changes_keep_fit(self@.view, self@.table);
        }
        self.view.select_column(column);
    }

    /// Moves the selection by `delta` columns, as far as there are columns.
    pub fn move_column(&mut self, delta: i64)
        requires
            old(self)@.wf(),
        ensures
            final(self)@ == old(self)@.with_view(
                old(self)@.view.at_column(old(self)@.view.column + delta),
            ),
            final(self)@.wf(),
    {
        proof {
            lemma_changes_keep_fit(self@.view, self@.table);
        }
        self.view.move_column(delta);
    }

    /// Scrolls to an offset, as far as there are rows.
    pub fn set_scroll(&mut self, offset: usize)
        requires
            old(self)@.wf(),
        ensures
            final(self)@ == old(self)@.with_view(old(self)@.view.scrolled(offset as int)),
            final(self)@.wf(),
    {
        proof {
            lemma_changes_keep_fit(self@.view, self@.table);
        }
        self.view.set_scroll(offset);
    }

    /// Scrolls no further than needed to have the selected row among the
    /// `page` rows on the screen.
    pub fn follow(&mut self, page: usize)
        requires
            old(self)@.wf(),
        ensures
            final(self)@ == old(self)@.with_view(old(self)@.view.followed(page as int)),
            final(self)@.wf(),
    {
        proof {
            lemma_changes_keep_fit(self@.view, self@.table);
        }
        self.view.follow(page);
    }

    /// Selects the next row with a value that holds `needle`, and says whether
    /// there is one.
    pub fn select_match(&mut self, needle: &str, exact: bool, forward: bool) -> (r: bool)
        requires
            old(self)@.wf(),
        ensures
            final(self)@ == old(self)@.with_view(
                old(self)@.view.searched(old(self)@.table, needle@, exact, forward),
            ),
            final(self)@.wf(),
            r == old(self)@.view.next_match(old(self)@.table, needle@, exact, forward) is Some,
    {
        self.view.select_match(&self.table, needle, exact, forward)
    }
}

/// The models of the tabs of a list.
pub open spec fn tab_views(tabs: Seq<Tab>) -> Seq<TabView> {
    Seq::new(tabs.len(), |i: int| tabs[i]@)
}

/// Whether a tab of the list shows the result of a query.
pub open spec fn any_derived(tabs: Seq<TabView>) -> bool {
    exists|i: int| 0 <= i < tabs.len() && (#[trigger] tabs[i]).derived
}

/// The model of the viewer.
pub struct AppView {
    pub registry: RegistryView,
    pub tabs: Seq<TabView>,
    /// The index of the tab in front; zero where there is no tab.
    pub active: int,
    pub mode: ModeView,
    /// The text of the status line.
    pub status: Seq<char>,
    /// Whether searches heed the case of letters.
    pub exact: bool,
    /// Whether the session goes on.
    pub running: bool,
    /// The number of rows of a table that the screen has room for.
    pub page: int,
    pub commands: CommandTableView,
    pub keymap: KeymapView,
}

impl AppView {
    /// The registry is well formed, the table of commands is, every tab is,
    /// and the tab in front is one of the tabs.
    pub open spec fn wf(self) -> bool {
        &&& self.registry.wf()
        &&& self.commands.wf()
        &&& forall|i: int| 0 <= i < self.tabs.len() ==> (#[trigger] self.tabs[i]).wf()
        &&& self.active == clamp(self.active, self.tabs.len() as int)
    }

    /// The viewer as it starts: browsing, without tabs or tables.
    pub open spec fn start(commands: CommandTableView, keymap: KeymapView) -> AppView {
        AppView {
            registry: RegistryView { entries: Seq::empty() },
            tabs: Seq::empty(),
            active: 0,
            mode: ModeView::Normal,
            status: Seq::empty(),
            exact: false,
            running: true,
            page: 0,
            commands,
            keymap,
        }
    }

    /// The tab in front, if there is a tab.
    pub open spec fn front(self) -> Option<TabView> {
        if 0 <= self.active < self.tabs.len() {
            Some(self.tabs[self.active])
        } else {
            None
        }
    }

    /// The state after a command was carried out: browsing, with an empty
    /// status line.
    pub open spec fn done(self) -> AppView {
        AppView { mode: ModeView::Normal, status: Seq::empty(), ..self }
    }

    /// The state after a command was refused: browsing, with the reason in the
    /// status line.
    pub open spec fn failed(self, e: CommandErrorView) -> AppView {
        AppView { mode: ModeView::Normal, status: command_message(e), ..self }
    }

    /// The state that a command leaves: what it made of the viewer where it
    /// was carried out, and the viewer as it was, with the reason in the
    /// status line, where not.
    pub open spec fn settled(self, outcome: Result<AppView, CommandErrorView>) -> AppView {
        match outcome {
            Ok(next) => next,
            Err(e) => self.failed(e),
        }
    }

    /// The state with another state of the view of the tab in front.
    pub open spec fn viewing(self, view: ViewStateView) -> AppView {
        (AppView {
            tabs: self.tabs.update(self.active, self.tabs[self.active].with_view(view)),
            ..self
        }).done()
    }

    /// The state after a table was stored in the registry under `name` and
    /// opened in a new tab, which comes to the front.
    pub open spec fn opened(
        self,
        name: Seq<char>,
        table: TableView,
        origin: Option<Seq<char>>,
        derived: bool,
    ) -> AppView {
        (AppView {
            registry: self.registry.with(EntryView { name, table, origin }),
            tabs: self.tabs.push(TabView::open(table, name, derived)),
            active: self.tabs.len() as int,
            ..self
        }).done()
    }

    /// The state after the tab in front was closed: the tab that followed it
    /// comes to the front, or the last tab where none followed.
    pub open spec fn closed(self) -> AppView {
        (AppView {
            tabs: self.tabs.remove(self.active),
            active: clamp(self.active, self.tabs.len() - 1),
            ..self
        }).done()
    }

    /// The state in which the user is asked to consent.
    pub open spec fn asking(self, pending: Pending) -> AppView {
        AppView { mode: ModeView::Confirm(pending), status: question(pending), ..self }
    }

    /// What becomes of the viewer when a command is carried out on it; the
    /// reason where it is refused.
    pub open spec fn act(self, action: Action, args: Seq<Seq<char>>) -> Result<AppView, CommandErrorView> {
        match action {
            Action::Query => match query_result(args[0], self.registry) {
                Err(e) => Err(CommandErrorView::Query(e)),
                Ok(t) => Ok(self.opened(free_name(self.registry.names(), "query"@), t, None, true)),
            },
            Action::Rename => match self.registry.rename_outcome(args[0], args[1]) {
                Err(e) => Err(CommandErrorView::Registry(e)),
                Ok(registry) => Ok((AppView { registry, ..self }).done()),
            },
            Action::ToggleCase => Ok(AppView { exact: !self.exact, ..self }),
            Action::NextTab => Ok(
                (AppView {
                    active: if self.active + 1 < self.tabs.len() {
                        self.active + 1
                    } else {
                        0
                    },
                    ..self
                }).done(),
            ),
            Action::PreviousTab => Ok(
                (AppView {
                    active: if self.active > 0 {
                        self.active - 1
                    } else {
                        clamp(self.tabs.len() - 1, self.tabs.len() as int)
                    },
                    ..self
                }).done(),
            ),
            Action::EnterCommand => Ok(
                AppView { mode: ModeView::Command(Seq::empty()), status: Seq::empty(), ..self },
            ),
            Action::SearchForward => Ok(
                AppView { mode: ModeView::Search(Seq::empty(), true), status: Seq::empty(), ..self },
            ),
            Action::SearchBackward => Ok(
                AppView { mode: ModeView::Search(Seq::empty(), false), status: Seq::empty(), ..self },
            ),
            Action::Quit => if any_derived(self.tabs) {
                Ok(self.asking(Pending::Quit))
            } else {
                Ok((AppView { running: false, ..self }).done())
            },
            _ => match self.front() {
                None => Err(CommandErrorView::NoTab),
                Some(tab) => self.act_on_tab(tab, action, args),
            },
        }
    }

    /// What becomes of the viewer when a command that works on the tab in
    /// front is carried out.
    pub open spec fn act_on_tab(self, tab: TabView, action: Action, args: Seq<Seq<char>>) -> Result<
        AppView,
        CommandErrorView,
    > {
        match action {
            Action::Close => if tab.derived {
                Ok(self.asking(Pending::Close))
            } else {
                Ok(self.closed())
            },
            Action::Goto => match number_of(args[0]) {
                Some(n) => if n >= 1 {
                    Ok(self.viewing(tab.view.at_row(n - 1)))
                } else {
                    Err(CommandErrorView::NotANumber { argument: args[0] })
                },
                None => Err(CommandErrorView::NotANumber { argument: args[0] }),
            },
            Action::Move => match number_of(args[0]) {
                Some(n) => Ok(self.viewing(tab.view.moved(n))),
                None => Err(CommandErrorView::NotANumber { argument: args[0] }),
            },
            Action::Shift => match number_of(args[0]) {
                Some(n) => Ok(self.viewing(tab.view.at_column(tab.view.column + n))),
                None => Err(CommandErrorView::NotANumber { argument: args[0] }),
            },
            Action::Column => match tab.table.position(args[0]) {
                Some(c) => Ok(self.viewing(tab.view.at_column(c))),
                None => Err(CommandErrorView::UnknownColumn { name: args[0] }),
            },
            Action::Sort => match tab.table.position(args[0]) {
                Some(c) => Ok(
                    self.viewing(
                        tab.view.with_sort(
                            tab.table,
                            Some(SortKey { column: c as usize, descending: false }),
                        ),
                    ),
                ),
                None => Err(CommandErrorView::UnknownColumn { name: args[0] }),
            },
            Action::SortDescending => match tab.table.position(args[0]) {
                Some(c) => Ok(
                    self.viewing(
                        tab.view.with_sort(
                            tab.table,
                            Some(SortKey { column: c as usize, descending: true }),
                        ),
                    ),
                ),
                None => Err(CommandErrorView::UnknownColumn { name: args[0] }),
            },
            Action::Filter => match filter_of(args[0], tab.table) {
                Err(e) => Err(CommandErrorView::Query(e)),
                Ok(f) => Ok(self.viewing(tab.view.with_filter(tab.table, Some(f)))),
            },
            Action::Reset => Ok(
                self.viewing(tab.view.with_sort(tab.table, None).with_filter(tab.table, None)),
            ),
            _ => Ok(self),
        }
    }

    /// What becomes of the viewer when the command called `name` is given
    /// `args`: the command must be in the table and take as many arguments.
    pub open spec fn dispatched(self, name: Seq<char>, args: Seq<Seq<char>>) -> Result<
        AppView,
        CommandErrorView,
    > {
        match self.commands.find(name) {
            None => Err(CommandErrorView::UnknownCommand { name }),
            Some(c) => if c.arity != args.len() {
                Err(CommandErrorView::ArityMismatch { name, expected: c.arity, found: args.len() as usize })
            } else {
                self.act(c.action, args)
            },
        }
    }

    /// The state after an invocation.
    pub open spec fn invoked(self, invocation: InvocationView) -> AppView {
        self.settled(self.dispatched(invocation.name, invocation.args))
    }

    /// The state after a line was entered as a command: browsing, and after
    /// the command that the line spells, if it spells one.
    pub open spec fn entered(self, line: Seq<char>) -> AppView {
        let browsing = AppView { mode: ModeView::Normal, ..self };
        let invocation = invocation_of(line, self.commands);
        if invocation.name.len() == 0 {
            browsing
        } else {
            browsing.invoked(invocation)
        }
    }

    /// The state after a search for `needle`: browsing, with the next match
    /// selected in the tab in front, or with a message where there is none.
    pub open spec fn sought(self, needle: Seq<char>, forward: bool) -> AppView {
        match self.front() {
            None => self.failed(CommandErrorView::NoTab),
            Some(tab) => match tab.view.next_match(tab.table, needle, self.exact, forward) {
                Some(place) => self.viewing(tab.view.at_row(place)),
                None => AppView { mode: ModeView::Normal, status: "no match: "@ + needle, ..self },
            },
        }
    }

    /// The state after the user consented.
    pub open spec fn confirmed(self, pending: Pending) -> AppView {
        match pending {
            Pending::Close => if self.front() is Some {
                self.closed()
            } else {
                self.done()
            },
            Pending::Quit => (AppView { running: false, ..self }).done(),
        }
    }

    /// The state after a key was pressed while text was entered, `buffer`
    /// being the text so far: the enter key ends the entry, the escape key
    /// abandons it, the backspace key takes the last character away or, from
    /// an empty text, abandons the entry; a character is added to the text.
    pub open spec fn edited(self, key: Key, buffer: Seq<char>) -> AppView {
        match key {
            Key::Enter => match self.mode {
                ModeView::Search(_, forward) => self.sought(buffer, forward),
                _ => self.entered(buffer),
            },
            Key::Escape => AppView { mode: ModeView::Normal, ..self },
            Key::Backspace => if buffer.len() == 0 {
                AppView { mode: ModeView::Normal, ..self }
            } else {
                AppView { mode: self.mode.with_buffer(buffer.drop_last()), ..self }
            },
            Key::Char(c) => AppView { mode: self.mode.with_buffer(buffer.push(c)), ..self },
            _ => self,
        }
    }

    /// The state after a key was pressed.
    pub open spec fn keyed(self, key: Key) -> AppView {
        match self.mode {
            ModeView::Normal => match self.keymap.resolve(key, ModeKind::Normal) {
                Some(invocation) => self.invoked(invocation),
                None => self,
            },
            ModeView::Command(buffer) => self.edited(key, buffer),
            ModeView::Search(buffer, _) => match self.keymap.resolve(key, ModeKind::Search) {
                Some(invocation) => self.invoked(invocation),
                None => self.edited(key, buffer),
            },
            ModeView::Confirm(pending) => if key == Key::Char('y') || key == Key::Enter {
                self.confirmed(pending)
            } else {
                AppView { mode: ModeView::Normal, status: "cancelled"@, ..self }
            },
        }
    }

    /// The state with the view of the tab in front scrolled so that the
    /// selected row is on the screen.
    pub open spec fn following(self) -> AppView {
        match self.front() {
            None => self,
            Some(tab) => AppView {
                tabs: self.tabs.update(self.active, tab.with_view(tab.view.followed(self.page))),
                ..self
            },
        }
    }

    /// The state after an event. Once the session has ended nothing changes
    /// any more.
    pub open spec fn step(self, event: Event) -> AppView {
        if !self.running {
            self
        } else {
            match event {
                Event::Tick => self,
                Event::Mouse => self,
                Event::Resize { rows } => (AppView { page: rows as int, ..self }).following(),
                Event::Key(key) => self.keyed(key).following(),
            }
        }
    }
}

impl ModeView {
    /// The mode with another text entered; a mode without text is itself.
    pub open spec fn with_buffer(self, buffer: Seq<char>) -> ModeView {
        match self {
            ModeView::Command(_) => ModeView::Command(buffer),
            ModeView::Search(_, forward) => ModeView::Search(buffer, forward),
            _ => self,
        }
    }
}

/// The question put to the user before something is done that cannot be
/// undone.
pub open spec fn question(pending: Pending) -> Seq<char> {
    match pending {
        Pending::Close => "close the result of the query? (y/n)"@,
        Pending::Quit => "quit and lose the results of queries? (y/n)"@,
    }
}

/// The viewer.
pub struct App {
    registry: Registry,
    tabs: Vec<Tab>,
    active: usize,
    mode: Mode,
    status: String,
    exact: bool,
    running: bool,
    page: usize,
    commands: CommandTable,
    keymap: Keymap,
}

impl View for App {
    type V = AppView;

    closed spec fn view(&self) -> AppView {
        AppView {
            registry: self.registry@,
            tabs: tab_views(self.tabs@),
            active: self.active as int,
            mode: self.mode@,
            status: self.status@,
            exact: self.exact,
            running: self.running,
            page: self.page as int,
            commands: self.commands@,
            keymap: self.keymap@,
        }
    }
}

impl App {
    /// The viewer as it starts, with a table of commands and a keymap.
    pub fn new(commands: CommandTable, keymap: Keymap) -> (r: App)
        requires
            commands@.wf(),
        ensures
            r@ == AppView::start(commands@, keymap@),
            r@.wf(),
    {
        let r = App {
            registry: Registry::new(),
            tabs: Vec::new(),
            active: 0,
            mode: Mode::Normal,
            status: String::new(),
            exact: false,
            running: true,
            page: 0,
            commands,
            keymap,
        };
        assert(r@.tabs =~= Seq::empty());
        assert(r@.registry.entries =~= Seq::empty());
        r
    }

    /// The viewer as it starts, with the commands and the bindings that it
    /// knows by itself.
    pub fn standard() -> (r: App)
        ensures
            r@ == AppView::start(standard_table(), standard_keymap()),
            r@.wf(),
            r@.keymap.wf(r@.commands),
    {
        let commands = CommandTable::standard();
        let keymap = match Keymap::standard(&commands) {
            Ok(keymap) => keymap,
            Err(_) => {
                proof {
                    lemma_standard_bindings();
                    assert(false);
                }
                Keymap::new()
            },
        };
        proof {
            lemma_standard_bindings();
        }
        App::new(commands, keymap)
    }

    fn finish(&mut self)
        ensures
            final(self)@ == old(self)@.done(),
    {
        self.mode = Mode::Normal;
        self.status = String::new();
    }

    fn fail(&mut self, e: CommandError) -> (r: Result<(), CommandError>)
        ensures
            final(self)@ == old(self)@.failed(e@),
            r is Err,
            r->Err_0@ == e@,
    {
        self.mode = Mode::Normal;
        self.status = command_text(&e);
        Err(e)
    }

    fn open(&mut self, name: &str, table: Table, origin: Option<String>, derived: bool) -> (r: Result<
        String,
        RegistryError,
    >)
        requires
            old(self)@.wf(),
        ensures
            final(self)@.wf(),
            match r {
                Ok(stored) => {
                    &&& name@.len() > 0
                    &&& stored@ == free_name(old(self)@.registry.names(), name@)
                    &&& final(self)@ == old(self)@.opened(
                        stored@,
                        table@,
                        optional_view(origin),
                        derived,
                    )
                },
                Err(e) => e == RegistryError::EmptyName && name@.len() == 0 && final(self)@ == old(
                    self,
                )@,
            },
    {
        let ghost before = self@;
        let copy = table.clone();
        match self.registry.register(name, table, origin) {
            Err(e) => Err(e),
            Ok(stored) => {
                proof {
                    lemma_first_free_unique(
                        before.registry.names(),
                        name@,
                        stored@,
                        free_name(before.registry.names(), name@),
                    );
                }
                let tab = Tab::new(copy, stored.clone(), derived);
                self.active = self.tabs.len();
                self.tabs.push(tab);
                self.finish();
                proof {
                    assert(self@.tabs =~= before.tabs.push(
                        TabView::open(table@, stored@, derived),
                    ));
                }
                Ok(stored)
            },
        }
    }

    /// Stores a table in the registry, under the first free name of the
    /// series of `name`, and opens it in a new tab, which comes to the front.
    /// Only an empty name is refused. The tabs that were open stay as they
    /// are.
    pub fn load(&mut self, name: &str, table: Table, origin: Option<String>) -> (r: Result<
        String,
        RegistryError,
    >)
        requires
            old(self)@.wf(),
        ensures
            final(self)@.wf(),
            match r {
                Ok(stored) => {
                    &&& name@.len() > 0
                    &&& stored@ == free_name(old(self)@.registry.names(), name@)
                    &&& final(self)@ == old(self)@.opened(
                        stored@,
                        table@,
                        optional_view(origin),
                        false,
                    )
                },
                Err(e) => e == RegistryError::EmptyName && name@.len() == 0 && final(self)@ == old(
                    self,
                )@,
            },
    {
        self.open(name, table, origin, false)
    }

    fn close_front(&mut self)
        requires
            old(self)@.wf(),
            old(self)@.tabs.len() > 0,
        ensures
            final(self)@ == old(self)@.closed(),
            final(self)@.wf(),
    {
        let ghost before = self@;
        let i = self.active;
        self.tabs.remove(i);
        self.active = nearest(i, self.tabs.len());
        self.finish();
        proof {
            assert(self@.tabs =~= before.tabs.remove(i as int));
        }
    }
}

/// The model of what a command did: the state it left where it was carried
/// out, the reason where it was refused.
pub open spec fn outcome_of(r: Result<(), CommandError>, after: AppView) -> Result<
    AppView,
    CommandErrorView,
> {
    match r {
        Ok(_) => Ok(after),
        Err(e) => Err(e@),
    }
}

impl App {
    fn has_derived(&self) -> (r: bool)
        ensures
            r == any_derived(self@.tabs),
    {
        let mut i: usize = 0;
        while i < self.tabs.len()
            invariant
                i <= self.tabs.len(),
                forall|k: int| 0 <= k < i ==> !(#[trigger] self@.tabs[k]).derived,
            decreases self.tabs.len() - i,
        {
            if self.tabs[i].is_derived() {
                assert(self@.tabs[i as int].derived);
                return true;
            }
            i += 1;
        }
        false
    }

    fn ask(&mut self, pending: Pending)
        ensures
            final(self)@ == old(self)@.asking(pending),
    {
        self.mode = Mode::Confirm(pending);
        self.status = match pending {
            Pending::Close => "close the result of the query? (y/n)".to_owned(),
            Pending::Quit => "quit and lose the results of queries? (y/n)".to_owned(),
        };
    }

    fn column_of(&self, name: &String) -> (r: Result<usize, CommandError>)
        requires
            self@.wf(),
            self@.tabs.len() > 0,
        ensures
            match r {
                Ok(c) => self@.tabs[self@.active].table.position(name@) == Some(c as int),
                Err(e) => self@.tabs[self@.active].table.position(name@) is None && e@ == (
                CommandErrorView::UnknownColumn { name: name@ }),
            },
    {
        match self.tabs[self.active].table().column_index(name.as_str()) {
            Some(c) => Ok(c),
            None => Err(CommandError::UnknownColumn { name: name.clone() }),
        }
    }

    fn number(argument: &String) -> (r: Result<i64, CommandError>)
        ensures
            match r {
                Ok(n) => number_of(argument@) == Some(n as int),
                Err(e) => number_of(argument@) is None && e@ == (CommandErrorView::NotANumber {
                    argument: argument@,
                }),
            },
    {
        match parse_number(argument.as_str()) {
            Some(n) => Ok(n),
            None => Err(CommandError::NotANumber { argument: argument.clone() }),
        }
    }

    fn act_on_tab(&mut self, action: Action, args: &Vec<String>) -> (r: Result<(), CommandError>)
        requires
            old(self)@.wf(),
            old(self)@.tabs.len() > 0,
            args.len() == action.arity(),
        ensures
            final(self)@.wf(),
            outcome_of(r, final(self)@) == old(self)@.act_on_tab(
                old(self)@.tabs[old(self)@.active],
                action,
                string_views(args@),
            ),
            r is Err ==> final(self)@ == old(self)@,
    {
        let ghost before = self@;
        let ghost tab = before.tabs[before.active];
        let i = self.active;
        assert(tab.wf());
        match action {
            Action::Close => {
                if self.tabs[i].is_derived() {
                    self.ask(Pending::Close);
                } else {
                    self.close_front();
                }
                Ok(())
            },
            Action::Goto => {
                let n = match App::number(&args[0]) {
                    Ok(n) => n,
                    Err(e) => {
                        return Err(e);
                    },
                };
                if n < 1 {
                    return Err(CommandError::NotANumber { argument: args[0].clone() });
                }
                self.tabs[i].select_numbered(n);
                self.finish();
                assert(self@.tabs =~= before.tabs.update(
                    i as int,
                    tab.with_view(tab.view.at_row(n - 1)),
                ));
                Ok(())
            },
            Action::Move => {
                let n = match App::number(&args[0]) {
                    Ok(n) => n,
                    Err(e) => {
                        return Err(e);
                    },
                };
                self.tabs[i].move_selection(n);
                self.finish();
                assert(self@.tabs =~= before.tabs.update(
                    i as int,
                    tab.with_view(tab.view.moved(n as int)),
                ));
                Ok(())
            },
            Action::Shift => {
                let n = match App::number(&args[0]) {
                    Ok(n) => n,
                    Err(e) => {
                        return Err(e);
                    },
                };
                self.tabs[i].move_column(n);
                self.finish();
                assert(self@.tabs =~= before.tabs.update(
                    i as int,
                    tab.with_view(tab.view.at_column(tab.view.column + n)),
                ));
                Ok(())
            },
            Action::Column => {
                let c = match self.column_of(&args[0]) {
                    Ok(c) => c,
                    Err(e) => {
                        return Err(e);
                    },
                };
                self.tabs[i].select_column(c);
                self.finish();
                assert(self@.tabs =~= before.tabs.update(
                    i as int,
                    tab.with_view(tab.view.at_column(c as int)),
                ));
                Ok(())
            },
            Action::Sort => {
                let c = match self.column_of(&args[0]) {
                    Ok(c) => c,
                    Err(e) => {
                        return Err(e);
                    },
                };
                self.tabs[i].set_sort(c, true);
                self.finish();
                assert(self@.tabs =~= before.tabs.update(
                    i as int,
                    tab.with_view(
                        tab.view.with_sort(tab.table, Some(SortKey { column: c, descending: false })),
                    ),
                ));
                Ok(())
            },
            Action::SortDescending => {
                let c = match self.column_of(&args[0]) {
                    Ok(c) => c,
                    Err(e) => {
                        return Err(e);
                    },
                };
                self.tabs[i].set_sort(c, false);
                self.finish();
                assert(self@.tabs =~= before.tabs.update(
                    i as int,
                    tab.with_view(
                        tab.view.with_sort(tab.table, Some(SortKey { column: c, descending: true })),
                    ),
                ));
                Ok(())
            },
            Action::Filter => {
                match self.tabs[i].set_filter(args[0].as_str()) {
                    Err(e) => {
                        assert(self@.tabs =~= before.tabs);
                        Err(CommandError::Query(e))
                    },
                    Ok(_) => {
                        self.finish();
                        assert(self@.tabs =~= before.tabs.update(
                            i as int,
                            tab.with_view(
                                tab.view.with_filter(
                                    tab.table,
                                    Some(filter_of(args[0]@, tab.table)->Ok_0),
                                ),
                            ),
                        ));
                        Ok(())
                    },
                }
            },
            Action::Reset => {
                self.tabs[i].clear_sort();
                self.tabs[i].clear_filter();
                self.finish();
                assert(self@.tabs =~= before.tabs.update(
                    i as int,
                    tab.with_view(tab.view.with_sort(tab.table, None).with_filter(tab.table, None)),
                ));
                Ok(())
            },
            _ => Ok(()),
        }
    }

    fn act(&mut self, action: Action, args: &Vec<String>) -> (r: Result<(), CommandError>)
        requires
            old(self)@.wf(),
            args.len() == action.arity(),
        ensures
            final(self)@.wf(),
            outcome_of(r, final(self)@) == old(self)@.act(action, string_views(args@)),
            r is Err ==> final(self)@ == old(self)@,
    {
        let ghost before = self@;
        match action {
            Action::Query => {
                let table = match execute(args[0].as_str(), &self.registry) {
                    Err(e) => {
                        return Err(CommandError::Query(e));
                    },
                    Ok(t) => t,
                };
                proof {
                    reveal_strlit("query");
                }
                match self.open("query", table, None, true) {
                    Ok(_) => Ok(()),
                    Err(e) => Err(CommandError::Registry(e)),
                }
            },
            Action::Rename => {
                match self.registry.rename(args[0].as_str(), args[1].as_str()) {
                    Err(e) => Err(CommandError::Registry(e)),
                    Ok(_) => {
                        self.finish();
                        Ok(())
                    },
                }
            },
            Action::ToggleCase => {
                self.exact = !self.exact;
                Ok(())
            },
            Action::NextTab => {
                if self.tabs.len() > 0 && self.active < self.tabs.len() - 1 {
                    self.active = self.active + 1;
                } else {
                    self.active = 0;
                }
                self.finish();
                Ok(())
            },
            Action::PreviousTab => {
                if self.active > 0 {
                    self.active = self.active - 1;
                } else if self.tabs.len() > 0 {
                    self.active = self.tabs.len() - 1;
                }
                self.finish();
                Ok(())
            },
            Action::EnterCommand => {
                self.mode = Mode::Command(String::new());
                self.status = String::new();
                Ok(())
            },
            Action::SearchForward => {
                self.mode = Mode::Search(String::new(), true);
                self.status = String::new();
                Ok(())
            },
            Action::SearchBackward => {
                self.mode = Mode::Search(String::new(), false);
                self.status = String::new();
                Ok(())
            },
            Action::Quit => {
                if self.has_derived() {
                    self.ask(Pending::Quit);
                } else {
                    self.running = false;
                    self.finish();
                }
                Ok(())
            },
            _ => {
                if self.tabs.len() == 0 {
                    return Err(CommandError::NoTab);
                }
                self.act_on_tab(action, args)
            },
        }
    }

    /// Carries out the command called `name` on `args`. A command that the
    /// table lacks, a wrong number of arguments and every failure of the
    /// command itself leave the viewer as it was, but for the reason in the
    /// status line and the return to browsing.
    pub fn dispatch(&mut self, name: &str, args: &Vec<String>) -> (r: Result<(), CommandError>)
        requires
            old(self)@.wf(),
        ensures
            final(self)@.wf(),
            final(self)@ == old(self)@.settled(old(self)@.dispatched(name@, string_views(args@))),
            match old(self)@.dispatched(name@, string_views(args@)) {
                Ok(_) => r is Ok,
                Err(e) => r is Err && r->Err_0@ == e,
            },
    {
        let found = match self.commands.find(name) {
            None => None,
            Some(c) => Some((c.arity, c.action)),
        };
        match found {
            None => self.fail(CommandError::UnknownCommand { name: name.to_owned() }),
            Some((arity, action)) => {
                proof {
                    crate::table::lemma_position_in(self@.commands.names(), name@);
                }
                if arity != args.len() {
                    self.fail(
                        CommandError::ArityMismatch {
                            name: name.to_owned(),
                            expected: arity,
                            found: args.len(),
                        },
                    )
                } else {
                    match self.act(action, args) {
                        Ok(_) => Ok(()),
                        Err(e) => self.fail(e),
                    }
                }
            },
        }
    }
}

/// A text without its last character.
fn without_last(text: &String) -> (r: String)
    requires
        text@.len() > 0,
    ensures
        r@ == text@.drop_last(),
{
    let chars = chars_of(text.as_str());
    string_of_range(&chars, 0, chars.len() - 1)
}

/// A text with one more character.
fn with_char(text: &String, c: char) -> (r: String)
    ensures
        r@ == text@.push(c),
{
    let mut r = text.clone();
    r.push(c);
    r
}

impl App {
    fn invoke(&mut self, invocation: &Invocation)
        requires
            old(self)@.wf(),
        ensures
            final(self)@.wf(),
            final(self)@ == old(self)@.invoked(invocation@),
    {
        let _ = self.dispatch(invocation.name.as_str(), &invocation.args);
    }

    /// Carries out the command that a line spells. An empty line spells none.
    pub fn run_line(&mut self, line: &str)
        requires
            old(self)@.wf(),
        ensures
            final(self)@.wf(),
            final(self)@ == old(self)@.entered(line@),
    {
        let chars = chars_of(line);
        let invocation = parse_line(&chars, &self.commands);
        self.mode = Mode::Normal;
        if invocation.name.as_str().unicode_len() > 0 {
            self.invoke(&invocation);
        }
    }

    /// Selects, in the tab in front, the next row with a value that holds
    /// `needle`, and returns to browsing.
    pub fn search(&mut self, needle: &str, forward: bool)
        requires
            old(self)@.wf(),
        ensures
            final(self)@.wf(),
            final(self)@ == old(self)@.sought(needle@, forward),
    {
        let ghost before = self@;
        if self.tabs.len() == 0 {
            let _ = self.fail(CommandError::NoTab);
            return ;
        }
        let i = self.active;
        let ghost tab = before.tabs[i as int];
        assert(tab.wf());
        if self.tabs[i].select_match(needle, self.exact, forward) {
            self.finish();
            proof {
                let place = tab.view.next_match(tab.table, needle@, before.exact, forward)->Some_0;
                assert(self@.tabs =~= before.tabs.update(
                    i as int,
                    tab.with_view(tab.view.at_row(place)),
                ));
            }
        } else {
            assert(self@.tabs =~= before.tabs);
            self.mode = Mode::Normal;
            let mut status: Vec<char> = Vec::new();
            push_text(&mut status, "no match: ");
            push_text(&mut status, needle);
            self.status = string_of(&status);
            assert(self@.status =~= "no match: "@ + needle@);
        }
    }

    fn confirm(&mut self, pending: Pending)
        requires
            old(self)@.wf(),
        ensures
            final(self)@.wf(),
            final(self)@ == old(self)@.confirmed(pending),
    {
        match pending {
            Pending::Close => {
                if self.tabs.len() > 0 {
                    self.close_front();
                } else {
                    self.finish();
                }
            },
            Pending::Quit => {
                self.running = false;
                self.finish();
            },
        }
    }

    fn edit(&mut self, key: Key, buffer: &String)
        requires
            old(self)@.wf(),
            old(self)@.mode is Command || old(self)@.mode is Search,
        ensures
            final(self)@.wf(),
            final(self)@ == old(self)@.edited(key, buffer@),
    {
        let forward = match &self.mode {
            Mode::Search(_, forward) => Some(*forward),
            _ => None,
        };
        match key {
            Key::Enter => match forward {
                Some(f) => self.search(buffer.as_str(), f),
                None => self.run_line(buffer.as_str()),
            },
            Key::Escape => {
                self.mode = Mode::Normal;
            },
            Key::Backspace => {
                if buffer.as_str().unicode_len() == 0 {
                    self.mode = Mode::Normal;
                } else {
                    let rest = without_last(buffer);
                    self.mode = match forward {
                        Some(f) => Mode::Search(rest, f),
                        None => Mode::Command(rest),
                    };
                }
            },
            Key::Char(c) => {
                let more = with_char(buffer, c);
                self.mode = match forward {
                    Some(f) => Mode::Search(more, f),
                    None => Mode::Command(more),
                };
            },
            _ => {},
        }
    }

    fn bound(&self, key: Key, mode: ModeKind) -> (r: Option<Invocation>)
        ensures
            match r {
                Some(invocation) => self@.keymap.resolve(key, mode) == Some(invocation@),
                None => self@.keymap.resolve(key, mode) is None,
            },
    {
        match self.keymap.resolve(key, mode) {
            Some(invocation) => Some(invocation.clone()),
            None => None,
        }
    }

    /// Takes a key that was pressed.
    pub fn handle_key(&mut self, key: Key)
        requires
            old(self)@.wf(),
        ensures
            final(self)@.wf(),
            final(self)@ == old(self)@.keyed(key),
    {
        let mode = self.mode.clone();
        match mode {
            Mode::Normal => match self.bound(key, ModeKind::Normal) {
                Some(invocation) => self.invoke(&invocation),
                None => {},
            },
            Mode::Command(buffer) => self.edit(key, &buffer),
            Mode::Search(buffer, _) => match self.bound(key, ModeKind::Search) {
                Some(invocation) => self.invoke(&invocation),
                None => self.edit(key, &buffer),
            },
            Mode::Confirm(pending) => {
                let yes = match key {
                    Key::Char(c) => c == 'y',
                    Key::Enter => true,
                    _ => false,
                };
                if yes {
                    self.confirm(pending);
                } else {
                    self.mode = Mode::Normal;
                    self.status = "cancelled".to_owned();
                }
            },
        }
    }

    fn follow(&mut self)
        requires
            old(self)@.wf(),
        ensures
            final(self)@.wf(),
            final(self)@ == old(self)@.following(),
    {
        let ghost before = self@;
        if self.tabs.len() > 0 {
            let i = self.active;
            assert(before.tabs[i as int].wf());
            self.tabs[i].follow(self.page);
            assert(self@.tabs =~= before.tabs.update(
                i as int,
                before.tabs[i as int].with_view(
                    before.tabs[i as int].view.followed(before.page),
                ),
            ));
        }
    }

    /// Takes an event and makes the one transition that it leads to. Once
    /// the session has ended nothing changes any more.
    pub fn handle_event(&mut self, event: Event)
        requires
            old(self)@.wf(),
        ensures
            final(self)@.wf(),
            final(self)@ == old(self)@.step(event),
    {
        if !self.running {
            return ;
        }
        match event {
            Event::Tick => {},
            Event::Mouse => {},
            Event::Resize { rows } => {
                self.page = rows;
                self.follow();
            },
            Event::Key(key) => {
                self.handle_key(key);
                self.follow();
            },
        }
    }

    /// Whether the session goes on.
    pub fn running(&self) -> (r: bool)
        ensures
            r == self@.running,
    {
        self.running
    }

    /// The mode.
    pub fn mode(&self) -> (r: &Mode)
        ensures
            r@ == self@.mode,
    {
        &self.mode
    }

    /// The text of the status line.
    pub fn status(&self) -> (r: &String)
        ensures
            r@ == self@.status,
    {
        &self.status
    }

    /// Whether searches heed the case of letters.
    pub fn is_exact(&self) -> (r: bool)
        ensures
            r == self@.exact,
    {
        self.exact
    }

    /// The tabs, from the first to the last.
    pub fn tabs(&self) -> (r: &Vec<Tab>)
        ensures
            tab_views(r@) == self@.tabs,
    {
        &self.tabs
    }

    /// The index of the tab in front; zero where there is no tab.
    pub fn active(&self) -> (r: usize)
        ensures
            r == self@.active,
    {
        self.active
    }

    /// The tab in front, if there is a tab.
    pub fn front(&self) -> (r: Option<&Tab>)
        ensures
            match r {
                Some(tab) => self@.front() == Some(tab@),
                None => self@.front() is None,
            },
    {
        if self.active < self.tabs.len() {
            Some(&self.tabs[self.active])
        } else {
            None
        }
    }

    /// The registry of the tables that queries can name.
    pub fn registry(&self) -> (r: &Registry)
        ensures
            r@ == self@.registry,
    {
        &self.registry
    }

    /// The number of rows of a table that the screen has room for.
    pub fn page(&self) -> (r: usize)
        ensures
            r == self@.page,
    {
        self.page
    }
}

/// The values of a row of a table, rendered as text.
pub open spec fn rendered_row(t: TableView, row: int) -> Seq<Seq<char>> {
    Seq::new(t.columns.len(), |c: int| t.cell(row, c).rendered())
}

/// The number of rows of a view that are on a screen with room for `page`
/// rows.
pub open spec fn rows_on_screen(view: ViewStateView, page: int) -> int {
    if page <= 0 || view.scroll >= view.visible.len() {
        0
    } else if view.visible.len() - view.scroll < page {
        view.visible.len() - view.scroll
    } else {
        page
    }
}

/// The rows of a tab that are on the screen, rendered as text: those shown
/// from the scroll offset on, as many as the screen has room for.
pub open spec fn screen_rows(tab: TabView, page: int) -> Seq<Seq<Seq<char>>> {
    Seq::new(
        rows_on_screen(tab.view, page) as nat,
        |k: int| rendered_row(tab.table, tab.view.visible[tab.view.scroll + k] as int),
    )
}

/// The model of what the renderer is given of the tab in front.
pub struct PaneView {
    pub headers: Seq<Seq<char>>,
    pub widths: Seq<nat>,
    pub rows: Seq<Seq<Seq<char>>>,
    pub first: int,
    pub selected: int,
    pub column: int,
    pub total: nat,
}

/// The model of what the renderer is given.
pub struct SnapshotView {
    pub titles: Seq<Seq<char>>,
    pub active: int,
    pub mode: ModeView,
    pub status: Seq<char>,
    pub running: bool,
    pub pane: Option<PaneView>,
}

impl AppView {
    /// What the renderer is given of a tab.
    pub open spec fn pane(self, tab: TabView) -> PaneView {
        PaneView {
            headers: tab.table.names(),
            widths: tab.view.widths,
            rows: screen_rows(tab, self.page),
            first: tab.view.scroll,
            selected: tab.view.selected,
            column: tab.view.column,
            total: tab.view.visible.len(),
        }
    }

    /// What the renderer is given of the viewer.
    pub open spec fn frame(self) -> SnapshotView {
        SnapshotView {
            titles: Seq::new(self.tabs.len(), |i: int| self.tabs[i].title),
            active: self.active,
            mode: self.mode,
            status: self.status,
            running: self.running,
            pane: match self.front() {
                Some(tab) => Some(self.pane(tab)),
                None => None,
            },
        }
    }
}

/// What the renderer is given of the tab in front: the names and width hints
/// of the columns, the rows on the screen, and where the user stands.
#[derive(Debug)]
pub struct Pane {
    pub headers: Vec<String>,
    pub widths: Vec<usize>,
    /// The rows on the screen, each value rendered as text.
    pub rows: Vec<Vec<String>>,
    /// The place of the first row on the screen among the rows shown.
    pub first: usize,
    /// The place of the selected row among the rows shown.
    pub selected: usize,
    /// The selected column.
    pub column: usize,
    /// The number of rows shown.
    pub total: usize,
}

/// What the renderer is given: a copy of what is to be seen, which later
/// events do not change.
#[derive(Debug)]
pub struct Snapshot {
    pub titles: Vec<String>,
    pub active: usize,
    pub mode: Mode,
    pub status: String,
    pub running: bool,
    pub pane: Option<Pane>,
}

/// The texts of the rows of a list.
pub open spec fn text_rows(rows: Seq<Vec<String>>) -> Seq<Seq<Seq<char>>> {
    Seq::new(rows.len(), |i: int| string_views(rows[i]@))
}

impl View for Pane {
    type V = PaneView;

    open spec fn view(&self) -> PaneView {
        PaneView {
            headers: string_views(self.headers@),
            widths: self.widths@.map_values(|w: usize| w as nat),
            rows: text_rows(self.rows@),
            first: self.first as int,
            selected: self.selected as int,
            column: self.column as int,
            total: self.total as nat,
        }
    }
}

impl View for Snapshot {
    type V = SnapshotView;

    open spec fn view(&self) -> SnapshotView {
        SnapshotView {
            titles: string_views(self.titles@),
            active: self.active as int,
            mode: self.mode@,
            status: self.status@,
            running: self.running,
            pane: match self.pane {
                Some(p) => Some(p@),
                None => None,
            },
        }
    }
}

fn copy_widths(v: &Vec<usize>) -> (r: Vec<usize>)
    ensures
        r@ == v@,
{
    let mut r: Vec<usize> = Vec::new();
    let mut i: usize = 0;
    while i < v.len()
        invariant
            i <= v.len(),
            r@ =~= v@.take(i as int),
        decreases v.len() - i,
    {
        r.push(v[i]);
        i += 1;
    }
    assert(v@.take(v.len() as int) =~= v@);
    r
}

impl Tab {
    fn headers(&self) -> (r: Vec<String>)
        ensures
            string_views(r@) == self@.table.names(),
    {
        let mut r: Vec<String> = Vec::new();
        let mut c: usize = 0;
        while c < self.table.width()
            invariant
                c <= self.table@.columns.len(),
                r.len() == c,
                forall|k: int| 0 <= k < c ==> (#[trigger] r[k])@ == self.table@.columns[k].name,
            decreases self.table@.columns.len() - c,
        {
            r.push(self.table.column(c).name().to_owned());
            c += 1;
        }
        assert(string_views(r@) =~= self@.table.names());
        r
    }

    fn rendered_row(&self, row: usize) -> (r: Vec<String>)
        requires
            row < self@.table.height,
        ensures
            string_views(r@) == rendered_row(self@.table, row as int),
    {
        let mut r: Vec<String> = Vec::new();
        let mut c: usize = 0;
        while c < self.table.width()
            invariant
                c <= self.table@.columns.len(),
                row < self.table@.height,
                r.len() == c,
                forall|k: int|
                    0 <= k < c ==> (#[trigger] r[k])@ == self.table@.cell(row as int, k).rendered(),
            decreases self.table@.columns.len() - c,
        {
            r.push(self.table.cell(row, c).rendered());
            c += 1;
        }
        assert(string_views(r@) =~= rendered_row(self@.table, row as int));
        r
    }

    /// What the renderer is given of the tab on a screen with room for `page`
    /// rows.
    fn pane(&self, page: usize) -> (r: Pane)
        requires
            self@.wf(),
        ensures
            r@.headers == self@.table.names(),
            r@.widths == self@.view.widths,
            r@.rows == screen_rows(self@, page as int),
            r@.first == self@.view.scroll,
            r@.selected == self@.view.selected,
            r@.column == self@.view.column,
            r@.total == self@.view.visible.len(),
    {
        let visible = self.view.visible();
        let first = self.view.scroll();
        let ghost count = rows_on_screen(self@.view, page as int);
        proof {
            lemma_shown_bounds(
                crate::table::rows_of(self@.table),
                self@.view.sort,
                self@.view.filter,
            );
        }
        let mut rows: Vec<Vec<String>> = Vec::new();
        let mut k: usize = 0;
        while k < page && first < visible.len() && k < visible.len() - first
            invariant
                self@.wf(),
                visible@ == self@.view.visible,
                first == self@.view.scroll,
                count == rows_on_screen(self@.view, page as int),
                k <= count,
                rows.len() == k,
                forall|i: int|
                    0 <= i < visible.len() ==> (#[trigger] visible[i]) < self@.table.height,
                forall|j: int|
                    0 <= j < k ==> string_views((#[trigger] rows[j])@) == rendered_row(
                        self@.table,
                        visible[first + j] as int,
                    ),
            decreases page - k,
        {
            let row = self.rendered_row(visible[first + k]);
            rows.push(row);
            k += 1;
        }
        assert(text_rows(rows@) =~= screen_rows(self@, page as int));
        Pane {
            headers: self.headers(),
            widths: copy_widths(self.view.widths()),
            rows,
            first,
            selected: self.view.selected(),
            column: self.view.column(),
            total: visible.len(),
        }
    }
}

impl App {
    /// What the renderer is given of the viewer as it is now.
    pub fn snapshot(&self) -> (r: Snapshot)
        requires
            self@.wf(),
        ensures
            r@ == self@.frame(),
    {
        let mut titles: Vec<String> = Vec::new();
        let mut i: usize = 0;
        while i < self.tabs.len()
            invariant
                i <= self.tabs.len(),
                titles.len() == i,
                forall|k: int| 0 <= k < i ==> (#[trigger] titles[k])@ == self@.tabs[k].title,
            decreases self.tabs.len() - i,
        {
            titles.push(self.tabs[i].title().clone());
            i += 1;
        }
        let pane = if self.active < self.tabs.len() {
            assert(self@.tabs[self.active as int].wf());
            Some(self.tabs[self.active].pane(self.page))
        } else {
            None
        };
        let r = Snapshot {
            titles,
            active: self.active,
            mode: self.mode.clone(),
            status: self.status.clone(),
            running: self.running,
            pane,
        };
        assert(r@.titles =~= self@.frame().titles);
        r
    }
}

/// Storing a table under whatever name leaves every tab that was open as it
/// was: its table, the state of its view and its title.
pub proof fn law_open_keeps_tabs(
    app: AppView,
    name: Seq<char>,
    table: TableView,
    origin: Option<Seq<char>>,
    derived: bool,
)
    ensures
        app.opened(name, table, origin, derived).tabs.take(app.tabs.len() as int) == app.tabs,
        forall|i: int|
            0 <= i < app.tabs.len() ==> (#[trigger] app.opened(name, table, origin, derived).tabs[i])
                == app.tabs[i],
{
    assert(app.opened(name, table, origin, derived).tabs.take(app.tabs.len() as int) =~= app.tabs);
}

/// A query that is answered and the renaming of a stored table leave every
/// tab that was open as it was; a command that is refused leaves all tabs and
/// the registry as they were.
pub proof fn law_commands_keep_tabs(app: AppView, name: Seq<char>, args: Seq<Seq<char>>)
    requires
        app.wf(),
    ensures
        match app.dispatched(name, args) {
            Ok(next) => match app.commands.find(name) {
                Some(c) => (c.action == Action::Query ==> next.tabs.take(app.tabs.len() as int)
                    == app.tabs) && (c.action == Action::Rename ==> next.tabs == app.tabs),
                None => false,
            },
            Err(e) => app.settled(Err(e)).tabs == app.tabs && app.settled(Err(e)).registry
                == app.registry,
        },
{
    match app.dispatched(name, args) {
        Ok(next) => {
            let c = app.commands.find(name)->Some_0;
            if c.action == Action::Query {
                let t = query_result(args[0], app.registry)->Ok_0;
                law_open_keeps_tabs(
                    app,
                    free_name(app.registry.names(), "query"@),
                    t,
                    None,
                    true,
                );
            }
        },
        Err(_) => {},
    }
}

/// The result of a query that is answered is found in the registry under the
/// title of the tab that shows it, so that later queries can name it; the
/// tables that were stored before are found as before.
pub proof fn law_result_is_registered(app: AppView, text: Seq<char>, name: Seq<char>)
    requires
        app.wf(),
        query_result(text, app.registry) is Ok,
    ensures
        app.act(Action::Query, seq![text]) is Ok,
        ({
            let next = app.act(Action::Query, seq![text])->Ok_0;
            &&& next.tabs.last().table == query_result(text, app.registry)->Ok_0
            &&& next.registry.find(next.tabs.last().title) == Some(next.tabs.last().table)
            &&& app.registry.find(name) is Some ==> next.registry.find(name) == app.registry.find(
                name,
            )
        }),
{
    let stored = free_name(app.registry.names(), "query"@);
    let table = query_result(text, app.registry)->Ok_0;
    let entry = EntryView { name: stored, table, origin: None };
    lemma_free_name(app.registry.names(), "query"@);
    law_lookup_after_register(app.registry, entry);
    if app.registry.find(name) is Some {
        law_register_keeps_entries(app.registry, entry, name);
    }
}

/// Whether two states of the viewer have one table of commands and one
/// keymap.
pub open spec fn same_configuration(a: AppView, b: AppView) -> bool {
    a.commands == b.commands && a.keymap == b.keymap
}

proof fn lemma_act_keeps_configuration(app: AppView, action: Action, args: Seq<Seq<char>>)
    ensures
        match app.act(action, args) {
            Ok(next) => same_configuration(app, next),
            Err(_) => true,
        },
{
    match app.front() {
        Some(tab) => {
            assert(match app.act_on_tab(tab, action, args) {
                Ok(next) => same_configuration(app, next),
                Err(_) => true,
            });
        },
        None => {},
    }
}

proof fn lemma_invoked_keeps_configuration(app: AppView, invocation: InvocationView)
    ensures
        same_configuration(app, app.invoked(invocation)),
{
    match app.commands.find(invocation.name) {
        Some(c) => {
            lemma_act_keeps_configuration(app, c.action, invocation.args);
        },
        None => {},
    }
}

proof fn lemma_edited_keeps_configuration(app: AppView, key: Key, buffer: Seq<char>)
    ensures
        same_configuration(app, app.edited(key, buffer)),
{
    let browsing = AppView { mode: ModeView::Normal, ..app };
    lemma_invoked_keeps_configuration(browsing, invocation_of(buffer, app.commands));
    assert(same_configuration(app, app.entered(buffer)));
    assert(forall|forward: bool| same_configuration(app, #[trigger] app.sought(buffer, forward)));
}

/// No event changes the table of commands or the keymap: they are what the
/// viewer started with.
pub proof fn law_configuration_stays(app: AppView, event: Event)
    ensures
        app.step(event).commands == app.commands,
        app.step(event).keymap == app.keymap,
{
    match event {
        Event::Key(key) => {
            match app.mode {
                ModeView::Normal => match app.keymap.resolve(key, ModeKind::Normal) {
                    Some(invocation) => {
                        lemma_invoked_keeps_configuration(app, invocation);
                    },
                    None => {},
                },
                ModeView::Command(buffer) => {
                    lemma_edited_keeps_configuration(app, key, buffer);
                },
                ModeView::Search(buffer, _) => match app.keymap.resolve(key, ModeKind::Search) {
                    Some(invocation) => {
                        lemma_invoked_keeps_configuration(app, invocation);
                    },
                    None => {
                        lemma_edited_keeps_configuration(app, key, buffer);
                    },
                },
                ModeView::Confirm(pending) => {
                    assert(same_configuration(app, app.confirmed(pending)));
                },
            }
            assert(same_configuration(app, app.keyed(key)));
            assert(same_configuration(app.keyed(key), app.keyed(key).following()));
        },
        _ => {},
    }
}

/// Once the session has ended, no event changes anything.
pub proof fn law_nothing_after_the_end(app: AppView, event: Event)
    requires
        !app.running,
    ensures
        app.step(event) == app,
{
}

/// A command that the table lacks leaves the viewer browsing, with a status
/// line that holds the name that was not found; nothing else changes.
pub proof fn law_unknown_command(app: AppView, name: Seq<char>, args: Seq<Seq<char>>)
    requires
        app.commands.find(name) is None,
    ensures
        app.invoked(InvocationView { name, args }) == app.failed(
            CommandErrorView::UnknownCommand { name },
        ),
        app.invoked(InvocationView { name, args }).mode == ModeView::Normal,
        contains_text(app.invoked(InvocationView { name, args }).status, name),
{
    law_unknown_command_is_named(name);
}

} // verus!
