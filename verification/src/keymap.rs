//! Keys and what they are bound to.
//!
//! A keymap binds keys to commands with their arguments. It is filled when the
//! viewer starts and only read after that. A key can be bound for browsing and
//! for the entry of a search; of two bindings of one key the later counts.

use vstd::prelude::*;
use crate::command::{
    copy_strings, lemma_finds, lemma_standard_commands, standard_commands, standard_table,
    CommandTable, CommandTableView, ConfigError, ConfigErrorView, Invocation, InvocationView,
};
use crate::registry::string_views;

verus! {

/// A key of the keyboard.
#[derive(Clone, Copy, PartialEq, Eq, Debug, Structural)]
pub enum Key {
    Char(char),
    Enter,
    Escape,
    Backspace,
    Tab,
    Up,
    Down,
    Left,
    Right,
    PageUp,
    PageDown,
    Home,
    End,
}

/// The kind of a mode, whatever text was entered in it.
#[derive(Clone, Copy, PartialEq, Eq, Debug, Structural)]
pub enum ModeKind {
    Normal,
    Command,
    Search,
    Confirm,
}

/// A key, the kind of mode in which it is bound, and what it is bound to.
#[derive(Debug)]
pub struct Binding {
    pub key: Key,
    pub mode: ModeKind,
    pub invocation: Invocation,
}

/// The model of a binding.
pub struct BindingView {
    pub key: Key,
    pub mode: ModeKind,
    pub invocation: InvocationView,
}

impl View for Binding {
    type V = BindingView;

    open spec fn view(&self) -> BindingView {
        BindingView { key: self.key, mode: self.mode, invocation: self.invocation@ }
    }
}

/// The bindings of a list of bindings.
pub open spec fn binding_views(s: Seq<Binding>) -> Seq<BindingView> {
    Seq::new(s.len(), |i: int| s[i]@)
}

/// What a key is bound to in a kind of mode by a list of bindings: the
/// invocation of the last binding of the key for that kind.
pub open spec fn bound_to(bindings: Seq<BindingView>, key: Key, mode: ModeKind) -> Option<
    InvocationView,
>
    decreases bindings.len(),
{
    if bindings.len() == 0 {
        None
    } else if bindings.last().key == key && bindings.last().mode == mode {
        Some(bindings.last().invocation)
    } else {
        bound_to(bindings.drop_last(), key, mode)
    }
}

/// Whether a binding is in order: it is for browsing or for the entry of a
/// search, and its command is in the table and takes as many arguments as the
/// binding gives.
pub open spec fn well_bound(binding: BindingView, table: CommandTableView) -> bool {
    &&& binding.mode == ModeKind::Normal || binding.mode == ModeKind::Search
    &&& match table.find(binding.invocation.name) {
        Some(c) => c.arity == binding.invocation.args.len(),
        None => false,
    }
}

/// The model of a keymap: its bindings in the order in which they were made.
pub struct KeymapView {
    pub bindings: Seq<BindingView>,
}

impl KeymapView {
    /// What a key is bound to in a kind of mode.
    pub open spec fn resolve(self, key: Key, mode: ModeKind) -> Option<InvocationView> {
        bound_to(self.bindings, key, mode)
    }

    /// Every binding is in order.
    pub open spec fn wf(self, table: CommandTableView) -> bool {
        forall|i: int| 0 <= i < self.bindings.len() ==> well_bound(#[trigger] self.bindings[i], table)
    }

    /// The keymap with one more binding; refused where the binding is not in
    /// order.
    pub open spec fn with(self, binding: BindingView, table: CommandTableView) -> Result<
        KeymapView,
        ConfigErrorView,
    > {
        if well_bound(binding, table) {
            Ok(KeymapView { bindings: self.bindings.push(binding) })
        } else {
            Err(ConfigErrorView::MalformedBinding { name: binding.invocation.name })
        }
    }
}

/// What a key is bound to is the invocation of a binding of the keymap.
pub proof fn lemma_bound_to(bindings: Seq<BindingView>, key: Key, mode: ModeKind)
    ensures
        match bound_to(bindings, key, mode) {
            Some(invocation) => exists|i: int|
                0 <= i < bindings.len() && (#[trigger] bindings[i]).invocation == invocation
                    && bindings[i].key == key && bindings[i].mode == mode,
            None => forall|i: int|
                0 <= i < bindings.len() ==> !((#[trigger] bindings[i]).key == key && bindings[i].mode
                    == mode),
        },
    decreases bindings.len(),
{
    if bindings.len() > 0 {
        let front = bindings.drop_last();
        lemma_bound_to(front, key, mode);
        if bindings.last().key == key && bindings.last().mode == mode {
            assert(bindings[bindings.len() - 1].invocation == bindings.last().invocation);
        } else {
            match bound_to(front, key, mode) {
                Some(invocation) => {
                    let i = choose|i: int|
                        0 <= i < front.len() && (#[trigger] front[i]).invocation == invocation
                            && front[i].key == key && front[i].mode == mode;
                    assert(bindings[i] == front[i]);
                },
                None => {
                    assert forall|i: int| 0 <= i < bindings.len() implies !((
                    #[trigger] bindings[i]).key == key && bindings[i].mode == mode) by {
                        if i < front.len() {
                            assert(bindings[i] == front[i]);
                        }
                    }
                },
            }
        }
    }
}

/// In a keymap whose bindings are all in order, what a key is bound to is a
/// command of the table with as many arguments as the command takes: a key
/// never leads to a command that is unknown or wrongly called.
pub proof fn law_bound_commands_exist(
    keymap: KeymapView,
    table: CommandTableView,
    key: Key,
    mode: ModeKind,
)
    requires
        keymap.wf(table),
    ensures
        match keymap.resolve(key, mode) {
            Some(invocation) => match table.find(invocation.name) {
                Some(c) => c.arity == invocation.args.len(),
                None => false,
            },
            None => true,
        },
{
    lemma_bound_to(keymap.bindings, key, mode);
}

/// The map from keys to commands.
#[derive(Debug)]
pub struct Keymap {
    bindings: Vec<Binding>,
}

impl View for Keymap {
    type V = KeymapView;

    closed spec fn view(&self) -> KeymapView {
        KeymapView { bindings: binding_views(self.bindings@) }
    }
}

impl Keymap {
    /// The keymap without bindings.
    pub fn new() -> (r: Keymap)
        ensures
            r@.bindings.len() == 0,
    {
        Keymap { bindings: Vec::new() }
    }

    /// The number of bindings.
    pub fn len(&self) -> (r: usize)
        ensures
            r == self@.bindings.len(),
    {
        self.bindings.len()
    }

    /// Binds a key, in a kind of mode, to a command of the table with its
    /// arguments. A binding that is not in order is refused, and the keymap
    /// stays as it is.
    pub fn bind(
        &mut self,
        key: Key,
        mode: ModeKind,
        name: &str,
        args: Vec<String>,
        table: &CommandTable,
    ) -> (r: Result<(), ConfigError>)
        ensures
            match old(self)@.with(
                BindingView {
                    key,
                    mode,
                    invocation: InvocationView { name: name@, args: string_views(args@) },
                },
                table@,
            ) {
                Ok(keymap) => r is Ok && final(self)@ == keymap,
                Err(e) => r is Err && r->Err_0@ == e && final(self)@ == old(self)@,
            },
            old(self)@.wf(table@) ==> final(self)@.wf(table@),
    {
        let fits = match table.find(name) {
            Some(c) => c.arity == args.len(),
            None => false,
        };
        let free = match mode {
            ModeKind::Normal => true,
            ModeKind::Search => true,
            _ => false,
        };
        if !(fits && free) {
            return Err(ConfigError::MalformedBinding { name: name.to_owned() });
        }
        let ghost before = self@;
        let binding = Binding { key, mode, invocation: Invocation { name: name.to_owned(), args } };
        let ghost added = binding@;
        self.bindings.push(binding);
        assert(self@.bindings =~= before.bindings.push(added));
        Ok(())
    }

    /// What a key is bound to in a kind of mode.
    pub fn resolve(&self, key: Key, mode: ModeKind) -> (r: Option<&Invocation>)
        ensures
            match r {
                Some(invocation) => self@.resolve(key, mode) == Some(invocation@),
                None => self@.resolve(key, mode) is None,
            },
    {
        let ghost all = self@.bindings;
        let mut i: usize = self.bindings.len();
        assert(all.take(i as int) =~= all);
        while i > 0
            invariant
                i <= self.bindings.len(),
                all == self@.bindings,
                bound_to(all, key, mode) == bound_to(all.take(i as int), key, mode),
            decreases i,
        {
            i -= 1;
            proof {
                assert(all.take(i + 1).drop_last() =~= all.take(i as int));
                assert(all.take(i + 1).last() == self.bindings[i as int]@);
            }
            if self.bindings[i].key == key && self.bindings[i].mode == mode {
                return Some(&self.bindings[i].invocation);
            }
        }
        None
    }
}

/// The keymap after the bindings of a list were made one after the other; the
/// first refusal where one was refused.
pub open spec fn bound_all(keymap: KeymapView, list: Seq<BindingView>, table: CommandTableView) -> Result<
    KeymapView,
    ConfigErrorView,
>
    decreases list.len(),
{
    if list.len() == 0 {
        Ok(keymap)
    } else {
        match keymap.with(list[0], table) {
            Err(e) => Err(e),
            Ok(next) => bound_all(next, list.skip(1), table),
        }
    }
}

/// A binding of a key to a command with one argument or none.
pub open spec fn binding_of(key: Key, mode: ModeKind, name: Seq<char>, arg: Option<Seq<char>>) -> BindingView {
    BindingView {
        key,
        mode,
        invocation: InvocationView {
            name,
            args: match arg {
                Some(a) => seq![a],
                None => Seq::empty(),
            },
        },
    }
}

/// The bindings that the viewer starts with.
pub open spec fn standard_bindings() -> Seq<BindingView> {
    seq![
        binding_of(Key::Char(':'), ModeKind::Normal, "command"@, None),
        binding_of(Key::Char('/'), ModeKind::Normal, "search"@, None),
        binding_of(Key::Char('?'), ModeKind::Normal, "rsearch"@, None),
        binding_of(Key::Char('j'), ModeKind::Normal, "move"@, Some("1"@)),
        binding_of(Key::Down, ModeKind::Normal, "move"@, Some("1"@)),
        binding_of(Key::Char('k'), ModeKind::Normal, "move"@, Some("-1"@)),
        binding_of(Key::Up, ModeKind::Normal, "move"@, Some("-1"@)),
        binding_of(Key::PageDown, ModeKind::Normal, "move"@, Some("20"@)),
        binding_of(Key::PageUp, ModeKind::Normal, "move"@, Some("-20"@)),
        binding_of(Key::Home, ModeKind::Normal, "goto"@, Some("1"@)),
        binding_of(Key::Char('g'), ModeKind::Normal, "goto"@, Some("1"@)),
        binding_of(Key::End, ModeKind::Normal, "goto"@, Some("9223372036854775807"@)),
        binding_of(Key::Char('G'), ModeKind::Normal, "goto"@, Some("9223372036854775807"@)),
        binding_of(Key::Char('l'), ModeKind::Normal, "shift"@, Some("1"@)),
        binding_of(Key::Right, ModeKind::Normal, "shift"@, Some("1"@)),
        binding_of(Key::Char('h'), ModeKind::Normal, "shift"@, Some("-1"@)),
        binding_of(Key::Left, ModeKind::Normal, "shift"@, Some("-1"@)),
        binding_of(Key::Tab, ModeKind::Normal, "next"@, None),
        binding_of(Key::Char('L'), ModeKind::Normal, "next"@, None),
        binding_of(Key::Char('H'), ModeKind::Normal, "previous"@, None),
        binding_of(Key::Char('r'), ModeKind::Normal, "reset"@, None),
        binding_of(Key::Char('x'), ModeKind::Normal, "close"@, None),
        binding_of(Key::Char('q'), ModeKind::Normal, "quit"@, None),
        binding_of(Key::Tab, ModeKind::Search, "case"@, None),
    ]
}

/// The model of a keymap or of the reason why there is none.
pub open spec fn keymap_outcome(r: Result<Keymap, ConfigError>) -> Result<KeymapView, ConfigErrorView> {
    match r {
        Ok(k) => Ok(k@),
        Err(e) => Err(e@),
    }
}

fn binding(key: Key, mode: ModeKind, name: &str, arg: Option<&str>) -> (r: Binding)
    ensures
        r@ == binding_of(
            key,
            mode,
            name@,
            match arg {
                Some(a) => Some(a@),
                None => None,
            },
        ),
{
    let mut args: Vec<String> = Vec::new();
    match arg {
        Some(a) => {
            args.push(a.to_owned());
            assert(string_views(args@) =~= seq![a@]);
        },
        None => {
            assert(string_views(args@) =~= Seq::empty());
        },
    }
    Binding { key, mode, invocation: Invocation { name: name.to_owned(), args } }
}

fn standard_list() -> (r: Vec<Binding>)
    ensures
        binding_views(r@) == standard_bindings(),
{
    let least = "-1";
    let last = "9223372036854775807";
    let mut r: Vec<Binding> = Vec::new();
    r.push(binding(Key::Char(':'), ModeKind::Normal, "command", None));
    r.push(binding(Key::Char('/'), ModeKind::Normal, "search", None));
    r.push(binding(Key::Char('?'), ModeKind::Normal, "rsearch", None));
    r.push(binding(Key::Char('j'), ModeKind::Normal, "move", Some("1")));
    r.push(binding(Key::Down, ModeKind::Normal, "move", Some("1")));
    r.push(binding(Key::Char('k'), ModeKind::Normal, "move", Some(least)));
    r.push(binding(Key::Up, ModeKind::Normal, "move", Some(least)));
    r.push(binding(Key::PageDown, ModeKind::Normal, "move", Some("20")));
    r.push(binding(Key::PageUp, ModeKind::Normal, "move", Some("-20")));
    r.push(binding(Key::Home, ModeKind::Normal, "goto", Some("1")));
    r.push(binding(Key::Char('g'), ModeKind::Normal, "goto", Some("1")));
    r.push(binding(Key::End, ModeKind::Normal, "goto", Some(last)));
    r.push(binding(Key::Char('G'), ModeKind::Normal, "goto", Some(last)));
    r.push(binding(Key::Char('l'), ModeKind::Normal, "shift", Some("1")));
    r.push(binding(Key::Right, ModeKind::Normal, "shift", Some("1")));
    r.push(binding(Key::Char('h'), ModeKind::Normal, "shift", Some(least)));
    r.push(binding(Key::Left, ModeKind::Normal, "shift", Some(least)));
    r.push(binding(Key::Tab, ModeKind::Normal, "next", None));
    r.push(binding(Key::Char('L'), ModeKind::Normal, "next", None));
    r.push(binding(Key::Char('H'), ModeKind::Normal, "previous", None));
    r.push(binding(Key::Char('r'), ModeKind::Normal, "reset", None));
    r.push(binding(Key::Char('x'), ModeKind::Normal, "close", None));
    r.push(binding(Key::Char('q'), ModeKind::Normal, "quit", None));
    r.push(binding(Key::Tab, ModeKind::Search, "case", None));
    assert(binding_views(r@) =~= standard_bindings());
    r
}

/// The keymap of the bindings in a list, made one after the other. A binding
/// that is not in order is refused.
pub fn keymap_of(list: &Vec<Binding>, table: &CommandTable) -> (r: Result<Keymap, ConfigError>)
    ensures
        keymap_outcome(r) == bound_all(
            KeymapView { bindings: Seq::empty() },
            binding_views(list@),
            table@,
        ),
        match r {
            Ok(k) => k@.wf(table@),
            Err(_) => true,
        },
{
    let ghost all = binding_views(list@);
    let ghost start = KeymapView { bindings: Seq::empty() };
    let mut keymap = Keymap::new();
    assert(keymap@.bindings =~= start.bindings);
    assert(all.skip(0) =~= all);
    let mut i: usize = 0;
    while i < list.len()
        invariant
            i <= list.len(),
            all == binding_views(list@),
            start == (KeymapView { bindings: Seq::empty() }),
            keymap@.wf(table@),
            bound_all(start, all, table@) == bound_all(keymap@, all.skip(i as int), table@),
        decreases list.len() - i,
    {
        proof {
            assert(all.skip(i as int)[0] == list[i as int]@);
            assert(all.skip(i as int).skip(1) =~= all.skip(i + 1));
        }
        let ghost before = keymap@;
        let args = copy_strings(&list[i].invocation.args);
        match keymap.bind(list[i].key, list[i].mode, list[i].invocation.name.as_str(), args, table) {
            Err(e) => {
                assert(before.with(all.skip(i as int)[0], table@) == Err::<
                    KeymapView,
                    ConfigErrorView,
                >(e@));
                return Err(e);
            },
            Ok(_) => {},
        }
        i += 1;
    }
    Ok(keymap)
}

impl Keymap {
    /// The keymap that the viewer starts with, for a table of commands.
    pub fn standard(table: &CommandTable) -> (r: Result<Keymap, ConfigError>)
        ensures
            keymap_outcome(r) == bound_all(
                KeymapView { bindings: Seq::empty() },
                standard_bindings(),
                table@,
            ),
            match r {
                Ok(k) => k@.wf(table@),
                Err(_) => true,
            },
    {
        let list = standard_list();
        keymap_of(&list, table)
    }
}

/// Bindings that are in order are made: after them the keymap holds the
/// bindings it held, followed by those of the list.
pub proof fn lemma_bound_all(keymap: KeymapView, list: Seq<BindingView>, table: CommandTableView)
    requires
        forall|i: int| 0 <= i < list.len() ==> well_bound(#[trigger] list[i], table),
    ensures
        bound_all(keymap, list, table) == Ok::<KeymapView, ConfigErrorView>(
            KeymapView { bindings: keymap.bindings + list },
        ),
    decreases list.len(),
{
    if list.len() == 0 {
        assert(keymap.bindings + list =~= keymap.bindings);
    } else {
        let next = KeymapView { bindings: keymap.bindings.push(list[0]) };
        assert(well_bound(list[0], table));
        assert forall|i: int| 0 <= i < list.skip(1).len() implies well_bound(
            #[trigger] list.skip(1)[i],
            table,
        ) by {
            assert(list.skip(1)[i] == list[i + 1]);
        }
        lemma_bound_all(next, list.skip(1), table);
        assert(next.bindings + list.skip(1) =~= keymap.bindings + list);
    }
}

/// The keymap that the viewer starts with.
pub open spec fn standard_keymap() -> KeymapView {
    KeymapView { bindings: standard_bindings() }
}

/// The bindings that the viewer starts with are in order for the commands
/// that it knows.
pub proof fn lemma_standard_bindings()
    ensures
        standard_keymap().wf(standard_table()),
        bound_all(KeymapView { bindings: Seq::empty() }, standard_bindings(), standard_table())
            == Ok::<KeymapView, ConfigErrorView>(standard_keymap()),
{
    let table = standard_table();
    let commands = standard_commands();
    lemma_standard_commands();
    assert(commands.len() == 18);
    lemma_finds(table, 1);
    lemma_finds(table, 3);
    lemma_finds(table, 5);
    lemma_finds(table, 6);
    lemma_finds(table, 10);
    lemma_finds(table, 11);
    lemma_finds(table, 12);
    lemma_finds(table, 13);
    lemma_finds(table, 14);
    lemma_finds(table, 15);
    lemma_finds(table, 16);
    lemma_finds(table, 17);
    assert(table.find("close"@) == Some(commands[1]));
    assert(table.find("goto"@) == Some(commands[3]));
    assert(table.find("move"@) == Some(commands[5]));
    assert(table.find("shift"@) == Some(commands[6]));
    assert(table.find("reset"@) == Some(commands[10]));
    assert(table.find("case"@) == Some(commands[11]));
    assert(table.find("next"@) == Some(commands[12]));
    assert(table.find("previous"@) == Some(commands[13]));
    assert(table.find("command"@) == Some(commands[14]));
    assert(table.find("search"@) == Some(commands[15]));
    assert(table.find("rsearch"@) == Some(commands[16]));
    assert(table.find("quit"@) == Some(commands[17]));
    let list = standard_bindings();
    assert(list.len() == 24);
    assert forall|i: int| 0 <= i < list.len() implies well_bound(#[trigger] list[i], table) by {}
    let start = KeymapView { bindings: Seq::empty() };
    lemma_bound_all(start, list, table);
    assert(start.bindings + list =~= list);
}

} // verus!
