//! The table registry: the names under which tables can be queried.
//!
//! A name is given once. Registering under a name already in use stores the new
//! table under the first free name of the series `name`, `name_2`, `name_3`, ...
//! and leaves every stored table as it is.

use vstd::prelude::*;
use crate::table::{Table, TableView};
use crate::text::{chars_of, decimal, lemma_decimal_injective, push_decimal, string_of};

verus! {

/// The `k`-th name tried for `base`: `base` itself for `k <= 1`, then `base`
/// followed by `_` and the decimal numeral of `k`.
pub open spec fn candidate(base: Seq<char>, k: nat) -> Seq<char> {
    if k <= 1 {
        base
    } else {
        base + seq!['_'] + decimal(k)
    }
}

/// Different places in the series give different names.
pub proof fn lemma_candidate_injective(base: Seq<char>, j: nat, k: nat)
    requires
        1 <= j,
        1 <= k,
        candidate(base, j) == candidate(base, k),
    ensures
        j == k,
{
    if j >= 2 && k >= 2 {
        let a = base + seq!['_'] + decimal(j);
        let b = base + seq!['_'] + decimal(k);
        assert(a.skip(base.len() as int + 1) =~= decimal(j));
        assert(b.skip(base.len() as int + 1) =~= decimal(k));
        lemma_decimal_injective(j, k);
    } else if j >= 2 {
        assert((base + seq!['_'] + decimal(j)).len() > base.len());
    } else if k >= 2 {
        assert((base + seq!['_'] + decimal(k)).len() > base.len());
    }
}

/// If the first `k` names of the series all occur in `names`, then `names` has
/// at least `k` items.
pub proof fn lemma_candidates_fit(names: Seq<Seq<char>>, base: Seq<char>, k: nat)
    requires
        forall|j: nat| 1 <= j <= k ==> names.contains(#[trigger] candidate(base, j)),
    ensures
        k <= names.len(),
    decreases k,
{
    if k > 0 {
        assert(names.contains(candidate(base, k)));
        let p = choose|p: int| 0 <= p < names.len() && names[p] == candidate(base, k);
        let rest = names.remove(p);
        assert forall|j: nat| 1 <= j <= k - 1 implies rest.contains(
            #[trigger] candidate(base, j),
        ) by {
            assert(names.contains(candidate(base, j)));
            let q = choose|q: int| 0 <= q < names.len() && names[q] == candidate(base, j);
            if q == p {
                lemma_candidate_injective(base, j, k);
            }
            if q < p {
                assert(rest[q] == names[q]);
            } else {
                assert(rest[q - 1] == names[q]);
            }
        }
        lemma_candidates_fit(rest, base, (k - 1) as nat);
    }
}

/// Whether `name` is the first name of the series of `base` that `taken` lacks.
pub open spec fn first_free(taken: Seq<Seq<char>>, base: Seq<char>, name: Seq<char>) -> bool {
    exists|k: nat|
        {
            &&& 1 <= k
            &&& name == #[trigger] candidate(base, k)
            &&& !taken.contains(name)
            &&& forall|j: nat| 1 <= j < k ==> taken.contains(#[trigger] candidate(base, j))
        }
}

/// At most one name is the first free one.
pub proof fn lemma_first_free_unique(
    taken: Seq<Seq<char>>,
    base: Seq<char>,
    a: Seq<char>,
    b: Seq<char>,
)
    requires
        first_free(taken, base, a),
        first_free(taken, base, b),
    ensures
        a == b,
{
    let j = choose|k: nat|
        {
            &&& 1 <= k
            &&& a == #[trigger] candidate(base, k)
            &&& !taken.contains(a)
            &&& forall|i: nat| 1 <= i < k ==> taken.contains(#[trigger] candidate(base, i))
        };
    let k = choose|k: nat|
        {
            &&& 1 <= k
            &&& b == #[trigger] candidate(base, k)
            &&& !taken.contains(b)
            &&& forall|i: nat| 1 <= i < k ==> taken.contains(#[trigger] candidate(base, i))
        };
    if j < k {
        assert(taken.contains(candidate(base, j)));
    } else if k < j {
        assert(taken.contains(candidate(base, k)));
    }
}

/// The views of a vector of strings.
pub open spec fn string_views(v: Seq<String>) -> Seq<Seq<char>> {
    Seq::new(v.len(), |i: int| v[i]@)
}

/// The `k`-th name of the series of `base`.
pub fn candidate_name(base: &str, k: u128) -> (r: String)
    ensures
        r@ == candidate(base@, k as nat),
{
    if k <= 1 {
        base.to_owned()
    } else {
        let mut chars = chars_of(base);
        chars.push('_');
        push_decimal(&mut chars, k);
        assert(chars@ =~= candidate(base@, k as nat));
        string_of(&chars)
    }
}

/// Whether `taken` holds `name`.
pub fn holds_name(taken: &Vec<String>, name: &String) -> (r: bool)
    ensures
        r == string_views(taken@).contains(name@),
{
    let mut i: usize = 0;
    while i < taken.len()
        invariant
            i <= taken.len(),
            forall|j: int| 0 <= j < i ==> string_views(taken@)[j] != name@,
        decreases taken.len() - i,
    {
        if String::eq(&taken[i], name) {
            assert(string_views(taken@)[i as int] == name@);
            return true;
        }
        i += 1;
    }
    false
}

/// The first name of the series `base`, `base_2`, `base_3`, ... that `taken`
/// does not hold.
pub fn unique_name(base: &str, taken: &Vec<String>) -> (r: String)
    ensures
        first_free(string_views(taken@), base@, r@),
{
    let ghost names = string_views(taken@);
    let mut k: u128 = 1;
    loop
        invariant
            names == string_views(taken@),
            1 <= k <= taken.len() + 1,
            forall|j: nat| 1 <= j < k ==> names.contains(#[trigger] candidate(base@, j)),
        decreases taken.len() + 1 - k,
    {
        let name = candidate_name(base, k);
        if !holds_name(taken, &name) {
            return name;
        }
        proof {
            lemma_candidates_fit(names, base@, k as nat);
        }
        k += 1;
    }
}

/// The model of an optional string.
pub open spec fn optional_view(o: Option<String>) -> Option<Seq<char>> {
    match o {
        Some(s) => Some(s@),
        None => None,
    }
}

/// The model of a registry entry.
pub struct EntryView {
    pub name: Seq<char>,
    pub table: TableView,
    pub origin: Option<Seq<char>>,
}

/// The model of a registry: its entries in the order in which they were
/// registered.
pub struct RegistryView {
    pub entries: Seq<EntryView>,
}

impl RegistryView {
    /// The names of the entries, in order.
    pub open spec fn names(self) -> Seq<Seq<char>> {
        Seq::new(self.entries.len(), |i: int| self.entries[i].name)
    }

    /// No name is empty, no two entries share a name, and every table is well
    /// formed.
    pub open spec fn wf(self) -> bool {
        &&& forall|i: int| 0 <= i < self.entries.len() ==> (#[trigger] self.entries[i]).name.len() > 0
        &&& forall|i: int| 0 <= i < self.entries.len() ==> (#[trigger] self.entries[i]).table.wf()
        &&& forall|i: int, j: int|
            0 <= i < j < self.entries.len() ==> (#[trigger] self.entries[i]).name
                != (#[trigger] self.entries[j]).name
    }

    /// The index of the entry called `name`, if there is one.
    pub open spec fn index_of(self, name: Seq<char>) -> Option<int> {
        if exists|i: int| 0 <= i < self.entries.len() && self.entries[i].name == name {
            Some(choose|i: int| 0 <= i < self.entries.len() && self.entries[i].name == name)
        } else {
            None
        }
    }

    /// The table registered as `name`, if there is one.
    pub open spec fn find(self, name: Seq<char>) -> Option<TableView> {
        match self.index_of(name) {
            Some(i) => Some(self.entries[i].table),
            None => None,
        }
    }

    /// The registry with one more entry at its end.
    pub open spec fn with(self, entry: EntryView) -> RegistryView {
        RegistryView { entries: self.entries.push(entry) }
    }

    /// The registry with entry `i` under another name.
    pub open spec fn renamed(self, i: int, name: Seq<char>) -> RegistryView {
        RegistryView {
            entries: self.entries.update(
                i,
                EntryView { name, table: self.entries[i].table, origin: self.entries[i].origin },
            ),
        }
    }

    /// What comes of giving the entry called `from` the name `to`: the new
    /// name must not be empty, the entry must exist, and no other entry may
    /// have the new name.
    pub open spec fn rename_outcome(self, from: Seq<char>, to: Seq<char>) -> Result<
        RegistryView,
        RegistryError,
    > {
        if to.len() == 0 {
            Err(RegistryError::EmptyName)
        } else {
            match self.index_of(from) {
                None => Err(RegistryError::NotFound),
                Some(i) => if from != to && self.index_of(to) is Some {
                    Err(RegistryError::NameTaken)
                } else {
                    Ok(self.renamed(i, to))
                },
            }
        }
    }
}

/// An entry that was given another name is found under that name, with the
/// table it had; the registry stays well formed.
pub proof fn lemma_renamed(reg: RegistryView, from: Seq<char>, to: Seq<char>)
    requires
        reg.wf(),
        reg.rename_outcome(from, to) is Ok,
    ensures
        reg.rename_outcome(from, to)->Ok_0.wf(),
        reg.rename_outcome(from, to)->Ok_0.find(to) == reg.find(from),
{
    let i = reg.index_of(from)->Some_0;
    let after = reg.renamed(i, to);
    assert(after.entries[i].name == to);
    assert forall|a: int, b: int| 0 <= a < b < after.entries.len() implies (
    #[trigger] after.entries[a]).name != (#[trigger] after.entries[b]).name by {
        if a == i {
            assert(reg.entries[b].name != reg.entries[i].name);
            if reg.entries[b].name == to {
                assert(reg.index_of(to) is Some);
            }
        } else if b == i {
            assert(reg.entries[a].name != reg.entries[i].name);
            if reg.entries[a].name == to {
                assert(reg.index_of(to) is Some);
            }
        } else {
            assert(after.entries[a] == reg.entries[a]);
            assert(after.entries[b] == reg.entries[b]);
        }
    }
    assert forall|a: int| 0 <= a < after.entries.len() implies (#[trigger] after.entries[a]).name.len()
        > 0 && after.entries[a].table.wf() by {
        if a != i {
            assert(after.entries[a] == reg.entries[a]);
        } else {
            assert(reg.entries[i].table.wf());
        }
    }
    let j = after.index_of(to)->Some_0;
    if j < i {
        assert(after.entries[j].name != after.entries[i].name);
    } else if i < j {
        assert(after.entries[i].name != after.entries[j].name);
    }
}

/// Looking up the name under which a table was just stored gives that table.
pub proof fn law_lookup_after_register(reg: RegistryView, entry: EntryView)
    requires
        reg.wf(),
        !reg.names().contains(entry.name),
    ensures
        reg.with(entry).find(entry.name) == Some(entry.table),
{
    let after = reg.with(entry);
    let last = reg.entries.len() as int;
    assert(after.entries[last].name == entry.name);
    let i = choose|i: int| 0 <= i < after.entries.len() && after.entries[i].name == entry.name;
    if i < last {
        assert(reg.names()[i] == entry.name);
    }
}

/// Storing one more table leaves every earlier name bound to the table it had.
pub proof fn law_register_keeps_entries(reg: RegistryView, entry: EntryView, name: Seq<char>)
    requires
        reg.wf(),
        !reg.names().contains(entry.name),
        reg.find(name) is Some,
    ensures
        reg.with(entry).find(name) == reg.find(name),
{
    let after = reg.with(entry);
    let i = choose|i: int| 0 <= i < reg.entries.len() && reg.entries[i].name == name;
    assert(after.entries[i].name == name);
    let j = choose|j: int| 0 <= j < after.entries.len() && after.entries[j].name == name;
    assert(reg.names()[i] == name);
    if j == reg.entries.len() {
        assert(false);
    } else if j != i {
        assert(after.entries[j] == reg.entries[j]);
        assert(false);
    }
}

/// Why the registry refused a request.
#[derive(Clone, Copy, PartialEq, Eq, Debug, Structural)]
pub enum RegistryError {
    /// The name given is empty.
    EmptyName,
    /// No table is registered under the name.
    NotFound,
    /// Another table is registered under the new name.
    NameTaken,
}

#[derive(Debug)]
struct Entry {
    name: String,
    table: Table,
    origin: Option<String>,
}

impl Entry {
    spec fn model(&self) -> EntryView {
        EntryView {
            name: self.name@,
            table: self.table@,
            origin: optional_view(self.origin),
        }
    }
}

/// One line of the registry's listing.
#[derive(Debug)]
pub struct Listing {
    pub name: String,
    pub rows: usize,
    pub columns: usize,
}

/// The registry of named tables.
#[derive(Debug)]
pub struct Registry {
    entries: Vec<Entry>,
}

impl View for Registry {
    type V = RegistryView;

    closed spec fn view(&self) -> RegistryView {
        RegistryView { entries: Seq::new(self.entries.len() as nat, |i: int| self.entries[i].model()) }
    }
}

impl Registry {
    /// The registry without entries.
    pub fn new() -> (r: Registry)
        ensures
            r@.entries.len() == 0,
            r@.wf(),
    {
        Registry { entries: Vec::new() }
    }

    /// The number of entries.
    pub fn len(&self) -> (r: usize)
        ensures
            r == self@.entries.len(),
    {
        self.entries.len()
    }

    fn names(&self) -> (r: Vec<String>)
        ensures
            string_views(r@) == self@.names(),
    {
        let mut r: Vec<String> = Vec::new();
        let mut i: usize = 0;
        while i < self.entries.len()
            invariant
                i <= self.entries.len(),
                r.len() == i,
                forall|j: int| 0 <= j < i ==> (#[trigger] r[j])@ == self.entries[j].name@,
            decreases self.entries.len() - i,
        {
            r.push(self.entries[i].name.clone());
            i += 1;
        }
        assert(string_views(r@) =~= self@.names());
        r
    }

    fn position(&self, name: &str) -> (r: Option<usize>)
        requires
            self@.wf(),
        ensures
            match r {
                Some(i) => i < self@.entries.len() && self@.index_of(name@) == Some(i as int),
                None => self@.index_of(name@) is None,
            },
    {
        let wanted = name.to_owned();
        let mut i: usize = 0;
        while i < self.entries.len()
            invariant
                i <= self.entries.len(),
                wanted@ == name@,
                self@.wf(),
                forall|j: int| 0 <= j < i ==> (#[trigger] self@.entries[j]).name != name@,
            decreases self.entries.len() - i,
        {
            if String::eq(&self.entries[i].name, &wanted) {
                proof {
                    assert(self@.entries[i as int].name == name@);
                    let c = choose|c: int| 0 <= c < self@.entries.len() && self@.entries[c].name == name@;
                    if c < i {
                        assert(self@.entries[c].name != self@.entries[i as int].name);
                    } else if i < c {
                        assert(self@.entries[i as int].name != self@.entries[c].name);
                    }
                    assert(c == i);
                }
                return Some(i);
            }
            i += 1;
        }
        None
    }

    /// Stores `table` under the first free name of the series `name`, `name_2`,
    /// `name_3`, ... and returns that name. Only an empty name is refused. The
    /// entries stored before stay as they are.
    pub fn register(&mut self, name: &str, table: Table, origin: Option<String>) -> (r: Result<
        String,
        RegistryError,
    >)
        requires
            old(self)@.wf(),
        ensures
            final(self)@.wf(),
            match r {
                Ok(stored) => {
                    &&& name@.len() > 0
                    &&& first_free(old(self)@.names(), name@, stored@)
                    &&& final(self)@ == old(self)@.with(
                        EntryView { name: stored@, table: table@, origin: optional_view(origin) },
                    )
                    &&& final(self)@.find(stored@) == Some(table@)
                },
                Err(e) => e == RegistryError::EmptyName && name@.len() == 0 && final(self)@ == old(
                    self,
                )@,
            },
    {
        proof {
            use_type_invariant(&table);
        }
        if name.unicode_len() == 0 {
            return Err(RegistryError::EmptyName);
        }
        let taken = self.names();
        let stored = unique_name(name, &taken);
        proof {
            let k = choose|k: nat|
                {
                    &&& 1 <= k
                    &&& stored@ == #[trigger] candidate(name@, k)
                    &&& !self@.names().contains(stored@)
                    &&& forall|j: nat|
                        1 <= j < k ==> self@.names().contains(#[trigger] candidate(name@, j))
                };
            assert(stored@.len() > 0);
            assert forall|i: int| 0 <= i < self@.entries.len() implies (
            #[trigger] self@.entries[i]).name != stored@ by {
                assert(self@.names()[i] == self@.entries[i].name);
            }
        }
        let result = stored.clone();
        let ghost entry = EntryView { name: stored@, table: table@, origin: optional_view(origin) };
        let ghost before = self@;
        self.entries.push(Entry { name: stored, table, origin });
        proof {
            assert(self@.entries =~= before.entries.push(entry));
            law_lookup_after_register(before, entry);
        }
        Ok(result)
    }

    /// Gives the entry called `from` the name `to`. Refused where `to` is
    /// empty, where no entry is called `from`, and where another entry is
    /// called `to`; the registry then stays as it is.
    pub fn rename(&mut self, from: &str, to: &str) -> (r: Result<(), RegistryError>)
        requires
            old(self)@.wf(),
        ensures
            final(self)@.wf(),
            match old(self)@.rename_outcome(from@, to@) {
                Ok(reg) => r is Ok && final(self)@ == reg,
                Err(e) => r == Err::<(), RegistryError>(e) && final(self)@ == old(self)@,
            },
    {
        if to.unicode_len() == 0 {
            return Err(RegistryError::EmptyName);
        }
        let i = match self.position(from) {
            None => {
                return Err(RegistryError::NotFound);
            },
            Some(i) => i,
        };
        let same = String::eq(&from.to_owned(), &to.to_owned());
        if !same && self.position(to).is_some() {
            return Err(RegistryError::NameTaken);
        }
        let ghost before = self@;
        proof {
            lemma_renamed(before, from@, to@);
        }
        let entry = self.entries.remove(i);
        self.entries.insert(i, Entry { name: to.to_owned(), table: entry.table, origin: entry.origin });
        assert(self@.entries =~= before.renamed(i as int, to@).entries);
        Ok(())
    }

    /// The table registered as `name`.
    pub fn lookup(&self, name: &str) -> (r: Result<&Table, RegistryError>)
        requires
            self@.wf(),
        ensures
            match r {
                Ok(t) => self@.find(name@) == Some(t@),
                Err(e) => e == RegistryError::NotFound && self@.find(name@) is None,
            },
    {
        match self.position(name) {
            Some(i) => Ok(&self.entries[i].table),
            None => Err(RegistryError::NotFound),
        }
    }

    /// The file or other source that the table registered as `name` came from.
    pub fn origin(&self, name: &str) -> (r: Option<&String>)
        requires
            self@.wf(),
        ensures
            match r {
                Some(s) => match self@.index_of(name@) {
                    Some(i) => self@.entries[i].origin == Some(s@),
                    None => false,
                },
                None => match self@.index_of(name@) {
                    Some(i) => self@.entries[i].origin is None,
                    None => true,
                },
            },
    {
        match self.position(name) {
            Some(i) => self.entries[i].origin.as_ref(),
            None => None,
        }
    }

    /// The name, the number of rows and the number of columns of every entry, in
    /// the order of registration.
    pub fn list(&self) -> (r: Vec<Listing>)
        ensures
            r.len() == self@.entries.len(),
            forall|i: int|
                0 <= i < r.len() ==> {
                    &&& (#[trigger] r[i]).name@ == self@.entries[i].name
                    &&& r[i].rows == self@.entries[i].table.height
                    &&& r[i].columns == self@.entries[i].table.columns.len()
                },
    {
        let mut r: Vec<Listing> = Vec::new();
        let mut i: usize = 0;
        while i < self.entries.len()
            invariant
                i <= self.entries.len(),
                r.len() == i,
                forall|j: int|
                    0 <= j < i ==> {
                        &&& (#[trigger] r[j]).name@ == self@.entries[j].name
                        &&& r[j].rows == self@.entries[j].table.height
                        &&& r[j].columns == self@.entries[j].table.columns.len()
                    },
            decreases self.entries.len() - i,
        {
            let entry = &self.entries[i];
            r.push(
                Listing {
                    name: entry.name.clone(),
                    rows: entry.table.height(),
                    columns: entry.table.width(),
                },
            );
            i += 1;
        }
        r
    }
}

} // verus!
