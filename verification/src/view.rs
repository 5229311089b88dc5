//! The state of a view of a table.
//!
//! A view shows the rows of a table that pass its filter, in the order of its
//! sort key, and holds a selected row, a selected column and a scroll offset.
//! The table itself is never changed: the view holds indices of its rows.

use vstd::prelude::*;
use crate::engine::{compile_filter, filter_of, table_rows};
use crate::expr::{row_views, RowExpr, RowExprView};
use crate::order::{
    identity, identity_indices, in_order, lemma_sorted_in_order, lemma_sorted_members,
    lemma_sorted_permutes, precedes, row_at, sort_indices, sorted, SortKey,
};
use crate::plan::optional_row;
use crate::query::{passes, row_passes};
use crate::resolve::QueryError;
use crate::table::{rows_of, ColumnView, Table, TableView};
use crate::text::{chars_of, contains_text, find_text, lower_seq, to_lower_vec};
use crate::value::{Value, ValueView};

verus! {

/// The indices of all rows in the order of a sort key; as the rows stand in
/// the table where there is none.
pub open spec fn ordered(rows: Seq<Seq<ValueView>>, sort: Option<SortKey>) -> Seq<usize> {
    match sort {
        None => identity(rows.len()),
        Some(k) => sorted(rows, seq![k], identity(rows.len())),
    }
}

/// The indices of `s` whose rows pass a condition, in their order.
pub open spec fn chosen(rows: Seq<Seq<ValueView>>, pred: Option<RowExprView>, s: Seq<usize>) -> Seq<
    usize,
>
    decreases s.len(),
{
    if s.len() == 0 {
        Seq::empty()
    } else if passes(pred, row_at(rows, s.last())) {
        chosen(rows, pred, s.drop_last()).push(s.last())
    } else {
        chosen(rows, pred, s.drop_last())
    }
}

/// The rows that a view shows: all rows put in order, those left out that do
/// not pass the filter.
pub open spec fn shown(
    rows: Seq<Seq<ValueView>>,
    sort: Option<SortKey>,
    filter: Option<RowExprView>,
) -> Seq<usize> {
    chosen(rows, filter, ordered(rows, sort))
}

/// The index nearest to `i` among `0, ..., n - 1`; zero where there is none.
pub open spec fn clamp(i: int, n: int) -> int {
    if i < 0 || n <= 0 {
        0
    } else if i >= n {
        n - 1
    } else {
        i
    }
}

/// The length of the longest rendered value.
pub open spec fn widest(values: Seq<ValueView>) -> nat
    decreases values.len(),
{
    if values.len() == 0 {
        0
    } else if values.last().rendered().len() > widest(values.drop_last()) {
        values.last().rendered().len()
    } else {
        widest(values.drop_last())
    }
}

/// The width that shows a column in full: the length of its name or of its
/// longest rendered value, whichever is more.
pub open spec fn hint(c: ColumnView) -> nat {
    if c.name.len() > widest(c.values) {
        c.name.len()
    } else {
        widest(c.values)
    }
}

/// The width hints of the columns of a table.
pub open spec fn hints(t: TableView) -> Seq<nat> {
    Seq::new(t.columns.len(), |c: int| hint(t.columns[c]))
}

/// Every index of the rows put in order is the index of a row, and there are as
/// many as rows.
pub proof fn lemma_ordered_bounds(rows: Seq<Seq<ValueView>>, sort: Option<SortKey>)
    ensures
        ordered(rows, sort).len() == rows.len(),
        forall|k: int| 0 <= k < ordered(rows, sort).len() ==> (#[trigger] ordered(rows, sort)[k]) < rows.len(),
{
    match sort {
        None => {},
        Some(key) => {
            let all = identity(rows.len());
            lemma_sorted_permutes(rows, seq![key], all);
            assert forall|k: int| 0 <= k < ordered(rows, sort).len() implies (#[trigger] ordered(
                rows,
                sort,
            )[k]) < rows.len() by {
                lemma_sorted_members(rows, seq![key], all, k);
                let x = ordered(rows, sort)[k];
                let q = choose|q: int| 0 <= q < all.len() && all[q] == x;
                assert(all[q] == q as usize);
            }
        },
    }
}

/// Every chosen index is one of the list, and two chosen indices stand as they
/// stood in the list.
pub proof fn lemma_chosen_places(
    rows: Seq<Seq<ValueView>>,
    pred: Option<RowExprView>,
    s: Seq<usize>,
    i: int,
    j: int,
) -> (places: (int, int))
    requires
        0 <= i <= j < chosen(rows, pred, s).len(),
    ensures
        0 <= places.0 <= places.1 < s.len(),
        i < j ==> places.0 < places.1,
        s[places.0] == chosen(rows, pred, s)[i],
        s[places.1] == chosen(rows, pred, s)[j],
        chosen(rows, pred, s).len() <= s.len(),
        passes(pred, row_at(rows, chosen(rows, pred, s)[i])),
        passes(pred, row_at(rows, chosen(rows, pred, s)[j])),
    decreases s.len(),
{
    let c = chosen(rows, pred, s);
    let before = chosen(rows, pred, s.drop_last());
    if before.len() > 0 {
        lemma_chosen_places(rows, pred, s.drop_last(), 0, 0);
    }
    if j < before.len() {
        let (a, b) = lemma_chosen_places(rows, pred, s.drop_last(), i, j);
        (a, b)
    } else if i < before.len() {
        let (a, _b) = lemma_chosen_places(rows, pred, s.drop_last(), i, i);
        (a, s.len() - 1)
    } else {
        (s.len() - 1, s.len() - 1)
    }
}

/// With no condition every index is chosen.
pub proof fn lemma_chosen_all(rows: Seq<Seq<ValueView>>, s: Seq<usize>)
    ensures
        chosen(rows, None, s) == s,
    decreases s.len(),
{
    if s.len() > 0 {
        lemma_chosen_all(rows, s.drop_last());
        assert(s.drop_last().push(s.last()) =~= s);
    } else {
        assert(s =~= Seq::empty());
    }
}

/// A view shows indices of rows, and no more of them than there are rows.
pub proof fn lemma_shown_bounds(
    rows: Seq<Seq<ValueView>>,
    sort: Option<SortKey>,
    filter: Option<RowExprView>,
)
    ensures
        shown(rows, sort, filter).len() <= rows.len(),
        forall|k: int|
            0 <= k < shown(rows, sort, filter).len() ==> (#[trigger] shown(rows, sort, filter)[k])
                < rows.len(),
{
    lemma_ordered_bounds(rows, sort);
    let all = ordered(rows, sort);
    let s = shown(rows, sort, filter);
    if s.len() > 0 {
        lemma_chosen_places(rows, filter, all, 0, 0);
    }
    assert forall|k: int| 0 <= k < s.len() implies (#[trigger] s[k]) < rows.len() by {
        let (a, _b) = lemma_chosen_places(rows, filter, all, k, k);
        assert(all[a] < rows.len());
    }
}

/// A view with a sort key shows its rows in the order of that key, whatever
/// its filter: no shown row has to come before a row shown above it. The rows
/// it shows are those of the view without filter that pass the filter, in the
/// order they have there.
pub proof fn law_filter_keeps_order(
    rows: Seq<Seq<ValueView>>,
    key: SortKey,
    filter: Option<RowExprView>,
)
    ensures
        in_order(rows, seq![key], shown(rows, Some(key), filter)),
        shown(rows, Some(key), filter) == chosen(rows, filter, shown(rows, Some(key), None)),
{
    let all = ordered(rows, Some(key));
    let s = shown(rows, Some(key), filter);
    lemma_sorted_in_order(rows, seq![key], identity(rows.len()));
    lemma_chosen_all(rows, all);
    assert forall|i: int, j: int| 0 <= i < j < s.len() implies !precedes(
        rows,
        seq![key],
        s[j],
        s[i],
    ) by {
        let (a, b) = lemma_chosen_places(rows, filter, all, i, j);
        assert(!precedes(rows, seq![key], all[b], all[a]));
    }
}

/// The rows that a view shows.
pub fn visible_rows(rows: &Vec<Vec<Value>>, sort: &Option<SortKey>, filter: &Option<RowExpr>) -> (r:
    Vec<usize>)
    ensures
        r@ == shown(row_views(rows@), *sort, optional_row(*filter)),
{
    let ghost all = row_views(rows@);
    let ghost pred = optional_row(*filter);
    let indices = identity_indices(rows.len());
    let order = match sort {
        None => indices,
        Some(k) => {
            let mut keys: Vec<SortKey> = Vec::new();
            keys.push(*k);
            assert(keys@ =~= seq![*k]);
            sort_indices(rows, &keys, &indices)
        },
    };
    proof {
        lemma_ordered_bounds(all, *sort);
    }
    let mut out: Vec<usize> = Vec::new();
    let mut i: usize = 0;
    assert(order@.take(0) =~= Seq::empty());
    while i < order.len()
        invariant
            i <= order.len(),
            all == row_views(rows@),
            pred == optional_row(*filter),
            order@ == ordered(all, *sort),
            forall|k: int| 0 <= k < order.len() ==> (#[trigger] order[k]) < rows.len(),
            out@ == chosen(all, pred, order@.take(i as int)),
        decreases order.len() - i,
    {
        let index = order[i];
        proof {
            assert(order@.take(i + 1).drop_last() =~= order@.take(i as int));
            assert(order@.take(i + 1).last() == index);
            assert(row_at(all, index) == crate::expr::value_views(rows[index as int]@));
        }
        if row_passes(filter, &rows[index]) {
            out.push(index);
        }
        i += 1;
    }
    assert(order@.take(order.len() as int) =~= order@);
    out
}

/// The model of the state of a view.
pub struct ViewStateView {
    /// The place of the selected row among the rows shown.
    pub selected: int,
    /// The selected column.
    pub column: int,
    /// The place of the first row on the screen among the rows shown.
    pub scroll: int,
    pub sort: Option<SortKey>,
    pub filter: Option<RowExprView>,
    /// The indices of the rows shown, from the first to the last.
    pub visible: Seq<usize>,
    /// The width hint of each column.
    pub widths: Seq<nat>,
}

impl ViewStateView {
    /// The state fits the table: it shows the rows of the table that its sort
    /// key and filter give; the selected row and the scroll offset are places
    /// of shown rows, or zero where none is shown; the selected column is a
    /// column of the table, or zero where it has none.
    pub open spec fn wf(self, t: TableView) -> bool {
        &&& self.visible == shown(rows_of(t), self.sort, self.filter)
        &&& self.widths == hints(t)
        &&& self.selected == clamp(self.selected, self.visible.len() as int)
        &&& self.scroll == clamp(self.scroll, self.visible.len() as int)
        &&& self.column == clamp(self.column, self.widths.len() as int)
    }

    /// The state of a view that was just opened on a table.
    pub open spec fn start(t: TableView) -> ViewStateView {
        ViewStateView {
            selected: 0,
            column: 0,
            scroll: 0,
            sort: None,
            filter: None,
            visible: shown(rows_of(t), None, None),
            widths: hints(t),
        }
    }

    /// The state showing other rows: selection and scroll offset move up to
    /// the last of them where they were below it.
    pub open spec fn showing(self, visible: Seq<usize>) -> ViewStateView {
        ViewStateView {
            selected: clamp(self.selected, visible.len() as int),
            scroll: clamp(self.scroll, visible.len() as int),
            visible,
            ..self
        }
    }

    /// The state after the sort key was set or cleared.
    pub open spec fn with_sort(self, t: TableView, sort: Option<SortKey>) -> ViewStateView {
        (ViewStateView { sort, ..self }).showing(shown(rows_of(t), sort, self.filter))
    }

    /// The state after the filter was set or cleared.
    pub open spec fn with_filter(self, t: TableView, filter: Option<RowExprView>) -> ViewStateView {
        (ViewStateView { filter, ..self }).showing(shown(rows_of(t), self.sort, filter))
    }

    /// The state after the selection moved by `delta` rows, as far as there
    /// are rows.
    pub open spec fn moved(self, delta: int) -> ViewStateView {
        ViewStateView { selected: clamp(self.selected + delta, self.visible.len() as int), ..self }
    }

    /// The state with the row at a place selected, the last row where the
    /// place is below it.
    pub open spec fn at_row(self, place: int) -> ViewStateView {
        ViewStateView { selected: clamp(place, self.visible.len() as int), ..self }
    }

    /// The state with a column selected, the last column where there is no
    /// such column.
    pub open spec fn at_column(self, column: int) -> ViewStateView {
        ViewStateView { column: clamp(column, self.widths.len() as int), ..self }
    }

    /// The state scrolled to an offset, as far as there are rows.
    pub open spec fn scrolled(self, offset: int) -> ViewStateView {
        ViewStateView { scroll: clamp(offset, self.visible.len() as int), ..self }
    }

    /// The state scrolled no further than needed to have the selected row
    /// among the `page` rows on the screen.
    pub open spec fn followed(self, page: int) -> ViewStateView {
        ViewStateView {
            scroll: if self.selected < self.scroll {
                self.selected
            } else if page > 0 && self.selected >= self.scroll + page {
                self.selected - page + 1
            } else {
                self.scroll
            },
            ..self
        }
    }

    /// The index in the table of the selected row.
    pub open spec fn selected_row(self) -> Option<usize> {
        if 0 <= self.selected < self.visible.len() {
            Some(self.visible[self.selected])
        } else {
            None
        }
    }
}

/// Setting a filter and clearing it again gives back the rows that were shown
/// before, in the order they had: what a view without filter shows depends on
/// its table and its sort key alone.
pub proof fn law_filter_round_trip(v: ViewStateView, t: TableView, filter: Option<RowExprView>)
    requires
        v.wf(t),
        v.filter is None,
    ensures
        v.with_filter(t, filter).with_filter(t, None).visible == v.visible,
        v.with_filter(t, filter).with_filter(t, None).sort == v.sort,
        v.with_filter(t, filter).visible.len() == v.visible.len() ==> v.with_filter(t, filter).with_filter(
            t,
            None,
        ) == v,
{
}

/// Moving down from the last row, or up from the first, changes nothing.
pub proof fn law_move_at_boundary(v: ViewStateView, t: TableView, delta: int)
    requires
        v.wf(t),
        (delta >= 0 && v.selected == v.visible.len() - 1) || (delta <= 0 && v.selected == 0),
    ensures
        v.moved(delta) == v,
        v.moved(delta).moved(delta) == v,
{
}

/// Every change of a view leaves it fit for its table.
pub proof fn lemma_changes_keep_fit(v: ViewStateView, t: TableView)
    requires
        v.wf(t),
    ensures
        ViewStateView::start(t).wf(t),
        forall|sort: Option<SortKey>| (#[trigger] v.with_sort(t, sort)).wf(t),
        forall|filter: Option<RowExprView>| (#[trigger] v.with_filter(t, filter)).wf(t),
        forall|delta: int| (#[trigger] v.moved(delta)).wf(t),
        forall|place: int| (#[trigger] v.at_row(place)).wf(t),
        forall|column: int| (#[trigger] v.at_column(column)).wf(t),
        forall|offset: int| (#[trigger] v.scrolled(offset)).wf(t),
        forall|page: int| (#[trigger] v.followed(page)).wf(t),
{
}

/// The index nearest to `i` among `0, ..., n - 1`; zero where there is none.
pub fn nearest(i: usize, n: usize) -> (r: usize)
    ensures
        r == clamp(i as int, n as int),
{
    if n == 0 {
        0
    } else if i >= n {
        n - 1
    } else {
        i
    }
}

/// The index nearest to `i + delta` among `0, ..., n - 1`; zero where there
/// is none.
pub fn shifted(i: usize, delta: i64, n: usize) -> (r: usize)
    ensures
        r == clamp(i + delta, n as int),
{
    if n == 0 {
        return 0;
    }
    if delta >= 0 {
        if i >= n - 1 {
            return n - 1;
        }
        let room: usize = n - 1 - i;
        let steps: u64 = delta as u64;
        if steps >= room as u64 {
            n - 1
        } else {
            i + steps as usize
        }
    } else {
        let steps: u64 = (-(delta + 1)) as u64 + 1;
        if steps >= i as u64 {
            0
        } else {
            nearest(i - steps as usize, n)
        }
    }
}

/// The length of the longest rendered value of a column.
fn widest_value(table: &Table, c: usize) -> (r: usize)
    requires
        c < table@.columns.len(),
    ensures
        r == widest(table@.columns[c as int].values),
{
    proof {
        use_type_invariant(table);
    }
    let column = table.column(c);
    let ghost values = column@.values;
    let n = column.len();
    let mut r: usize = 0;
    let mut i: usize = 0;
    while i < n
        invariant
            i <= n,
            n == values.len(),
            values == column@.values,
            r == widest(values.take(i as int)),
        decreases n - i,
    {
        proof {
            assert(values.take(i + 1).drop_last() =~= values.take(i as int));
            assert(values.take(i + 1).last() == values[i as int]);
        }
        let w = column.value(i).rendered_chars().len();
        if w > r {
            r = w;
        }
        i += 1;
    }
    assert(values.take(n as int) =~= values);
    r
}

/// The width hints of the columns of a table.
pub fn width_hints(table: &Table) -> (r: Vec<usize>)
    ensures
        r@.map_values(|w: usize| w as nat) == hints(table@),
{
    let mut r: Vec<usize> = Vec::new();
    let mut c: usize = 0;
    while c < table.width()
        invariant
            c <= table@.columns.len(),
            r.len() == c,
            forall|k: int| 0 <= k < c ==> (#[trigger] r[k]) == hint(table@.columns[k]),
        decreases table@.columns.len() - c,
    {
        let name = chars_of(table.column(c).name());
        let values = widest_value(table, c);
        if name.len() > values {
            r.push(name.len());
        } else {
            r.push(values);
        }
        c += 1;
    }
    assert(r@.map_values(|w: usize| w as nat) =~= hints(table@));
    r
}

/// The state of a view of a table: what it shows of the table and where the
/// user stands in it.
pub struct ViewState {
    selected: usize,
    column: usize,
    scroll: usize,
    sort: Option<SortKey>,
    filter: Option<RowExpr>,
    visible: Vec<usize>,
    widths: Vec<usize>,
}

impl View for ViewState {
    type V = ViewStateView;

    closed spec fn view(&self) -> ViewStateView {
        ViewStateView {
            selected: self.selected as int,
            column: self.column as int,
            scroll: self.scroll as int,
            sort: self.sort,
            filter: optional_row(self.filter),
            visible: self.visible@,
            widths: self.widths@.map_values(|w: usize| w as nat),
        }
    }
}

impl ViewState {
    /// The state of a view that was just opened on a table: all rows as they
    /// stand in the table, the first row and the first column selected.
    pub fn new(table: &Table) -> (r: ViewState)
        ensures
            r@ == ViewStateView::start(table@),
            r@.wf(table@),
    {
        let rows = table_rows(table);
        let visible = visible_rows(&rows, &None, &None);
        ViewState {
            selected: 0,
            column: 0,
            scroll: 0,
            sort: None,
            filter: None,
            visible,
            widths: width_hints(table),
        }
    }

    fn show(&mut self, visible: Vec<usize>)
        ensures
            final(self)@ == old(self)@.showing(visible@),
    {
        self.selected = nearest(self.selected, visible.len());
        self.scroll = nearest(self.scroll, visible.len());
        self.visible = visible;
    }

    /// Puts the rows in the order of a column of the table. A column that the
    /// table lacks tells no rows apart.
    pub fn set_sort(&mut self, column: usize, ascending: bool, table: &Table)
        requires
            old(self)@.wf(table@),
        ensures
            final(self)@ == old(self)@.with_sort(
                table@,
                Some(SortKey { column, descending: !ascending }),
            ),
            final(self)@.wf(table@),
    {
        let rows = table_rows(table);
        self.sort = Some(SortKey { column, descending: !ascending });
        let visible = visible_rows(&rows, &self.sort, &self.filter);
        self.show(visible);
    }

    /// Puts the rows back in the order they have in the table.
    pub fn clear_sort(&mut self, table: &Table)
        requires
            old(self)@.wf(table@),
        ensures
            final(self)@ == old(self)@.with_sort(table@, None),
            final(self)@.wf(table@),
    {
        let rows = table_rows(table);
        self.sort = None;
        let visible = visible_rows(&rows, &self.sort, &self.filter);
        self.show(visible);
    }

    /// Shows only the rows on which the condition that `text` spells is true.
    /// Where the text spells no condition over the columns of the table, the
    /// view stays as it is.
    pub fn set_filter(&mut self, text: &str, table: &Table) -> (r: Result<(), QueryError>)
        requires
            old(self)@.wf(table@),
        ensures
            final(self)@.wf(table@),
            match filter_of(text@, table@) {
                Ok(e) => r is Ok && final(self)@ == old(self)@.with_filter(table@, Some(e)),
                Err(e) => r is Err && r->Err_0@ == e && final(self)@ == old(self)@,
            },
    {
        match compile_filter(text, table) {
            Err(e) => Err(e),
            Ok(e) => {
                let rows = table_rows(table);
                self.filter = Some(e);
                let visible = visible_rows(&rows, &self.sort, &self.filter);
                self.show(visible);
                Ok(())
            },
        }
    }

    /// Shows all rows again.
    pub fn clear_filter(&mut self, table: &Table)
        requires
            old(self)@.wf(table@),
        ensures
            final(self)@ == old(self)@.with_filter(table@, None),
            final(self)@.wf(table@),
    {
        let rows = table_rows(table);
        self.filter = None;
        let visible = visible_rows(&rows, &self.sort, &self.filter);
        self.show(visible);
    }

    /// Moves the selection by `delta` rows: down where `delta` is positive, up
    /// where it is negative. The selection stops at the first and at the last
    /// row shown.
    pub fn move_selection(&mut self, delta: i64)
        ensures
            final(self)@ == old(self)@.moved(delta as int),
    {
        self.selected = shifted(self.selected, delta, self.visible.len());
    }

    /// Selects the row at a place among the rows shown; the last row where
    /// the place is below it.
    pub fn select_row(&mut self, place: usize)
        ensures
            final(self)@ == old(self)@.at_row(place as int),
    {
        self.selected = nearest(place, self.visible.len());
    }

    /// Selects the row with a number among the rows shown, the first row
    /// having the number one; the first or the last row where no row has the
    /// number.
    pub fn select_numbered(&mut self, number: i64)
        ensures
            final(self)@ == old(self)@.at_row(number - 1),
    {
        if number >= 1 {
            self.selected = shifted(0, number - 1, self.visible.len());
        } else {
            self.selected = 0;
        }
    }

    /// Selects a column; the last column where there is no such column.
    pub fn select_column(&mut self, column: usize)
        ensures
            final(self)@ == old(self)@.at_column(column as int),
    {
        self.column = nearest(column, self.widths.len());
    }

    /// Moves the selection by `delta` columns, as far as there are columns.
    pub fn move_column(&mut self, delta: i64)
        ensures
            final(self)@ == old(self)@.at_column(old(self)@.column + delta),
    {
        self.column = shifted(self.column, delta, self.widths.len());
    }

    /// Scrolls no further than needed to have the selected row among the
    /// `page` rows on the screen.
    pub fn follow(&mut self, page: usize)
        ensures
            final(self)@ == old(self)@.followed(page as int),
    {
        if self.selected < self.scroll {
            self.scroll = self.selected;
        } else if page > 0 && self.selected - self.scroll >= page {
            self.scroll = self.selected - page + 1;
        }
    }

    /// Scrolls to an offset; to the last row where the offset is below it.
    pub fn set_scroll(&mut self, offset: usize)
        ensures
            final(self)@ == old(self)@.scrolled(offset as int),
    {
        self.scroll = nearest(offset, self.visible.len());
    }

    /// The place of the selected row among the rows shown.
    pub fn selected(&self) -> (r: usize)
        ensures
            r == self@.selected,
    {
        self.selected
    }

    /// The selected column.
    pub fn column(&self) -> (r: usize)
        ensures
            r == self@.column,
    {
        self.column
    }

    /// The scroll offset.
    pub fn scroll(&self) -> (r: usize)
        ensures
            r == self@.scroll,
    {
        self.scroll
    }

    /// The sort key, if there is one.
    pub fn sort(&self) -> (r: Option<SortKey>)
        ensures
            r == self@.sort,
    {
        self.sort
    }

    /// Whether a filter is set.
    pub fn is_filtered(&self) -> (r: bool)
        ensures
            r == self@.filter is Some,
    {
        self.filter.is_some()
    }

    /// The indices in the table of the rows shown, from the first to the last.
    pub fn visible(&self) -> (r: &Vec<usize>)
        ensures
            r@ == self@.visible,
    {
        &self.visible
    }

    /// The width hint of each column.
    pub fn widths(&self) -> (r: &Vec<usize>)
        ensures
            r@.map_values(|w: usize| w as nat) == self@.widths,
    {
        &self.widths
    }

    /// The index in the table of the selected row; none where no row is shown.
    pub fn selected_row(&self) -> (r: Option<usize>)
        ensures
            r == self@.selected_row(),
    {
        if self.selected < self.visible.len() {
            Some(self.visible[self.selected])
        } else {
            None
        }
    }
}

/// A text as a search reads it: as it is where the case of letters counts,
/// else with its ASCII letters in lower case.
pub open spec fn folded(s: Seq<char>, exact: bool) -> Seq<char> {
    if exact {
        s
    } else {
        lower_seq(s)
    }
}

/// Whether a value of the row, rendered as text, holds the text searched for.
pub open spec fn row_matches(row: Seq<ValueView>, needle: Seq<char>, exact: bool) -> bool {
    exists|c: int|
        0 <= c < row.len() && contains_text(
            folded((#[trigger] row[c]).rendered(), exact),
            folded(needle, exact),
        )
}

/// The place that lies `k` steps from `from` among `n` places, going down or
/// up and from one end on to the other.
pub open spec fn place_after(from: int, k: int, n: int, forward: bool) -> int {
    if forward {
        if from + k < n {
            from + k
        } else {
            from + k - n
        }
    } else {
        if k <= from {
            from - k
        } else {
            from - k + n
        }
    }
}

/// The first place with a matching row that lies `k` or more steps from
/// `from`, and no more steps than there are rows shown.
pub open spec fn match_from(
    rows: Seq<Seq<ValueView>>,
    visible: Seq<usize>,
    needle: Seq<char>,
    exact: bool,
    from: int,
    forward: bool,
    k: int,
) -> Option<int>
    decreases visible.len() + 1 - k,
{
    if k > visible.len() || k < 1 {
        None
    } else {
        let place = place_after(from, k, visible.len() as int, forward);
        if 0 <= place < visible.len() && row_matches(row_at(rows, visible[place]), needle, exact) {
            Some(place)
        } else {
            match_from(rows, visible, needle, exact, from, forward, k + 1)
        }
    }
}

impl ViewStateView {
    /// The place of the next row, below or above the selected one, that
    /// matches; the search goes on from the other end of the view and ends at
    /// the selected row itself.
    pub open spec fn next_match(self, t: TableView, needle: Seq<char>, exact: bool, forward: bool) -> Option<
        int,
    > {
        match_from(rows_of(t), self.visible, needle, exact, self.selected, forward, 1)
    }

    /// The state after a search: the next match is selected, if there is one.
    pub open spec fn searched(self, t: TableView, needle: Seq<char>, exact: bool, forward: bool) -> ViewStateView {
        match self.next_match(t, needle, exact, forward) {
            Some(place) => self.at_row(place),
            None => self,
        }
    }
}

fn fold_text(v: Vec<char>, exact: bool) -> (r: Vec<char>)
    ensures
        r@ == folded(v@, exact),
{
    if exact {
        v
    } else {
        to_lower_vec(&v)
    }
}

/// Whether a value of a row of the table holds a text that was folded for
/// the search.
fn row_holds(table: &Table, row: usize, needle: &Vec<char>, exact: bool) -> (r: bool)
    requires
        row < table@.height,
    ensures
        r == exists|c: int|
            0 <= c < table@.columns.len() && contains_text(
                folded((#[trigger] table@.row(row as int)[c]).rendered(), exact),
                needle@,
            ),
{
    let mut c: usize = 0;
    while c < table.width()
        invariant
            c <= table@.columns.len(),
            row < table@.height,
            forall|k: int|
                0 <= k < c ==> !contains_text(
                    folded((#[trigger] table@.row(row as int)[k]).rendered(), exact),
                    needle@,
                ),
        decreases table@.columns.len() - c,
    {
        let text = fold_text(table.cell(row, c).rendered_chars(), exact);
        assert(table@.row(row as int)[c as int] == table@.cell(row as int, c as int));
        if find_text(&text, needle) {
            return true;
        }
        c += 1;
    }
    false
}

impl ViewState {
    /// The place of the next row, below the selected one where `forward` is
    /// set and above it where not, with a value that holds `needle`. The case
    /// of ASCII letters counts only where `exact` is set.
    pub fn find_match(&self, table: &Table, needle: &str, exact: bool, forward: bool) -> (r: Option<
        usize,
    >)
        requires
            self@.wf(table@),
        ensures
            match r {
                Some(place) => self@.next_match(table@, needle@, exact, forward) == Some(place as int),
                None => self@.next_match(table@, needle@, exact, forward) is None,
            },
    {
        let wanted = fold_text(chars_of(needle), exact);
        let n = self.visible.len();
        let from = self.selected;
        let ghost rows = rows_of(table@);
        if n == 0 {
            return None;
        }
        proof {
            lemma_shown_bounds(rows, self@.sort, self@.filter);
        }
        let mut k: usize = 0;
        while k < n
            invariant
                k <= n,
                n == self.visible@.len(),
                from == self.selected,
                from < n,
                rows == rows_of(table@),
                wanted@ == folded(needle@, exact),
                self@.visible == self.visible@,
                forall|i: int| 0 <= i < n ==> (#[trigger] self.visible@[i]) < table@.height,
                match_from(rows, self.visible@, needle@, exact, from as int, forward, 1) == match_from(
                    rows,
                    self.visible@,
                    needle@,
                    exact,
                    from as int,
                    forward,
                    k + 1,
                ),
            decreases n - k,
        {
            let step: usize = k + 1;
            let place: usize = if forward {
                if step < n - from {
                    from + step
                } else {
                    step - (n - from)
                }
            } else {
                if step <= from {
                    from - step
                } else {
                    n - (step - from)
                }
            };
            assert(place == place_after(from as int, step as int, n as int, forward));
            let row = self.visible[place];
            proof {
                let values = row_at(rows, row);
                assert(values == table@.row(row as int));
                assert(values.len() == table@.columns.len());
            }
            if row_holds(table, row, &wanted, exact) {
                return Some(place);
            }
            k += 1;
        }
        None
    }

    /// Selects the next row with a value that holds `needle`, and says whether
    /// there is one. Where there is none the view stays as it is.
    pub fn select_match(&mut self, table: &Table, needle: &str, exact: bool, forward: bool) -> (r: bool)
        requires
            old(self)@.wf(table@),
        ensures
            final(self)@ == old(self)@.searched(table@, needle@, exact, forward),
            final(self)@.wf(table@),
            r == old(self)@.next_match(table@, needle@, exact, forward) is Some,
    {
        match self.find_match(table, needle, exact, forward) {
            Some(place) => {
                self.select_row(place);
                true
            },
            None => false,
        }
    }
}

} // verus!
