//! Running a plan on rows.
//!
//! The rows of the tables of the query are, in this order, joined and
//! filtered, put in groups, put in order, and turned into the columns of the
//! result. No table is changed; the result is a new table.

use vstd::prelude::*;
use crate::expr::{row_fits, row_views, value_views, RowExpr, RowExprView};
use crate::group::{first_row, lemma_group_expr_sound};
use crate::order::{
    identity, identity_indices, lemma_sorted_members, lemma_sorted_permutes, sort_indices, sorted,
    SortKey,
};
use crate::plan::{
    optional_row, order_views, row_expr_views, OrderKey, OrderKeyView, OutputView, Plan, PlanView,
};
use crate::table::{column_views, Column, ColumnView, Table, TableView};
use crate::value::{DataType, Value, ValueView};

verus! {

/// Whether a row passes a condition: the condition is true on it.
pub open spec fn passes(pred: Option<RowExprView>, row: Seq<ValueView>) -> bool {
    match pred {
        None => true,
        Some(p) => p.eval(row) == ValueView::Boolean(true),
    }
}

/// The rows that pass a condition, in their order.
pub open spec fn kept(rows: Seq<Seq<ValueView>>, pred: Option<RowExprView>) -> Seq<Seq<ValueView>>
    decreases rows.len(),
{
    if rows.len() == 0 {
        Seq::empty()
    } else if passes(pred, rows.last()) {
        kept(rows.drop_last(), pred).push(rows.last())
    } else {
        kept(rows.drop_last(), pred)
    }
}

/// One row followed by each row of `b` in turn.
pub open spec fn paired(x: Seq<ValueView>, b: Seq<Seq<ValueView>>) -> Seq<Seq<ValueView>> {
    Seq::new(b.len(), |j: int| x + b[j])
}

/// Every row of `a` followed by every row of `b`: the rows of `a` in their
/// order, and for each of them the rows of `b` in theirs.
pub open spec fn crossed(a: Seq<Seq<ValueView>>, b: Seq<Seq<ValueView>>) -> Seq<Seq<ValueView>>
    decreases a.len(),
{
    if a.len() == 0 {
        Seq::empty()
    } else {
        crossed(a.drop_last(), b) + paired(a.last(), b)
    }
}

/// The values of the expressions of `GROUP BY` on a row.
pub open spec fn key_values(keys: Seq<RowExprView>, row: Seq<ValueView>) -> Seq<ValueView> {
    Seq::new(keys.len(), |k: int| keys[k].eval(row))
}

/// The index of the first group whose rows have the key values of `row`.
pub open spec fn group_index(
    groups: Seq<Seq<Seq<ValueView>>>,
    keys: Seq<RowExprView>,
    row: Seq<ValueView>,
) -> Option<int>
    decreases groups.len(),
{
    if groups.len() == 0 {
        None
    } else {
        match group_index(groups.drop_last(), keys, row) {
            Some(g) => Some(g),
            None => if key_values(keys, first_row(groups.last())) == key_values(keys, row) {
                Some(groups.len() - 1)
            } else {
                None
            },
        }
    }
}

/// The rows put in groups of equal key values. The groups stand in the order
/// of their first rows, and the rows of a group in their order.
pub open spec fn partitioned(rows: Seq<Seq<ValueView>>, keys: Seq<RowExprView>) -> Seq<
    Seq<Seq<ValueView>>,
>
    decreases rows.len(),
{
    if rows.len() == 0 {
        Seq::empty()
    } else {
        let groups = partitioned(rows.drop_last(), keys);
        match group_index(groups, keys, rows.last()) {
            Some(g) => if 0 <= g < groups.len() {
                groups.update(g, groups[g].push(rows.last()))
            } else {
                groups
            },
            None => groups.push(seq![rows.last()]),
        }
    }
}

/// Every row as a group of its own.
pub open spec fn singles(rows: Seq<Seq<ValueView>>) -> Seq<Seq<Seq<ValueView>>> {
    Seq::new(rows.len(), |i: int| seq![rows[i]])
}

/// The groups of a query: without grouping every row is a group; with grouping
/// but without `GROUP BY` all rows are one group.
pub open spec fn groups_of(rows: Seq<Seq<ValueView>>, keys: Seq<RowExprView>, grouped: bool) -> Seq<
    Seq<Seq<ValueView>>,
> {
    if !grouped {
        singles(rows)
    } else if keys.len() == 0 {
        seq![rows]
    } else {
        partitioned(rows, keys)
    }
}

/// For each group the values of the keys of `ORDER BY`.
pub open spec fn order_rows(groups: Seq<Seq<Seq<ValueView>>>, order: Seq<OrderKeyView>) -> Seq<
    Seq<ValueView>,
> {
    Seq::new(groups.len(), |g: int| Seq::new(order.len(), |k: int| order[k].expr.eval(groups[g])))
}

/// The directions of the keys of `ORDER BY`.
pub open spec fn sort_keys(order: Seq<OrderKeyView>) -> Seq<SortKey> {
    Seq::new(order.len(), |k: int| SortKey { column: k as usize, descending: order[k].descending })
}

/// The indices of the groups in the order of the result.
pub open spec fn arranged(groups: Seq<Seq<Seq<ValueView>>>, order: Seq<OrderKeyView>) -> Seq<usize> {
    sorted(order_rows(groups, order), sort_keys(order), identity(groups.len()))
}

/// A column of the result.
pub open spec fn output_column(
    groups: Seq<Seq<Seq<ValueView>>>,
    perm: Seq<usize>,
    out: OutputView,
) -> ColumnView {
    ColumnView {
        name: out.name,
        dtype: out.dtype,
        values: Seq::new(perm.len(), |i: int| out.expr.eval(groups[perm[i] as int])),
    }
}

/// The groups of the plan on the rows of its tables.
pub open spec fn plan_groups(plan: PlanView, rows: Seq<Seq<ValueView>>) -> Seq<Seq<Seq<ValueView>>> {
    groups_of(kept(kept(rows, plan.on), plan.filter), plan.keys, plan.grouped)
}

/// The result of a plan on the rows of its tables.
pub open spec fn run(plan: PlanView, rows: Seq<Seq<ValueView>>) -> TableView {
    let groups = plan_groups(plan, rows);
    let perm = arranged(groups, plan.order);
    TableView {
        columns: Seq::new(plan.outputs.len(), |j: int| output_column(groups, perm, plan.outputs[j])),
        height: perm.len(),
    }
}

/// Whether every row is of the given types.
pub open spec fn all_fit(rows: Seq<Seq<ValueView>>, types: Seq<DataType>) -> bool {
    forall|i: int| 0 <= i < rows.len() ==> row_fits(#[trigger] rows[i], types)
}

/// The rows kept are rows of the given types, and not more than were given.
pub proof fn lemma_kept(rows: Seq<Seq<ValueView>>, pred: Option<RowExprView>, types: Seq<DataType>)
    requires
        all_fit(rows, types),
    ensures
        all_fit(kept(rows, pred), types),
        kept(rows, pred).len() <= rows.len(),
    decreases rows.len(),
{
    if rows.len() > 0 {
        let front = rows.drop_last();
        assert forall|i: int| 0 <= i < front.len() implies row_fits(#[trigger] front[i], types) by {
            assert(front[i] == rows[i]);
        }
        lemma_kept(front, pred, types);
        assert(row_fits(rows[rows.len() - 1], types));
    }
}

/// What `group_index` finds is an index of the groups.
pub proof fn lemma_group_index(
    groups: Seq<Seq<Seq<ValueView>>>,
    keys: Seq<RowExprView>,
    row: Seq<ValueView>,
)
    ensures
        match group_index(groups, keys, row) {
            Some(g) => 0 <= g < groups.len(),
            None => true,
        },
    decreases groups.len(),
{
    if groups.len() > 0 {
        lemma_group_index(groups.drop_last(), keys, row);
    }
}

/// The groups hold rows of the given types, none is empty, and there are not
/// more groups than rows.
pub proof fn lemma_partitioned(
    rows: Seq<Seq<ValueView>>,
    keys: Seq<RowExprView>,
    types: Seq<DataType>,
)
    requires
        all_fit(rows, types),
    ensures
        forall|g: int|
            0 <= g < partitioned(rows, keys).len() ==> all_fit(
                #[trigger] partitioned(rows, keys)[g],
                types,
            ) && partitioned(rows, keys)[g].len() > 0,
        partitioned(rows, keys).len() <= rows.len(),
    decreases rows.len(),
{
    if rows.len() > 0 {
        let front = rows.drop_last();
        assert forall|i: int| 0 <= i < front.len() implies row_fits(#[trigger] front[i], types) by {
            assert(front[i] == rows[i]);
        }
        lemma_partitioned(front, keys, types);
        let groups = partitioned(front, keys);
        lemma_group_index(groups, keys, rows.last());
        assert(row_fits(rows[rows.len() - 1], types));
        let after = partitioned(rows, keys);
        assert forall|g: int| 0 <= g < after.len() implies all_fit(#[trigger] after[g], types)
            && after[g].len() > 0 by {
            match group_index(groups, keys, rows.last()) {
                Some(h) => {
                    if g == h {
                        assert(all_fit(groups[g], types));
                        assert forall|i: int| 0 <= i < after[g].len() implies row_fits(
                            #[trigger] after[g][i],
                            types,
                        ) by {
                            if i < groups[g].len() {
                                assert(after[g][i] == groups[g][i]);
                            }
                        }
                    } else {
                        assert(after[g] == groups[g]);
                    }
                },
                None => {
                    if g < groups.len() {
                        assert(after[g] == groups[g]);
                    } else {
                        assert(after[g] =~= seq![rows.last()]);
                    }
                },
            }
        }
    }
}

/// A cross product has as many rows as the product of the two counts.
pub proof fn lemma_crossed_len(a: Seq<Seq<ValueView>>, b: Seq<Seq<ValueView>>)
    ensures
        crossed(a, b).len() == a.len() * b.len(),
    decreases a.len(),
{
    if a.len() > 0 {
        let front = a.drop_last();
        lemma_crossed_len(front, b);
        assert(crossed(a, b).len() == a.len() * b.len()) by (nonlinear_arith)
            requires
                crossed(a, b).len() == front.len() * b.len() + b.len(),
                front.len() == a.len() - 1,
        ;
    } else {
        assert(a.len() * b.len() == 0) by (nonlinear_arith)
            requires
                a.len() == 0,
        ;
    }
}

/// The rows of a cross product are of the types of the first table followed
/// by those of the second.
pub proof fn lemma_crossed_fit(
    a: Seq<Seq<ValueView>>,
    b: Seq<Seq<ValueView>>,
    ta: Seq<DataType>,
    tb: Seq<DataType>,
)
    requires
        all_fit(a, ta),
        all_fit(b, tb),
        forall|i: int| 0 <= i < a.len() ==> (#[trigger] a[i]).len() == ta.len(),
    ensures
        all_fit(crossed(a, b), ta + tb),
    decreases a.len(),
{
    if a.len() > 0 {
        let front = a.drop_last();
        assert forall|i: int| 0 <= i < front.len() implies row_fits(#[trigger] front[i], ta)
            && front[i].len() == ta.len() by {
            assert(front[i] == a[i]);
        }
        lemma_crossed_fit(front, b, ta, tb);
        let x = a.last();
        assert(x == a[a.len() - 1]);
        assert(row_fits(x, ta));
        let whole = crossed(a, b);
        assert forall|k: int| 0 <= k < whole.len() implies row_fits(#[trigger] whole[k], ta + tb) by {
            if k < crossed(front, b).len() {
                assert(whole[k] == crossed(front, b)[k]);
            } else {
                let j = k - crossed(front, b).len();
                assert(whole[k] == x + b[j]);
                assert(row_fits(b[j], tb));
                assert forall|c: int| 0 <= c < (x + b[j]).len() implies (#[trigger] (x + b[j])[c]).fits(
                    (ta + tb)[c],
                ) by {
                    if c < x.len() {
                        assert(x[c].fits(ta[c]));
                    } else {
                        assert(b[j][c - x.len()].fits(tb[c - x.len()]));
                    }
                }
            }
        }
    }
}

/// The result of a plan has one column for each column of the plan, and one
/// row for each group of the plan.
pub proof fn lemma_run_shape(plan: PlanView, rows: Seq<Seq<ValueView>>)
    ensures
        run(plan, rows).columns.len() == plan.outputs.len(),
        run(plan, rows).height == plan_groups(plan, rows).len(),
        forall|j: int|
            0 <= j < plan.outputs.len() ==> (#[trigger] run(plan, rows).columns[j]).name
                == plan.outputs[j].name && run(plan, rows).columns[j].dtype == plan.outputs[j].dtype,
{
    let groups = plan_groups(plan, rows);
    lemma_sorted_permutes(order_rows(groups, plan.order), sort_keys(plan.order), identity(groups.len()));
}

/// A query gives one column for each column of its plan, named and typed as
/// the plan says. Unless all rows form one group, it gives no more rows than
/// the tables of the query hold together: the rows of one table, or the
/// product of the rows of two.
pub proof fn law_result_shape(plan: PlanView, rows: Seq<Seq<ValueView>>)
    ensures
        run(plan, rows).columns.len() == plan.outputs.len(),
        forall|j: int|
            0 <= j < plan.outputs.len() ==> (#[trigger] run(plan, rows).columns[j]).name
                == plan.outputs[j].name,
        !(plan.grouped && plan.keys.len() == 0) ==> run(plan, rows).height <= rows.len(),
        plan.grouped && plan.keys.len() == 0 ==> run(plan, rows).height == 1,
{
    lemma_run_shape(plan, rows);
    let joined = kept(rows, plan.on);
    let filtered = kept(joined, plan.filter);
    lemma_kept_len(rows, plan.on);
    lemma_kept_len(joined, plan.filter);
    lemma_partitioned_len(filtered, plan.keys);
}

/// Not more rows are kept than were given.
pub proof fn lemma_kept_len(rows: Seq<Seq<ValueView>>, pred: Option<RowExprView>)
    ensures
        kept(rows, pred).len() <= rows.len(),
    decreases rows.len(),
{
    if rows.len() > 0 {
        lemma_kept_len(rows.drop_last(), pred);
    }
}

/// There are not more groups than rows.
pub proof fn lemma_partitioned_len(rows: Seq<Seq<ValueView>>, keys: Seq<RowExprView>)
    ensures
        partitioned(rows, keys).len() <= rows.len(),
    decreases rows.len(),
{
    if rows.len() > 0 {
        lemma_partitioned_len(rows.drop_last(), keys);
        lemma_group_index(partitioned(rows.drop_last(), keys), keys, rows.last());
    }
}

/// A copy of a row.
pub fn copy_row(row: &Vec<Value>) -> (r: Vec<Value>)
    ensures
        value_views(r@) == value_views(row@),
{
    let mut r: Vec<Value> = Vec::new();
    let mut i: usize = 0;
    while i < row.len()
        invariant
            i <= row.len(),
            r.len() == i,
            forall|k: int| 0 <= k < i ==> (#[trigger] r[k])@ == row[k]@,
        decreases row.len() - i,
    {
        r.push(row[i].clone());
        i += 1;
    }
    assert(value_views(r@) =~= value_views(row@));
    r
}

/// Whether a row passes a condition.
pub fn row_passes(pred: &Option<RowExpr>, row: &Vec<Value>) -> (r: bool)
    ensures
        r == passes(optional_row(*pred), value_views(row@)),
{
    match pred {
        None => true,
        Some(p) => p.holds(row),
    }
}

/// The rows that pass a condition, in their order.
pub fn keep(rows: &Vec<Vec<Value>>, pred: &Option<RowExpr>) -> (r: Vec<Vec<Value>>)
    ensures
        row_views(r@) == kept(row_views(rows@), optional_row(*pred)),
{
    let ghost all = row_views(rows@);
    let ghost p = optional_row(*pred);
    let mut out: Vec<Vec<Value>> = Vec::new();
    let mut i: usize = 0;
    assert(row_views(out@) =~= kept(all.take(0), p));
    while i < rows.len()
        invariant
            i <= rows.len(),
            all == row_views(rows@),
            p == optional_row(*pred),
            row_views(out@) == kept(all.take(i as int), p),
        decreases rows.len() - i,
    {
        proof {
            assert(all.take(i + 1).drop_last() =~= all.take(i as int));
            assert(all.take(i + 1).last() == value_views(rows[i as int]@));
        }
        if row_passes(pred, &rows[i]) {
            let ghost before = row_views(out@);
            let copy = copy_row(&rows[i]);
            out.push(copy);
            assert(row_views(out@) =~= before.push(value_views(rows[i as int]@)));
        }
        i += 1;
    }
    assert(all.take(rows.len() as int) =~= all);
    out
}

fn joined_row(x: &Vec<Value>, y: &Vec<Value>) -> (r: Vec<Value>)
    ensures
        value_views(r@) == value_views(x@) + value_views(y@),
{
    let mut r = copy_row(x);
    let mut j: usize = 0;
    while j < y.len()
        invariant
            j <= y.len(),
            value_views(r@) =~= value_views(x@) + value_views(y@).take(j as int),
        decreases y.len() - j,
    {
        let ghost before = value_views(r@);
        r.push(y[j].clone());
        assert(value_views(r@) =~= before.push(y[j as int]@));
        j += 1;
    }
    assert(value_views(y@).take(y.len() as int) =~= value_views(y@));
    r
}

/// Every row of `a` followed by every row of `b`.
pub fn cross(a: &Vec<Vec<Value>>, b: &Vec<Vec<Value>>) -> (r: Vec<Vec<Value>>)
    ensures
        row_views(r@) == crossed(row_views(a@), row_views(b@)),
{
    let ghost av = row_views(a@);
    let ghost bv = row_views(b@);
    let mut out: Vec<Vec<Value>> = Vec::new();
    let mut i: usize = 0;
    assert(row_views(out@) =~= crossed(av.take(0), bv));
    while i < a.len()
        invariant
            i <= a.len(),
            av == row_views(a@),
            bv == row_views(b@),
            row_views(out@) == crossed(av.take(i as int), bv),
        decreases a.len() - i,
    {
        let ghost start = row_views(out@);
        let ghost x = value_views(a[i as int]@);
        let mut j: usize = 0;
        while j < b.len()
            invariant
                i < a.len(),
                j <= b.len(),
                av == row_views(a@),
                bv == row_views(b@),
                x == value_views(a[i as int]@),
                row_views(out@) =~= start + paired(x, bv).take(j as int),
            decreases b.len() - j,
        {
            let ghost before = row_views(out@);
            let row = joined_row(&a[i], &b[j]);
            out.push(row);
            proof {
                assert(bv[j as int] == value_views(b[j as int]@));
                assert(row_views(out@) =~= before.push(x + bv[j as int]));
            }
            j += 1;
        }
        proof {
            assert(paired(x, bv).take(b.len() as int) =~= paired(x, bv));
            assert(av.take(i + 1).drop_last() =~= av.take(i as int));
            assert(av.take(i + 1).last() == x);
        }
        i += 1;
    }
    assert(av.take(a.len() as int) =~= av);
    out
}

/// The models of a vector of groups.
pub open spec fn group_views(s: Seq<Vec<Vec<Value>>>) -> Seq<Seq<Seq<ValueView>>> {
    Seq::new(s.len(), |g: int| row_views(s[g]@))
}

fn keys_on(keys: &Vec<RowExpr>, row: &Vec<Value>) -> (r: Vec<Value>)
    ensures
        value_views(r@) == key_values(row_expr_views(keys@), value_views(row@)),
{
    let mut r: Vec<Value> = Vec::new();
    let mut k: usize = 0;
    while k < keys.len()
        invariant
            k <= keys.len(),
            r.len() == k,
            forall|i: int| 0 <= i < k ==> (#[trigger] r[i])@ == keys[i]@.eval(value_views(row@)),
        decreases keys.len() - k,
    {
        r.push(keys[k].eval(row));
        k += 1;
    }
    assert(value_views(r@) =~= key_values(row_expr_views(keys@), value_views(row@)));
    r
}

fn same_values(a: &Vec<Value>, b: &Vec<Value>) -> (r: bool)
    ensures
        r == (value_views(a@) == value_views(b@)),
{
    if a.len() != b.len() {
        assert(value_views(a@).len() != value_views(b@).len());
        return false;
    }
    let mut i: usize = 0;
    while i < a.len()
        invariant
            i <= a.len(),
            a.len() == b.len(),
            forall|k: int| 0 <= k < i ==> (#[trigger] a[k])@ == b[k]@,
        decreases a.len() - i,
    {
        if !(a[i] == b[i]) {
            assert(value_views(a@)[i as int] != value_views(b@)[i as int]);
            return false;
        }
        i += 1;
    }
    assert(value_views(a@) =~= value_views(b@));
    true
}

fn find_group(group_keys: &Vec<Vec<Value>>, key: &Vec<Value>) -> (r: Option<usize>)
    ensures
        match r {
            Some(g) => g < group_keys.len() && value_views(group_keys[g as int]@) == value_views(key@)
                && forall|h: int|
                0 <= h < g ==> value_views(#[trigger] group_keys[h]@) != value_views(key@),
            None => forall|h: int|
                0 <= h < group_keys.len() ==> value_views(#[trigger] group_keys[h]@) != value_views(
                    key@,
                ),
        },
{
    let mut g: usize = 0;
    while g < group_keys.len()
        invariant
            g <= group_keys.len(),
            forall|h: int| 0 <= h < g ==> value_views(#[trigger] group_keys[h]@) != value_views(key@),
        decreases group_keys.len() - g,
    {
        if same_values(&group_keys[g], key) {
            return Some(g);
        }
        g += 1;
    }
    None
}

/// `group_index` finds the first group whose first row has the key values.
pub proof fn lemma_group_index_first(
    groups: Seq<Seq<Seq<ValueView>>>,
    keys: Seq<RowExprView>,
    row: Seq<ValueView>,
    found: Option<int>,
)
    requires
        match found {
            Some(g) => 0 <= g < groups.len() && key_values(keys, first_row(groups[g])) == key_values(
                keys,
                row,
            ) && forall|h: int|
                0 <= h < g ==> key_values(keys, first_row(#[trigger] groups[h])) != key_values(
                    keys,
                    row,
                ),
            None => forall|h: int|
                0 <= h < groups.len() ==> key_values(keys, first_row(#[trigger] groups[h]))
                    != key_values(keys, row),
        },
    ensures
        group_index(groups, keys, row) == found,
    decreases groups.len(),
{
    if groups.len() > 0 {
        let front = groups.drop_last();
        let last = groups.len() - 1;
        assert(forall|h: int| 0 <= h < front.len() ==> front[h] == groups[h]);
        match found {
            Some(g) => {
                if g < last {
                    lemma_group_index_first(front, keys, row, found);
                } else {
                    lemma_group_index_first(front, keys, row, None);
                }
            },
            None => {
                lemma_group_index_first(front, keys, row, None);
                assert(groups.last() == groups[last]);
            },
        }
    }
}

/// The rows put in groups of equal key values.
pub fn partition(rows: &Vec<Vec<Value>>, keys: &Vec<RowExpr>) -> (r: Vec<Vec<Vec<Value>>>)
    ensures
        group_views(r@) == partitioned(row_views(rows@), row_expr_views(keys@)),
{
    let ghost all = row_views(rows@);
    let ghost kv = row_expr_views(keys@);
    let mut groups: Vec<Vec<Vec<Value>>> = Vec::new();
    let mut group_keys: Vec<Vec<Value>> = Vec::new();
    let mut i: usize = 0;
    assert(group_views(groups@) =~= partitioned(all.take(0), kv));
    while i < rows.len()
        invariant
            i <= rows.len(),
            all == row_views(rows@),
            kv == row_expr_views(keys@),
            group_views(groups@) == partitioned(all.take(i as int), kv),
            group_keys.len() == groups.len(),
            forall|g: int|
                0 <= g < groups.len() ==> value_views(#[trigger] group_keys[g]@) == key_values(
                    kv,
                    first_row(group_views(groups@)[g]),
                ),
            forall|g: int| 0 <= g < groups.len() ==> (#[trigger] groups[g]).len() > 0,
        decreases rows.len() - i,
    {
        let ghost gv = group_views(groups@);
        let ghost row = value_views(rows[i as int]@);
        proof {
            assert(all.take(i + 1).drop_last() =~= all.take(i as int));
            assert(all.take(i + 1).last() == row);
        }
        let key = keys_on(keys, &rows[i]);
        let found = find_group(&group_keys, &key);
        let copy = copy_row(&rows[i]);
        proof {
            assert forall|h: int| 0 <= h < gv.len() implies (key_values(
                kv,
                first_row(#[trigger] gv[h]),
            ) == key_values(kv, row)) == (value_views(group_keys[h]@) == value_views(key@)) by {
                assert(value_views(group_keys[h]@) == key_values(kv, first_row(gv[h])));
            }
        }
        match found {
            Some(g) => {
                proof {
                    lemma_group_index_first(gv, kv, row, Some(g as int));
                }
                let ghost old_groups = groups@;
                let mut group = groups.remove(g);
                let ghost old_group = row_views(group@);
                group.push(copy);
                assert(row_views(group@) =~= old_group.push(row));
                let ghost new_group = group;
                groups.insert(g, group);
                proof {
                    assert(groups@.len() == old_groups.len());
                    assert(groups@[g as int] == new_group);
                    assert forall|h: int| 0 <= h < groups.len() && h != g implies groups@[h]
                        == old_groups[h] by {
                    }
                    assert forall|h: int| 0 <= h < groups.len() implies (#[trigger] groups[h]).len()
                        > 0 by {
                        if h != g {
                            assert(groups@[h] == old_groups[h]);
                        }
                    }
                    assert(group_views(groups@) =~= gv.update(g as int, gv[g as int].push(row))) by {
                        assert forall|h: int| 0 <= h < gv.len() implies group_views(groups@)[h]
                            == gv.update(g as int, gv[g as int].push(row))[h] by {
                        }
                    }
                    assert forall|h: int| 0 <= h < groups.len() implies value_views(
                        #[trigger] group_keys[h]@,
                    ) == key_values(kv, first_row(group_views(groups@)[h])) by {
                        if h == g {
                            assert(gv[h].len() > 0);
                            assert(gv[h].push(row)[0] == gv[h][0]);
                            assert(first_row(gv[h].push(row)) == first_row(gv[h]));
                            assert(group_views(groups@)[h] == gv[h].push(row));
                        } else {
                            assert(groups@[h] == old_groups[h]);
                            assert(group_views(groups@)[h] == gv[h]);
                        }
                    }
                }
            },
            None => {
                proof {
                    lemma_group_index_first(gv, kv, row, None);
                }
                let ghost old_groups = groups@;
                let ghost old_keys = group_keys@;
                let mut group: Vec<Vec<Value>> = Vec::new();
                group.push(copy);
                assert(row_views(group@) =~= seq![row]);
                groups.push(group);
                group_keys.push(key);
                proof {
                    assert(group_views(groups@) =~= gv.push(seq![row]));
                    assert(forall|h: int| 0 <= h < old_groups.len() ==> groups@[h] == old_groups[h]);
                    assert(forall|h: int| 0 <= h < old_keys.len() ==> group_keys@[h] == old_keys[h]);
                    assert(first_row(seq![row]) == row);
                    assert forall|h: int| 0 <= h < groups.len() implies (#[trigger] groups[h]).len()
                        > 0 by {
                        if h < old_groups.len() {
                            assert(groups@[h] == old_groups[h]);
                        }
                    }
                    assert forall|h: int| 0 <= h < groups.len() implies value_views(
                        #[trigger] group_keys[h]@,
                    ) == key_values(kv, first_row(group_views(groups@)[h])) by {
                        if h < gv.len() {
                            assert(groups@[h] == old_groups[h]);
                            assert(group_keys@[h] == old_keys[h]);
                            assert(group_views(groups@)[h] == gv[h]);
                        } else {
                            assert(group_views(groups@)[h] == seq![row]);
                        }
                    }
                }
            },
        }
        i += 1;
    }
    assert(all.take(rows.len() as int) =~= all);
    groups
}

fn copy_rows(rows: &Vec<Vec<Value>>) -> (r: Vec<Vec<Value>>)
    ensures
        row_views(r@) == row_views(rows@),
{
    let mut r: Vec<Vec<Value>> = Vec::new();
    let mut i: usize = 0;
    while i < rows.len()
        invariant
            i <= rows.len(),
            r.len() == i,
            forall|k: int| 0 <= k < i ==> value_views(#[trigger] r[k]@) == value_views(rows[k]@),
        decreases rows.len() - i,
    {
        r.push(copy_row(&rows[i]));
        i += 1;
    }
    assert(row_views(r@) =~= row_views(rows@));
    r
}

/// The groups of a query.
pub fn make_groups(rows: &Vec<Vec<Value>>, keys: &Vec<RowExpr>, grouped: bool) -> (r: Vec<
    Vec<Vec<Value>>,
>)
    ensures
        group_views(r@) == groups_of(row_views(rows@), row_expr_views(keys@), grouped),
{
    if !grouped {
        let mut out: Vec<Vec<Vec<Value>>> = Vec::new();
        let mut i: usize = 0;
        while i < rows.len()
            invariant
                i <= rows.len(),
                out.len() == i,
                forall|k: int|
                    0 <= k < i ==> row_views(#[trigger] out[k]@) == seq![value_views(rows[k]@)],
            decreases rows.len() - i,
        {
            let mut group: Vec<Vec<Value>> = Vec::new();
            group.push(copy_row(&rows[i]));
            assert(row_views(group@) =~= seq![value_views(rows[i as int]@)]);
            out.push(group);
            i += 1;
        }
        assert(group_views(out@) =~= singles(row_views(rows@)));
        out
    } else if keys.len() == 0 {
        let mut out: Vec<Vec<Vec<Value>>> = Vec::new();
        out.push(copy_rows(rows));
        assert(group_views(out@) =~= seq![row_views(rows@)]);
        out
    } else {
        partition(rows, keys)
    }
}

fn order_values(groups: &Vec<Vec<Vec<Value>>>, order: &Vec<OrderKey>) -> (r: Vec<Vec<Value>>)
    ensures
        row_views(r@) == order_rows(group_views(groups@), order_views(order@)),
{
    let mut out: Vec<Vec<Value>> = Vec::new();
    let mut g: usize = 0;
    while g < groups.len()
        invariant
            g <= groups.len(),
            out.len() == g,
            forall|h: int|
                0 <= h < g ==> value_views(#[trigger] out[h]@) == order_rows(
                    group_views(groups@),
                    order_views(order@),
                )[h],
        decreases groups.len() - g,
    {
        let mut row: Vec<Value> = Vec::new();
        let mut k: usize = 0;
        while k < order.len()
            invariant
                g < groups.len(),
                k <= order.len(),
                row.len() == k,
                forall|i: int|
                    0 <= i < k ==> (#[trigger] row[i])@ == order[i]@.expr.eval(row_views(groups[g as int]@)),
            decreases order.len() - k,
        {
            row.push(order[k].expr.eval(&groups[g]));
            k += 1;
        }
        assert(value_views(row@) =~= order_rows(group_views(groups@), order_views(order@))[g as int]);
        out.push(row);
        g += 1;
    }
    assert(row_views(out@) =~= order_rows(group_views(groups@), order_views(order@)));
    out
}

fn directions(order: &Vec<OrderKey>) -> (r: Vec<SortKey>)
    ensures
        r@ == sort_keys(order_views(order@)),
{
    let mut r: Vec<SortKey> = Vec::new();
    let mut k: usize = 0;
    while k < order.len()
        invariant
            k <= order.len(),
            r.len() == k,
            forall|i: int|
                0 <= i < k ==> r[i] == (SortKey {
                    column: i as usize,
                    descending: order[i].descending,
                }),
        decreases order.len() - k,
    {
        r.push(SortKey { column: k, descending: order[k].descending });
        k += 1;
    }
    assert(r@ =~= sort_keys(order_views(order@)));
    r
}

/// The indices of the groups in the order of the result.
pub fn arrange(groups: &Vec<Vec<Vec<Value>>>, order: &Vec<OrderKey>) -> (r: Vec<usize>)
    ensures
        r@ == arranged(group_views(groups@), order_views(order@)),
        r.len() == groups.len(),
        forall|i: int| 0 <= i < r.len() ==> (#[trigger] r[i]) < groups.len(),
{
    let values = order_values(groups, order);
    let keys = directions(order);
    let start = identity_indices(groups.len());
    let r = sort_indices(&values, &keys, &start);
    proof {
        assert forall|i: int| 0 <= i < r.len() implies (#[trigger] r[i]) < groups.len() by {
            lemma_sorted_members(row_views(values@), keys@, start@, i);
            let z = choose|z: int| 0 <= z < start@.len() && start@[z] == r[i];
            assert(start@[z] == z as usize);
        }
    }
    r
}

/// The result of a plan on the rows of the tables of its query.
pub fn run_plan(plan: &Plan, rows: &Vec<Vec<Value>>, types: &Vec<DataType>) -> (t: Table)
    requires
        plan@.sound(types@),
        all_fit(row_views(rows@), types@),
    ensures
        t@ == run(plan@, row_views(rows@)),
{
    let joined = keep(rows, &plan.on);
    let filtered = keep(&joined, &plan.filter);
    let groups = make_groups(&filtered, &plan.keys, plan.grouped);
    let perm = arrange(&groups, &plan.order);
    let ghost gv = group_views(groups@);
    let ghost pv = plan@;
    proof {
        lemma_kept(row_views(rows@), pv.on, types@);
        lemma_kept(row_views(joined@), pv.filter, types@);
        lemma_partitioned(row_views(filtered@), pv.keys, types@);
        assert forall|g: int| 0 <= g < gv.len() implies all_fit(#[trigger] gv[g], types@) by {
            if !pv.grouped {
                assert(gv[g] =~= seq![row_views(filtered@)[g]]);
                assert(row_fits(row_views(filtered@)[g], types@));
            } else if pv.keys.len() == 0 {
                assert(gv[g] == row_views(filtered@));
            }
        }
    }
    let mut columns: Vec<Column> = Vec::new();
    let mut j: usize = 0;
    while j < plan.outputs.len()
        invariant
            j <= plan.outputs.len(),
            pv == plan@,
            gv == group_views(groups@),
            pv.sound(types@),
            forall|g: int| 0 <= g < gv.len() ==> all_fit(#[trigger] gv[g], types@),
            perm.len() == groups.len(),
            forall|i: int| 0 <= i < perm.len() ==> (#[trigger] perm[i]) < groups.len(),
            columns.len() == j,
            forall|c: int|
                0 <= c < j ==> (#[trigger] columns[c])@ == output_column(gv, perm@, pv.outputs[c])
                    && columns[c]@.wf(),
        decreases plan.outputs.len() - j,
    {
        let out = &plan.outputs[j];
        let ghost ov = pv.outputs[j as int];
        assert(ov == out@);
        let mut values: Vec<Value> = Vec::new();
        let mut i: usize = 0;
        while i < perm.len()
            invariant
                i <= perm.len(),
                j < plan.outputs.len(),
                ov == out@,
                ov.expr.within(types.len() as int),
                ov.expr.check(types@) == Ok::<DataType, crate::expr::TypeError>(ov.dtype),
                gv == group_views(groups@),
                forall|g: int| 0 <= g < gv.len() ==> all_fit(#[trigger] gv[g], types@),
                perm.len() == groups.len(),
                forall|k: int| 0 <= k < perm.len() ==> (#[trigger] perm[k]) < groups.len(),
                values.len() == i,
                forall|k: int|
                    0 <= k < i ==> (#[trigger] values[k])@ == ov.expr.eval(gv[perm[k] as int])
                        && values[k]@.fits(ov.dtype),
            decreases perm.len() - i,
        {
            let g = perm[i];
            let v = out.expr.eval(&groups[g]);
            proof {
                assert(gv[g as int] == row_views(groups[g as int]@));
                assert(all_fit(gv[g as int], types@));
                lemma_group_expr_sound(ov.expr, types@, gv[g as int]);
            }
            values.push(v);
            i += 1;
        }
        let column = Column::assemble(out.name.clone(), out.dtype, values);
        assert(column@.values =~= output_column(gv, perm@, ov).values);
        assert(column@ == output_column(gv, perm@, ov));
        columns.push(column);
        j += 1;
    }
    proof {
        let expected = run(pv, row_views(rows@));
        assert(column_views(columns@) =~= expected.columns);
        assert(expected.wf()) by {
            assert forall|a: int, b: int| 0 <= a < b < expected.columns.len() implies (
            #[trigger] expected.columns[a]).name != (#[trigger] expected.columns[b]).name by {
                assert(pv.outputs[a].name != pv.outputs[b].name);
            }
            assert forall|c: int| 0 <= c < expected.columns.len() implies (
            #[trigger] expected.columns[c]).wf() by {
                assert(columns[c]@.wf());
            }
        }
    }
    Table::assemble(columns, perm.len())
}

} // verus!
