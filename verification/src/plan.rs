//! The plan of a query: its clauses as expressions over column indices, each
//! checked for the types of its operands, and the names of its result's columns.
//!
//! The clauses are resolved and checked in the order `ON`, `WHERE`, `GROUP BY`,
//! selection, `ORDER BY`; the first error found is the error of the query.
//! A column of the result is called by the name given with `AS`, else by the
//! column's name where the expression is one column, else by the text of the
//! expression. Where a name is taken already, the column gets the first free
//! name of the series `name`, `name_2`, `name_3`, ...

use vstd::prelude::*;
use crate::expr::{accepts, Operation, RowExpr, RowExprView};
use crate::group::{GroupExpr, GroupExprView};
use crate::parser::{Entry, Expr, Query, QueryView};
use crate::registry::{
    candidate, first_free, lemma_candidates_fit, lemma_first_free_unique, string_views,
    unique_name,
};
use crate::resolve::{
    group_expr_of, has_aggregate, holds_aggregate, resolve_group, resolve_row, row_expr_of,
    scope_types, scope_views, span_text, text_of, type_error, type_failed, QueryError,
    QueryErrorView, ScopeColumn, ScopeColumnView,
};
use crate::value::DataType;

verus! {

/// A column of the result: its name, what it holds and its type.
#[derive(Debug)]
pub struct Output {
    pub name: String,
    pub expr: GroupExpr,
    pub dtype: DataType,
}

/// The model of an `Output`.
pub struct OutputView {
    pub name: Seq<char>,
    pub expr: GroupExprView,
    pub dtype: DataType,
}

impl View for Output {
    type V = OutputView;

    open spec fn view(&self) -> OutputView {
        OutputView { name: self.name@, expr: self.expr@, dtype: self.dtype }
    }
}

/// A key of the order of the result.
#[derive(Debug)]
pub struct OrderKey {
    pub expr: GroupExpr,
    pub descending: bool,
}

/// The model of an `OrderKey`.
pub struct OrderKeyView {
    pub expr: GroupExprView,
    pub descending: bool,
}

impl View for OrderKey {
    type V = OrderKeyView;

    open spec fn view(&self) -> OrderKeyView {
        OrderKeyView { expr: self.expr@, descending: self.descending }
    }
}

/// The plan of a query.
#[derive(Debug)]
pub struct Plan {
    /// The condition of the join.
    pub on: Option<RowExpr>,
    /// The condition of `WHERE`.
    pub filter: Option<RowExpr>,
    /// Whether the rows are put in groups: the query has `GROUP BY` or an
    /// aggregate.
    pub grouped: bool,
    /// The expressions of `GROUP BY`.
    pub keys: Vec<RowExpr>,
    pub outputs: Vec<Output>,
    pub order: Vec<OrderKey>,
}

/// The model of a `Plan`.
pub struct PlanView {
    pub on: Option<RowExprView>,
    pub filter: Option<RowExprView>,
    pub grouped: bool,
    pub keys: Seq<RowExprView>,
    pub outputs: Seq<OutputView>,
    pub order: Seq<OrderKeyView>,
}

/// The model of an optional expression over a row.
pub open spec fn optional_row(e: Option<RowExpr>) -> Option<RowExprView> {
    match e {
        Some(x) => Some(x@),
        None => None,
    }
}

/// The models of the expressions of a list.
pub open spec fn row_expr_views(s: Seq<RowExpr>) -> Seq<RowExprView> {
    Seq::new(s.len(), |i: int| s[i]@)
}

/// The models of the columns of a list.
pub open spec fn output_views(s: Seq<Output>) -> Seq<OutputView> {
    Seq::new(s.len(), |i: int| s[i]@)
}

/// The models of the keys of a list.
pub open spec fn order_views(s: Seq<OrderKey>) -> Seq<OrderKeyView> {
    Seq::new(s.len(), |i: int| s[i]@)
}

impl View for Plan {
    type V = PlanView;

    open spec fn view(&self) -> PlanView {
        PlanView {
            on: optional_row(self.on),
            filter: optional_row(self.filter),
            grouped: self.grouped,
            keys: row_expr_views(self.keys@),
            outputs: output_views(self.outputs@),
            order: order_views(self.order@),
        }
    }
}

impl PlanView {
    /// Whether the columns of the result are well typed over columns of the
    /// given types, and differ in their names.
    pub open spec fn sound(self, types: Seq<DataType>) -> bool {
        &&& forall|j: int|
            0 <= j < self.outputs.len() ==> {
                &&& (#[trigger] self.outputs[j]).expr.within(types.len() as int)
                &&& self.outputs[j].expr.check(types) == Ok::<DataType, crate::expr::TypeError>(
                    self.outputs[j].dtype,
                )
            }
        &&& forall|i: int, j: int|
            0 <= i < j < self.outputs.len() ==> (#[trigger] self.outputs[i]).name
                != (#[trigger] self.outputs[j]).name
    }
}

/// A condition of the query: an expression over one row that is boolean or
/// null.
pub open spec fn condition_of(
    e: Expr,
    src: Seq<char>,
    scope: Seq<ScopeColumnView>,
    operation: Operation,
) -> Result<RowExprView, QueryErrorView> {
    match row_expr_of(e, src, scope) {
        Err(e) => Err(e),
        Ok(x) => match x.check(scope_types(scope)) {
            Err(t) => Err(type_error(t)),
            Ok(t) => if accepts(DataType::Boolean, t) {
                Ok(x)
            } else {
                Err(
                    QueryErrorView::TypeMismatch {
                        operation,
                        left_type: t,
                        right_type: DataType::Boolean,
                    },
                )
            },
        },
    }
}

/// An optional condition of the query.
pub open spec fn optional_condition(
    e: Option<Expr>,
    src: Seq<char>,
    scope: Seq<ScopeColumnView>,
    operation: Operation,
) -> Result<Option<RowExprView>, QueryErrorView> {
    match e {
        None => Ok(None),
        Some(x) => match condition_of(x, src, scope, operation) {
            Ok(c) => Ok(Some(c)),
            Err(e) => Err(e),
        },
    }
}

/// An expression over one row, resolved and checked.
pub open spec fn checked_row(e: Expr, src: Seq<char>, scope: Seq<ScopeColumnView>) -> Result<
    RowExprView,
    QueryErrorView,
> {
    match row_expr_of(e, src, scope) {
        Err(e) => Err(e),
        Ok(x) => match x.check(scope_types(scope)) {
            Err(t) => Err(type_error(t)),
            Ok(_) => Ok(x),
        },
    }
}

/// An expression over a group, resolved and checked, and its type.
pub open spec fn checked_group(e: Expr, src: Seq<char>, scope: Seq<ScopeColumnView>) -> Result<
    (GroupExprView, DataType),
    QueryErrorView,
> {
    match group_expr_of(e, src, scope) {
        Err(e) => Err(e),
        Ok(x) => match x.check(scope_types(scope)) {
            Err(t) => Err(type_error(t)),
            Ok(t) => Ok((x, t)),
        },
    }
}

/// The expressions of `GROUP BY`.
pub open spec fn keys_of(entries: Seq<Entry>, src: Seq<char>, scope: Seq<ScopeColumnView>) -> Result<
    Seq<RowExprView>,
    QueryErrorView,
>
    decreases entries.len(),
{
    if entries.len() == 0 {
        Ok(Seq::empty())
    } else {
        match keys_of(entries.drop_last(), src, scope) {
            Err(e) => Err(e),
            Ok(front) => match checked_row(entries.last().expr, src, scope) {
                Err(e) => Err(e),
                Ok(x) => Ok(front.push(x)),
            },
        }
    }
}

/// The keys of `ORDER BY`.
pub open spec fn order_of(entries: Seq<Entry>, src: Seq<char>, scope: Seq<ScopeColumnView>) -> Result<
    Seq<OrderKeyView>,
    QueryErrorView,
>
    decreases entries.len(),
{
    if entries.len() == 0 {
        Ok(Seq::empty())
    } else {
        match order_of(entries.drop_last(), src, scope) {
            Err(e) => Err(e),
            Ok(front) => match checked_group(entries.last().expr, src, scope) {
                Err(e) => Err(e),
                Ok((x, _)) => Ok(
                    front.push(OrderKeyView { expr: x, descending: entries.last().descending }),
                ),
            },
        }
    }
}

/// The name that a column of the result has before names are told apart.
pub open spec fn base_name(entry: Entry, src: Seq<char>) -> Seq<char> {
    match entry.alias {
        Some(a) => span_text(src, a),
        None => match entry.expr {
            Expr::Column { table: _, name } => span_text(src, name),
            _ => span_text(src, entry.text),
        },
    }
}

/// The first name of the series of `base` that `taken` lacks.
pub open spec fn free_name(taken: Seq<Seq<char>>, base: Seq<char>) -> Seq<char> {
    choose|n: Seq<char>| first_free(taken, base, n)
}

/// Every series has a name that `taken` lacks after names that it holds.
pub proof fn lemma_some_free(taken: Seq<Seq<char>>, base: Seq<char>, k: nat)
    requires
        1 <= k,
        forall|j: nat| 1 <= j < k ==> taken.contains(#[trigger] candidate(base, j)),
    ensures
        exists|n: Seq<char>| first_free(taken, base, n),
    decreases taken.len() + 1 - k,
{
    if taken.contains(candidate(base, k)) {
        lemma_candidates_fit(taken, base, k);
        lemma_some_free(taken, base, k + 1);
    } else {
        assert(first_free(taken, base, candidate(base, k)));
    }
}

/// The free name of a series is the first name of the series that `taken`
/// lacks.
pub proof fn lemma_free_name(taken: Seq<Seq<char>>, base: Seq<char>)
    ensures
        first_free(taken, base, free_name(taken, base)),
        !taken.contains(free_name(taken, base)),
{
    lemma_some_free(taken, base, 1);
}

/// The names of the columns given so far.
pub open spec fn output_names(outputs: Seq<OutputView>) -> Seq<Seq<char>> {
    Seq::new(outputs.len(), |i: int| outputs[i].name)
}

/// The columns of the result that the entries of the selection stand for.
pub open spec fn outputs_of(entries: Seq<Entry>, src: Seq<char>, scope: Seq<ScopeColumnView>) -> Result<
    Seq<OutputView>,
    QueryErrorView,
>
    decreases entries.len(),
{
    if entries.len() == 0 {
        Ok(Seq::empty())
    } else {
        match outputs_of(entries.drop_last(), src, scope) {
            Err(e) => Err(e),
            Ok(front) => match checked_group(entries.last().expr, src, scope) {
                Err(e) => Err(e),
                Ok((x, t)) => Ok(
                    front.push(
                        OutputView {
                            name: free_name(output_names(front), base_name(entries.last(), src)),
                            expr: x,
                            dtype: t,
                        },
                    ),
                ),
            },
        }
    }
}

/// The columns of the result of `SELECT *`: the first `n` columns of the scope.
pub open spec fn star_outputs(scope: Seq<ScopeColumnView>, n: int) -> Seq<OutputView>
    decreases n,
{
    if n <= 0 || n > scope.len() {
        Seq::empty()
    } else {
        let front = star_outputs(scope, n - 1);
        front.push(
            OutputView {
                name: free_name(output_names(front), scope[n - 1].name),
                expr: GroupExprView::Row(RowExprView::Column(n - 1)),
                dtype: scope[n - 1].dtype,
            },
        )
    }
}

/// Whether one of the entries holds an aggregate.
pub open spec fn any_aggregate(entries: Seq<Entry>) -> bool {
    exists|i: int| 0 <= i < entries.len() && has_aggregate(#[trigger] entries[i].expr)
}

/// The condition of the join of a query.
pub open spec fn join_condition(q: QueryView) -> Option<Expr> {
    match q.join {
        Some(j) => Some(j.on),
        None => None,
    }
}

/// The plan of a query over the columns of a scope.
pub open spec fn plan_of(q: QueryView, src: Seq<char>, scope: Seq<ScopeColumnView>) -> Result<
    PlanView,
    QueryErrorView,
> {
    match optional_condition(join_condition(q), src, scope, Operation::Join) {
        Err(e) => Err(e),
        Ok(on) => match optional_condition(q.filter, src, scope, Operation::Filter) {
            Err(e) => Err(e),
            Ok(filter) => match keys_of(q.group_by, src, scope) {
                Err(e) => Err(e),
                Ok(keys) => match (if q.all {
                    Ok(star_outputs(scope, scope.len() as int))
                } else {
                    outputs_of(q.items, src, scope)
                }) {
                    Err(e) => Err(e),
                    Ok(outputs) => match order_of(q.order_by, src, scope) {
                        Err(e) => Err(e),
                        Ok(order) => Ok(
                            PlanView {
                                on,
                                filter,
                                grouped: q.group_by.len() > 0 || any_aggregate(q.items)
                                    || any_aggregate(q.order_by),
                                keys,
                                outputs,
                                order,
                            },
                        ),
                    },
                },
            },
        },
    }
}

/// The types of the columns of a scope.
pub fn types_of(scope: &Vec<ScopeColumn>) -> (r: Vec<DataType>)
    ensures
        r@ == scope_types(scope_views(scope@)),
{
    let mut r: Vec<DataType> = Vec::new();
    let mut i: usize = 0;
    while i < scope.len()
        invariant
            i <= scope.len(),
            r.len() == i,
            forall|k: int| 0 <= k < i ==> r[k] == scope[k].dtype,
        decreases scope.len() - i,
    {
        r.push(scope[i].dtype);
        i += 1;
    }
    assert(r@ =~= scope_types(scope_views(scope@)));
    r
}

/// The model of an expression over a row, or of the reason why there is none.
pub open spec fn row_outcome(r: Result<RowExpr, QueryError>) -> Result<RowExprView, QueryErrorView> {
    match r {
        Ok(x) => Ok(x@),
        Err(e) => Err(e@),
    }
}

fn make_condition(
    e: &Expr,
    src: &Vec<char>,
    scope: &Vec<ScopeColumn>,
    types: &Vec<DataType>,
    operation: Operation,
) -> (r: Result<RowExpr, QueryError>)
    requires
        types@ == scope_types(scope_views(scope@)),
    ensures
        row_outcome(r) == condition_of(*e, src@, scope_views(scope@), operation),
{
    match resolve_row(e, src, scope) {
        Err(e) => Err(e),
        Ok(x) => match x.check(types) {
            Err(t) => Err(type_failed(t)),
            Ok(t) => {
                if t == DataType::Null || t == DataType::Boolean {
                    Ok(x)
                } else {
                    Err(
                        QueryError::TypeMismatch {
                            operation,
                            left_type: t,
                            right_type: DataType::Boolean,
                        },
                    )
                }
            },
        },
    }
}

/// A condition over the columns of a scope.
pub fn compile_condition(
    e: &Expr,
    src: &Vec<char>,
    scope: &Vec<ScopeColumn>,
    operation: Operation,
) -> (r: Result<RowExpr, QueryError>)
    ensures
        row_outcome(r) == condition_of(*e, src@, scope_views(scope@), operation),
{
    let types = types_of(scope);
    make_condition(e, src, scope, &types, operation)
}

fn make_row(e: &Expr, src: &Vec<char>, scope: &Vec<ScopeColumn>, types: &Vec<DataType>) -> (r: Result<
    RowExpr,
    QueryError,
>)
    requires
        types@ == scope_types(scope_views(scope@)),
    ensures
        row_outcome(r) == checked_row(*e, src@, scope_views(scope@)),
{
    match resolve_row(e, src, scope) {
        Err(e) => Err(e),
        Ok(x) => match x.check(types) {
            Err(t) => Err(type_failed(t)),
            Ok(_) => Ok(x),
        },
    }
}

/// The model of an expression over a group with its type, or of the reason
/// why there is none.
pub open spec fn group_outcome(r: Result<(GroupExpr, DataType), QueryError>) -> Result<
    (GroupExprView, DataType),
    QueryErrorView,
> {
    match r {
        Ok((x, t)) => Ok((x@, t)),
        Err(e) => Err(e@),
    }
}

fn make_group(e: &Expr, src: &Vec<char>, scope: &Vec<ScopeColumn>, types: &Vec<DataType>) -> (r:
    Result<(GroupExpr, DataType), QueryError>)
    requires
        types@ == scope_types(scope_views(scope@)),
    ensures
        group_outcome(r) == checked_group(*e, src@, scope_views(scope@)),
        match r {
            Ok((x, t)) => x@.within(scope.len() as int) && x@.check(types@) == Ok::<
                DataType,
                crate::expr::TypeError,
            >(t),
            Err(_) => true,
        },
{
    match resolve_group(e, src, scope) {
        Err(e) => Err(e),
        Ok(x) => match x.check(types) {
            Err(t) => Err(type_failed(t)),
            Ok(t) => Ok((x, t)),
        },
    }
}

/// The model of the keys of `GROUP BY`, or of the reason why there are none.
pub open spec fn keys_outcome(r: Result<Vec<RowExpr>, QueryError>) -> Result<
    Seq<RowExprView>,
    QueryErrorView,
> {
    match r {
        Ok(v) => Ok(row_expr_views(v@)),
        Err(e) => Err(e@),
    }
}

fn make_keys(
    entries: &Vec<Entry>,
    src: &Vec<char>,
    scope: &Vec<ScopeColumn>,
    types: &Vec<DataType>,
) -> (r: Result<Vec<RowExpr>, QueryError>)
    requires
        types@ == scope_types(scope_views(scope@)),
    ensures
        keys_outcome(r) == keys_of(entries@, src@, scope_views(scope@)),
{
    let mut out: Vec<RowExpr> = Vec::new();
    let mut i: usize = 0;
    assert(row_expr_views(out@) =~= Seq::<RowExprView>::empty());
    while i < entries.len()
        invariant
            i <= entries.len(),
            types@ == scope_types(scope_views(scope@)),
            keys_of(entries@.take(i as int), src@, scope_views(scope@)) == Ok::<
                Seq<RowExprView>,
                QueryErrorView,
            >(row_expr_views(out@)),
        decreases entries.len() - i,
    {
        proof {
            assert(entries@.take(i + 1).drop_last() =~= entries@.take(i as int));
            assert(entries@.take(i + 1).last() == entries[i as int]);
        }
        match make_row(&entries[i].expr, src, scope, types) {
            Err(e) => {
                proof {
                    lemma_keys_error(entries@, src@, scope_views(scope@), i + 1);
                }
                return Err(e);
            },
            Ok(x) => {
                let ghost before = row_expr_views(out@);
                out.push(x);
                assert(row_expr_views(out@) =~= before.push(x@));
            },
        }
        i += 1;
    }
    assert(entries@.take(entries.len() as int) =~= entries@);
    Ok(out)
}

/// An error among the first entries of `GROUP BY` is the error of the list.
pub proof fn lemma_keys_error(
    entries: Seq<Entry>,
    src: Seq<char>,
    scope: Seq<ScopeColumnView>,
    k: int,
)
    requires
        0 <= k <= entries.len(),
        keys_of(entries.take(k), src, scope) is Err,
    ensures
        keys_of(entries, src, scope) == keys_of(entries.take(k), src, scope),
    decreases entries.len() - k,
{
    if k < entries.len() {
        assert(entries.take(k + 1).drop_last() =~= entries.take(k));
        lemma_keys_error(entries, src, scope, k + 1);
    } else {
        assert(entries.take(k) =~= entries);
    }
}

/// The model of the keys of `ORDER BY`, or of the reason why there are none.
pub open spec fn order_outcome(r: Result<Vec<OrderKey>, QueryError>) -> Result<
    Seq<OrderKeyView>,
    QueryErrorView,
> {
    match r {
        Ok(v) => Ok(order_views(v@)),
        Err(e) => Err(e@),
    }
}

/// An error among the first entries of `ORDER BY` is the error of the list.
pub proof fn lemma_order_error(
    entries: Seq<Entry>,
    src: Seq<char>,
    scope: Seq<ScopeColumnView>,
    k: int,
)
    requires
        0 <= k <= entries.len(),
        order_of(entries.take(k), src, scope) is Err,
    ensures
        order_of(entries, src, scope) == order_of(entries.take(k), src, scope),
    decreases entries.len() - k,
{
    if k < entries.len() {
        assert(entries.take(k + 1).drop_last() =~= entries.take(k));
        lemma_order_error(entries, src, scope, k + 1);
    } else {
        assert(entries.take(k) =~= entries);
    }
}

fn make_order(
    entries: &Vec<Entry>,
    src: &Vec<char>,
    scope: &Vec<ScopeColumn>,
    types: &Vec<DataType>,
) -> (r: Result<Vec<OrderKey>, QueryError>)
    requires
        types@ == scope_types(scope_views(scope@)),
    ensures
        order_outcome(r) == order_of(entries@, src@, scope_views(scope@)),
{
    let mut out: Vec<OrderKey> = Vec::new();
    let mut i: usize = 0;
    assert(order_views(out@) =~= Seq::<OrderKeyView>::empty());
    while i < entries.len()
        invariant
            i <= entries.len(),
            types@ == scope_types(scope_views(scope@)),
            order_of(entries@.take(i as int), src@, scope_views(scope@)) == Ok::<
                Seq<OrderKeyView>,
                QueryErrorView,
            >(order_views(out@)),
        decreases entries.len() - i,
    {
        proof {
            assert(entries@.take(i + 1).drop_last() =~= entries@.take(i as int));
            assert(entries@.take(i + 1).last() == entries[i as int]);
        }
        match make_group(&entries[i].expr, src, scope, types) {
            Err(e) => {
                proof {
                    lemma_order_error(entries@, src@, scope_views(scope@), i + 1);
                }
                return Err(e);
            },
            Ok((x, _)) => {
                let ghost before = order_views(out@);
                let key = OrderKey { expr: x, descending: entries[i].descending };
                let ghost kv = key@;
                out.push(key);
                assert(order_views(out@) =~= before.push(kv));
            },
        }
        i += 1;
    }
    assert(entries@.take(entries.len() as int) =~= entries@);
    Ok(out)
}

/// Whether the columns given so far are well typed and differ in their names.
pub open spec fn outputs_sound(outputs: Seq<OutputView>, types: Seq<DataType>) -> bool {
    &&& forall|j: int|
        0 <= j < outputs.len() ==> {
            &&& (#[trigger] outputs[j]).expr.within(types.len() as int)
            &&& outputs[j].expr.check(types) == Ok::<DataType, crate::expr::TypeError>(
                outputs[j].dtype,
            )
        }
    &&& forall|i: int, j: int|
        0 <= i < j < outputs.len() ==> (#[trigger] outputs[i]).name != (#[trigger] outputs[j]).name
}

fn names_of(outputs: &Vec<Output>) -> (r: Vec<String>)
    ensures
        string_views(r@) == output_names(output_views(outputs@)),
{
    let mut r: Vec<String> = Vec::new();
    let mut i: usize = 0;
    while i < outputs.len()
        invariant
            i <= outputs.len(),
            r.len() == i,
            forall|k: int| 0 <= k < i ==> (#[trigger] r[k])@ == outputs[k].name@,
        decreases outputs.len() - i,
    {
        r.push(outputs[i].name.clone());
        i += 1;
    }
    assert(string_views(r@) =~= output_names(output_views(outputs@)));
    r
}

fn fresh_name(base: &str, outputs: &Vec<Output>) -> (r: String)
    ensures
        r@ == free_name(output_names(output_views(outputs@)), base@),
        !output_names(output_views(outputs@)).contains(r@),
{
    let taken = names_of(outputs);
    let r = unique_name(base, &taken);
    proof {
        let names = output_names(output_views(outputs@));
        let chosen = free_name(names, base@);
        assert(first_free(names, base@, r@));
        lemma_first_free_unique(names, base@, r@, chosen);
    }
    r
}

fn base_of(entry: &Entry, src: &Vec<char>) -> (r: String)
    ensures
        r@ == base_name(*entry, src@),
{
    match entry.alias {
        Some(a) => text_of(src, a),
        None => match &entry.expr {
            Expr::Column { table: _, name } => text_of(src, *name),
            _ => text_of(src, entry.text),
        },
    }
}

/// The model of the columns of a result, or of the reason why there are none.
pub open spec fn outputs_outcome(r: Result<Vec<Output>, QueryError>) -> Result<
    Seq<OutputView>,
    QueryErrorView,
> {
    match r {
        Ok(v) => Ok(output_views(v@)),
        Err(e) => Err(e@),
    }
}

/// An error among the first entries of the selection is the error of the
/// selection.
pub proof fn lemma_outputs_error(
    entries: Seq<Entry>,
    src: Seq<char>,
    scope: Seq<ScopeColumnView>,
    k: int,
)
    requires
        0 <= k <= entries.len(),
        outputs_of(entries.take(k), src, scope) is Err,
    ensures
        outputs_of(entries, src, scope) == outputs_of(entries.take(k), src, scope),
    decreases entries.len() - k,
{
    if k < entries.len() {
        assert(entries.take(k + 1).drop_last() =~= entries.take(k));
        lemma_outputs_error(entries, src, scope, k + 1);
    } else {
        assert(entries.take(k) =~= entries);
    }
}

fn make_outputs(
    entries: &Vec<Entry>,
    src: &Vec<char>,
    scope: &Vec<ScopeColumn>,
    types: &Vec<DataType>,
) -> (r: Result<Vec<Output>, QueryError>)
    requires
        types@ == scope_types(scope_views(scope@)),
    ensures
        outputs_outcome(r) == outputs_of(entries@, src@, scope_views(scope@)),
        match r {
            Ok(v) => outputs_sound(output_views(v@), types@),
            Err(_) => true,
        },
{
    let mut out: Vec<Output> = Vec::new();
    let mut i: usize = 0;
    assert(output_views(out@) =~= Seq::<OutputView>::empty());
    while i < entries.len()
        invariant
            i <= entries.len(),
            types@ == scope_types(scope_views(scope@)),
            types.len() == scope.len(),
            outputs_of(entries@.take(i as int), src@, scope_views(scope@)) == Ok::<
                Seq<OutputView>,
                QueryErrorView,
            >(output_views(out@)),
            outputs_sound(output_views(out@), types@),
        decreases entries.len() - i,
    {
        proof {
            assert(entries@.take(i + 1).drop_last() =~= entries@.take(i as int));
            assert(entries@.take(i + 1).last() == entries[i as int]);
        }
        match make_group(&entries[i].expr, src, scope, types) {
            Err(e) => {
                proof {
                    lemma_outputs_error(entries@, src@, scope_views(scope@), i + 1);
                }
                return Err(e);
            },
            Ok((x, t)) => {
                let base = base_of(&entries[i], src);
                let name = fresh_name(base.as_str(), &out);
                let ghost before = output_views(out@);
                let output = Output { name, expr: x, dtype: t };
                let ghost ov = output@;
                out.push(output);
                proof {
                    assert(output_views(out@) =~= before.push(ov));
                    assert forall|a: int, b: int| 0 <= a < b < out.len() implies (
                    #[trigger] output_views(out@)[a]).name != (#[trigger] output_views(
                        out@,
                    )[b]).name by {
                        if b == out.len() - 1 {
                            assert(output_names(before)[a] == before[a].name);
                        } else {
                            assert(before[a].name != before[b].name);
                        }
                    }
                }
            },
        }
        i += 1;
    }
    assert(entries@.take(entries.len() as int) =~= entries@);
    Ok(out)
}

fn make_star(scope: &Vec<ScopeColumn>, types: &Vec<DataType>) -> (r: Vec<Output>)
    requires
        types@ == scope_types(scope_views(scope@)),
    ensures
        output_views(r@) == star_outputs(scope_views(scope@), scope.len() as int),
        outputs_sound(output_views(r@), types@),
{
    let mut out: Vec<Output> = Vec::new();
    let mut i: usize = 0;
    while i < scope.len()
        invariant
            i <= scope.len(),
            types@ == scope_types(scope_views(scope@)),
            types.len() == scope.len(),
            output_views(out@) =~= star_outputs(scope_views(scope@), i as int),
            outputs_sound(output_views(out@), types@),
        decreases scope.len() - i,
    {
        let name = fresh_name(scope[i].name.as_str(), &out);
        let ghost before = output_views(out@);
        let output = Output { name, expr: GroupExpr::Row(RowExpr::Column(i)), dtype: scope[i].dtype };
        let ghost ov = output@;
        out.push(output);
        proof {
            assert(scope_views(scope@)[i as int] == scope[i as int]@);
            assert(output_views(out@) =~= before.push(ov));
            assert forall|a: int, b: int| 0 <= a < b < out.len() implies (#[trigger] output_views(
                out@,
            )[a]).name != (#[trigger] output_views(out@)[b]).name by {
                if b == out.len() - 1 {
                    assert(output_names(before)[a] == before[a].name);
                } else {
                    assert(before[a].name != before[b].name);
                }
            }
        }
        i += 1;
    }
    out
}

fn aggregates_in(entries: &Vec<Entry>) -> (r: bool)
    ensures
        r == any_aggregate(entries@),
{
    let mut i: usize = 0;
    while i < entries.len()
        invariant
            i <= entries.len(),
            forall|k: int| 0 <= k < i ==> !has_aggregate(#[trigger] entries[k].expr),
        decreases entries.len() - i,
    {
        if holds_aggregate(&entries[i].expr) {
            return true;
        }
        i += 1;
    }
    false
}

/// The model of a plan, or of the reason why there is none.
pub open spec fn plan_outcome(r: Result<Plan, QueryError>) -> Result<PlanView, QueryErrorView> {
    match r {
        Ok(p) => Ok(p@),
        Err(e) => Err(e@),
    }
}

/// The plan of a query over the columns of a scope.
pub fn make_plan(q: &Query, src: &Vec<char>, scope: &Vec<ScopeColumn>) -> (r: Result<Plan, QueryError>)
    ensures
        plan_outcome(r) == plan_of(q@, src@, scope_views(scope@)),
        match r {
            Ok(p) => p@.sound(scope_types(scope_views(scope@))),
            Err(_) => true,
        },
{
    let types = types_of(scope);
    let on = match &q.join {
        None => None,
        Some(j) => match make_condition(&j.on, src, scope, &types, Operation::Join) {
            Err(e) => {
                return Err(e);
            },
            Ok(c) => Some(c),
        },
    };
    let filter = match &q.filter {
        None => None,
        Some(f) => match make_condition(f, src, scope, &types, Operation::Filter) {
            Err(e) => {
                return Err(e);
            },
            Ok(c) => Some(c),
        },
    };
    let keys = match make_keys(&q.group_by, src, scope, &types) {
        Err(e) => {
            return Err(e);
        },
        Ok(k) => k,
    };
    let outputs = if q.all {
        make_star(scope, &types)
    } else {
        match make_outputs(&q.items, src, scope, &types) {
            Err(e) => {
                return Err(e);
            },
            Ok(o) => o,
        }
    };
    let order = match make_order(&q.order_by, src, scope, &types) {
        Err(e) => {
            return Err(e);
        },
        Ok(o) => o,
    };
    let grouped = q.group_by.len() > 0 || aggregates_in(&q.items) || aggregates_in(&q.order_by);
    Ok(Plan { on, filter, grouped, keys, outputs, order })
}

} // verus!
