//! The query engine: from the text of a query and the registry to a new table.
//!
//! A query is answered in phases, each of which can end it with an error:
//! the text is split into tokens; the tokens are parsed; the tables are looked
//! up; names are resolved and operand types checked; then the plan is run.
//! Nothing is evaluated before all names and types have been found in order.

use vstd::prelude::*;
use crate::expr::{row_fits, row_views, value_views, Operation, RowExpr, RowExprView};
use crate::lexer::{tokenize, tokens_of, TokenKind};
use crate::parser::{
    condition_of, parse_condition, parse_query, query_of, ready, Entry, Query, QueryView, Source,
};
use crate::plan::{
    any_aggregate, base_name, free_name, keys_of, make_plan, output_names, outputs_of, plan_of,
    row_outcome, star_outputs,
};
use crate::query::{
    all_fit, cross, crossed, law_result_shape, lemma_crossed_fit, lemma_crossed_len,
    lemma_run_shape, run, run_plan,
};
use crate::registry::{Registry, RegistryView};
use crate::resolve::{
    parse_error, parse_failed, scope_types, scope_views, span_text, text_of, QueryError,
    QueryErrorView, ScopeColumn, ScopeColumnView,
};
use crate::table::{rows_of, Table, TableView};
use crate::text::chars_of;
use crate::value::{Value, ValueView};

verus! {

/// The columns of a table as a query sees them, the table being known to the
/// query as `qualifier`.
pub open spec fn table_scope(qualifier: Seq<char>, t: TableView) -> Seq<ScopeColumnView> {
    Seq::new(
        t.columns.len(),
        |c: int|
            ScopeColumnView { table: qualifier, name: t.columns[c].name, dtype: t.columns[c].dtype },
    )
}

/// The name by which a query knows a table: the name given after the table's,
/// else the table's name.
pub open spec fn qualifier(src: Seq<char>, source: Source) -> Seq<char> {
    match source.alias {
        Some(a) => span_text(src, a),
        None => span_text(src, source.name),
    }
}

/// The result of a query on the rows of its tables.
pub open spec fn finish(
    q: QueryView,
    src: Seq<char>,
    scope: Seq<ScopeColumnView>,
    rows: Seq<Seq<ValueView>>,
) -> Result<TableView, QueryErrorView> {
    match plan_of(q, src, scope) {
        Err(e) => Err(e),
        Ok(plan) => Ok(run(plan, rows)),
    }
}

/// The result of a parsed query.
pub open spec fn answer(q: QueryView, src: Seq<char>, reg: RegistryView) -> Result<
    TableView,
    QueryErrorView,
> {
    let left_name = span_text(src, q.from.name);
    match reg.find(left_name) {
        None => Err(QueryErrorView::UnknownTable { name: left_name }),
        Some(left) => match q.join {
            None => finish(q, src, table_scope(qualifier(src, q.from), left), rows_of(left)),
            Some(j) => {
                let right_name = span_text(src, j.source.name);
                match reg.find(right_name) {
                    None => Err(QueryErrorView::UnknownTable { name: right_name }),
                    Some(right) => finish(
                        q,
                        src,
                        table_scope(qualifier(src, q.from), left) + table_scope(
                            qualifier(src, j.source),
                            right,
                        ),
                        crossed(rows_of(left), rows_of(right)),
                    ),
                }
            },
        },
    }
}

/// The result of the query that a text spells.
pub open spec fn query_result(text: Seq<char>, reg: RegistryView) -> Result<TableView, QueryErrorView> {
    match tokens_of(text) {
        Err(f) => Err(parse_error(f)),
        Ok(tokens) => match query_of(tokens) {
            Err(f) => Err(parse_error(f)),
            Ok(q) => answer(q, text, reg),
        },
    }
}

/// The model of the result of a query.
pub open spec fn table_outcome(r: Result<Table, QueryError>) -> Result<TableView, QueryErrorView> {
    match r {
        Ok(t) => Ok(t@),
        Err(e) => Err(e@),
    }
}

/// The rows of a table are of the types of its columns, and as long as the
/// table is wide.
pub proof fn lemma_table_rows(t: TableView)
    requires
        t.wf(),
    ensures
        all_fit(rows_of(t), t.types()),
        forall|i: int| 0 <= i < rows_of(t).len() ==> (#[trigger] rows_of(t)[i]).len() == t.types().len(),
{
    assert forall|i: int| 0 <= i < rows_of(t).len() implies row_fits(
        #[trigger] rows_of(t)[i],
        t.types(),
    ) by {
        let row = rows_of(t)[i];
        assert forall|c: int| 0 <= c < row.len() implies (#[trigger] row[c]).fits(t.types()[c]) by {
            assert(t.columns[c].wf());
            assert(t.columns[c].values.len() == t.height);
            assert(t.columns[c].values[i].fits(t.columns[c].dtype));
        }
    }
}

fn table_columns(qualifier: &String, t: &Table) -> (r: Vec<ScopeColumn>)
    ensures
        scope_views(r@) == table_scope(qualifier@, t@),
{
    let mut r: Vec<ScopeColumn> = Vec::new();
    let mut c: usize = 0;
    while c < t.width()
        invariant
            c <= t@.columns.len(),
            r.len() == c,
            forall|k: int|
                0 <= k < c ==> (#[trigger] r[k])@ == (ScopeColumnView {
                    table: qualifier@,
                    name: t@.columns[k].name,
                    dtype: t@.columns[k].dtype,
                }),
        decreases t@.columns.len() - c,
    {
        let column = t.column(c);
        r.push(
            ScopeColumn {
                table: qualifier.clone(),
                name: column.name().to_owned(),
                dtype: column.data_type(),
            },
        );
        c += 1;
    }
    assert(scope_views(r@) =~= table_scope(qualifier@, t@));
    r
}

fn qualifier_of(src: &Vec<char>, source: Source) -> (r: String)
    ensures
        r@ == qualifier(src@, source),
{
    match source.alias {
        Some(a) => text_of(src, a),
        None => text_of(src, source.name),
    }
}

/// The rows of a table, from the first to the last.
pub fn table_rows(t: &Table) -> (r: Vec<Vec<Value>>)
    ensures
        row_views(r@) == rows_of(t@),
{
    let r = t.rows();
    assert(row_views(r@) =~= rows_of(t@)) by {
        assert forall|i: int| 0 <= i < r.len() implies row_views(r@)[i] == rows_of(t@)[i] by {
            assert(value_views(r[i]@) =~= t@.row(i));
        }
    }
    r
}

fn finish_query(q: &Query, src: &Vec<char>, scope: &Vec<ScopeColumn>, rows: &Vec<Vec<Value>>) -> (r:
    Result<Table, QueryError>)
    requires
        all_fit(row_views(rows@), scope_types(scope_views(scope@))),
    ensures
        table_outcome(r) == finish(q@, src@, scope_views(scope@), row_views(rows@)),
{
    match make_plan(q, src, scope) {
        Err(e) => Err(e),
        Ok(plan) => {
            let types = crate::plan::types_of(scope);
            Ok(run_plan(&plan, rows, &types))
        },
    }
}

fn answer_query(q: &Query, src: &Vec<char>, registry: &Registry) -> (r: Result<Table, QueryError>)
    requires
        registry@.wf(),
    ensures
        table_outcome(r) == answer(q@, src@, registry@),
{
    let left_name = text_of(src, q.from.name);
    let left = match registry.lookup(left_name.as_str()) {
        Err(_) => {
            return Err(QueryError::UnknownTable { name: left_name });
        },
        Ok(t) => t,
    };
    let left_qualifier = qualifier_of(src, q.from);
    let mut scope = table_columns(&left_qualifier, left);
    let left_rows = table_rows(left);
    proof {
        use_type_invariant(left);
        lemma_table_rows(left@);
        assert(scope_types(scope_views(scope@)) =~= left@.types());
    }
    match &q.join {
        None => finish_query(q, src, &scope, &left_rows),
        Some(j) => {
            let right_name = text_of(src, j.source.name);
            let right = match registry.lookup(right_name.as_str()) {
                Err(_) => {
                    return Err(QueryError::UnknownTable { name: right_name });
                },
                Ok(t) => t,
            };
            let right_qualifier = qualifier_of(src, j.source);
            let mut right_scope = table_columns(&right_qualifier, right);
            let right_rows = table_rows(right);
            let ghost ls = scope_views(scope@);
            let ghost rs = scope_views(right_scope@);
            scope.append(&mut right_scope);
            let rows = cross(&left_rows, &right_rows);
            proof {
                use_type_invariant(right);
                lemma_table_rows(right@);
                assert(scope_views(scope@) =~= ls + rs);
                assert(scope_types(ls + rs) =~= left@.types() + right@.types());
                assert(scope_types(rs) =~= right@.types());
                lemma_crossed_fit(rows_of(left@), rows_of(right@), left@.types(), right@.types());
            }
            finish_query(q, src, &scope, &rows)
        },
    }
}

/// Answers the query that `text` spells on the tables of the registry. The
/// result is a new table; the registry and its tables stay as they are.
pub fn execute(text: &str, registry: &Registry) -> (r: Result<Table, QueryError>)
    requires
        registry@.wf(),
    ensures
        table_outcome(r) == query_result(text@, registry@),
        match r {
            Ok(t) => t@.wf(),
            Err(_) => true,
        },
{
    let src = chars_of(text);
    let tokens = match tokenize(&src) {
        Err(f) => {
            return Err(parse_failed(f));
        },
        Ok(t) => t,
    };
    assert(ready(tokens@, 0)) by {
        assert forall|i: int| 0 <= i < tokens@.len() - 1 implies (#[trigger] tokens@[i]).kind
            != TokenKind::End by {}
    }
    let query = match parse_query(&tokens) {
        Err(f) => {
            return Err(parse_failed(f));
        },
        Ok(q) => q,
    };
    match answer_query(&query, &src, registry) {
        Ok(t) => {
            proof {
                use_type_invariant(&t);
            }
            Ok(t)
        },
        Err(e) => Err(e),
    }
}

/// The condition that a text spells over the columns of a table: an expression
/// over one row of the table that is boolean or null.
pub open spec fn filter_of(text: Seq<char>, t: TableView) -> Result<RowExprView, QueryErrorView> {
    match tokens_of(text) {
        Err(f) => Err(parse_error(f)),
        Ok(tokens) => match condition_of(tokens) {
            Err(f) => Err(parse_error(f)),
            Ok(e) => crate::plan::condition_of(
                e,
                text,
                table_scope(Seq::empty(), t),
                Operation::Filter,
            ),
        },
    }
}

/// The condition that `text` spells over the columns of `table`, in the
/// language of the conditions of queries.
pub fn compile_filter(text: &str, table: &Table) -> (r: Result<RowExpr, QueryError>)
    ensures
        row_outcome(r) == filter_of(text@, table@),
{
    let src = chars_of(text);
    let tokens = match tokenize(&src) {
        Err(f) => {
            return Err(parse_failed(f));
        },
        Ok(t) => t,
    };
    assert(ready(tokens@, 0)) by {
        assert forall|i: int| 0 <= i < tokens@.len() - 1 implies (#[trigger] tokens@[i]).kind
            != TokenKind::End by {}
    }
    let e = match parse_condition(&tokens) {
        Err(f) => {
            return Err(parse_failed(f));
        },
        Ok(e) => e,
    };
    let scope = table_columns(&String::new(), table);
    crate::plan::compile_condition(&e, &src, &scope, Operation::Filter)
}

/// The columns that the entries of a selection stand for are as many as the
/// entries, and each has the first free name of the series of the name that
/// its entry declares.
pub proof fn lemma_outputs(entries: Seq<Entry>, src: Seq<char>, scope: Seq<ScopeColumnView>)
    requires
        outputs_of(entries, src, scope) is Ok,
    ensures
        outputs_of(entries, src, scope)->Ok_0.len() == entries.len(),
        forall|j: int|
            0 <= j < entries.len() ==> (#[trigger] outputs_of(entries, src, scope)->Ok_0[j]).name
                == free_name(
                output_names(outputs_of(entries, src, scope)->Ok_0).take(j),
                base_name(entries[j], src),
            ),
    decreases entries.len(),
{
    if entries.len() > 0 {
        let front = outputs_of(entries.drop_last(), src, scope)->Ok_0;
        let all = outputs_of(entries, src, scope)->Ok_0;
        lemma_outputs(entries.drop_last(), src, scope);
        assert forall|j: int| 0 <= j < entries.len() implies (#[trigger] all[j]).name == free_name(
            output_names(all).take(j),
            base_name(entries[j], src),
        ) by {
            if j < front.len() {
                assert(all[j] == front[j]);
                assert(output_names(all).take(j) =~= output_names(front).take(j));
                assert(entries[j] == entries.drop_last()[j]);
            } else {
                assert(output_names(all).take(j) =~= output_names(front));
            }
        }
    }
}

/// `SELECT *` gives one column for each column of the scope, each with the
/// first free name of the series of the name it has in its table.
pub proof fn lemma_star_outputs(scope: Seq<ScopeColumnView>, n: int)
    requires
        0 <= n <= scope.len(),
    ensures
        star_outputs(scope, n).len() == n,
        forall|j: int|
            0 <= j < n ==> (#[trigger] star_outputs(scope, n)[j]).name == free_name(
                output_names(star_outputs(scope, n)).take(j),
                scope[j].name,
            ),
    decreases n,
{
    if n > 0 {
        let front = star_outputs(scope, n - 1);
        let all = star_outputs(scope, n);
        lemma_star_outputs(scope, n - 1);
        assert forall|j: int| 0 <= j < n implies (#[trigger] all[j]).name == free_name(
            output_names(all).take(j),
            scope[j].name,
        ) by {
            if j < n - 1 {
                assert(all[j] == front[j]);
                assert(output_names(all).take(j) =~= output_names(front).take(j));
            } else {
                assert(output_names(all).take(j) =~= output_names(front));
            }
        }
    }
}

/// There are as many keys as expressions after `GROUP BY`.
pub proof fn lemma_keys_len(entries: Seq<Entry>, src: Seq<char>, scope: Seq<ScopeColumnView>)
    requires
        keys_of(entries, src, scope) is Ok,
    ensures
        keys_of(entries, src, scope)->Ok_0.len() == entries.len(),
    decreases entries.len(),
{
    if entries.len() > 0 {
        lemma_keys_len(entries.drop_last(), src, scope);
    }
}

/// Whether a query gathers all rows in one group: it has aggregates and no
/// `GROUP BY`.
pub open spec fn gathers_all(q: QueryView) -> bool {
    q.group_by.len() == 0 && (any_aggregate(q.items) || any_aggregate(q.order_by))
}

/// The columns that a query can name: those of the table of `FROM`, followed
/// by those of the table of `JOIN`.
pub open spec fn scope_of(q: QueryView, src: Seq<char>, reg: RegistryView) -> Seq<ScopeColumnView> {
    let left = table_scope(qualifier(src, q.from), reg.find(span_text(src, q.from.name))->Some_0);
    match q.join {
        None => left,
        Some(j) => left + table_scope(
            qualifier(src, j.source),
            reg.find(span_text(src, j.source.name))->Some_0,
        ),
    }
}

/// The number of rows that the tables of a query hold together: the rows of
/// the table of `FROM`, times the rows of the table of `JOIN` where there is
/// one.
pub open spec fn row_bound(q: QueryView, src: Seq<char>, reg: RegistryView) -> nat {
    let left = reg.find(span_text(src, q.from.name))->Some_0.height;
    match q.join {
        None => left,
        Some(j) => left * reg.find(span_text(src, j.source.name))->Some_0.height,
    }
}

/// The result of a query that is answered has the columns that the query
/// declares: one for each entry of its selection, or for each column of its
/// tables after `SELECT *`, under the first free name of the series of the
/// name declared. Unless the query gathers all rows in one group, and then
/// gives one row, the result has no more rows than the tables of the query
/// hold together.
pub proof fn law_query_shape(text: Seq<char>, reg: RegistryView)
    requires
        reg.wf(),
        query_result(text, reg) is Ok,
    ensures
        ({
            let q = query_of(tokens_of(text)->Ok_0)->Ok_0;
            let t = query_result(text, reg)->Ok_0;
            let scope = scope_of(q, text, reg);
            &&& !q.all ==> t.columns.len() == q.items.len()
            &&& !q.all ==> forall|j: int|
                0 <= j < q.items.len() ==> (#[trigger] t.columns[j]).name == free_name(
                    t.names().take(j),
                    base_name(q.items[j], text),
                )
            &&& q.all ==> t.columns.len() == scope.len()
            &&& q.all ==> forall|j: int|
                0 <= j < scope.len() ==> (#[trigger] t.columns[j]).name == free_name(
                    t.names().take(j),
                    scope[j].name,
                ) && t.columns[j].dtype == scope[j].dtype
            &&& gathers_all(q) ==> t.height == 1
            &&& !gathers_all(q) ==> t.height <= row_bound(q, text, reg)
        }),
{
    let q = query_of(tokens_of(text)->Ok_0)->Ok_0;
    let t = query_result(text, reg)->Ok_0;
    let scope = scope_of(q, text, reg);
    let left = reg.find(span_text(text, q.from.name))->Some_0;
    let rows = match q.join {
        None => rows_of(left),
        Some(j) => crossed(rows_of(left), rows_of(reg.find(span_text(text, j.source.name))->Some_0)),
    };
    match q.join {
        None => {},
        Some(j) => {
            lemma_crossed_len(
                rows_of(left),
                rows_of(reg.find(span_text(text, j.source.name))->Some_0),
            );
        },
    }
    let plan = plan_of(q, text, scope)->Ok_0;
    assert(t == run(plan, rows));
    law_result_shape(plan, rows);
    lemma_run_shape(plan, rows);
    lemma_keys_len(q.group_by, text, scope);
    assert(t.names() =~= output_names(plan.outputs));
    if q.all {
        lemma_star_outputs(scope, scope.len() as int);
        assert forall|j: int| 0 <= j < scope.len() implies (#[trigger] t.columns[j]).dtype
            == scope[j].dtype by {
            lemma_star_types(scope, scope.len() as int, j);
        }
    } else {
        lemma_outputs(q.items, text, scope);
    }
}

/// After `SELECT *` each column has the type it has in its table.
pub proof fn lemma_star_types(scope: Seq<ScopeColumnView>, n: int, j: int)
    requires
        0 <= j < n <= scope.len(),
    ensures
        star_outputs(scope, n)[j].dtype == scope[j].dtype,
    decreases n,
{
    lemma_star_outputs(scope, n - 1);
    if j < n - 1 {
        lemma_star_types(scope, n - 1, j);
    }
}

} // verus!
