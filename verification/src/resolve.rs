//! From the tree of a query to expressions over column indices.
//!
//! Names are looked up in the scope of the query: the columns of the table of
//! `FROM`, followed by those of the table of `JOIN`. A name without a table
//! stands for the first column of the scope that is so called. A name that
//! stands for no column is reported before anything is evaluated.

use vstd::prelude::*;
use crate::expr::{Operation, RowExpr, RowExprView, TypeError};
use crate::group::{GroupExpr, GroupExprView};
use crate::lexer::{fault_message, Fault, ParseFailure, Span};
use crate::parser::Expr;
use crate::text::string_of_range;
use crate::value::{DataType, Value, ValueView};

verus! {

/// Why a query could not be answered.
#[derive(Debug)]
pub enum QueryError {
    /// The text is not a query; `position` is the index of the character at
    /// which this was found.
    ParseError { message: String, position: usize },
    UnknownTable { name: String },
    /// No column `name` in `table`, the table written before the name or else
    /// the first table of the query.
    UnknownColumn { table: String, name: String },
    TypeMismatch { operation: Operation, left_type: DataType, right_type: DataType },
    /// The query was abandoned before it had a result.
    Cancelled,
}

/// The model of a `QueryError`.
pub enum QueryErrorView {
    ParseError { message: Seq<char>, position: usize },
    UnknownTable { name: Seq<char> },
    UnknownColumn { table: Seq<char>, name: Seq<char> },
    TypeMismatch { operation: Operation, left_type: DataType, right_type: DataType },
    Cancelled,
}

impl View for QueryError {
    type V = QueryErrorView;

    open spec fn view(&self) -> QueryErrorView {
        match self {
            QueryError::ParseError { message, position } => QueryErrorView::ParseError {
                message: message@,
                position: *position,
            },
            QueryError::UnknownTable { name } => QueryErrorView::UnknownTable { name: name@ },
            QueryError::UnknownColumn { table, name } => QueryErrorView::UnknownColumn {
                table: table@,
                name: name@,
            },
            QueryError::TypeMismatch {
                operation,
                left_type,
                right_type,
            } => QueryErrorView::TypeMismatch {
                operation: *operation,
                left_type: *left_type,
                right_type: *right_type,
            },
            QueryError::Cancelled => QueryErrorView::Cancelled,
        }
    }
}

impl PartialEq for QueryError {
    fn eq(&self, other: &Self) -> (r: bool) {
        match (self, other) {
            (
                QueryError::ParseError { message: a, position: p },
                QueryError::ParseError { message: b, position: q },
            ) => String::eq(a, b) && *p == *q,
            (QueryError::UnknownTable { name: a }, QueryError::UnknownTable { name: b }) => String::eq(
                a,
                b,
            ),
            (
                QueryError::UnknownColumn { table: a, name: c },
                QueryError::UnknownColumn { table: b, name: d },
            ) => String::eq(a, b) && String::eq(c, d),
            (
                QueryError::TypeMismatch { operation: o, left_type: l, right_type: r },
                QueryError::TypeMismatch { operation: p, left_type: m, right_type: s },
            ) => *o == *p && *l == *m && *r == *s,
            (QueryError::Cancelled, QueryError::Cancelled) => true,
            _ => false,
        }
    }
}

impl vstd::std_specs::cmp::PartialEqSpecImpl for QueryError {
    open spec fn obeys_eq_spec() -> bool {
        true
    }

    open spec fn eq_spec(&self, other: &Self) -> bool {
        self@ == other@
    }
}

/// The error of a text that cannot be parsed.
pub open spec fn parse_error(f: ParseFailure) -> QueryErrorView {
    QueryErrorView::ParseError { message: fault_message(f.fault), position: f.position }
}

/// The error of an operand that an operation does not take.
pub open spec fn type_error(e: TypeError) -> QueryErrorView {
    QueryErrorView::TypeMismatch { operation: e.operation, left_type: e.left, right_type: e.right }
}

/// The error of a text that cannot be parsed.
pub fn parse_failed(f: ParseFailure) -> (r: QueryError)
    ensures
        r@ == parse_error(f),
{
    QueryError::ParseError { message: f.fault.message(), position: f.position }
}

/// The error of an operand that an operation does not take.
pub fn type_failed(e: TypeError) -> (r: QueryError)
    ensures
        r@ == type_error(e),
{
    QueryError::TypeMismatch { operation: e.operation, left_type: e.left, right_type: e.right }
}

/// A column that a query can name: the table it belongs to, under the name by
/// which the query knows the table, its own name and its type.
#[derive(Debug)]
pub struct ScopeColumn {
    pub table: String,
    pub name: String,
    pub dtype: DataType,
}

/// The model of a `ScopeColumn`.
pub struct ScopeColumnView {
    pub table: Seq<char>,
    pub name: Seq<char>,
    pub dtype: DataType,
}

impl View for ScopeColumn {
    type V = ScopeColumnView;

    open spec fn view(&self) -> ScopeColumnView {
        ScopeColumnView { table: self.table@, name: self.name@, dtype: self.dtype }
    }
}

/// The models of the columns of a scope.
pub open spec fn scope_views(s: Seq<ScopeColumn>) -> Seq<ScopeColumnView> {
    Seq::new(s.len(), |i: int| s[i]@)
}

/// The types of the columns of a scope.
pub open spec fn scope_types(s: Seq<ScopeColumnView>) -> Seq<DataType> {
    Seq::new(s.len(), |i: int| s[i].dtype)
}

/// The characters of a stretch of the text; none for a stretch that is not
/// within the text.
pub open spec fn span_text(src: Seq<char>, span: Span) -> Seq<char> {
    if span.start <= span.end <= src.len() {
        src.subrange(span.start as int, span.end as int)
    } else {
        Seq::empty()
    }
}

/// The characters of an optional stretch of the text.
pub open spec fn optional_text(src: Seq<char>, span: Option<Span>) -> Option<Seq<char>> {
    match span {
        Some(s) => Some(span_text(src, s)),
        None => None,
    }
}

/// Whether a column is what a name, with or without a table before it, stands
/// for.
pub open spec fn answers(col: ScopeColumnView, table: Option<Seq<char>>, name: Seq<char>) -> bool {
    col.name == name && match table {
        Some(t) => col.table == t,
        None => true,
    }
}

/// The index of the first column of the scope that a name stands for.
pub open spec fn find_column(
    scope: Seq<ScopeColumnView>,
    table: Option<Seq<char>>,
    name: Seq<char>,
) -> Option<int>
    decreases scope.len(),
{
    if scope.len() == 0 {
        None
    } else {
        match find_column(scope.drop_last(), table, name) {
            Some(i) => Some(i),
            None => if answers(scope.last(), table, name) {
                Some(scope.len() - 1)
            } else {
                None
            },
        }
    }
}

/// The table named in the error for a column that was not found.
pub open spec fn blamed_table(scope: Seq<ScopeColumnView>, table: Option<Seq<char>>) -> Seq<char> {
    match table {
        Some(t) => t,
        None => if scope.len() > 0 {
            scope[0].table
        } else {
            Seq::empty()
        },
    }
}

/// The expression over one row that an expression of the query stands for. An
/// aggregate is refused.
pub open spec fn row_expr_of(e: Expr, src: Seq<char>, scope: Seq<ScopeColumnView>) -> Result<
    RowExprView,
    QueryErrorView,
>
    decreases e,
{
    match e {
        Expr::Null => Ok(RowExprView::Literal(ValueView::Null)),
        Expr::Boolean(b) => Ok(RowExprView::Literal(ValueView::Boolean(b))),
        Expr::Integer(i) => Ok(RowExprView::Literal(ValueView::Integer(i as int))),
        Expr::Text(span) => Ok(RowExprView::Literal(ValueView::Text(span_text(src, span)))),
        Expr::Column { table, name } => {
            let t = optional_text(src, table);
            let n = span_text(src, name);
            match find_column(scope, t, n) {
                Some(c) => Ok(RowExprView::Column(c)),
                None => Err(QueryErrorView::UnknownColumn { table: blamed_table(scope, t), name: n }),
            }
        },
        Expr::Unary(op, a) => match row_expr_of(*a, src, scope) {
            Ok(x) => Ok(RowExprView::Unary(op, Box::new(x))),
            Err(e) => Err(e),
        },
        Expr::Binary(op, a, b) => match row_expr_of(*a, src, scope) {
            Ok(x) => match row_expr_of(*b, src, scope) {
                Ok(y) => Ok(RowExprView::Binary(op, Box::new(x), Box::new(y))),
                Err(e) => Err(e),
            },
            Err(e) => Err(e),
        },
        Expr::Aggregate(_, _, at) => Err(
            parse_error(ParseFailure { fault: Fault::MisplacedAggregate, position: at }),
        ),
        Expr::CountAll(at) => Err(
            parse_error(ParseFailure { fault: Fault::MisplacedAggregate, position: at }),
        ),
    }
}

/// Whether an aggregate stands somewhere in the expression.
pub open spec fn has_aggregate(e: Expr) -> bool
    decreases e,
{
    match e {
        Expr::Unary(_, a) => has_aggregate(*a),
        Expr::Binary(_, a, b) => has_aggregate(*a) || has_aggregate(*b),
        Expr::Aggregate(_, _, _) => true,
        Expr::CountAll(_) => true,
        _ => false,
    }
}

/// The expression over a group of rows that an expression of the query stands
/// for. An aggregate within an aggregate is refused.
pub open spec fn group_expr_of(e: Expr, src: Seq<char>, scope: Seq<ScopeColumnView>) -> Result<
    GroupExprView,
    QueryErrorView,
>
    decreases e,
{
    if !has_aggregate(e) {
        match row_expr_of(e, src, scope) {
            Ok(x) => Ok(GroupExprView::Row(x)),
            Err(e) => Err(e),
        }
    } else {
        match e {
            Expr::Unary(op, a) => match group_expr_of(*a, src, scope) {
                Ok(x) => Ok(GroupExprView::Unary(op, Box::new(x))),
                Err(e) => Err(e),
            },
            Expr::Binary(op, a, b) => match group_expr_of(*a, src, scope) {
                Ok(x) => match group_expr_of(*b, src, scope) {
                    Ok(y) => Ok(GroupExprView::Binary(op, Box::new(x), Box::new(y))),
                    Err(e) => Err(e),
                },
                Err(e) => Err(e),
            },
            Expr::Aggregate(f, a, _) => match row_expr_of(*a, src, scope) {
                Ok(x) => Ok(GroupExprView::Aggregate(f, x)),
                Err(e) => Err(e),
            },
            _ => Ok(GroupExprView::CountAll),
        }
    }
}

/// The model of the result of resolving a row expression.
pub open spec fn row_result(r: Result<RowExpr, QueryError>) -> Result<RowExprView, QueryErrorView> {
    match r {
        Ok(x) => Ok(x@),
        Err(e) => Err(e@),
    }
}

/// The model of the result of resolving a group expression.
pub open spec fn group_result(r: Result<GroupExpr, QueryError>) -> Result<
    GroupExprView,
    QueryErrorView,
> {
    match r {
        Ok(x) => Ok(x@),
        Err(e) => Err(e@),
    }
}

/// The characters of a stretch of the text, as a string.
pub fn text_of(src: &Vec<char>, span: Span) -> (r: String)
    ensures
        r@ == span_text(src@, span),
{
    if span.start <= span.end && span.end <= src.len() {
        string_of_range(src, span.start, span.end)
    } else {
        String::new()
    }
}

fn lookup_column(scope: &Vec<ScopeColumn>, table: &Option<String>, name: &String) -> (r: Option<usize>)
    ensures
        match r {
            Some(c) => find_column(scope_views(scope@), crate::registry::optional_view(*table), name@)
                == Some(c as int) && c < scope.len(),
            None => find_column(scope_views(scope@), crate::registry::optional_view(*table), name@)
                is None,
        },
{
    let ghost all = scope_views(scope@);
    let ghost t = crate::registry::optional_view(*table);
    let mut c: usize = 0;
    while c < scope.len()
        invariant
            c <= scope.len(),
            all == scope_views(scope@),
            t == crate::registry::optional_view(*table),
            find_column(all.take(c as int), t, name@) is None,
        decreases scope.len() - c,
    {
        assert(all.take(c + 1).drop_last() =~= all.take(c as int));
        assert(all.take(c + 1).last() == scope[c as int]@);
        let col = &scope[c];
        let same_table = match table {
            Some(t) => String::eq(&col.table, t),
            None => true,
        };
        if same_table && String::eq(&col.name, name) {
            proof {
                lemma_find_prefix(all, t, name@, c + 1);
            }
            return Some(c);
        }
        c += 1;
    }
    assert(all.take(scope.len() as int) =~= all);
    None
}

/// What `find_column` finds in the beginning of a scope, it finds in the scope.
pub proof fn lemma_find_prefix(
    scope: Seq<ScopeColumnView>,
    table: Option<Seq<char>>,
    name: Seq<char>,
    k: int,
)
    requires
        0 <= k <= scope.len(),
        find_column(scope.take(k), table, name) is Some,
    ensures
        find_column(scope, table, name) == find_column(scope.take(k), table, name),
    decreases scope.len() - k,
{
    if k < scope.len() {
        assert(scope.take(k + 1).drop_last() =~= scope.take(k));
        lemma_find_prefix(scope, table, name, k + 1);
    } else {
        assert(scope.take(k) =~= scope);
    }
}

/// The expression over one row that an expression of the query stands for.
pub fn resolve_row(e: &Expr, src: &Vec<char>, scope: &Vec<ScopeColumn>) -> (r: Result<
    RowExpr,
    QueryError,
>)
    ensures
        row_result(r) == row_expr_of(*e, src@, scope_views(scope@)),
        match r {
            Ok(x) => x@.within(scope.len() as int),
            Err(_) => true,
        },
    decreases e,
{
    match e {
        Expr::Null => Ok(RowExpr::Literal(Value::Null)),
        Expr::Boolean(b) => Ok(RowExpr::Literal(Value::Boolean(*b))),
        Expr::Integer(i) => Ok(RowExpr::Literal(Value::Integer(*i))),
        Expr::Text(span) => Ok(RowExpr::Literal(Value::Text(text_of(src, *span)))),
        Expr::Column { table, name } => {
            let t: Option<String> = match table {
                Some(s) => Some(text_of(src, *s)),
                None => None,
            };
            let n = text_of(src, *name);
            match lookup_column(scope, &t, &n) {
                Some(c) => Ok(RowExpr::Column(c)),
                None => {
                    let blamed = match t {
                        Some(s) => s,
                        None => if scope.len() > 0 {
                            scope[0].table.clone()
                        } else {
                            String::new()
                        },
                    };
                    Err(QueryError::UnknownColumn { table: blamed, name: n })
                },
            }
        },
        Expr::Unary(op, a) => match resolve_row(a, src, scope) {
            Ok(x) => Ok(RowExpr::Unary(*op, Box::new(x))),
            Err(e) => Err(e),
        },
        Expr::Binary(op, a, b) => match resolve_row(a, src, scope) {
            Ok(x) => match resolve_row(b, src, scope) {
                Ok(y) => Ok(RowExpr::Binary(*op, Box::new(x), Box::new(y))),
                Err(e) => Err(e),
            },
            Err(e) => Err(e),
        },
        Expr::Aggregate(_, _, at) => Err(
            parse_failed(ParseFailure { fault: Fault::MisplacedAggregate, position: *at }),
        ),
        Expr::CountAll(at) => Err(
            parse_failed(ParseFailure { fault: Fault::MisplacedAggregate, position: *at }),
        ),
    }
}

/// Whether an aggregate stands somewhere in the expression.
pub fn holds_aggregate(e: &Expr) -> (r: bool)
    ensures
        r == has_aggregate(*e),
    decreases e,
{
    match e {
        Expr::Unary(_, a) => holds_aggregate(a),
        Expr::Binary(_, a, b) => holds_aggregate(a) || holds_aggregate(b),
        Expr::Aggregate(_, _, _) => true,
        Expr::CountAll(_) => true,
        _ => false,
    }
}

/// The expression over a group of rows that an expression of the query stands
/// for.
pub fn resolve_group(e: &Expr, src: &Vec<char>, scope: &Vec<ScopeColumn>) -> (r: Result<
    GroupExpr,
    QueryError,
>)
    ensures
        group_result(r) == group_expr_of(*e, src@, scope_views(scope@)),
        match r {
            Ok(x) => x@.within(scope.len() as int),
            Err(_) => true,
        },
    decreases e,
{
    if !holds_aggregate(e) {
        return match resolve_row(e, src, scope) {
            Ok(x) => Ok(GroupExpr::Row(x)),
            Err(e) => Err(e),
        };
    }
    match e {
        Expr::Unary(op, a) => match resolve_group(a, src, scope) {
            Ok(x) => Ok(GroupExpr::Unary(*op, Box::new(x))),
            Err(e) => Err(e),
        },
        Expr::Binary(op, a, b) => match resolve_group(a, src, scope) {
            Ok(x) => match resolve_group(b, src, scope) {
                Ok(y) => Ok(GroupExpr::Binary(*op, Box::new(x), Box::new(y))),
                Err(e) => Err(e),
            },
            Err(e) => Err(e),
        },
        Expr::Aggregate(f, a, _) => match resolve_row(a, src, scope) {
            Ok(x) => Ok(GroupExpr::Aggregate(*f, x)),
            Err(e) => Err(e),
        },
        _ => Ok(GroupExpr::CountAll),
    }
}

} // verus!
