//! The second phase of parsing: from tokens to the tree of a query.
//!
//! The grammar, from the loosest binding to the tightest:
//!
//! ```text
//! query   := SELECT ( '*' | entry { ',' entry } ) FROM source
//!            [ JOIN source ON expr ] [ WHERE expr ]
//!            [ GROUP BY expr { ',' expr } ]
//!            [ ORDER BY expr [ ASC | DESC ] { ',' expr [ ASC | DESC ] } ]
//! entry   := expr [ [ AS ] name ]
//! source  := name [ [ AS ] name ]
//! expr    := and { OR and }
//! and     := not { AND not }
//! not     := NOT not | compare
//! compare := sum [ ( = | <> | != | < | <= | > | >= ) sum ]
//! sum     := product { ( + | - ) product }
//! product := sign { ( * | / | % ) sign }
//! sign    := - sign | primary
//! primary := number | 'text' | NULL | TRUE | FALSE | name [ '.' name ]
//!          | COUNT '(' '*' ')' | ( COUNT | SUM | AVG | MIN | MAX ) '(' expr ')'
//!          | '(' expr ')'
//! ```

use vstd::prelude::*;
use crate::expr::{Aggregate, BinaryOp, UnaryOp};
use crate::lexer::{Fault, Keyword, ParseFailure, Span, Symbol, Token, TokenKind};

verus! {

/// An expression as it was written: names and texts are stretches of the query
/// text.
#[derive(Debug)]
pub enum Expr {
    Null,
    Boolean(bool),
    Integer(i64),
    Text(Span),
    Column { table: Option<Span>, name: Span },
    Unary(UnaryOp, Box<Expr>),
    Binary(BinaryOp, Box<Expr>, Box<Expr>),
    /// An aggregate, its argument and the place where it stands.
    Aggregate(Aggregate, Box<Expr>, usize),
    /// `count(*)` and the place where it stands.
    CountAll(usize),
}

/// An expression of a list: of the selection, of `GROUP BY` or of `ORDER BY`.
#[derive(Debug)]
pub struct Entry {
    pub expr: Expr,
    /// The name given to the expression in the selection.
    pub alias: Option<Span>,
    /// The stretch of the query text that the expression was written in.
    pub text: Span,
    /// Whether `DESC` follows the expression in `ORDER BY`.
    pub descending: bool,
}

/// A table of the `FROM` or `JOIN` clause.
#[derive(Clone, Copy, PartialEq, Eq, Debug, Structural)]
pub struct Source {
    pub name: Span,
    pub alias: Option<Span>,
}

/// A `JOIN` clause.
#[derive(Debug)]
pub struct Join {
    pub source: Source,
    pub on: Expr,
}

/// The tree of a query.
#[derive(Debug)]
pub struct Query {
    /// Whether the selection is `*`.
    pub all: bool,
    pub items: Vec<Entry>,
    pub from: Source,
    pub join: Option<Join>,
    pub filter: Option<Expr>,
    pub group_by: Vec<Entry>,
    pub order_by: Vec<Entry>,
}

/// The model of a `Query`.
pub struct QueryView {
    pub all: bool,
    pub items: Seq<Entry>,
    pub from: Source,
    pub join: Option<Join>,
    pub filter: Option<Expr>,
    pub group_by: Seq<Entry>,
    pub order_by: Seq<Entry>,
}

impl View for Query {
    type V = QueryView;

    open spec fn view(&self) -> QueryView {
        QueryView {
            all: self.all,
            items: self.items@,
            from: self.from,
            join: self.join,
            filter: self.filter,
            group_by: self.group_by@,
            order_by: self.order_by@,
        }
    }
}

/// Which list an entry belongs to.
#[derive(Clone, Copy, PartialEq, Eq, Debug, Structural)]
pub enum ListKind {
    Selection,
    Grouping,
    Sorting,
}

/// How deep expressions may be nested.
pub const MAX_DEPTH: usize = 64;

/// The kind of the token at `pos`; `End` beyond the tokens.
pub open spec fn kind_at(tokens: Seq<Token>, pos: int) -> TokenKind {
    if 0 <= pos < tokens.len() {
        tokens[pos].kind
    } else {
        TokenKind::End
    }
}

/// Where in the text the token at `pos` starts.
pub open spec fn place(tokens: Seq<Token>, pos: int) -> usize {
    if 0 <= pos < tokens.len() {
        tokens[pos].start
    } else {
        0
    }
}

/// The failure of a fault found at the token at `pos`.
pub open spec fn failure(tokens: Seq<Token>, pos: int, fault: Fault) -> ParseFailure {
    ParseFailure { fault, position: place(tokens, pos) }
}

/// What a token stands for in the text: for a quoted name and for a text, what
/// is between the quotes.
pub open spec fn content(t: Token) -> Span {
    if (t.kind == TokenKind::Quoted || t.kind == TokenKind::Text) && t.start + 1 < t.end {
        Span { start: (t.start + 1) as usize, end: (t.end - 1) as usize }
    } else {
        Span { start: t.start, end: t.end }
    }
}

/// Whether a token is a name, quoted or not.
pub open spec fn is_name(kind: TokenKind) -> bool {
    kind == TokenKind::Name || kind == TokenKind::Quoted
}

/// The binary operator that a token is at a level of the grammar.
pub open spec fn binary_at(kind: TokenKind, level: int) -> Option<BinaryOp> {
    if level == 0 && kind == TokenKind::Keyword(Keyword::Or) {
        Some(BinaryOp::Or)
    } else if level == 1 && kind == TokenKind::Keyword(Keyword::And) {
        Some(BinaryOp::And)
    } else if level == 3 && kind == TokenKind::Symbol(Symbol::Equal) {
        Some(BinaryOp::Eq)
    } else if level == 3 && kind == TokenKind::Symbol(Symbol::NotEqual) {
        Some(BinaryOp::Ne)
    } else if level == 3 && kind == TokenKind::Symbol(Symbol::Less) {
        Some(BinaryOp::Lt)
    } else if level == 3 && kind == TokenKind::Symbol(Symbol::LessEqual) {
        Some(BinaryOp::Le)
    } else if level == 3 && kind == TokenKind::Symbol(Symbol::Greater) {
        Some(BinaryOp::Gt)
    } else if level == 3 && kind == TokenKind::Symbol(Symbol::GreaterEqual) {
        Some(BinaryOp::Ge)
    } else if level == 4 && kind == TokenKind::Symbol(Symbol::Plus) {
        Some(BinaryOp::Add)
    } else if level == 4 && kind == TokenKind::Symbol(Symbol::Minus) {
        Some(BinaryOp::Sub)
    } else if level == 5 && kind == TokenKind::Symbol(Symbol::Star) {
        Some(BinaryOp::Mul)
    } else if level == 5 && kind == TokenKind::Symbol(Symbol::Slash) {
        Some(BinaryOp::Div)
    } else if level == 5 && kind == TokenKind::Symbol(Symbol::Percent) {
        Some(BinaryOp::Rem)
    } else {
        None
    }
}

/// The prefix operator that a token is at a level of the grammar.
pub open spec fn prefix_at(kind: TokenKind, level: int) -> Option<UnaryOp> {
    if level == 2 && kind == TokenKind::Keyword(Keyword::Not) {
        Some(UnaryOp::Not)
    } else if level == 6 && kind == TokenKind::Symbol(Symbol::Minus) {
        Some(UnaryOp::Neg)
    } else {
        None
    }
}

/// The aggregate that a keyword names.
pub open spec fn aggregate_of(kind: TokenKind) -> Option<Aggregate> {
    match kind {
        TokenKind::Keyword(Keyword::Count) => Some(Aggregate::Count),
        TokenKind::Keyword(Keyword::Sum) => Some(Aggregate::Sum),
        TokenKind::Keyword(Keyword::Avg) => Some(Aggregate::Avg),
        TokenKind::Keyword(Keyword::Min) => Some(Aggregate::Min),
        TokenKind::Keyword(Keyword::Max) => Some(Aggregate::Max),
        _ => None,
    }
}

/// The expression of a level of the grammar that starts at `pos`, and the
/// position after it. Level 0 is `expr`, level 7 `primary`.
pub open spec fn expr_at(tokens: Seq<Token>, pos: int, level: int, depth: nat) -> Result<
    (Expr, int),
    ParseFailure,
>
    decreases depth, tokens.len() - pos, (if 0 <= level < 7 {
            10 - level
        } else {
            3int
        }),
{
    if level >= 7 || level < 0 {
        primary_at(tokens, pos, depth)
    } else if level == 2 || level == 6 {
        match prefix_at(kind_at(tokens, pos), level) {
            Some(op) => if depth == 0 || !(0 <= pos < tokens.len()) {
                Err(failure(tokens, pos, Fault::NestedTooDeep))
            } else {
                match expr_at(tokens, pos + 1, level, (depth - 1) as nat) {
                    Err(e) => Err(e),
                    Ok((a, p)) => Ok((Expr::Unary(op, Box::new(a)), p)),
                }
            },
            None => expr_at(tokens, pos, level + 1, depth),
        }
    } else {
        match expr_at(tokens, pos, level + 1, depth) {
            Err(e) => Err(e),
            Ok((left, p)) => if pos <= p <= tokens.len() {
                tail_at(tokens, p, level, left, depth)
            } else {
                Ok((left, p))
            },
        }
    }
}

/// What follows an operand `left` of a level: the operators of the level, each
/// with its right operand.
pub open spec fn tail_at(tokens: Seq<Token>, pos: int, level: int, left: Expr, depth: nat) -> Result<
    (Expr, int),
    ParseFailure,
>
    decreases depth, tokens.len() - pos, 0int,
{
    match binary_at(kind_at(tokens, pos), level) {
        None => Ok((left, pos)),
        Some(op) => if !(0 <= pos < tokens.len()) || level < 0 || level >= 7 {
            Ok((left, pos))
        } else {
            match expr_at(tokens, pos + 1, level + 1, depth) {
                Err(e) => Err(e),
                Ok((right, p)) => {
                    let e = Expr::Binary(op, Box::new(left), Box::new(right));
                    if level == 3 || !(pos < p <= tokens.len()) {
                        Ok((e, p))
                    } else {
                        tail_at(tokens, p, level, e, depth)
                    }
                },
            }
        },
    }
}

/// An expression between parentheses that were opened before `pos`, and the
/// position after the closing one.
pub open spec fn enclosed_at(tokens: Seq<Token>, pos: int, depth: nat) -> Result<
    (Expr, int),
    ParseFailure,
>
    decreases depth, tokens.len() - pos, 12int,
{
    if depth == 0 {
        Err(failure(tokens, pos, Fault::NestedTooDeep))
    } else {
        match expr_at(tokens, pos, 0, (depth - 1) as nat) {
            Err(e) => Err(e),
            Ok((e, p)) => if kind_at(tokens, p) == TokenKind::Symbol(Symbol::RightParen) {
                Ok((e, p + 1))
            } else {
                Err(failure(tokens, p, Fault::ExpectedRightParen))
            },
        }
    }
}

/// The primary expression that starts at `pos`.
pub open spec fn primary_at(tokens: Seq<Token>, pos: int, depth: nat) -> Result<
    (Expr, int),
    ParseFailure,
>
    decreases depth, tokens.len() - pos, 1int,
{
    let kind = kind_at(tokens, pos);
    if !(0 <= pos < tokens.len()) {
        Err(failure(tokens, pos, Fault::ExpectedExpression))
    } else if kind is Integer {
        Ok((Expr::Integer(kind->Integer_0), pos + 1))
    } else if kind == TokenKind::Text {
        Ok((Expr::Text(content(tokens[pos])), pos + 1))
    } else if kind == TokenKind::Keyword(Keyword::Null) {
        Ok((Expr::Null, pos + 1))
    } else if kind == TokenKind::Keyword(Keyword::True) {
        Ok((Expr::Boolean(true), pos + 1))
    } else if kind == TokenKind::Keyword(Keyword::False) {
        Ok((Expr::Boolean(false), pos + 1))
    } else if is_name(kind) {
        if kind_at(tokens, pos + 1) == TokenKind::Symbol(Symbol::Dot) && is_name(
            kind_at(tokens, pos + 2),
        ) {
            Ok(
                (
                    Expr::Column {
                        table: Some(content(tokens[pos])),
                        name: content(tokens[pos + 2]),
                    },
                    pos + 3,
                ),
            )
        } else {
            Ok((Expr::Column { table: None, name: content(tokens[pos]) }, pos + 1))
        }
    } else if kind == TokenKind::Symbol(Symbol::LeftParen) {
        enclosed_at(tokens, pos + 1, depth)
    } else if aggregate_of(kind) is Some {
        let f = aggregate_of(kind)->Some_0;
        if kind_at(tokens, pos + 1) != TokenKind::Symbol(Symbol::LeftParen) {
            Err(failure(tokens, pos + 1, Fault::ExpectedLeftParen))
        } else if f == Aggregate::Count && kind_at(tokens, pos + 2) == TokenKind::Symbol(
            Symbol::Star,
        ) {
            if kind_at(tokens, pos + 3) == TokenKind::Symbol(Symbol::RightParen) {
                Ok((Expr::CountAll(tokens[pos].start), pos + 4))
            } else {
                Err(failure(tokens, pos + 3, Fault::ExpectedRightParen))
            }
        } else {
            match enclosed_at(tokens, pos + 2, depth) {
                Err(e) => Err(e),
                Ok((a, p)) => Ok((Expr::Aggregate(f, Box::new(a), tokens[pos].start), p)),
            }
        }
    } else {
        Err(failure(tokens, pos, Fault::ExpectedExpression))
    }
}

/// The name that may follow an expression or a table, with or without `AS`
/// before it, and the position after it.
pub open spec fn alias_at(tokens: Seq<Token>, pos: int) -> Result<(Option<Span>, int), ParseFailure> {
    if kind_at(tokens, pos) == TokenKind::Keyword(Keyword::As) {
        if is_name(kind_at(tokens, pos + 1)) {
            Ok((Some(content(tokens[pos + 1])), pos + 2))
        } else {
            Err(failure(tokens, pos + 1, Fault::ExpectedName))
        }
    } else if is_name(kind_at(tokens, pos)) {
        Ok((Some(content(tokens[pos])), pos + 1))
    } else {
        Ok((None, pos))
    }
}

/// The end in the text of the token before `pos`.
pub open spec fn end_before(tokens: Seq<Token>, pos: int) -> usize {
    if 0 < pos <= tokens.len() {
        tokens[pos - 1].end
    } else {
        0
    }
}

/// The entry of a list that starts at `pos`.
pub open spec fn entry_at(tokens: Seq<Token>, pos: int, kind: ListKind) -> Result<
    (Entry, int),
    ParseFailure,
> {
    match expr_at(tokens, pos, 0, MAX_DEPTH as nat) {
        Err(e) => Err(e),
        Ok((expr, p)) => {
            let text = Span { start: place(tokens, pos), end: end_before(tokens, p) };
            match kind {
                ListKind::Selection => match alias_at(tokens, p) {
                    Err(e) => Err(e),
                    Ok((alias, q)) => Ok((Entry { expr, alias, text, descending: false }, q)),
                },
                ListKind::Grouping => Ok((Entry { expr, alias: None, text, descending: false }, p)),
                ListKind::Sorting => if kind_at(tokens, p) == TokenKind::Keyword(Keyword::Desc) {
                    Ok((Entry { expr, alias: None, text, descending: true }, p + 1))
                } else if kind_at(tokens, p) == TokenKind::Keyword(Keyword::Asc) {
                    Ok((Entry { expr, alias: None, text, descending: false }, p + 1))
                } else {
                    Ok((Entry { expr, alias: None, text, descending: false }, p))
                },
            }
        },
    }
}

/// The entries of a list that starts at `pos`, separated by commas.
pub open spec fn entries_at(tokens: Seq<Token>, pos: int, kind: ListKind) -> Result<
    (Seq<Entry>, int),
    ParseFailure,
>
    decreases tokens.len() - pos,
{
    match entry_at(tokens, pos, kind) {
        Err(e) => Err(e),
        Ok((entry, p)) => if kind_at(tokens, p) == TokenKind::Symbol(Symbol::Comma) && pos <= p
            < tokens.len() {
            match entries_at(tokens, p + 1, kind) {
                Err(e) => Err(e),
                Ok((rest, q)) => Ok((seq![entry] + rest, q)),
            }
        } else {
            Ok((seq![entry], p))
        },
    }
}

/// The table named at `pos`.
pub open spec fn source_at(tokens: Seq<Token>, pos: int) -> Result<(Source, int), ParseFailure> {
    if is_name(kind_at(tokens, pos)) {
        match alias_at(tokens, pos + 1) {
            Err(e) => Err(e),
            Ok((alias, p)) => Ok((Source { name: content(tokens[pos]), alias }, p)),
        }
    } else {
        Err(failure(tokens, pos, Fault::ExpectedTableName))
    }
}

/// The `JOIN` clause that may stand at `pos`.
pub open spec fn join_at(tokens: Seq<Token>, pos: int) -> Result<(Option<Join>, int), ParseFailure> {
    if kind_at(tokens, pos) == TokenKind::Keyword(Keyword::Join) {
        match source_at(tokens, pos + 1) {
            Err(e) => Err(e),
            Ok((source, p)) => if kind_at(tokens, p) == TokenKind::Keyword(Keyword::On) {
                match expr_at(tokens, p + 1, 0, MAX_DEPTH as nat) {
                    Err(e) => Err(e),
                    Ok((on, q)) => Ok((Some(Join { source, on }), q)),
                }
            } else {
                Err(failure(tokens, p, Fault::ExpectedOn))
            },
        }
    } else {
        Ok((None, pos))
    }
}

/// The `WHERE` clause that may stand at `pos`.
pub open spec fn filter_at(tokens: Seq<Token>, pos: int) -> Result<(Option<Expr>, int), ParseFailure> {
    if kind_at(tokens, pos) == TokenKind::Keyword(Keyword::Where) {
        match expr_at(tokens, pos + 1, 0, MAX_DEPTH as nat) {
            Err(e) => Err(e),
            Ok((e, p)) => Ok((Some(e), p)),
        }
    } else {
        Ok((None, pos))
    }
}

/// The list that may stand at `pos` after the keyword `lead` and `BY`.
pub open spec fn by_list_at(tokens: Seq<Token>, pos: int, lead: Keyword, kind: ListKind) -> Result<
    (Seq<Entry>, int),
    ParseFailure,
> {
    if kind_at(tokens, pos) == TokenKind::Keyword(lead) {
        if kind_at(tokens, pos + 1) == TokenKind::Keyword(Keyword::By) {
            entries_at(tokens, pos + 2, kind)
        } else {
            Err(failure(tokens, pos + 1, Fault::ExpectedBy))
        }
    } else {
        Ok((Seq::empty(), pos))
    }
}

/// The selection that stands at `pos`: `*` or a list of entries.
pub open spec fn selection_at(tokens: Seq<Token>, pos: int) -> Result<
    (bool, Seq<Entry>, int),
    ParseFailure,
> {
    if kind_at(tokens, pos) == TokenKind::Symbol(Symbol::Star) {
        Ok((true, Seq::empty(), pos + 1))
    } else {
        match entries_at(tokens, pos, ListKind::Selection) {
            Err(e) => Err(e),
            Ok((items, p)) => Ok((false, items, p)),
        }
    }
}

/// The clauses after the selection.
pub open spec fn clauses_at(tokens: Seq<Token>, pos: int, all: bool, items: Seq<Entry>) -> Result<
    QueryView,
    ParseFailure,
> {
    if kind_at(tokens, pos) != TokenKind::Keyword(Keyword::From) {
        Err(failure(tokens, pos, Fault::ExpectedFrom))
    } else {
        match source_at(tokens, pos + 1) {
            Err(e) => Err(e),
            Ok((from, after_from)) => match join_at(tokens, after_from) {
                Err(e) => Err(e),
                Ok((join, after_join)) => match filter_at(tokens, after_join) {
                    Err(e) => Err(e),
                    Ok((filter, after_filter)) => match by_list_at(
                        tokens,
                        after_filter,
                        Keyword::Group,
                        ListKind::Grouping,
                    ) {
                        Err(e) => Err(e),
                        Ok((group_by, after_group)) => match by_list_at(
                            tokens,
                            after_group,
                            Keyword::Order,
                            ListKind::Sorting,
                        ) {
                            Err(e) => Err(e),
                            Ok((order_by, after_order)) => if kind_at(tokens, after_order) == TokenKind::End {
                                Ok(
                                    QueryView {
                                        all,
                                        items,
                                        from,
                                        join,
                                        filter,
                                        group_by,
                                        order_by,
                                    },
                                )
                            } else {
                                Err(failure(tokens, after_order, Fault::ExpectedEnd))
                            },
                        },
                    },
                },
            },
        }
    }
}

/// The query that the tokens spell.
pub open spec fn query_of(tokens: Seq<Token>) -> Result<QueryView, ParseFailure> {
    if kind_at(tokens, 0) != TokenKind::Keyword(Keyword::Select) {
        Err(failure(tokens, 0, Fault::ExpectedSelect))
    } else {
        match selection_at(tokens, 1) {
            Err(e) => Err(e),
            Ok((all, items, p)) => clauses_at(tokens, p, all, items),
        }
    }
}

/// The expression that the tokens spell, with nothing after it.
pub open spec fn condition_of(tokens: Seq<Token>) -> Result<Expr, ParseFailure> {
    match expr_at(tokens, 0, 0, MAX_DEPTH as nat) {
        Err(e) => Err(e),
        Ok((e, p)) => if kind_at(tokens, p) == TokenKind::End {
            Ok(e)
        } else {
            Err(failure(tokens, p, Fault::ExpectedEnd))
        },
    }
}

/// Whether the tokens end with `End` and `pos` is one of them.
pub open spec fn ready(tokens: Seq<Token>, pos: int) -> bool {
    &&& 0 <= pos < tokens.len() <= usize::MAX
    &&& tokens.last().kind == TokenKind::End
    &&& forall|i: int| 0 <= i < tokens.len() - 1 ==> (#[trigger] tokens[i]).kind != TokenKind::End
}

/// Whether a result of parsing from `pos` on stays within the tokens.
pub open spec fn advanced<T>(tokens: Seq<Token>, pos: int, r: Result<(T, usize), ParseFailure>) -> bool {
    match r {
        Ok((_, p)) => pos <= p < tokens.len(),
        Err(_) => true,
    }
}

/// A result with its position as a mathematical integer.
pub open spec fn widen<T>(r: Result<(T, usize), ParseFailure>) -> Result<(T, int), ParseFailure> {
    match r {
        Ok((t, p)) => Ok((t, p as int)),
        Err(e) => Err(e),
    }
}

fn kind(tokens: &Vec<Token>, pos: usize) -> (r: TokenKind)
    ensures
        r == kind_at(tokens@, pos as int),
{
    if pos < tokens.len() {
        tokens[pos].kind
    } else {
        TokenKind::End
    }
}

fn fail(tokens: &Vec<Token>, pos: usize, fault: Fault) -> (r: ParseFailure)
    ensures
        r == failure(tokens@, pos as int, fault),
{
    if pos < tokens.len() {
        ParseFailure { fault, position: tokens[pos].start }
    } else {
        ParseFailure { fault, position: 0 }
    }
}

fn content_of(t: Token) -> (r: Span)
    ensures
        r == content(t),
{
    let quoted = match t.kind {
        TokenKind::Quoted => true,
        TokenKind::Text => true,
        _ => false,
    };
    if quoted && t.end >= 2 && t.start < t.end - 1 {
        Span { start: t.start + 1, end: t.end - 1 }
    } else {
        Span { start: t.start, end: t.end }
    }
}

fn names(k: TokenKind) -> (r: bool)
    ensures
        r == is_name(k),
{
    match k {
        TokenKind::Name => true,
        TokenKind::Quoted => true,
        _ => false,
    }
}

fn is_symbol(k: TokenKind, s: Symbol) -> (r: bool)
    ensures
        r == (k == TokenKind::Symbol(s)),
{
    match k {
        TokenKind::Symbol(x) => x == s,
        _ => false,
    }
}

fn is_keyword(k: TokenKind, w: Keyword) -> (r: bool)
    ensures
        r == (k == TokenKind::Keyword(w)),
{
    match k {
        TokenKind::Keyword(x) => x == w,
        _ => false,
    }
}

fn binary_of(k: TokenKind, level: u8) -> (r: Option<BinaryOp>)
    ensures
        r == binary_at(k, level as int),
{
    match k {
        TokenKind::Keyword(Keyword::Or) => if level == 0 {
            Some(BinaryOp::Or)
        } else {
            None
        },
        TokenKind::Keyword(Keyword::And) => if level == 1 {
            Some(BinaryOp::And)
        } else {
            None
        },
        TokenKind::Symbol(s) => {
            if level == 3 {
                match s {
                    Symbol::Equal => Some(BinaryOp::Eq),
                    Symbol::NotEqual => Some(BinaryOp::Ne),
                    Symbol::Less => Some(BinaryOp::Lt),
                    Symbol::LessEqual => Some(BinaryOp::Le),
                    Symbol::Greater => Some(BinaryOp::Gt),
                    Symbol::GreaterEqual => Some(BinaryOp::Ge),
                    _ => None,
                }
            } else if level == 4 {
                match s {
                    Symbol::Plus => Some(BinaryOp::Add),
                    Symbol::Minus => Some(BinaryOp::Sub),
                    _ => None,
                }
            } else if level == 5 {
                match s {
                    Symbol::Star => Some(BinaryOp::Mul),
                    Symbol::Slash => Some(BinaryOp::Div),
                    Symbol::Percent => Some(BinaryOp::Rem),
                    _ => None,
                }
            } else {
                None
            }
        },
        _ => None,
    }
}

fn prefix_of(k: TokenKind, level: u8) -> (r: Option<UnaryOp>)
    ensures
        r == prefix_at(k, level as int),
{
    if level == 2 && is_keyword(k, Keyword::Not) {
        Some(UnaryOp::Not)
    } else if level == 6 && is_symbol(k, Symbol::Minus) {
        Some(UnaryOp::Neg)
    } else {
        None
    }
}

fn aggregate_for(k: TokenKind) -> (r: Option<Aggregate>)
    ensures
        r == aggregate_of(k),
{
    match k {
        TokenKind::Keyword(Keyword::Count) => Some(Aggregate::Count),
        TokenKind::Keyword(Keyword::Sum) => Some(Aggregate::Sum),
        TokenKind::Keyword(Keyword::Avg) => Some(Aggregate::Avg),
        TokenKind::Keyword(Keyword::Min) => Some(Aggregate::Min),
        TokenKind::Keyword(Keyword::Max) => Some(Aggregate::Max),
        _ => None,
    }
}

/// The expression of a level of the grammar that starts at `pos`.
pub fn parse_level(tokens: &Vec<Token>, pos: usize, level: u8, depth: usize) -> (r: Result<
    (Expr, usize),
    ParseFailure,
>)
    requires
        ready(tokens@, pos as int),
        level <= 7,
    ensures
        widen(r) == expr_at(tokens@, pos as int, level as int, depth as nat),
        advanced(tokens@, pos as int, r),
    decreases depth, tokens.len() - pos, 10 - level,
{
    if level >= 7 {
        return parse_primary(tokens, pos, depth);
    }
    if level == 2 || level == 6 {
        match prefix_of(kind(tokens, pos), level) {
            Some(op) => {
                if depth == 0 {
                    return Err(fail(tokens, pos, Fault::NestedTooDeep));
                }
                match parse_level(tokens, pos + 1, level, depth - 1) {
                    Err(e) => Err(e),
                    Ok((a, p)) => Ok((Expr::Unary(op, Box::new(a)), p)),
                }
            },
            None => parse_level(tokens, pos, level + 1, depth),
        }
    } else {
        match parse_level(tokens, pos, level + 1, depth) {
            Err(e) => Err(e),
            Ok((first, start)) => {
                let mut left = first;
                let mut p = start;
                loop
                    invariant
                        ready(tokens@, p as int),
                        pos <= p,
                        level <= 5,
                        level != 2,
                        expr_at(tokens@, pos as int, level as int, depth as nat) == tail_at(
                            tokens@,
                            p as int,
                            level as int,
                            left,
                            depth as nat,
                        ),
                    decreases tokens.len() - p,
                {
                    match binary_of(kind(tokens, p), level) {
                        None => {
                            return Ok((left, p));
                        },
                        Some(op) => {
                            match parse_level(tokens, p + 1, level + 1, depth) {
                                Err(e) => {
                                    return Err(e);
                                },
                                Ok((right, q)) => {
                                    let e = Expr::Binary(op, Box::new(left), Box::new(right));
                                    if level == 3 {
                                        return Ok((e, q));
                                    }
                                    left = e;
                                    p = q;
                                },
                            }
                        },
                    }
                }
            },
        }
    }
}

fn parse_enclosed(tokens: &Vec<Token>, pos: usize, depth: usize) -> (r: Result<
    (Expr, usize),
    ParseFailure,
>)
    requires
        ready(tokens@, pos as int),
    ensures
        widen(r) == enclosed_at(tokens@, pos as int, depth as nat),
        advanced(tokens@, pos as int, r),
    decreases depth, tokens.len() - pos, 12int,
{
    if depth == 0 {
        return Err(fail(tokens, pos, Fault::NestedTooDeep));
    }
    match parse_level(tokens, pos, 0, depth - 1) {
        Err(e) => Err(e),
        Ok((e, p)) => {
            if is_symbol(kind(tokens, p), Symbol::RightParen) {
                Ok((e, p + 1))
            } else {
                Err(fail(tokens, p, Fault::ExpectedRightParen))
            }
        },
    }
}

fn parse_primary(tokens: &Vec<Token>, pos: usize, depth: usize) -> (r: Result<
    (Expr, usize),
    ParseFailure,
>)
    requires
        ready(tokens@, pos as int),
    ensures
        widen(r) == primary_at(tokens@, pos as int, depth as nat),
        advanced(tokens@, pos as int, r),
    decreases depth, tokens.len() - pos, 1int,
{
    let t = tokens[pos];
    let k = t.kind;
    match k {
        TokenKind::Integer(v) => Ok((Expr::Integer(v), pos + 1)),
        TokenKind::Text => Ok((Expr::Text(content_of(t)), pos + 1)),
        TokenKind::Keyword(Keyword::Null) => Ok((Expr::Null, pos + 1)),
        TokenKind::Keyword(Keyword::True) => Ok((Expr::Boolean(true), pos + 1)),
        TokenKind::Keyword(Keyword::False) => Ok((Expr::Boolean(false), pos + 1)),
        TokenKind::Name | TokenKind::Quoted => {
            if is_symbol(kind(tokens, pos + 1), Symbol::Dot) && names(kind(tokens, pos + 2)) {
                Ok(
                    (
                        Expr::Column {
                            table: Some(content_of(t)),
                            name: content_of(tokens[pos + 2]),
                        },
                        pos + 3,
                    ),
                )
            } else {
                Ok((Expr::Column { table: None, name: content_of(t) }, pos + 1))
            }
        },
        TokenKind::Symbol(Symbol::LeftParen) => parse_enclosed(tokens, pos + 1, depth),
        _ => {
            match aggregate_for(k) {
                None => Err(fail(tokens, pos, Fault::ExpectedExpression)),
                Some(f) => {
                    if !is_symbol(kind(tokens, pos + 1), Symbol::LeftParen) {
                        return Err(fail(tokens, pos + 1, Fault::ExpectedLeftParen));
                    }
                    let counts = match f {
                        Aggregate::Count => true,
                        _ => false,
                    };
                    if counts && is_symbol(kind(tokens, pos + 2), Symbol::Star) {
                        if is_symbol(kind(tokens, pos + 3), Symbol::RightParen) {
                            Ok((Expr::CountAll(t.start), pos + 4))
                        } else {
                            Err(fail(tokens, pos + 3, Fault::ExpectedRightParen))
                        }
                    } else {
                        match parse_enclosed(tokens, pos + 2, depth) {
                            Err(e) => Err(e),
                            Ok((a, p)) => Ok((Expr::Aggregate(f, Box::new(a), t.start), p)),
                        }
                    }
                },
            }
        },
    }
}

fn parse_alias(tokens: &Vec<Token>, pos: usize) -> (r: Result<(Option<Span>, usize), ParseFailure>)
    requires
        ready(tokens@, pos as int),
    ensures
        widen(r) == alias_at(tokens@, pos as int),
        advanced(tokens@, pos as int, r),
{
    let k = kind(tokens, pos);
    if is_keyword(k, Keyword::As) {
        if names(kind(tokens, pos + 1)) {
            Ok((Some(content_of(tokens[pos + 1])), pos + 2))
        } else {
            Err(fail(tokens, pos + 1, Fault::ExpectedName))
        }
    } else if names(k) {
        Ok((Some(content_of(tokens[pos])), pos + 1))
    } else {
        Ok((None, pos))
    }
}

fn parse_entry(tokens: &Vec<Token>, pos: usize, list: ListKind) -> (r: Result<
    (Entry, usize),
    ParseFailure,
>)
    requires
        ready(tokens@, pos as int),
    ensures
        widen(r) == entry_at(tokens@, pos as int, list),
        advanced(tokens@, pos as int, r),
{
    match parse_level(tokens, pos, 0, MAX_DEPTH) {
        Err(e) => Err(e),
        Ok((expr, p)) => {
            let end = if p > 0 {
                tokens[p - 1].end
            } else {
                0
            };
            let text = Span { start: tokens[pos].start, end };
            match list {
                ListKind::Selection => match parse_alias(tokens, p) {
                    Err(e) => Err(e),
                    Ok((alias, q)) => Ok((Entry { expr, alias, text, descending: false }, q)),
                },
                ListKind::Grouping => Ok((Entry { expr, alias: None, text, descending: false }, p)),
                ListKind::Sorting => {
                    let k = kind(tokens, p);
                    if is_keyword(k, Keyword::Desc) {
                        Ok((Entry { expr, alias: None, text, descending: true }, p + 1))
                    } else if is_keyword(k, Keyword::Asc) {
                        Ok((Entry { expr, alias: None, text, descending: false }, p + 1))
                    } else {
                        Ok((Entry { expr, alias: None, text, descending: false }, p))
                    }
                },
            }
        },
    }
}

/// The result of parsing a list with `front` put before its entries.
pub open spec fn with_front(front: Seq<Entry>, rest: Result<(Seq<Entry>, int), ParseFailure>) -> Result<
    (Seq<Entry>, int),
    ParseFailure,
> {
    match rest {
        Ok((s, p)) => Ok((front + s, p)),
        Err(e) => Err(e),
    }
}

/// The models of a result that holds a vector of entries.
pub open spec fn widen_list(r: Result<(Vec<Entry>, usize), ParseFailure>) -> Result<
    (Seq<Entry>, int),
    ParseFailure,
> {
    match r {
        Ok((v, p)) => Ok((v@, p as int)),
        Err(e) => Err(e),
    }
}

fn parse_entries(tokens: &Vec<Token>, pos: usize, list: ListKind) -> (r: Result<
    (Vec<Entry>, usize),
    ParseFailure,
>)
    requires
        ready(tokens@, pos as int),
    ensures
        widen_list(r) == entries_at(tokens@, pos as int, list),
        advanced(tokens@, pos as int, r),
{
    let mut out: Vec<Entry> = Vec::new();
    let mut p: usize = pos;
    proof {
        match entries_at(tokens@, pos as int, list) {
            Ok((s, q)) => {
                assert(out@ + s =~= s);
            },
            Err(_) => {},
        }
    }
    loop
        invariant
            ready(tokens@, p as int),
            pos <= p,
            entries_at(tokens@, pos as int, list) == with_front(
                out@,
                entries_at(tokens@, p as int, list),
            ),
        decreases tokens.len() - p,
    {
        match parse_entry(tokens, p, list) {
            Err(e) => {
                return Err(e);
            },
            Ok((entry, q)) => {
                let ghost before = out@;
                let ghost item = entry;
                out.push(entry);
                if is_symbol(kind(tokens, q), Symbol::Comma) {
                    proof {
                        match entries_at(tokens@, q + 1, list) {
                            Ok((rest, z)) => {
                                assert(before + (seq![item] + rest) =~= out@ + rest);
                            },
                            Err(_) => {},
                        }
                    }
                    p = q + 1;
                } else {
                    assert(before + seq![item] =~= out@);
                    return Ok((out, q));
                }
            },
        }
    }
}

fn parse_source(tokens: &Vec<Token>, pos: usize) -> (r: Result<(Source, usize), ParseFailure>)
    requires
        ready(tokens@, pos as int),
    ensures
        widen(r) == source_at(tokens@, pos as int),
        advanced(tokens@, pos as int, r),
{
    if names(kind(tokens, pos)) {
        match parse_alias(tokens, pos + 1) {
            Err(e) => Err(e),
            Ok((alias, p)) => Ok((Source { name: content_of(tokens[pos]), alias }, p)),
        }
    } else {
        Err(fail(tokens, pos, Fault::ExpectedTableName))
    }
}

fn parse_join(tokens: &Vec<Token>, pos: usize) -> (r: Result<(Option<Join>, usize), ParseFailure>)
    requires
        ready(tokens@, pos as int),
    ensures
        widen(r) == join_at(tokens@, pos as int),
        advanced(tokens@, pos as int, r),
{
    if is_keyword(kind(tokens, pos), Keyword::Join) {
        match parse_source(tokens, pos + 1) {
            Err(e) => Err(e),
            Ok((source, p)) => {
                if is_keyword(kind(tokens, p), Keyword::On) {
                    match parse_level(tokens, p + 1, 0, MAX_DEPTH) {
                        Err(e) => Err(e),
                        Ok((on, q)) => Ok((Some(Join { source, on }), q)),
                    }
                } else {
                    Err(fail(tokens, p, Fault::ExpectedOn))
                }
            },
        }
    } else {
        Ok((None, pos))
    }
}

fn parse_filter(tokens: &Vec<Token>, pos: usize) -> (r: Result<(Option<Expr>, usize), ParseFailure>)
    requires
        ready(tokens@, pos as int),
    ensures
        widen(r) == filter_at(tokens@, pos as int),
        advanced(tokens@, pos as int, r),
{
    if is_keyword(kind(tokens, pos), Keyword::Where) {
        match parse_level(tokens, pos + 1, 0, MAX_DEPTH) {
            Err(e) => Err(e),
            Ok((e, p)) => Ok((Some(e), p)),
        }
    } else {
        Ok((None, pos))
    }
}

fn parse_by_list(tokens: &Vec<Token>, pos: usize, lead: Keyword, list: ListKind) -> (r: Result<
    (Vec<Entry>, usize),
    ParseFailure,
>)
    requires
        ready(tokens@, pos as int),
    ensures
        widen_list(r) == by_list_at(tokens@, pos as int, lead, list),
        advanced(tokens@, pos as int, r),
{
    if is_keyword(kind(tokens, pos), lead) {
        if is_keyword(kind(tokens, pos + 1), Keyword::By) {
            parse_entries(tokens, pos + 2, list)
        } else {
            Err(fail(tokens, pos + 1, Fault::ExpectedBy))
        }
    } else {
        Ok((Vec::new(), pos))
    }
}

/// The model of a result that holds a query.
pub open spec fn query_view(r: Result<Query, ParseFailure>) -> Result<QueryView, ParseFailure> {
    match r {
        Ok(q) => Ok(q@),
        Err(e) => Err(e),
    }
}

/// The query that the tokens spell.
pub fn parse_query(tokens: &Vec<Token>) -> (r: Result<Query, ParseFailure>)
    requires
        ready(tokens@, 0),
    ensures
        query_view(r) == query_of(tokens@),
{
    if !is_keyword(kind(tokens, 0), Keyword::Select) {
        return Err(fail(tokens, 0, Fault::ExpectedSelect));
    }
    let (all, items, after_items) = if is_symbol(kind(tokens, 1), Symbol::Star) {
        (true, Vec::new(), 2)
    } else {
        match parse_entries(tokens, 1, ListKind::Selection) {
            Err(e) => {
                return Err(e);
            },
            Ok((items, p)) => (false, items, p),
        }
    };
    if !is_keyword(kind(tokens, after_items), Keyword::From) {
        return Err(fail(tokens, after_items, Fault::ExpectedFrom));
    }
    let (from, after_from) = match parse_source(tokens, after_items + 1) {
        Err(e) => {
            return Err(e);
        },
        Ok(x) => x,
    };
    let (join, after_join) = match parse_join(tokens, after_from) {
        Err(e) => {
            return Err(e);
        },
        Ok(x) => x,
    };
    let (filter, after_filter) = match parse_filter(tokens, after_join) {
        Err(e) => {
            return Err(e);
        },
        Ok(x) => x,
    };
    let (group_by, after_group) = match parse_by_list(tokens, after_filter, Keyword::Group, ListKind::Grouping) {
        Err(e) => {
            return Err(e);
        },
        Ok(x) => x,
    };
    let (order_by, after_order) = match parse_by_list(tokens, after_group, Keyword::Order, ListKind::Sorting) {
        Err(e) => {
            return Err(e);
        },
        Ok(x) => x,
    };
    match kind(tokens, after_order) {
        TokenKind::End => Ok(Query { all, items, from, join, filter, group_by, order_by }),
        _ => Err(fail(tokens, after_order, Fault::ExpectedEnd)),
    }
}

/// The expression that the tokens spell, with nothing after it.
pub fn parse_condition(tokens: &Vec<Token>) -> (r: Result<Expr, ParseFailure>)
    requires
        ready(tokens@, 0),
    ensures
        r == condition_of(tokens@),
{
    match parse_level(tokens, 0, 0, MAX_DEPTH) {
        Err(e) => Err(e),
        Ok((e, p)) => match kind(tokens, p) {
            TokenKind::End => Ok(e),
            _ => Err(fail(tokens, p, Fault::ExpectedEnd)),
        },
    }
}

} // verus!
