//! The messages that tell the user why a request was refused.

use vstd::prelude::*;
use crate::command::{CommandError, CommandErrorView};
use crate::expr::{Aggregate, BinaryOp, Operation, UnaryOp};
use crate::registry::RegistryError;
use crate::resolve::{QueryError, QueryErrorView};
use crate::text::{contains_text, decimal, occurs_at, push_decimal, push_text, string_of};
use crate::value::name_of_type;

verus! {

/// The name of an operation, as it is written in a query.
pub open spec fn operation_name(op: Operation) -> Seq<char> {
    match op {
        Operation::Unary(UnaryOp::Not) => "not"@,
        Operation::Unary(UnaryOp::Neg) => "-"@,
        Operation::Binary(BinaryOp::Or) => "or"@,
        Operation::Binary(BinaryOp::And) => "and"@,
        Operation::Binary(BinaryOp::Eq) => "="@,
        Operation::Binary(BinaryOp::Ne) => "<>"@,
        Operation::Binary(BinaryOp::Lt) => "<"@,
        Operation::Binary(BinaryOp::Le) => "<="@,
        Operation::Binary(BinaryOp::Gt) => ">"@,
        Operation::Binary(BinaryOp::Ge) => ">="@,
        Operation::Binary(BinaryOp::Add) => "+"@,
        Operation::Binary(BinaryOp::Sub) => "-"@,
        Operation::Binary(BinaryOp::Mul) => "*"@,
        Operation::Binary(BinaryOp::Div) => "/"@,
        Operation::Binary(BinaryOp::Rem) => "%"@,
        Operation::Aggregate(Aggregate::Count) => "count"@,
        Operation::Aggregate(Aggregate::Sum) => "sum"@,
        Operation::Aggregate(Aggregate::Avg) => "avg"@,
        Operation::Aggregate(Aggregate::Min) => "min"@,
        Operation::Aggregate(Aggregate::Max) => "max"@,
        Operation::Filter => "where"@,
        Operation::Join => "on"@,
    }
}

/// The name of an operation, as it is written in a query.
pub fn operation_text(op: Operation) -> (r: &'static str)
    ensures
        r@ == operation_name(op),
{
    match op {
        Operation::Unary(UnaryOp::Not) => "not",
        Operation::Unary(UnaryOp::Neg) => "-",
        Operation::Binary(BinaryOp::Or) => "or",
        Operation::Binary(BinaryOp::And) => "and",
        Operation::Binary(BinaryOp::Eq) => "=",
        Operation::Binary(BinaryOp::Ne) => "<>",
        Operation::Binary(BinaryOp::Lt) => "<",
        Operation::Binary(BinaryOp::Le) => "<=",
        Operation::Binary(BinaryOp::Gt) => ">",
        Operation::Binary(BinaryOp::Ge) => ">=",
        Operation::Binary(BinaryOp::Add) => "+",
        Operation::Binary(BinaryOp::Sub) => "-",
        Operation::Binary(BinaryOp::Mul) => "*",
        Operation::Binary(BinaryOp::Div) => "/",
        Operation::Binary(BinaryOp::Rem) => "%",
        Operation::Aggregate(Aggregate::Count) => "count",
        Operation::Aggregate(Aggregate::Sum) => "sum",
        Operation::Aggregate(Aggregate::Avg) => "avg",
        Operation::Aggregate(Aggregate::Min) => "min",
        Operation::Aggregate(Aggregate::Max) => "max",
        Operation::Filter => "where",
        Operation::Join => "on",
    }
}

/// The message for a query that was refused.
pub open spec fn query_message(e: QueryErrorView) -> Seq<char> {
    match e {
        QueryErrorView::ParseError { message, position } => message + " at "@ + decimal(
            position as nat,
        ),
        QueryErrorView::UnknownTable { name } => "unknown table: "@ + name,
        QueryErrorView::UnknownColumn { table, name } => if table.len() == 0 {
            "unknown column: "@ + name
        } else {
            "unknown column: "@ + table + "."@ + name
        },
        QueryErrorView::TypeMismatch { operation, left_type, right_type } => "type mismatch: "@
            + operation_name(operation) + " on "@ + name_of_type(left_type) + " and "@ + name_of_type(
            right_type,
        ),
        QueryErrorView::Cancelled => "query cancelled"@,
    }
}

/// The message for a request that the registry refused.
pub open spec fn registry_message(e: RegistryError) -> Seq<char> {
    match e {
        RegistryError::EmptyName => "the name is empty"@,
        RegistryError::NotFound => "no table of that name"@,
        RegistryError::NameTaken => "the name is taken"@,
    }
}

/// The message for a command that was not carried out.
pub open spec fn command_message(e: CommandErrorView) -> Seq<char> {
    match e {
        CommandErrorView::UnknownCommand { name } => "unknown command: "@ + name,
        CommandErrorView::ArityMismatch { name, expected, found } => name + " takes "@ + decimal(
            expected as nat,
        ) + " arguments, not "@ + decimal(found as nat),
        CommandErrorView::NotANumber { argument } => "not a number: "@ + argument,
        CommandErrorView::UnknownColumn { name } => "unknown column: "@ + name,
        CommandErrorView::NoTab => "no table is open"@,
        CommandErrorView::Query(e) => query_message(e),
        CommandErrorView::Registry(e) => registry_message(e),
    }
}

/// The message for an unknown command holds the name that was not found.
pub proof fn law_unknown_command_is_named(name: Seq<char>)
    ensures
        contains_text(command_message(CommandErrorView::UnknownCommand { name }), name),
{
    let prefix = "unknown command: "@;
    let message = prefix + name;
    assert(message.subrange(prefix.len() as int, message.len() as int) =~= name);
    assert(occurs_at(message, name, prefix.len() as int));
}

/// The message for an unknown table or column holds its name.
pub proof fn law_unknown_name_is_named(table: Seq<char>, name: Seq<char>)
    ensures
        contains_text(query_message(QueryErrorView::UnknownTable { name }), name),
        contains_text(query_message(QueryErrorView::UnknownColumn { table, name }), name),
{
    let a = "unknown table: "@ + name;
    assert(a.subrange(a.len() - name.len(), a.len() as int) =~= name);
    assert(occurs_at(a, name, a.len() - name.len()));
    let b = query_message(QueryErrorView::UnknownColumn { table, name });
    assert(b.subrange(b.len() - name.len(), b.len() as int) =~= name);
    assert(occurs_at(b, name, b.len() - name.len()));
}

fn push_query_message(out: &mut Vec<char>, e: &QueryError)
    ensures
        final(out)@ == old(out)@ + query_message(e@),
{
    let ghost before = out@;
    match e {
        QueryError::ParseError { message, position } => {
            push_text(out, message.as_str());
            push_text(out, " at ");
            push_decimal(out, *position as u128);
            assert(out@ =~= before + (message@ + " at "@ + decimal(*position as nat)));
        },
        QueryError::UnknownTable { name } => {
            push_text(out, "unknown table: ");
            push_text(out, name.as_str());
            assert(out@ =~= before + ("unknown table: "@ + name@));
        },
        QueryError::UnknownColumn { table, name } => {
            push_text(out, "unknown column: ");
            if table.as_str().unicode_len() > 0 {
                push_text(out, table.as_str());
                push_text(out, ".");
                push_text(out, name.as_str());
                assert(out@ =~= before + ("unknown column: "@ + table@ + "."@ + name@));
            } else {
                push_text(out, name.as_str());
                assert(out@ =~= before + ("unknown column: "@ + name@));
            }
        },
        QueryError::TypeMismatch { operation, left_type, right_type } => {
            push_text(out, "type mismatch: ");
            push_text(out, operation_text(*operation));
            push_text(out, " on ");
            push_text(out, left_type.name().as_str());
            push_text(out, " and ");
            push_text(out, right_type.name().as_str());
            assert(out@ =~= before + ("type mismatch: "@ + operation_name(*operation) + " on "@
                + name_of_type(*left_type) + " and "@ + name_of_type(*right_type)));
        },
        QueryError::Cancelled => {
            push_text(out, "query cancelled");
        },
    }
}

/// The message for a query that was refused.
pub fn query_text(e: &QueryError) -> (r: String)
    ensures
        r@ == query_message(e@),
{
    let mut out: Vec<char> = Vec::new();
    push_query_message(&mut out, e);
    assert(out@ =~= query_message(e@));
    string_of(&out)
}

/// The message for a request that the registry refused.
pub fn registry_text(e: RegistryError) -> (r: &'static str)
    ensures
        r@ == registry_message(e),
{
    match e {
        RegistryError::EmptyName => "the name is empty",
        RegistryError::NotFound => "no table of that name",
        RegistryError::NameTaken => "the name is taken",
    }
}

/// The message for a command that was not carried out.
pub fn command_text(e: &CommandError) -> (r: String)
    ensures
        r@ == command_message(e@),
{
    let mut out: Vec<char> = Vec::new();
    match e {
        CommandError::UnknownCommand { name } => {
            push_text(&mut out, "unknown command: ");
            push_text(&mut out, name.as_str());
            assert(out@ =~= "unknown command: "@ + name@);
        },
        CommandError::ArityMismatch { name, expected, found } => {
            push_text(&mut out, name.as_str());
            push_text(&mut out, " takes ");
            push_decimal(&mut out, *expected as u128);
            push_text(&mut out, " arguments, not ");
            push_decimal(&mut out, *found as u128);
            assert(out@ =~= name@ + " takes "@ + decimal(*expected as nat) + " arguments, not "@
                + decimal(*found as nat));
        },
        CommandError::NotANumber { argument } => {
            push_text(&mut out, "not a number: ");
            push_text(&mut out, argument.as_str());
            assert(out@ =~= "not a number: "@ + argument@);
        },
        CommandError::UnknownColumn { name } => {
            push_text(&mut out, "unknown column: ");
            push_text(&mut out, name.as_str());
            assert(out@ =~= "unknown column: "@ + name@);
        },
        CommandError::NoTab => {
            push_text(&mut out, "no table is open");
            assert(out@ =~= "no table is open"@);
        },
        CommandError::Query(e) => {
            push_query_message(&mut out, e);
            assert(out@ =~= query_message(e@));
        },
        CommandError::Registry(e) => {
            push_text(&mut out, registry_text(*e));
            assert(out@ =~= registry_message(*e));
        },
    }
    string_of(&out)
}

} // verus!
