//! Scalar values and their types.
//!
//! A cell of a table holds one `Value`. Its mathematical model is `ValueView`,
//! in which integers are unbounded and text is a sequence of characters.

use vstd::prelude::*;
use crate::text::{chars_of, compare_text, decimal_int, lemma_text_order_sign, lemma_text_order_transitive, push_decimal_int, string_of, text_order};

verus! {

/// The scalar types a column can have. `Null` is the type of a column, or of an
/// expression, that holds no value at all.
#[derive(Clone, Copy, PartialEq, Eq, Debug, Structural)]
pub enum DataType {
    Null,
    Boolean,
    Integer,
    Temporal,
    Text,
}

/// One scalar value. `Temporal` counts units of time from a fixed instant.
#[derive(Debug)]
pub enum Value {
    Null,
    Boolean(bool),
    Integer(i64),
    Temporal(i64),
    Text(String),
}

/// The mathematical model of a `Value`.
pub enum ValueView {
    Null,
    Boolean(bool),
    Integer(int),
    Temporal(int),
    Text(Seq<char>),
}

impl View for Value {
    type V = ValueView;

    open spec fn view(&self) -> ValueView {
        match self {
            Value::Null => ValueView::Null,
            Value::Boolean(b) => ValueView::Boolean(*b),
            Value::Integer(i) => ValueView::Integer(*i as int),
            Value::Temporal(t) => ValueView::Temporal(*t as int),
            Value::Text(s) => ValueView::Text(s@),
        }
    }
}

impl ValueView {
    /// The type of the value.
    pub open spec fn data_type(self) -> DataType {
        match self {
            ValueView::Null => DataType::Null,
            ValueView::Boolean(_) => DataType::Boolean,
            ValueView::Integer(_) => DataType::Integer,
            ValueView::Temporal(_) => DataType::Temporal,
            ValueView::Text(_) => DataType::Text,
        }
    }

    /// Whether a column of type `t` may hold the value: null fits every column,
    /// any other value only a column of its own type.
    pub open spec fn fits(self, t: DataType) -> bool {
        self is Null || self.data_type() == t
    }

    /// The place of the value's type in the order of values.
    pub open spec fn rank(self) -> int {
        match self {
            ValueView::Null => 0,
            ValueView::Boolean(_) => 1,
            ValueView::Integer(_) => 2,
            ValueView::Temporal(_) => 3,
            ValueView::Text(_) => 4,
        }
    }

    /// The text shown for the value: nothing for null, `true` or `false`, the
    /// decimal numeral of a number, the text itself.
    pub open spec fn rendered(self) -> Seq<char> {
        match self {
            ValueView::Null => Seq::<char>::empty(),
            ValueView::Boolean(b) => if b {
                "true"@
            } else {
                "false"@
            },
            ValueView::Integer(i) => decimal_int(i),
            ValueView::Temporal(t) => decimal_int(t),
            ValueView::Text(s) => s,
        }
    }
}

/// The sign of the difference of two integers.
pub open spec fn int_order(a: int, b: int) -> int {
    if a < b {
        -1
    } else if a > b {
        1
    } else {
        0
    }
}

/// The order of values: negative, zero or positive as `a` comes before, with or
/// after `b`. Null comes first, then booleans (false before true), integers,
/// temporal values and text (by character code); within a type the natural order.
pub open spec fn value_order(a: ValueView, b: ValueView) -> int {
    match (a, b) {
        (ValueView::Boolean(x), ValueView::Boolean(y)) => int_order(
            if x { 1 } else { 0 },
            if y { 1 } else { 0 },
        ),
        (ValueView::Integer(x), ValueView::Integer(y)) => int_order(x, y),
        (ValueView::Temporal(x), ValueView::Temporal(y)) => int_order(x, y),
        (ValueView::Text(x), ValueView::Text(y)) => text_order(x, y),
        _ => int_order(a.rank(), b.rank()),
    }
}

/// `value_order` is zero exactly on equal values, and swapping its arguments
/// flips its sign.
pub proof fn lemma_value_order_sign(a: ValueView, b: ValueView)
    ensures
        -1 <= value_order(a, b) <= 1,
        value_order(a, b) == -value_order(b, a),
        value_order(a, b) == 0 <==> a == b,
{
    match (a, b) {
        (ValueView::Text(x), ValueView::Text(y)) => {
            lemma_text_order_sign(x, y);
        },
        _ => {},
    }
}

/// `value_order` orders values transitively.
pub proof fn lemma_value_order_transitive(a: ValueView, b: ValueView, c: ValueView)
    requires
        value_order(a, b) <= 0,
        value_order(b, c) <= 0,
    ensures
        value_order(a, c) <= 0,
{
    match (a, b, c) {
        (ValueView::Text(x), ValueView::Text(y), ValueView::Text(z)) => {
            lemma_text_order_transitive(x, y, z);
        },
        _ => {},
    }
}

impl Clone for Value {
    fn clone(&self) -> (r: Self)
        ensures
            r@ == self@,
    {
        match self {
            Value::Null => Value::Null,
            Value::Boolean(b) => Value::Boolean(*b),
            Value::Integer(i) => Value::Integer(*i),
            Value::Temporal(t) => Value::Temporal(*t),
            Value::Text(s) => Value::Text(s.clone()),
        }
    }
}

impl PartialEq for Value {
    fn eq(&self, other: &Self) -> (r: bool) {
        match (self, other) {
            (Value::Null, Value::Null) => true,
            (Value::Boolean(a), Value::Boolean(b)) => *a == *b,
            (Value::Integer(a), Value::Integer(b)) => *a == *b,
            (Value::Temporal(a), Value::Temporal(b)) => *a == *b,
            (Value::Text(a), Value::Text(b)) => String::eq(a, b),
            _ => false,
        }
    }
}

impl vstd::std_specs::cmp::PartialEqSpecImpl for Value {
    open spec fn obeys_eq_spec() -> bool {
        true
    }

    open spec fn eq_spec(&self, other: &Self) -> bool {
        self@ == other@
    }
}

impl Value {
    /// A text value holding the characters of `s`.
    pub fn text(s: &str) -> (r: Value)
        ensures
            r@ == ValueView::Text(s@),
    {
        Value::Text(s.to_owned())
    }

    /// The type of the value.
    pub fn data_type(&self) -> (t: DataType)
        ensures
            t == self@.data_type(),
    {
        match self {
            Value::Null => DataType::Null,
            Value::Boolean(_) => DataType::Boolean,
            Value::Integer(_) => DataType::Integer,
            Value::Temporal(_) => DataType::Temporal,
            Value::Text(_) => DataType::Text,
        }
    }

    /// Whether the value is null.
    pub fn is_null(&self) -> (r: bool)
        ensures
            r == (self@ is Null),
    {
        match self {
            Value::Null => true,
            _ => false,
        }
    }

    /// Whether a column of type `t` may hold the value.
    pub fn fits(&self, t: DataType) -> (r: bool)
        ensures
            r == self@.fits(t),
    {
        match self {
            Value::Null => true,
            _ => self.data_type() == t,
        }
    }

    /// The characters shown for the value.
    pub fn rendered_chars(&self) -> (r: Vec<char>)
        ensures
            r@ == self@.rendered(),
    {
        match self {
            Value::Null => Vec::new(),
            Value::Boolean(b) => {
                if *b {
                    chars_of("true")
                } else {
                    chars_of("false")
                }
            },
            Value::Integer(i) => {
                let mut out: Vec<char> = Vec::new();
                push_decimal_int(&mut out, *i);
                assert(out@ =~= decimal_int(*i as int));
                out
            },
            Value::Temporal(t) => {
                let mut out: Vec<char> = Vec::new();
                push_decimal_int(&mut out, *t);
                assert(out@ =~= decimal_int(*t as int));
                out
            },
            Value::Text(s) => chars_of(s.as_str()),
        }
    }

    /// The text shown for the value.
    pub fn rendered(&self) -> (r: String)
        ensures
            r@ == self@.rendered(),
    {
        let chars = self.rendered_chars();
        string_of(&chars)
    }
}

/// Compares two integers, giving -1, 0 or 1.
pub fn compare_integers(a: i64, b: i64) -> (r: i8)
    ensures
        r == int_order(a as int, b as int),
{
    if a < b {
        -1
    } else if a > b {
        1
    } else {
        0
    }
}

/// Compares two values as `value_order` does, giving -1, 0 or 1.
pub fn compare_values(a: &Value, b: &Value) -> (r: i8)
    ensures
        r == value_order(a@, b@),
{
    match (a, b) {
        (Value::Boolean(x), Value::Boolean(y)) => {
            let p: i64 = if *x { 1 } else { 0 };
            let q: i64 = if *y { 1 } else { 0 };
            compare_integers(p, q)
        },
        (Value::Integer(x), Value::Integer(y)) => compare_integers(*x, *y),
        (Value::Temporal(x), Value::Temporal(y)) => compare_integers(*x, *y),
        (Value::Text(x), Value::Text(y)) => compare_text(x.as_str(), y.as_str()),
        _ => compare_integers(rank_of(a), rank_of(b)),
    }
}

fn rank_of(v: &Value) -> (r: i64)
    ensures
        r == v@.rank(),
{
    match v {
        Value::Null => 0,
        Value::Boolean(_) => 1,
        Value::Integer(_) => 2,
        Value::Temporal(_) => 3,
        Value::Text(_) => 4,
    }
}

/// The name of a type, as it is shown in messages.
pub open spec fn name_of_type(t: DataType) -> Seq<char> {
    match t {
        DataType::Null => "null"@,
        DataType::Boolean => "boolean"@,
        DataType::Integer => "integer"@,
        DataType::Temporal => "temporal"@,
        DataType::Text => "text"@,
    }
}

impl DataType {
    /// The name of the type, as it is shown in messages.
    pub fn name(&self) -> (r: String)
        ensures
            r@ == name_of_type(*self),
    {
        match self {
            DataType::Null => "null".to_owned(),
            DataType::Boolean => "boolean".to_owned(),
            DataType::Integer => "integer".to_owned(),
            DataType::Temporal => "temporal".to_owned(),
            DataType::Text => "text".to_owned(),
        }
    }
}

} // verus!
