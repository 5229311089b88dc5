//! Expressions over the values of a row, and over the rows of a group.
//!
//! The rules, used alike by queries and by view filters:
//! - a null operand makes the result of a comparison or of arithmetic null;
//!   `and` and `or` follow three-valued logic;
//! - arithmetic is defined on integers only; a result outside the 64-bit range
//!   and a division by zero are null; division rounds toward zero;
//! - a comparison is defined on two values of one type;
//! - text, boolean and temporal operands of arithmetic, and operands of
//!   different types of a comparison, are refused before evaluation as a
//!   type mismatch.

use vstd::prelude::*;
use crate::value::{compare_values, value_order, DataType, Value, ValueView};

verus! {

/// An operation on one operand: the negation of a truth value or of a number.
#[derive(Clone, Copy, PartialEq, Eq, Debug, Structural)]
pub enum UnaryOp {
    Not,
    Neg,
}

/// An operation on two operands: of logic, a comparison, or of arithmetic.
#[derive(Clone, Copy, PartialEq, Eq, Debug, Structural)]
pub enum BinaryOp {
    Or,
    And,
    Eq,
    Ne,
    Lt,
    Le,
    Gt,
    Ge,
    Add,
    Sub,
    Mul,
    Div,
    Rem,
}

/// A function of the values that an expression has on the rows of a group.
#[derive(Clone, Copy, PartialEq, Eq, Debug, Structural)]
pub enum Aggregate {
    Count,
    Sum,
    Avg,
    Min,
    Max,
}

/// What an operand was refused by.
#[derive(Clone, Copy, PartialEq, Eq, Debug, Structural)]
pub enum Operation {
    Unary(UnaryOp),
    Binary(BinaryOp),
    Aggregate(Aggregate),
    /// The condition of a filter.
    Filter,
    /// The condition of a join.
    Join,
}

/// An operand of a type that the operation does not take. For an operation
/// with one operand `left` is the operand's type and `right` the type expected.
#[derive(Clone, Copy, PartialEq, Eq, Debug, Structural)]
pub struct TypeError {
    pub operation: Operation,
    pub left: DataType,
    pub right: DataType,
}

impl BinaryOp {
    /// Whether the operation is `OR` or `AND`.
    pub open spec fn is_logic(self) -> bool {
        self == BinaryOp::Or || self == BinaryOp::And
    }

    /// Whether the operation compares two values.
    pub open spec fn is_comparison(self) -> bool {
        self == BinaryOp::Eq || self == BinaryOp::Ne || self == BinaryOp::Lt || self
            == BinaryOp::Le || self == BinaryOp::Gt || self == BinaryOp::Ge
    }

    /// Whether the operation computes a number from two numbers.
    pub open spec fn is_arithmetic(self) -> bool {
        !self.is_logic() && !self.is_comparison()
    }
}

/// Whether an integer fits in 64 bits.
pub open spec fn in_range(i: int) -> bool {
    i64::MIN <= i <= i64::MAX
}

/// The integer as a value, null when it does not fit in 64 bits.
pub open spec fn integer_or_null(i: int) -> ValueView {
    if in_range(i) {
        ValueView::Integer(i)
    } else {
        ValueView::Null
    }
}

/// The quotient of `x` by `d`, rounded toward zero; `d` is not zero.
pub open spec fn quotient(x: int, d: int) -> int {
    if x >= 0 && d > 0 {
        x / d
    } else if x < 0 && d < 0 {
        (-x) / (-d)
    } else if x < 0 {
        -((-x) / d)
    } else {
        -(x / (-d))
    }
}

/// The remainder of the division of `x` by `d` rounded toward zero; `d` is not
/// zero.
pub open spec fn remainder(x: int, d: int) -> int {
    if x >= 0 && d > 0 {
        x % d
    } else if x < 0 && d < 0 {
        -((-x) % (-d))
    } else if x < 0 {
        -((-x) % d)
    } else {
        x % (-d)
    }
}

/// A value under a unary operation.
pub open spec fn apply_unary(op: UnaryOp, v: ValueView) -> ValueView {
    match (op, v) {
        (UnaryOp::Not, ValueView::Boolean(b)) => ValueView::Boolean(!b),
        (UnaryOp::Neg, ValueView::Integer(i)) => integer_or_null(-i),
        _ => ValueView::Null,
    }
}

/// Whether an order between two values, as `value_order` gives it, meets a
/// comparison.
pub open spec fn order_meets(op: BinaryOp, order: int) -> bool {
    match op {
        BinaryOp::Eq => order == 0,
        BinaryOp::Ne => order != 0,
        BinaryOp::Lt => order < 0,
        BinaryOp::Le => order <= 0,
        BinaryOp::Gt => order > 0,
        BinaryOp::Ge => order >= 0,
        _ => false,
    }
}

/// The result of an arithmetic operation on two integers.
pub open spec fn arithmetic(op: BinaryOp, x: int, y: int) -> ValueView {
    match op {
        BinaryOp::Add => integer_or_null(x + y),
        BinaryOp::Sub => integer_or_null(x - y),
        BinaryOp::Mul => integer_or_null(x * y),
        BinaryOp::Div => if y == 0 {
            ValueView::Null
        } else {
            integer_or_null(quotient(x, y))
        },
        BinaryOp::Rem => if y == 0 {
            ValueView::Null
        } else {
            integer_or_null(remainder(x, y))
        },
        _ => ValueView::Null,
    }
}

/// Two values under a binary operation.
pub open spec fn apply_binary(op: BinaryOp, a: ValueView, b: ValueView) -> ValueView {
    if op == BinaryOp::And {
        if a == ValueView::Boolean(false) || b == ValueView::Boolean(false) {
            ValueView::Boolean(false)
        } else if a == ValueView::Boolean(true) && b == ValueView::Boolean(true) {
            ValueView::Boolean(true)
        } else {
            ValueView::Null
        }
    } else if op == BinaryOp::Or {
        if a == ValueView::Boolean(true) || b == ValueView::Boolean(true) {
            ValueView::Boolean(true)
        } else if a == ValueView::Boolean(false) && b == ValueView::Boolean(false) {
            ValueView::Boolean(false)
        } else {
            ValueView::Null
        }
    } else if op.is_comparison() {
        if a is Null || b is Null || a.data_type() != b.data_type() {
            ValueView::Null
        } else {
            ValueView::Boolean(order_meets(op, value_order(a, b)))
        }
    } else {
        match (a, b) {
            (ValueView::Integer(x), ValueView::Integer(y)) => arithmetic(op, x, y),
            _ => ValueView::Null,
        }
    }
}

/// The type of the results of a unary operation.
pub open spec fn unary_type(op: UnaryOp) -> DataType {
    match op {
        UnaryOp::Not => DataType::Boolean,
        UnaryOp::Neg => DataType::Integer,
    }
}

/// The type of the results of a binary operation.
pub open spec fn binary_type(op: BinaryOp) -> DataType {
    if op.is_arithmetic() {
        DataType::Integer
    } else {
        DataType::Boolean
    }
}

/// Whether an operand of type `t` may stand where type `wanted` is expected.
pub open spec fn accepts(wanted: DataType, t: DataType) -> bool {
    t == DataType::Null || t == wanted
}

/// The type of a unary operation on an operand of type `t`.
pub open spec fn check_unary(op: UnaryOp, t: DataType) -> Result<DataType, TypeError> {
    if accepts(unary_type(op), t) {
        Ok(unary_type(op))
    } else {
        Err(TypeError { operation: Operation::Unary(op), left: t, right: unary_type(op) })
    }
}

/// The type of a binary operation on operands of types `l` and `r`.
pub open spec fn check_binary(op: BinaryOp, l: DataType, r: DataType) -> Result<
    DataType,
    TypeError,
> {
    let fine = if op.is_logic() {
        accepts(DataType::Boolean, l) && accepts(DataType::Boolean, r)
    } else if op.is_comparison() {
        l == DataType::Null || r == DataType::Null || l == r
    } else {
        accepts(DataType::Integer, l) && accepts(DataType::Integer, r)
    };
    if fine {
        Ok(binary_type(op))
    } else {
        Err(TypeError { operation: Operation::Binary(op), left: l, right: r })
    }
}

/// The type of an aggregate over values of type `t`.
pub open spec fn check_aggregate(f: Aggregate, t: DataType) -> Result<DataType, TypeError> {
    match f {
        Aggregate::Count => Ok(DataType::Integer),
        Aggregate::Sum | Aggregate::Avg => if accepts(DataType::Integer, t) {
            Ok(DataType::Integer)
        } else {
            Err(TypeError { operation: Operation::Aggregate(f), left: t, right: DataType::Integer })
        },
        Aggregate::Min | Aggregate::Max => Ok(t),
    }
}

/// The number of values that are not null.
pub open spec fn count_present(vals: Seq<ValueView>) -> nat
    decreases vals.len(),
{
    if vals.len() == 0 {
        0
    } else {
        count_present(vals.drop_last()) + if vals.last() is Null {
            0nat
        } else {
            1nat
        }
    }
}

/// The number of values that are integers.
pub open spec fn count_integers(vals: Seq<ValueView>) -> nat
    decreases vals.len(),
{
    if vals.len() == 0 {
        0
    } else {
        count_integers(vals.drop_last()) + if vals.last() is Integer {
            1nat
        } else {
            0nat
        }
    }
}

/// The sum of the values that are integers.
pub open spec fn sum_integers(vals: Seq<ValueView>) -> int
    decreases vals.len(),
{
    if vals.len() == 0 {
        0
    } else {
        sum_integers(vals.drop_last()) + match vals.last() {
            ValueView::Integer(i) => i,
            _ => 0,
        }
    }
}

/// The greatest (`greatest`) or least of the values that are not null; null
/// when there is none. Of several such values the first one is taken.
pub open spec fn extreme(vals: Seq<ValueView>, greatest: bool) -> ValueView
    decreases vals.len(),
{
    if vals.len() == 0 {
        ValueView::Null
    } else {
        let best = extreme(vals.drop_last(), greatest);
        let v = vals.last();
        if v is Null {
            best
        } else if best is Null {
            v
        } else if greatest && value_order(v, best) > 0 {
            v
        } else if !greatest && value_order(v, best) < 0 {
            v
        } else {
            best
        }
    }
}

/// The aggregate of the values of a group. Nulls are passed over; over no value
/// at all `count` is 0 and every other aggregate is null. A result outside the
/// 64-bit range is null. The average is the sum divided by the number of
/// integers, rounded toward zero.
pub open spec fn aggregate(f: Aggregate, vals: Seq<ValueView>) -> ValueView {
    match f {
        Aggregate::Count => integer_or_null(count_present(vals) as int),
        Aggregate::Sum => if count_integers(vals) == 0 {
            ValueView::Null
        } else {
            integer_or_null(sum_integers(vals))
        },
        Aggregate::Avg => if count_integers(vals) == 0 {
            ValueView::Null
        } else {
            integer_or_null(quotient(sum_integers(vals), count_integers(vals) as int))
        },
        Aggregate::Min => extreme(vals, false),
        Aggregate::Max => extreme(vals, true),
    }
}

/// The models of a vector of values.
pub open spec fn value_views(s: Seq<Value>) -> Seq<ValueView> {
    Seq::new(s.len(), |i: int| s[i]@)
}

/// The models of a vector of rows.
pub open spec fn row_views(s: Seq<Vec<Value>>) -> Seq<Seq<ValueView>> {
    Seq::new(s.len(), |i: int| value_views(s[i]@))
}

/// An expression over the values of one row.
#[derive(Debug)]
pub enum RowExpr {
    Literal(Value),
    /// The value of the row at an index.
    Column(usize),
    Unary(UnaryOp, Box<RowExpr>),
    Binary(BinaryOp, Box<RowExpr>, Box<RowExpr>),
}

/// The model of a `RowExpr`.
pub enum RowExprView {
    Literal(ValueView),
    Column(int),
    Unary(UnaryOp, Box<RowExprView>),
    Binary(BinaryOp, Box<RowExprView>, Box<RowExprView>),
}

impl RowExpr {
    /// The model of the expression.
    pub open spec fn model(&self) -> RowExprView
        decreases self,
    {
        match self {
            RowExpr::Literal(v) => RowExprView::Literal(v@),
            RowExpr::Column(c) => RowExprView::Column(*c as int),
            RowExpr::Unary(op, a) => RowExprView::Unary(*op, Box::new(a.model())),
            RowExpr::Binary(op, a, b) => RowExprView::Binary(
                *op,
                Box::new(a.model()),
                Box::new(b.model()),
            ),
        }
    }
}

impl View for RowExpr {
    type V = RowExprView;

    open spec fn view(&self) -> RowExprView {
        self.model()
    }
}

impl RowExprView {
    /// Whether every column index is below `width`.
    pub open spec fn within(self, width: int) -> bool
        decreases self,
    {
        match self {
            RowExprView::Literal(_) => true,
            RowExprView::Column(c) => 0 <= c < width,
            RowExprView::Unary(_, a) => a.within(width),
            RowExprView::Binary(_, a, b) => a.within(width) && b.within(width),
        }
    }

    /// The value of the expression on a row.
    pub open spec fn eval(self, row: Seq<ValueView>) -> ValueView
        decreases self,
    {
        match self {
            RowExprView::Literal(v) => v,
            RowExprView::Column(c) => if 0 <= c < row.len() {
                row[c]
            } else {
                ValueView::Null
            },
            RowExprView::Unary(op, a) => apply_unary(op, a.eval(row)),
            RowExprView::Binary(op, a, b) => apply_binary(op, a.eval(row), b.eval(row)),
        }
    }

    /// The type of the expression over columns of the given types, or the first
    /// operand that an operation does not take.
    pub open spec fn check(self, types: Seq<DataType>) -> Result<DataType, TypeError>
        decreases self,
    {
        match self {
            RowExprView::Literal(v) => Ok(v.data_type()),
            RowExprView::Column(c) => if 0 <= c < types.len() {
                Ok(types[c])
            } else {
                Ok(DataType::Null)
            },
            RowExprView::Unary(op, a) => match a.check(types) {
                Ok(t) => check_unary(op, t),
                Err(e) => Err(e),
            },
            RowExprView::Binary(op, a, b) => match a.check(types) {
                Ok(l) => match b.check(types) {
                    Ok(r) => check_binary(op, l, r),
                    Err(e) => Err(e),
                },
                Err(e) => Err(e),
            },
        }
    }
}

/// Whether the values of a row are of the given types, column by column.
pub open spec fn row_fits(row: Seq<ValueView>, types: Seq<DataType>) -> bool {
    &&& row.len() <= types.len()
    &&& forall|c: int| 0 <= c < row.len() ==> (#[trigger] row[c]).fits(types[c])
}

/// An expression that passes the check gives, on rows of the column types,
/// null or a value of the type that the check found.
pub proof fn lemma_row_expr_sound(e: RowExprView, types: Seq<DataType>, row: Seq<ValueView>)
    requires
        e.within(types.len() as int),
        e.check(types) is Ok,
        row_fits(row, types),
    ensures
        e.eval(row).fits(e.check(types)->Ok_0),
    decreases e,
{
    match e {
        RowExprView::Literal(_) => {},
        RowExprView::Column(c) => {
            if c < row.len() {
                assert(row[c].fits(types[c]));
            }
        },
        RowExprView::Unary(_, _) => {},
        RowExprView::Binary(_, _, _) => {},
    }
}

/// A value under a unary operation.
pub fn unary_value(op: UnaryOp, v: &Value) -> (r: Value)
    ensures
        r@ == apply_unary(op, v@),
{
    match op {
        UnaryOp::Not => match v {
            Value::Boolean(b) => Value::Boolean(!*b),
            _ => Value::Null,
        },
        UnaryOp::Neg => match v {
            Value::Integer(i) => {
                let zero: i64 = 0;
                integer_value(zero.checked_sub(*i))
            },
            _ => Value::Null,
        },
    }
}

fn integer_value(r: Option<i64>) -> (v: Value)
    ensures
        v@ == match r {
            Some(i) => ValueView::Integer(i as int),
            None => ValueView::Null,
        },
{
    match r {
        Some(i) => Value::Integer(i),
        None => Value::Null,
    }
}

/// The result of an arithmetic operation on two integers.
pub fn arithmetic_value(op: BinaryOp, x: i64, y: i64) -> (r: Value)
    ensures
        r@ == arithmetic(op, x as int, y as int),
{
    match op {
        BinaryOp::Add => integer_value(x.checked_add(y)),
        BinaryOp::Sub => integer_value(x.checked_sub(y)),
        BinaryOp::Mul => integer_value(x.checked_mul(y)),
        BinaryOp::Div => {
            if y == 0 {
                Value::Null
            } else {
                integer_value(x.checked_div(y))
            }
        },
        BinaryOp::Rem => {
            if y == 0 {
                Value::Null
            } else if y == -1 {
                assert(remainder(x as int, -1) == 0) by {
                    assert((x as int) % 1 == 0);
                    assert((-(x as int)) % 1 == 0);
                }
                Value::Integer(0)
            } else {
                assert(-i64::MAX <= remainder(x as int, y as int) <= i64::MAX) by {
                    lemma_remainder_bound(x as int, y as int);
                }
                integer_value(x.checked_rem(y))
            }
        },
        _ => Value::Null,
    }
}

/// The remainder is smaller in size than the divisor.
pub proof fn lemma_remainder_bound(x: int, d: int)
    requires
        d != 0,
    ensures
        d > 0 ==> -d < remainder(x, d) < d,
        d < 0 ==> d < remainder(x, d) < -d,
{
    if d > 0 {
        if x >= 0 {
            assert(0 <= x % d < d) by (nonlinear_arith)
                requires
                    d > 0,
            ;
        } else {
            assert(0 <= (-x) % d < d) by (nonlinear_arith)
                requires
                    d > 0,
            ;
        }
    } else {
        let m = -d;
        if x >= 0 {
            assert(0 <= x % m < m) by (nonlinear_arith)
                requires
                    m > 0,
            ;
        } else {
            assert(0 <= (-x) % m < m) by (nonlinear_arith)
                requires
                    m > 0,
            ;
        }
    }
}

fn meets(op: BinaryOp, order: i8) -> (r: bool)
    ensures
        r == order_meets(op, order as int),
{
    match op {
        BinaryOp::Eq => order == 0,
        BinaryOp::Ne => order != 0,
        BinaryOp::Lt => order < 0,
        BinaryOp::Le => order <= 0,
        BinaryOp::Gt => order > 0,
        BinaryOp::Ge => order >= 0,
        _ => false,
    }
}

fn is_true(v: &Value) -> (r: bool)
    ensures
        r == (v@ == ValueView::Boolean(true)),
{
    match v {
        Value::Boolean(b) => *b,
        _ => false,
    }
}

fn is_false(v: &Value) -> (r: bool)
    ensures
        r == (v@ == ValueView::Boolean(false)),
{
    match v {
        Value::Boolean(b) => !*b,
        _ => false,
    }
}

/// Two values under a binary operation.
pub fn binary_value(op: BinaryOp, a: &Value, b: &Value) -> (r: Value)
    ensures
        r@ == apply_binary(op, a@, b@),
{
    match op {
        BinaryOp::And => {
            if is_false(a) || is_false(b) {
                Value::Boolean(false)
            } else if is_true(a) && is_true(b) {
                Value::Boolean(true)
            } else {
                Value::Null
            }
        },
        BinaryOp::Or => {
            if is_true(a) || is_true(b) {
                Value::Boolean(true)
            } else if is_false(a) && is_false(b) {
                Value::Boolean(false)
            } else {
                Value::Null
            }
        },
        BinaryOp::Eq | BinaryOp::Ne | BinaryOp::Lt | BinaryOp::Le | BinaryOp::Gt | BinaryOp::Ge => {
            if a.is_null() || b.is_null() || a.data_type() != b.data_type() {
                Value::Null
            } else {
                Value::Boolean(meets(op, compare_values(a, b)))
            }
        },
        _ => match (a, b) {
            (Value::Integer(x), Value::Integer(y)) => arithmetic_value(op, *x, *y),
            _ => Value::Null,
        },
    }
}

impl RowExpr {
    /// The value of the expression on a row.
    pub fn eval(&self, row: &Vec<Value>) -> (r: Value)
        ensures
            r@ == self@.eval(value_views(row@)),
        decreases self,
    {
        match self {
            RowExpr::Literal(v) => v.clone(),
            RowExpr::Column(c) => {
                if *c < row.len() {
                    row[*c].clone()
                } else {
                    Value::Null
                }
            },
            RowExpr::Unary(op, a) => {
                let x = a.eval(row);
                unary_value(*op, &x)
            },
            RowExpr::Binary(op, a, b) => {
                let x = a.eval(row);
                let y = b.eval(row);
                binary_value(*op, &x, &y)
            },
        }
    }

    /// Whether the expression is true on a row.
    pub fn holds(&self, row: &Vec<Value>) -> (r: bool)
        ensures
            r == (self@.eval(value_views(row@)) == ValueView::Boolean(true)),
    {
        let v = self.eval(row);
        is_true(&v)
    }
}

impl Clone for RowExpr {
    fn clone(&self) -> (r: Self)
        ensures
            r@ == self@,
        decreases self,
    {
        match self {
            RowExpr::Literal(v) => RowExpr::Literal(v.clone()),
            RowExpr::Column(c) => RowExpr::Column(*c),
            RowExpr::Unary(op, a) => RowExpr::Unary(*op, Box::new((**a).clone())),
            RowExpr::Binary(op, a, b) => RowExpr::Binary(
                *op,
                Box::new((**a).clone()),
                Box::new((**b).clone()),
            ),
        }
    }
}

/// The type of a unary operation on an operand of type `t`.
pub fn unary_check(op: UnaryOp, t: DataType) -> (r: Result<DataType, TypeError>)
    ensures
        r == check_unary(op, t),
{
    let wanted = match op {
        UnaryOp::Not => DataType::Boolean,
        UnaryOp::Neg => DataType::Integer,
    };
    if t == DataType::Null || t == wanted {
        Ok(wanted)
    } else {
        Err(TypeError { operation: Operation::Unary(op), left: t, right: wanted })
    }
}

fn takes(wanted: DataType, t: DataType) -> (r: bool)
    ensures
        r == accepts(wanted, t),
{
    t == DataType::Null || t == wanted
}

/// The type of a binary operation on operands of types `l` and `r`.
pub fn binary_check(op: BinaryOp, l: DataType, r: DataType) -> (res: Result<DataType, TypeError>)
    ensures
        res == check_binary(op, l, r),
{
    match op {
        BinaryOp::Or | BinaryOp::And => {
            if takes(DataType::Boolean, l) && takes(DataType::Boolean, r) {
                Ok(DataType::Boolean)
            } else {
                Err(TypeError { operation: Operation::Binary(op), left: l, right: r })
            }
        },
        BinaryOp::Eq | BinaryOp::Ne | BinaryOp::Lt | BinaryOp::Le | BinaryOp::Gt | BinaryOp::Ge => {
            if l == DataType::Null || r == DataType::Null || l == r {
                Ok(DataType::Boolean)
            } else {
                Err(TypeError { operation: Operation::Binary(op), left: l, right: r })
            }
        },
        _ => {
            if takes(DataType::Integer, l) && takes(DataType::Integer, r) {
                Ok(DataType::Integer)
            } else {
                Err(TypeError { operation: Operation::Binary(op), left: l, right: r })
            }
        },
    }
}

/// The type of an aggregate over values of type `t`.
pub fn aggregate_check(f: Aggregate, t: DataType) -> (r: Result<DataType, TypeError>)
    ensures
        r == check_aggregate(f, t),
{
    match f {
        Aggregate::Count => Ok(DataType::Integer),
        Aggregate::Sum | Aggregate::Avg => {
            if takes(DataType::Integer, t) {
                Ok(DataType::Integer)
            } else {
                Err(
                    TypeError {
                        operation: Operation::Aggregate(f),
                        left: t,
                        right: DataType::Integer,
                    },
                )
            }
        },
        Aggregate::Min | Aggregate::Max => Ok(t),
    }
}

impl RowExpr {
    /// The type of the expression over columns of the given types, or the first
    /// operand that an operation does not take.
    pub fn check(&self, types: &Vec<DataType>) -> (r: Result<DataType, TypeError>)
        ensures
            r == self@.check(types@),
        decreases self,
    {
        match self {
            RowExpr::Literal(v) => Ok(v.data_type()),
            RowExpr::Column(c) => {
                if *c < types.len() {
                    Ok(types[*c])
                } else {
                    Ok(DataType::Null)
                }
            },
            RowExpr::Unary(op, a) => match a.check(types) {
                Ok(t) => unary_check(*op, t),
                Err(e) => Err(e),
            },
            RowExpr::Binary(op, a, b) => match a.check(types) {
                Ok(l) => match b.check(types) {
                    Ok(r) => binary_check(*op, l, r),
                    Err(e) => Err(e),
                },
                Err(e) => Err(e),
            },
        }
    }
}

} // verus!
