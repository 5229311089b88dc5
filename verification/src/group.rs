//! Expressions over a group of rows: aggregates, and what is computed from
//! them.
//!
//! A part of such an expression that holds no aggregate is evaluated on the
//! first row of the group; on a group without rows every column is null.

use vstd::prelude::*;
use crate::expr::{
    aggregate, aggregate_check, apply_binary, apply_unary, binary_check, binary_value,
    check_aggregate, check_binary, check_unary, count_integers, count_present, extreme,
    integer_or_null, lemma_row_expr_sound, quotient, row_fits, row_views, sum_integers, unary_check, unary_value,
    value_views, Aggregate, BinaryOp, RowExpr, RowExprView, TypeError, UnaryOp,
};
use crate::value::{compare_values, DataType, Value, ValueView};

verus! {

/// An expression over the rows of a group.
#[derive(Debug)]
pub enum GroupExpr {
    /// An expression without aggregates.
    Row(RowExpr),
    Unary(UnaryOp, Box<GroupExpr>),
    Binary(BinaryOp, Box<GroupExpr>, Box<GroupExpr>),
    /// An aggregate of the values of an expression on the rows of the group.
    Aggregate(Aggregate, RowExpr),
    /// The number of rows of the group.
    CountAll,
}

/// The model of a `GroupExpr`.
pub enum GroupExprView {
    Row(RowExprView),
    Unary(UnaryOp, Box<GroupExprView>),
    Binary(BinaryOp, Box<GroupExprView>, Box<GroupExprView>),
    Aggregate(Aggregate, RowExprView),
    CountAll,
}

impl GroupExpr {
    /// The model of the expression.
    pub open spec fn model(&self) -> GroupExprView
        decreases self,
    {
        match self {
            GroupExpr::Row(e) => GroupExprView::Row(e@),
            GroupExpr::Unary(op, a) => GroupExprView::Unary(*op, Box::new(a.model())),
            GroupExpr::Binary(op, a, b) => GroupExprView::Binary(
                *op,
                Box::new(a.model()),
                Box::new(b.model()),
            ),
            GroupExpr::Aggregate(f, e) => GroupExprView::Aggregate(*f, e@),
            GroupExpr::CountAll => GroupExprView::CountAll,
        }
    }
}

impl View for GroupExpr {
    type V = GroupExprView;

    open spec fn view(&self) -> GroupExprView {
        self.model()
    }
}

/// The first row of a group; the row without values for a group without rows.
pub open spec fn first_row(rows: Seq<Seq<ValueView>>) -> Seq<ValueView> {
    if rows.len() > 0 {
        rows[0]
    } else {
        Seq::empty()
    }
}

/// The values of an expression on the rows of a group.
pub open spec fn values_on(e: RowExprView, rows: Seq<Seq<ValueView>>) -> Seq<ValueView> {
    Seq::new(rows.len(), |i: int| e.eval(rows[i]))
}

impl GroupExprView {
    /// Whether every column index is below `width`.
    pub open spec fn within(self, width: int) -> bool
        decreases self,
    {
        match self {
            GroupExprView::Row(e) => e.within(width),
            GroupExprView::Unary(_, a) => a.within(width),
            GroupExprView::Binary(_, a, b) => a.within(width) && b.within(width),
            GroupExprView::Aggregate(_, e) => e.within(width),
            GroupExprView::CountAll => true,
        }
    }

    /// The value of the expression on a group of rows.
    pub open spec fn eval(self, rows: Seq<Seq<ValueView>>) -> ValueView
        decreases self,
    {
        match self {
            GroupExprView::Row(e) => e.eval(first_row(rows)),
            GroupExprView::Unary(op, a) => apply_unary(op, a.eval(rows)),
            GroupExprView::Binary(op, a, b) => apply_binary(op, a.eval(rows), b.eval(rows)),
            GroupExprView::Aggregate(f, e) => aggregate(f, values_on(e, rows)),
            GroupExprView::CountAll => integer_or_null(rows.len() as int),
        }
    }

    /// The type of the expression over columns of the given types, or the first
    /// operand that an operation does not take.
    pub open spec fn check(self, types: Seq<DataType>) -> Result<DataType, TypeError>
        decreases self,
    {
        match self {
            GroupExprView::Row(e) => e.check(types),
            GroupExprView::Unary(op, a) => match a.check(types) {
                Ok(t) => check_unary(op, t),
                Err(e) => Err(e),
            },
            GroupExprView::Binary(op, a, b) => match a.check(types) {
                Ok(l) => match b.check(types) {
                    Ok(r) => check_binary(op, l, r),
                    Err(e) => Err(e),
                },
                Err(e) => Err(e),
            },
            GroupExprView::Aggregate(f, e) => match e.check(types) {
                Ok(t) => check_aggregate(f, t),
                Err(e) => Err(e),
            },
            GroupExprView::CountAll => Ok(DataType::Integer),
        }
    }
}

/// The greatest or least of values that are null or of one type is null or
/// of that type.
pub proof fn lemma_extreme_fits(vals: Seq<ValueView>, greatest: bool, t: DataType)
    requires
        forall|i: int| 0 <= i < vals.len() ==> (#[trigger] vals[i]).fits(t),
    ensures
        extreme(vals, greatest).fits(t),
    decreases vals.len(),
{
    if vals.len() > 0 {
        let front = vals.drop_last();
        assert forall|i: int| 0 <= i < front.len() implies (#[trigger] front[i]).fits(t) by {
            assert(front[i] == vals[i]);
        }
        lemma_extreme_fits(front, greatest, t);
        assert(vals.last() == vals[vals.len() - 1]);
    }
}

/// An expression that passes the check gives, on groups of rows of the column
/// types, null or a value of the type that the check found.
pub proof fn lemma_group_expr_sound(
    e: GroupExprView,
    types: Seq<DataType>,
    rows: Seq<Seq<ValueView>>,
)
    requires
        e.within(types.len() as int),
        e.check(types) is Ok,
        forall|i: int| 0 <= i < rows.len() ==> row_fits(#[trigger] rows[i], types),
    ensures
        e.eval(rows).fits(e.check(types)->Ok_0),
    decreases e,
{
    match e {
        GroupExprView::Row(r) => {
            if rows.len() > 0 {
                assert(row_fits(rows[0], types));
            }
            lemma_row_expr_sound(r, types, first_row(rows));
        },
        GroupExprView::Aggregate(f, r) => {
            let vals = values_on(r, rows);
            let t = r.check(types)->Ok_0;
            assert forall|i: int| 0 <= i < vals.len() implies (#[trigger] vals[i]).fits(t) by {
                assert(row_fits(rows[i], types));
                lemma_row_expr_sound(r, types, rows[i]);
            }
            lemma_extreme_fits(vals, true, t);
            lemma_extreme_fits(vals, false, t);
        },
        _ => {},
    }
}

fn counted(n: usize) -> (r: Value)
    ensures
        r@ == integer_or_null(n as int),
{
    let wide: u64 = n as u64;
    if wide <= 0x7fff_ffff_ffff_ffff {
        Value::Integer(wide as i64)
    } else {
        Value::Null
    }
}

/// The aggregate of a list of values.
pub fn aggregate_values(f: Aggregate, vals: &Vec<Value>) -> (r: Value)
    ensures
        r@ == aggregate(f, value_views(vals@)),
{
    let ghost all = value_views(vals@);
    let mut present: usize = 0;
    let mut integers: usize = 0;
    let mut sum: i128 = 0;
    let mut least: Value = Value::Null;
    let mut greatest: Value = Value::Null;
    let mut i: usize = 0;
    while i < vals.len()
        invariant
            i <= vals.len(),
            all == value_views(vals@),
            present == count_present(all.take(i as int)),
            integers == count_integers(all.take(i as int)),
            present <= i,
            integers <= i,
            sum == sum_integers(all.take(i as int)),
            -(i as int) * 0x8000_0000_0000_0000 <= sum <= (i as int) * 0x8000_0000_0000_0000,
            least@ == extreme(all.take(i as int), false),
            greatest@ == extreme(all.take(i as int), true),
        decreases vals.len() - i,
    {
        proof {
            assert(all.take(i + 1).drop_last() =~= all.take(i as int));
            assert(all.take(i + 1).last() == vals[i as int]@);
        }
        let v = &vals[i];
        if !v.is_null() {
            present += 1;
            if least.is_null() || compare_values(v, &least) < 0 {
                least = v.clone();
            }
            if greatest.is_null() || compare_values(v, &greatest) > 0 {
                greatest = v.clone();
            }
        }
        match v {
            Value::Integer(x) => {
                integers += 1;
                sum = sum + (*x as i128);
            },
            _ => {},
        }
        i += 1;
    }
    assert(all.take(vals.len() as int) =~= all);
    match f {
        Aggregate::Count => counted(present),
        Aggregate::Sum => {
            if integers == 0 {
                Value::Null
            } else if sum >= i64::MIN as i128 && sum <= i64::MAX as i128 {
                Value::Integer(sum as i64)
            } else {
                Value::Null
            }
        },
        Aggregate::Avg => {
            if integers == 0 {
                Value::Null
            } else {
                let d: i128 = integers as i128;
                let q: i128 = if sum >= 0 {
                    sum / d
                } else {
                    -((-sum) / d)
                };
                assert(q == quotient(sum as int, d as int));
                if q >= i64::MIN as i128 && q <= i64::MAX as i128 {
                    Value::Integer(q as i64)
                } else {
                    Value::Null
                }
            }
        },
        Aggregate::Min => least,
        Aggregate::Max => greatest,
    }
}

impl GroupExpr {
    /// The value of the expression on a group of rows.
    pub fn eval(&self, rows: &Vec<Vec<Value>>) -> (r: Value)
        ensures
            r@ == self@.eval(row_views(rows@)),
        decreases self,
    {
        match self {
            GroupExpr::Row(e) => {
                if rows.len() > 0 {
                    assert(row_views(rows@)[0] == value_views(rows[0]@));
                    e.eval(&rows[0])
                } else {
                    let empty: Vec<Value> = Vec::new();
                    assert(value_views(empty@) =~= Seq::<ValueView>::empty());
                    e.eval(&empty)
                }
            },
            GroupExpr::Unary(op, a) => {
                let x = a.eval(rows);
                unary_value(*op, &x)
            },
            GroupExpr::Binary(op, a, b) => {
                let x = a.eval(rows);
                let y = b.eval(rows);
                binary_value(*op, &x, &y)
            },
            GroupExpr::Aggregate(f, e) => {
                let mut vals: Vec<Value> = Vec::new();
                let mut i: usize = 0;
                while i < rows.len()
                    invariant
                        i <= rows.len(),
                        vals.len() == i,
                        forall|k: int|
                            0 <= k < i ==> (#[trigger] vals[k])@ == e@.eval(value_views(rows[k]@)),
                    decreases rows.len() - i,
                {
                    let v = e.eval(&rows[i]);
                    vals.push(v);
                    i += 1;
                }
                assert(value_views(vals@) =~= values_on(e@, row_views(rows@))) by {
                    assert forall|k: int| 0 <= k < rows.len() implies value_views(vals@)[k]
                        == values_on(e@, row_views(rows@))[k] by {
                        assert(row_views(rows@)[k] == value_views(rows[k]@));
                    }
                }
                aggregate_values(*f, &vals)
            },
            GroupExpr::CountAll => counted(rows.len()),
        }
    }

    /// The type of the expression over columns of the given types, or the first
    /// operand that an operation does not take.
    pub fn check(&self, types: &Vec<DataType>) -> (r: Result<DataType, TypeError>)
        ensures
            r == self@.check(types@),
        decreases self,
    {
        match self {
            GroupExpr::Row(e) => e.check(types),
            GroupExpr::Unary(op, a) => match a.check(types) {
                Ok(t) => unary_check(*op, t),
                Err(e) => Err(e),
            },
            GroupExpr::Binary(op, a, b) => match a.check(types) {
                Ok(l) => match b.check(types) {
                    Ok(r) => binary_check(*op, l, r),
                    Err(e) => Err(e),
                },
                Err(e) => Err(e),
            },
            GroupExpr::Aggregate(f, e) => match e.check(types) {
                Ok(t) => aggregate_check(*f, t),
                Err(e) => Err(e),
            },
            GroupExpr::CountAll => Ok(DataType::Integer),
        }
    }
}

} // verus!
