//! Ordering rows by keys.
//!
//! Rows are put in order by a stable merge sort over their indices: rows that
//! the keys do not tell apart keep the order in which they were given.

use vstd::prelude::*;
use crate::expr::{row_views, value_views};
use crate::value::{
    compare_values, lemma_value_order_sign, lemma_value_order_transitive, value_order, Value,
    ValueView,
};

verus! {

/// One key of an ordering: the index of a value in the row, and the direction.
#[derive(Clone, Copy, PartialEq, Eq, Debug, Structural)]
pub struct SortKey {
    pub column: usize,
    pub descending: bool,
}

/// The value of a row at an index; null where the row has no such value.
pub open spec fn value_at(row: Seq<ValueView>, column: int) -> ValueView {
    if 0 <= column < row.len() {
        row[column]
    } else {
        ValueView::Null
    }
}

/// The order of two rows under one key.
pub open spec fn key_order(a: Seq<ValueView>, b: Seq<ValueView>, key: SortKey) -> int {
    let o = value_order(value_at(a, key.column as int), value_at(b, key.column as int));
    if key.descending {
        -o
    } else {
        o
    }
}

/// The order of two rows under a list of keys: that of the first key that tells
/// them apart, zero when none does.
pub open spec fn rows_order(a: Seq<ValueView>, b: Seq<ValueView>, keys: Seq<SortKey>) -> int
    decreases keys.len(),
{
    if keys.len() == 0 {
        0
    } else if key_order(a, b, keys[0]) != 0 {
        key_order(a, b, keys[0])
    } else {
        rows_order(a, b, keys.skip(1))
    }
}

/// Swapping the rows flips the sign of their order.
pub proof fn lemma_rows_order_sign(a: Seq<ValueView>, b: Seq<ValueView>, keys: Seq<SortKey>)
    ensures
        -1 <= rows_order(a, b, keys) <= 1,
        rows_order(a, b, keys) == -rows_order(b, a, keys),
    decreases keys.len(),
{
    if keys.len() > 0 {
        let c = keys[0].column as int;
        lemma_value_order_sign(value_at(a, c), value_at(b, c));
        lemma_rows_order_sign(a, b, keys.skip(1));
    }
}

/// The order of rows is transitive.
pub proof fn lemma_rows_order_transitive(
    a: Seq<ValueView>,
    b: Seq<ValueView>,
    c: Seq<ValueView>,
    keys: Seq<SortKey>,
)
    requires
        rows_order(a, b, keys) <= 0,
        rows_order(b, c, keys) <= 0,
    ensures
        rows_order(a, c, keys) <= 0,
    decreases keys.len(),
{
    if keys.len() > 0 {
        let k = keys[0].column as int;
        let x = value_at(a, k);
        let y = value_at(b, k);
        let z = value_at(c, k);
        lemma_value_order_sign(x, y);
        lemma_value_order_sign(y, z);
        lemma_value_order_sign(x, z);
        lemma_value_order_sign(y, x);
        lemma_value_order_sign(z, y);
        lemma_value_order_sign(z, x);
        if keys[0].descending {
            lemma_value_order_transitive(z, y, x);
        } else {
            lemma_value_order_transitive(x, y, z);
        }
        if key_order(a, b, keys[0]) == 0 && key_order(b, c, keys[0]) == 0 {
            lemma_rows_order_transitive(a, b, c, keys.skip(1));
        }
    }
}

/// The row that an index stands for; the empty row for an index out of range.
pub open spec fn row_at(rows: Seq<Seq<ValueView>>, i: usize) -> Seq<ValueView> {
    if (i as int) < rows.len() {
        rows[i as int]
    } else {
        Seq::empty()
    }
}

/// Whether row `i` has to come before row `j`.
pub open spec fn precedes(rows: Seq<Seq<ValueView>>, keys: Seq<SortKey>, i: usize, j: usize) -> bool {
    rows_order(row_at(rows, i), row_at(rows, j), keys) < 0
}

/// Two lists of row indices merged: at each step the head of the first list is
/// taken unless the head of the second has to come before it.
pub open spec fn merged(
    rows: Seq<Seq<ValueView>>,
    keys: Seq<SortKey>,
    a: Seq<usize>,
    b: Seq<usize>,
) -> Seq<usize>
    decreases a.len() + b.len(),
{
    if a.len() == 0 {
        b
    } else if b.len() == 0 {
        a
    } else if precedes(rows, keys, b[0], a[0]) {
        seq![b[0]] + merged(rows, keys, a, b.skip(1))
    } else {
        seq![a[0]] + merged(rows, keys, a.skip(1), b)
    }
}

/// A list of row indices put in order: its two halves put in order and merged.
pub open spec fn sorted(rows: Seq<Seq<ValueView>>, keys: Seq<SortKey>, s: Seq<usize>) -> Seq<usize>
    decreases s.len(),
{
    if s.len() <= 1 {
        s
    } else {
        let m = s.len() as int / 2;
        merged(rows, keys, sorted(rows, keys, s.take(m)), sorted(rows, keys, s.skip(m)))
    }
}

/// Whether no index of the list has to come before an earlier one.
pub open spec fn in_order(rows: Seq<Seq<ValueView>>, keys: Seq<SortKey>, s: Seq<usize>) -> bool {
    forall|i: int, j: int| 0 <= i < j < s.len() ==> !precedes(rows, keys, s[j], s[i])
}

/// Merging keeps every index, as often as it occurs.
pub proof fn lemma_merged_permutes(
    rows: Seq<Seq<ValueView>>,
    keys: Seq<SortKey>,
    a: Seq<usize>,
    b: Seq<usize>,
)
    ensures
        merged(rows, keys, a, b).to_multiset() =~= a.to_multiset().add(b.to_multiset()),
        merged(rows, keys, a, b).len() == a.len() + b.len(),
    decreases a.len() + b.len(),
{
    broadcast use vstd::seq_lib::group_to_multiset_ensures;

    if a.len() == 0 {
        assert(a.to_multiset() =~= vstd::multiset::Multiset::empty());
    } else if b.len() == 0 {
        assert(b.to_multiset() =~= vstd::multiset::Multiset::empty());
    } else if precedes(rows, keys, b[0], a[0]) {
        let rest = merged(rows, keys, a, b.skip(1));
        lemma_merged_permutes(rows, keys, a, b.skip(1));
        vstd::seq_lib::lemma_multiset_commutative(seq![b[0]], rest);
        vstd::seq_lib::lemma_multiset_commutative(seq![b[0]], b.skip(1));
        assert(seq![b[0]] + b.skip(1) =~= b);
    } else {
        let rest = merged(rows, keys, a.skip(1), b);
        lemma_merged_permutes(rows, keys, a.skip(1), b);
        vstd::seq_lib::lemma_multiset_commutative(seq![a[0]], rest);
        vstd::seq_lib::lemma_multiset_commutative(seq![a[0]], a.skip(1));
        assert(seq![a[0]] + a.skip(1) =~= a);
    }
}

/// Putting a list in order keeps every index, as often as it occurs.
pub proof fn lemma_sorted_permutes(rows: Seq<Seq<ValueView>>, keys: Seq<SortKey>, s: Seq<usize>)
    ensures
        sorted(rows, keys, s).to_multiset() =~= s.to_multiset(),
        sorted(rows, keys, s).len() == s.len(),
    decreases s.len(),
{
    if s.len() > 1 {
        let m = s.len() as int / 2;
        lemma_sorted_permutes(rows, keys, s.take(m));
        lemma_sorted_permutes(rows, keys, s.skip(m));
        lemma_merged_permutes(
            rows,
            keys,
            sorted(rows, keys, s.take(m)),
            sorted(rows, keys, s.skip(m)),
        );
        vstd::seq_lib::lemma_multiset_commutative(s.take(m), s.skip(m));
        assert(s.take(m) + s.skip(m) =~= s);
    }
}

/// Every index of a merged list comes from one of the two lists.
pub proof fn lemma_merged_members(
    rows: Seq<Seq<ValueView>>,
    keys: Seq<SortKey>,
    a: Seq<usize>,
    b: Seq<usize>,
    k: int,
)
    requires
        0 <= k < merged(rows, keys, a, b).len(),
    ensures
        a.contains(merged(rows, keys, a, b)[k]) || b.contains(merged(rows, keys, a, b)[k]),
    decreases a.len() + b.len(),
{
    let r = merged(rows, keys, a, b);
    if a.len() == 0 {
        assert(b[k] == r[k]);
    } else if b.len() == 0 {
        assert(a[k] == r[k]);
    } else if precedes(rows, keys, b[0], a[0]) {
        if k == 0 {
            assert(b[0] == r[0]);
        } else {
            lemma_merged_members(rows, keys, a, b.skip(1), k - 1);
            let x = merged(rows, keys, a, b.skip(1))[k - 1];
            assert(r[k] == x);
            if b.skip(1).contains(x) {
                let q = choose|q: int| 0 <= q < b.skip(1).len() && b.skip(1)[q] == x;
                assert(b[q + 1] == x);
            }
        }
    } else {
        if k == 0 {
            assert(a[0] == r[0]);
        } else {
            lemma_merged_members(rows, keys, a.skip(1), b, k - 1);
            let x = merged(rows, keys, a.skip(1), b)[k - 1];
            assert(r[k] == x);
            if a.skip(1).contains(x) {
                let q = choose|q: int| 0 <= q < a.skip(1).len() && a.skip(1)[q] == x;
                assert(a[q + 1] == x);
            }
        }
    }
}

/// Two lists in order merge into a list in order.
pub proof fn lemma_merged_in_order(
    rows: Seq<Seq<ValueView>>,
    keys: Seq<SortKey>,
    a: Seq<usize>,
    b: Seq<usize>,
)
    requires
        in_order(rows, keys, a),
        in_order(rows, keys, b),
    ensures
        in_order(rows, keys, merged(rows, keys, a, b)),
    decreases a.len() + b.len(),
{
    let r = merged(rows, keys, a, b);
    if a.len() == 0 || b.len() == 0 {
    } else {
        let take_b = precedes(rows, keys, b[0], a[0]);
        let head = if take_b {
            b[0]
        } else {
            a[0]
        };
        let a2 = if take_b {
            a
        } else {
            a.skip(1)
        };
        let b2 = if take_b {
            b.skip(1)
        } else {
            b
        };
        let rest = merged(rows, keys, a2, b2);
        assert(r =~= seq![head] + rest);
        assert(in_order(rows, keys, a2)) by {
            assert forall|i: int, j: int| 0 <= i < j < a2.len() implies !precedes(
                rows,
                keys,
                a2[j],
                a2[i],
            ) by {
                if !take_b {
                    assert(!precedes(rows, keys, a[j + 1], a[i + 1]));
                }
            }
        }
        assert(in_order(rows, keys, b2)) by {
            assert forall|i: int, j: int| 0 <= i < j < b2.len() implies !precedes(
                rows,
                keys,
                b2[j],
                b2[i],
            ) by {
                if take_b {
                    assert(!precedes(rows, keys, b[j + 1], b[i + 1]));
                }
            }
        }
        lemma_merged_in_order(rows, keys, a2, b2);
        assert forall|i: int, j: int| 0 <= i < j < r.len() implies !precedes(
            rows,
            keys,
            r[j],
            r[i],
        ) by {
            if i == 0 {
                let x = rest[j - 1];
                assert(r[j] == x);
                lemma_merged_members(rows, keys, a2, b2, j - 1);
                let h = row_at(rows, head);
                let ra = row_at(rows, a[0]);
                let rb = row_at(rows, b[0]);
                let rx = row_at(rows, x);
                lemma_rows_order_sign(rb, ra, keys);
                lemma_rows_order_sign(ra, rb, keys);
                lemma_rows_order_sign(h, rx, keys);
                lemma_rows_order_sign(rx, h, keys);
                if a2.contains(x) {
                    let q = choose|q: int| 0 <= q < a2.len() && a2[q] == x;
                    if take_b {
                        // head is b[0], which comes before a[0]; a[0] is not after x.
                        if q > 0 {
                            assert(!precedes(rows, keys, a[q], a[0]));
                        }
                        lemma_rows_order_sign(row_at(rows, a[q]), ra, keys);
                        lemma_rows_order_transitive(rb, ra, rx, keys);
                    } else {
                        assert(a[q + 1] == x);
                        assert(!precedes(rows, keys, a[q + 1], a[0]));
                    }
                } else {
                    let q = choose|q: int| 0 <= q < b2.len() && b2[q] == x;
                    if take_b {
                        assert(b[q + 1] == x);
                        assert(!precedes(rows, keys, b[q + 1], b[0]));
                    } else {
                        if q > 0 {
                            assert(!precedes(rows, keys, b[q], b[0]));
                        }
                        lemma_rows_order_sign(row_at(rows, b[q]), rb, keys);
                        lemma_rows_order_transitive(ra, rb, rx, keys);
                    }
                }
            } else {
                assert(r[i] == rest[i - 1]);
                assert(r[j] == rest[j - 1]);
            }
        }
    }
}

/// Every index of a list put in order is an index of the list.
pub proof fn lemma_sorted_members(
    rows: Seq<Seq<ValueView>>,
    keys: Seq<SortKey>,
    s: Seq<usize>,
    k: int,
)
    requires
        0 <= k < sorted(rows, keys, s).len(),
    ensures
        s.contains(sorted(rows, keys, s)[k]),
    decreases s.len(),
{
    if s.len() > 1 {
        let m = s.len() as int / 2;
        let a = sorted(rows, keys, s.take(m));
        let b = sorted(rows, keys, s.skip(m));
        lemma_merged_members(rows, keys, a, b, k);
        let x = merged(rows, keys, a, b)[k];
        if a.contains(x) {
            let q = choose|q: int| 0 <= q < a.len() && a[q] == x;
            lemma_sorted_members(rows, keys, s.take(m), q);
            let z = choose|z: int| 0 <= z < s.take(m).len() && s.take(m)[z] == x;
            assert(s[z] == x);
        } else {
            let q = choose|q: int| 0 <= q < b.len() && b[q] == x;
            lemma_sorted_members(rows, keys, s.skip(m), q);
            let z = choose|z: int| 0 <= z < s.skip(m).len() && s.skip(m)[z] == x;
            assert(s[z + m] == x);
        }
    } else {
        assert(s[k] == sorted(rows, keys, s)[k]);
    }
}

/// A list put in order is in order.
pub proof fn lemma_sorted_in_order(rows: Seq<Seq<ValueView>>, keys: Seq<SortKey>, s: Seq<usize>)
    ensures
        in_order(rows, keys, sorted(rows, keys, s)),
    decreases s.len(),
{
    if s.len() > 1 {
        let m = s.len() as int / 2;
        lemma_sorted_in_order(rows, keys, s.take(m));
        lemma_sorted_in_order(rows, keys, s.skip(m));
        lemma_merged_in_order(
            rows,
            keys,
            sorted(rows, keys, s.take(m)),
            sorted(rows, keys, s.skip(m)),
        );
    }
}

/// The order of two rows under a list of keys: -1, 0 or 1.
pub fn compare_rows(a: &Vec<Value>, b: &Vec<Value>, keys: &Vec<SortKey>) -> (r: i8)
    ensures
        r == rows_order(value_views(a@), value_views(b@), keys@),
{
    let mut k: usize = 0;
    assert(keys@.skip(0) =~= keys@);
    while k < keys.len()
        invariant
            k <= keys.len(),
            rows_order(value_views(a@), value_views(b@), keys@) == rows_order(
                value_views(a@),
                value_views(b@),
                keys@.skip(k as int),
            ),
        decreases keys.len() - k,
    {
        let key = keys[k];
        let null = Value::Null;
        let x: &Value = if key.column < a.len() {
            &a[key.column]
        } else {
            &null
        };
        let y: &Value = if key.column < b.len() {
            &b[key.column]
        } else {
            &null
        };
        let o = compare_values(x, y);
        proof {
            lemma_value_order_sign(x@, y@);
            assert(keys@.skip(k as int)[0] == key);
            assert(keys@.skip(k as int).skip(1) =~= keys@.skip(k + 1));
        }
        if o != 0 {
            if key.descending {
                return -o;
            } else {
                return o;
            }
        }
        k += 1;
    }
    0
}

fn before(rows: &Vec<Vec<Value>>, keys: &Vec<SortKey>, i: usize, j: usize) -> (r: bool)
    ensures
        r == precedes(row_views(rows@), keys@, i, j),
{
    let empty: Vec<Value> = Vec::new();
    let a: &Vec<Value> = if i < rows.len() {
        &rows[i]
    } else {
        &empty
    };
    let b: &Vec<Value> = if j < rows.len() {
        &rows[j]
    } else {
        &empty
    };
    proof {
        assert(value_views(empty@) =~= Seq::<ValueView>::empty());
    }
    compare_rows(a, b, keys) < 0
}

fn merge(rows: &Vec<Vec<Value>>, keys: &Vec<SortKey>, a: &Vec<usize>, b: &Vec<usize>) -> (r: Vec<
    usize,
>)
    ensures
        r@ == merged(row_views(rows@), keys@, a@, b@),
{
    let ghost rv = row_views(rows@);
    let mut out: Vec<usize> = Vec::new();
    let mut i: usize = 0;
    let mut j: usize = 0;
    assert(a@.skip(0) =~= a@);
    assert(b@.skip(0) =~= b@);
    while i < a.len() || j < b.len()
        invariant
            rv == row_views(rows@),
            i <= a.len(),
            j <= b.len(),
            merged(rv, keys@, a@, b@) =~= out@ + merged(rv, keys@, a@.skip(i as int), b@.skip(j as int)),
        decreases a.len() - i + b.len() - j,
    {
        let ghost ra = a@.skip(i as int);
        let ghost rb = b@.skip(j as int);
        if i == a.len() {
            assert(merged(rv, keys@, ra, rb) == rb);
            assert(rb.skip(1) =~= b@.skip(j + 1));
            assert(rb =~= seq![b@[j as int]] + rb.skip(1));
            out.push(b[j]);
            j += 1;
        } else if j == b.len() {
            assert(merged(rv, keys@, ra, rb) == ra);
            assert(ra.skip(1) =~= a@.skip(i + 1));
            assert(ra =~= seq![a@[i as int]] + ra.skip(1));
            assert(merged(rv, keys@, ra.skip(1), rb) =~= ra.skip(1)) by {
                if ra.skip(1).len() == 0 {
                }
            }
            out.push(a[i]);
            i += 1;
        } else if before(rows, keys, b[j], a[i]) {
            assert(rb.skip(1) =~= b@.skip(j + 1));
            out.push(b[j]);
            j += 1;
        } else {
            assert(ra.skip(1) =~= a@.skip(i + 1));
            out.push(a[i]);
            i += 1;
        }
    }
    assert(a@.skip(a.len() as int) =~= Seq::<usize>::empty());
    assert(out@ + Seq::<usize>::empty() =~= out@);
    out
}

fn sort_range(rows: &Vec<Vec<Value>>, keys: &Vec<SortKey>, s: &Vec<usize>, lo: usize, hi: usize) -> (r:
    Vec<usize>)
    requires
        lo <= hi <= s.len(),
    ensures
        r@ == sorted(row_views(rows@), keys@, s@.subrange(lo as int, hi as int)),
    decreases hi - lo,
{
    let ghost part = s@.subrange(lo as int, hi as int);
    if hi - lo <= 1 {
        let mut r: Vec<usize> = Vec::new();
        if hi - lo == 1 {
            r.push(s[lo]);
        }
        assert(r@ =~= part);
        r
    } else {
        let m = (hi - lo) / 2;
        let left = sort_range(rows, keys, s, lo, lo + m);
        let right = sort_range(rows, keys, s, lo + m, hi);
        assert(part.take(m as int) =~= s@.subrange(lo as int, lo + m));
        assert(part.skip(m as int) =~= s@.subrange(lo + m, hi as int));
        merge(rows, keys, &left, &right)
    }
}

/// The indices `s` of rows, put in order by `keys`. Rows that the keys do not
/// tell apart stay as they are in `s`.
pub fn sort_indices(rows: &Vec<Vec<Value>>, keys: &Vec<SortKey>, s: &Vec<usize>) -> (r: Vec<usize>)
    ensures
        r@ == sorted(row_views(rows@), keys@, s@),
        r@.len() == s@.len(),
        r@.to_multiset() =~= s@.to_multiset(),
        in_order(row_views(rows@), keys@, r@),
{
    let r = sort_range(rows, keys, s, 0, s.len());
    proof {
        assert(s@.subrange(0, s.len() as int) =~= s@);
        lemma_sorted_permutes(row_views(rows@), keys@, s@);
        lemma_sorted_in_order(row_views(rows@), keys@, s@);
    }
    r
}

/// The indices `0, 1, ..., n - 1`.
pub open spec fn identity(n: nat) -> Seq<usize> {
    Seq::new(n, |i: int| i as usize)
}

/// The indices `0, 1, ..., n - 1`.
pub fn identity_indices(n: usize) -> (r: Vec<usize>)
    ensures
        r@ == identity(n as nat),
{
    let mut r: Vec<usize> = Vec::new();
    let mut i: usize = 0;
    while i < n
        invariant
            i <= n,
            r@ =~= identity(i as nat),
        decreases n - i,
    {
        r.push(i);
        i += 1;
    }
    r
}

} // verus!
