//! The median of a set of 256-bit values, and the field-by-field median of
//! a set of equally long rows.
//!
//! The median of an odd number of values is the middle one in ascending
//! order. The median of an even number is the midpoint of the two middle
//! ones, `low + (high - low) / 2`, which cannot overflow.

use crate::error::OracleError;
use crate::uint256::{floored_sub, lemma_value_bounded, words_add, words_div, U256};
use vstd::prelude::*;
use vstd::relations::{sorted_by, total_ordering};
use vstd::seq_lib::{lemma_sorted_unique, to_multiset_build, to_multiset_insert};

verus! {

/// The order of the natural numbers.
pub open spec fn leq() -> spec_fn(nat, nat) -> bool {
    |a: nat, b: nat| a <= b
}

/// Whether no value is followed by a smaller one.
pub open spec fn ascending(s: Seq<nat>) -> bool {
    sorted_by(s, leq())
}

/// The numbers that a sequence of 256-bit values holds.
pub open spec fn values_of(v: Seq<U256>) -> Seq<nat> {
    Seq::new(v.len(), |i: int| v[i].value())
}

/// The middle of a sequence taken as it stands: the middle value of an odd
/// number of values, else the lower of the two middle values plus half of
/// what the upper one exceeds it by.
pub open spec fn middle_of(s: Seq<nat>) -> nat
    recommends
        s.len() > 0,
{
    let mid = (s.len() / 2) as int;
    if s.len() % 2 == 0 {
        s[mid - 1] + floored_sub(s[mid], s[mid - 1]) / 2
    } else {
        s[mid]
    }
}

/// The median: the middle of the values in ascending order.
pub open spec fn median_of(s: Seq<nat>) -> nat
    recommends
        s.len() > 0,
{
    middle_of(s.sort_by(leq()))
}

/// The order of the natural numbers is total.
pub proof fn lemma_leq_total()
    ensures
        total_ordering(leq()),
{
}

/// An ascending sequence with the values of `s` is `s` in ascending order.
pub proof fn lemma_ascending_is_sorted(sorted: Seq<nat>, s: Seq<nat>)
    requires
        ascending(sorted),
        sorted.to_multiset() == s.to_multiset(),
    ensures
        sorted == s.sort_by(leq()),
{
    lemma_leq_total();
    s.lemma_sort_by_ensures(leq());
    lemma_sorted_unique(sorted, s.sort_by(leq()), leq());
}

/// The median does not depend on the order of the values: two sequences
/// that hold the same values, each as often as the other, have the same
/// median.
pub proof fn lemma_median_permutation(a: Seq<nat>, b: Seq<nat>)
    requires
        a.to_multiset() == b.to_multiset(),
    ensures
        median_of(a) == median_of(b),
{
    lemma_leq_total();
    a.lemma_sort_by_ensures(leq());
    b.lemma_sort_by_ensures(leq());
    lemma_sorted_unique(a.sort_by(leq()), b.sort_by(leq()), leq());
}

/// The median of a single value is that value.
pub proof fn lemma_median_single(x: nat)
    ensures
        median_of(seq![x]) == x,
{
    let s = seq![x];
    lemma_leq_total();
    assert(ascending(s));
    lemma_ascending_is_sorted(s, s);
}

/// The median lies between the smallest and the largest value: it is one
/// of the values, or lies between two of them.
pub proof fn lemma_median_within(s: Seq<nat>)
    requires
        s.len() > 0,
    ensures
        exists|i: int| 0 <= i < s.len() && #[trigger] s[i] <= median_of(s),
        exists|j: int| 0 <= j < s.len() && median_of(s) <= #[trigger] s[j],
{
    broadcast use vstd::seq_lib::group_to_multiset_ensures;

    lemma_leq_total();
    s.lemma_sort_by_ensures(leq());
    let t = s.sort_by(leq());
    vstd::seq_lib::to_multiset_len(s);
    vstd::seq_lib::to_multiset_len(t);
    let mid = (t.len() / 2) as int;
    let lo_index = if t.len() % 2 == 0 {
        mid - 1
    } else {
        mid
    };
    assert(leq()(t[lo_index], t[mid]) || lo_index == mid);
    assert(t[lo_index] <= median_of(s) <= t[mid]);
    assert(t.contains(t[lo_index]));
    assert(t.contains(t[mid]));
    assert(s.to_multiset().count(t[lo_index]) > 0);
    assert(s.to_multiset().count(t[mid]) > 0);
    assert(s.contains(t[lo_index]));
    assert(s.contains(t[mid]));
    let i = choose|i: int| 0 <= i < s.len() && s[i] == t[lo_index];
    let j = choose|j: int| 0 <= j < s.len() && s[j] == t[mid];
    assert(0 <= i < s.len() && s[i] <= median_of(s));
    assert(0 <= j < s.len() && median_of(s) <= s[j]);
}

/// A copy of the values in ascending order.
pub fn sorted_copy(values: &[U256]) -> (r: Vec<U256>)
    ensures
        r@.len() == values@.len(),
        values_of(r@) == values_of(values@).sort_by(leq()),
{
    let mut out: Vec<U256> = Vec::new();
    let mut i: usize = 0;
    assert(values_of(out@) =~= values_of(values@.subrange(0, 0)));
    while i < values.len()
        invariant
            i <= values.len(),
            out@.len() == i,
            ascending(values_of(out@)),
            values_of(out@).to_multiset() == values_of(values@.subrange(0, i as int)).to_multiset(),
        decreases values.len() - i,
    {
        let x = values[i];
        let mut pos: usize = 0;
        while pos < out.len() && out[pos].le(&x)
            invariant
                pos <= out.len(),
                forall|k: int| 0 <= k < pos ==> out@[k].value() <= x.value(),
            decreases out.len() - pos,
        {
            pos = pos + 1;
        }
        let ghost before = out@;
        out.insert(pos, x);
        proof {
            let old_values = values_of(before);
            let new_values = values_of(out@);
            assert(new_values =~= old_values.insert(pos as int, x.value()));
            to_multiset_insert(old_values, pos as int, x.value());
            let prefix = values_of(values@.subrange(0, i as int));
            let longer = values_of(values@.subrange(0, i + 1));
            assert(longer =~= prefix.push(x.value()));
            to_multiset_build(prefix, x.value());
            assert forall|a: int, b: int| 0 <= a < b < new_values.len() implies leq()(
                new_values[a],
                new_values[b],
            ) by {
                let a0 = if a < pos {
                    a
                } else {
                    a - 1
                };
                let b0 = if b < pos {
                    b
                } else {
                    b - 1
                };
                if a != pos && b != pos {
                    assert(leq()(old_values[a0], old_values[b0]));
                } else if a == pos {
                    assert(leq()(old_values[pos as int], old_values[b0]) || b0 == pos);
                }
            }
        }
        i = i + 1;
    }
    proof {
        assert(values@.subrange(0, i as int) =~= values@);
        lemma_ascending_is_sorted(values_of(out@), values_of(values@));
    }
    out
}

/// The middle of values that are taken to be in ascending order.
pub fn median_sorted(values: &[U256]) -> (r: U256)
    requires
        values@.len() > 0,
    ensures
        r.value() == middle_of(values_of(values@)),
{
    let mid = values.len() / 2;
    if values.len() % 2 == 0 {
        let low = values[mid - 1];
        let high = values[mid];
        let half = words_div(high.saturating_sub(low), U256::from_u128(2));
        proof {
            lemma_value_bounded(low);
            lemma_value_bounded(high);
        }
        words_add(low, half)
    } else {
        values[mid]
    }
}

/// The median of the values, or `NoData` where there is none.
pub fn median(values: &[U256]) -> (r: Result<U256, OracleError>)
    ensures
        values@.len() == 0 ==> r == Err::<U256, OracleError>(OracleError::NoData),
        values@.len() > 0 ==> (r matches Ok(m) && m.value() == median_of(values_of(values@))),
{
    if values.len() == 0 {
        return Err(OracleError::NoData);
    }
    let sorted = sorted_copy(values);
    Ok(median_sorted(sorted.as_slice()))
}

/// The numbers of a sequence of 128-bit values.
pub open spec fn numbers_of(v: Seq<u128>) -> Seq<nat> {
    Seq::new(v.len(), |i: int| v[i] as nat)
}

/// Field `k` of every row, in the order of the rows.
pub open spec fn column(rows: Seq<Vec<U256>>, k: int) -> Seq<nat> {
    Seq::new(rows.len(), |i: int| rows[i]@[k].value())
}

/// Whether every row has as many fields as the first.
pub open spec fn same_arity(rows: Seq<Vec<U256>>) -> bool {
    forall|i: int| 0 <= i < rows.len() ==> (#[trigger] rows[i])@.len() == rows[0]@.len()
}

/// The median of 128-bit values, or `NoData` where there is none.
pub fn median_u128(data: &[u128]) -> (r: Result<u128, OracleError>)
    ensures
        data@.len() == 0 ==> r == Err::<u128, OracleError>(OracleError::NoData),
        data@.len() > 0 ==> r == Ok::<u128, OracleError>(median_of(numbers_of(data@)) as u128),
        data@.len() > 0 ==> median_of(numbers_of(data@)) <= u128::MAX,
{
    if data.len() == 0 {
        return Err(OracleError::NoData);
    }
    let mut wide: Vec<U256> = Vec::new();
    let mut i: usize = 0;
    while i < data.len()
        invariant
            i <= data.len(),
            wide@.len() == i,
            forall|k: int| 0 <= k < i ==> wide@[k].value() == data@[k],
        decreases data.len() - i,
    {
        wide.push(U256::from_u128(data[i]));
        i = i + 1;
    }
    proof {
        assert(values_of(wide@) =~= numbers_of(data@));
        lemma_median_within(numbers_of(data@));
    }
    let m = match median(wide.as_slice()) {
        Ok(m) => m,
        Err(e) => {
            return Err(e);
        },
    };
    Ok(m.low_u128())
}

/// The median of each field over rows that all have the same number of
/// fields, in the order of the fields.
///
/// It is `NoValues` where there is no row, and `ArityMismatch` where a
/// row has another number of fields than the first.
pub fn median_each_field(values: &[Vec<U256>]) -> (r: Result<Vec<U256>, OracleError>)
    ensures
        values@.len() == 0 ==> r == Err::<Vec<U256>, OracleError>(OracleError::NoValues),
        values@.len() > 0 && !same_arity(values@) ==> r == Err::<Vec<U256>, OracleError>(
            OracleError::ArityMismatch,
        ),
        values@.len() > 0 && same_arity(values@) ==> (r matches Ok(m) && m@.len()
            == values@[0]@.len() && forall|k: int|
            0 <= k < m@.len() ==> (#[trigger] m@[k]).value() == median_of(column(values@, k))),
{
    if values.len() == 0 {
        return Err(OracleError::NoValues);
    }
    let arity = values[0].len();
    let mut row: usize = 0;
    while row < values.len()
        invariant
            row <= values.len(),
            values@.len() > 0,
            arity == values@[0]@.len(),
            forall|i: int| 0 <= i < row ==> (#[trigger] values@[i])@.len() == arity,
        decreases values.len() - row,
    {
        if values[row].len() != arity {
            return Err(OracleError::ArityMismatch);
        }
        row = row + 1;
    }
    let mut medians: Vec<U256> = Vec::new();
    let mut field: usize = 0;
    while field < arity
        invariant
            field <= arity,
            values@.len() > 0,
            arity == values@[0]@.len(),
            same_arity(values@),
            medians@.len() == field,
            forall|k: int|
                0 <= k < field ==> (#[trigger] medians@[k]).value() == median_of(
                    column(values@, k),
                ),
        decreases arity - field,
    {
        let mut col: Vec<U256> = Vec::new();
        let mut i: usize = 0;
        while i < values.len()
            invariant
                i <= values.len(),
                field < arity,
                arity == values@[0]@.len(),
                same_arity(values@),
                col@.len() == i,
                forall|j: int| 0 <= j < i ==> col@[j] == values@[j]@[field as int],
            decreases values.len() - i,
        {
            col.push(values[i][field]);
            i = i + 1;
        }
        proof {
            assert(values_of(col@) =~= column(values@, field as int));
        }
        let m = match median(col.as_slice()) {
            Ok(m) => m,
            Err(e) => {
                return Err(e);
            },
        };
        medians.push(m);
        field = field + 1;
    }
    Ok(medians)
}

} // verus!
