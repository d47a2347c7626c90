//! Bounds-checked range operations over `Vec`: take or peek from the end,
//! extract, remove or repeat a sub-range.
//!
//! Indices are zero-based. A range `[a, b)` is accepted whenever both bounds
//! lie within `[0, len]`; an inverted range (`a > b`) is accepted and selects
//! nothing.

use vstd::prelude::*;

use crate::error::Error;

verus! {

/// The elements an accepted range `[a, b)` of `s` selects: the sub-sequence
/// for an ordered range, nothing for an inverted one.
pub open spec fn range_model<T>(s: Seq<T>, a: int, b: int) -> Seq<T> {
    if 0 <= a <= b <= s.len() {
        s.subrange(a, b)
    } else {
        Seq::empty()
    }
}

/// What remains of `s` after removing the range `[a, b)`: the prefix before
/// `a` followed by the suffix from `b` on, or all of `s` for an inverted range.
pub open spec fn remove_model<T>(s: Seq<T>, a: int, b: int) -> Seq<T> {
    if 0 <= a <= b <= s.len() {
        s.take(a) + s.skip(b)
    } else {
        s
    }
}

/// `s` repeated `n` times, copies in order.
pub open spec fn repeated<T>(s: Seq<T>, n: nat) -> Seq<T>
    decreases n,
{
    if n == 0 {
        Seq::empty()
    } else {
        repeated(s, (n - 1) as nat) + s
    }
}

/// Removes and returns the last `n` elements of `v`, in their original
/// relative order; `Err(CountTooLarge)` if `v` holds fewer than `n`.
pub fn npop<T: Copy>(v: &mut Vec<T>, n: usize) -> (r: Result<Vec<T>, Error>)
    ensures
        n <= old(v)@.len() ==> {
            &&& r matches Ok(p) && p@ == old(v)@.skip(old(v)@.len() - n)
            &&& final(v)@ == old(v)@.take(old(v)@.len() - n)
        },
        n > old(v)@.len() ==> r == Err::<Vec<T>, Error>(Error::CountTooLarge) && final(v)@ == old(
            v,
        )@,
{
    let len = v.len();
    if n > len {
        return Err(Error::CountTooLarge);
    }
    let res = copy_tail(v, n);
    v.truncate(len - n);
    Ok(res)
}

/// Returns the last `n` elements of `v`, in their original relative order,
/// without changing `v`; `Err(CountTooLarge)` if `v` holds fewer than `n`.
pub fn nget<T: Copy>(v: &Vec<T>, n: usize) -> (r: Result<Vec<T>, Error>)
    ensures
        n <= v@.len() ==> (r matches Ok(p) && p@ == v@.skip(v@.len() - n)),
        n > v@.len() ==> r == Err::<Vec<T>, Error>(Error::CountTooLarge),
{
    if n > v.len() {
        return Err(Error::CountTooLarge);
    }
    Ok(copy_tail(v, n))
}

/// The last `n` elements of `v`, in order.
fn copy_tail<T: Copy>(v: &Vec<T>, n: usize) -> (r: Vec<T>)
    requires
        n <= v@.len(),
    ensures
        r@ == v@.skip(v@.len() - n),
{
    let len = v.len();
    let mut res: Vec<T> = Vec::new();
    let mut i: usize = len - n;
    while i < len
        invariant
            n <= len,
            len - n <= i <= len,
            len == v@.len(),
            res@ == v@.subrange(len - n, i as int),
        decreases len - i,
    {
        res.push(v[i]);
        proof {
            assert(v@.subrange(len - n, i + 1) =~= v@.subrange(len - n, i as int).push(
                v@[i as int],
            ));
        }
        i = i + 1;
    }
    proof {
        assert(v@.subrange(len - n, len as int) =~= v@.skip(len - n));
    }
    res
}

/// True iff both `a` and `b` lie within `[0, len]`. An inverted pair
/// (`a > b`) is reported valid; range extraction then selects nothing.
pub fn is_valid_range<T>(v: &Vec<T>, idx_a: usize, idx_b: usize) -> (r: bool)
    ensures
        r == (idx_a <= v@.len() && idx_b <= v@.len()),
{
    idx_a <= v.len() && idx_b <= v.len()
}

/// Returns the elements of `v` at indices `[idx_a, idx_b)`, in order, without
/// changing `v`; `Err(InvalidRange)` if either bound exceeds the length.
pub fn get_range<T: Copy>(v: &Vec<T>, idx_a: usize, idx_b: usize) -> (r: Result<Vec<T>, Error>)
    ensures
        idx_a <= v@.len() && idx_b <= v@.len() ==> (r matches Ok(p) && p@ == range_model(
            v@,
            idx_a as int,
            idx_b as int,
        )),
        !(idx_a <= v@.len() && idx_b <= v@.len()) ==> r == Err::<Vec<T>, Error>(Error::InvalidRange),
{
    if !is_valid_range(v, idx_a, idx_b) {
        return Err(Error::InvalidRange);
    }
    Ok(copy_range(v, idx_a, idx_b))
}

/// The elements of `v` the accepted range `[a, b)` selects, in order.
fn copy_range<T: Copy>(v: &Vec<T>, a: usize, b: usize) -> (r: Vec<T>)
    requires
        a <= v@.len(),
        b <= v@.len(),
    ensures
        r@ == range_model(v@, a as int, b as int),
{
    let mut res: Vec<T> = Vec::new();
    if a >= b {
        proof {
            if a <= b {
                assert(v@.subrange(a as int, b as int) =~= Seq::empty());
            }
        }
        return res;
    }
    let mut i: usize = a;
    while i < b
        invariant
            a <= i <= b <= v@.len(),
            res@ == v@.subrange(a as int, i as int),
        decreases b - i,
    {
        res.push(v[i]);
        proof {
            assert(v@.subrange(a as int, i + 1) =~= v@.subrange(a as int, i as int).push(
                v@[i as int],
            ));
        }
        i = i + 1;
    }
    res
}

/// Removes the elements of `v` at indices `[idx_a, idx_b)` and returns them in
/// order, keeping the rest of `v` in order; `Err(InvalidRange)` if either
/// bound exceeds the length. An inverted range removes nothing.
pub fn pop_range<T: Copy>(v: &mut Vec<T>, idx_a: usize, idx_b: usize) -> (r: Result<Vec<T>, Error>)
    ensures
        idx_a <= old(v)@.len() && idx_b <= old(v)@.len() ==> {
            &&& r matches Ok(p) && p@ == range_model(old(v)@, idx_a as int, idx_b as int)
            &&& final(v)@ == remove_model(old(v)@, idx_a as int, idx_b as int)
        },
        !(idx_a <= old(v)@.len() && idx_b <= old(v)@.len()) ==> r == Err::<Vec<T>, Error>(
            Error::InvalidRange,
        ) && final(v)@ == old(v)@,
{
    if !is_valid_range(v, idx_a, idx_b) {
        return Err(Error::InvalidRange);
    }
    let res = copy_range(v, idx_a, idx_b);
    if idx_a < idx_b {
        let mut kept = copy_range(v, 0, idx_a);
        let len = v.len();
        let mut i: usize = idx_b;
        while i < len
            invariant
                idx_b <= i <= len,
                len == v@.len(),
                kept@ == v@.take(idx_a as int) + v@.subrange(idx_b as int, i as int),
            decreases len - i,
        {
            kept.push(v[i]);
            proof {
                assert(v@.subrange(idx_b as int, i + 1) =~= v@.subrange(idx_b as int, i as int).push(
                    v@[i as int],
                ));
            }
            i = i + 1;
        }
        proof {
            assert(v@.subrange(idx_b as int, len as int) =~= v@.skip(idx_b as int));
            assert(v@.subrange(0, idx_a as int) =~= v@.take(idx_a as int));
        }
        *v = kept;
    }
    Ok(res)
}

/// Returns `v` repeated `n` times, copies in order, without changing `v`.
pub fn mul<T: Copy>(v: &Vec<T>, n: usize) -> (r: Vec<T>)
    ensures
        r@ == repeated(v@, n as nat),
{
    let mut res: Vec<T> = Vec::new();
    let mut k: usize = 0;
    while k < n
        invariant
            k <= n,
            res@ == repeated(v@, k as nat),
        decreases n - k,
    {
        let mut i: usize = 0;
        while i < v.len()
            invariant
                i <= v@.len(),
                res@ == repeated(v@, k as nat) + v@.take(i as int),
            decreases v@.len() - i,
        {
            res.push(v[i]);
            proof {
                assert(v@.take(i + 1) =~= v@.take(i as int).push(v@[i as int]));
            }
            i = i + 1;
        }
        proof {
            assert(repeated(v@, k as nat) + v@.take(v@.len() as int) =~= repeated(v@, (k + 1) as nat));
        }
        k = k + 1;
    }
    res
}

/// Law: taking the last `n` elements and appending them back, in the returned
/// order, restores the original sequence exactly.
pub proof fn lemma_npop_round_trip<T>(s: Seq<T>, n: int)
    requires
        0 <= n <= s.len(),
    ensures
        s.take(s.len() - n) + s.skip(s.len() - n) == s,
{
    assert(s.take(s.len() - n) + s.skip(s.len() - n) =~= s);
}

/// Law: range extraction is a function of the sequence and the bounds alone,
/// so two extractions with the same bounds from the same sequence agree; and
/// since extraction never changes the sequence, it is idempotent.
pub proof fn lemma_get_range_idempotent<T>(s: Seq<T>, a: int, b: int, r1: Seq<T>, r2: Seq<T>)
    requires
        r1 == range_model(s, a, b),
        r2 == range_model(s, a, b),
    ensures
        r1 == r2,
{
}

/// Law: removing the range `[a, b)` and re-inserting the removed elements at
/// position `a` restores the original sequence exactly, for every ordered
/// range within bounds.
pub proof fn lemma_pop_range_round_trip<T>(s: Seq<T>, a: int, b: int)
    requires
        0 <= a <= b <= s.len(),
    ensures
        remove_model(s, a, b).take(a) + range_model(s, a, b) + remove_model(s, a, b).skip(a) == s,
{
    assert(remove_model(s, a, b).take(a) =~= s.take(a));
    assert(remove_model(s, a, b).skip(a) =~= s.skip(b));
    assert(s.take(a) + s.subrange(a, b) + s.skip(b) =~= s);
}

/// Law: repeating zero times yields the empty sequence; repeating `n` times
/// yields `n * len` elements that cycle through the original in order.
pub proof fn lemma_repeated_props<T>(s: Seq<T>, n: nat)
    ensures
        repeated(s, 0) == Seq::<T>::empty(),
        repeated(s, n).len() == n * s.len(),
        forall|i: int|
            0 <= i < repeated(s, n).len() ==> repeated(s, n)[i] == s[i % (s.len() as int)],
    decreases n,
{
    if n == 0 {
    } else {
        lemma_repeated_props(s, (n - 1) as nat);
        assert(repeated(s, n) == repeated(s, (n - 1) as nat) + s);
        let m = n as int;
        let len0 = s.len() as int;
        assert((m - 1) * len0 + len0 == m * len0) by (nonlinear_arith);
        assert(repeated(s, n).len() == n * s.len());
        assert forall|i: int| 0 <= i < repeated(s, n).len() implies repeated(s, n)[i] == s[i % (
        s.len() as int)] by {
            let len = s.len() as int;
            if i < (n - 1) * len {
                assert(repeated(s, n)[i] == repeated(s, (n - 1) as nat)[i]);
            } else {
                let k = i - (n - 1) * len;
                assert(repeated(s, n)[i] == s[k]);
                assert(0 <= k < len);
                vstd::arithmetic::div_mod::lemma_fundamental_div_mod_converse(
                    i,
                    len,
                    (n - 1) as int,
                    k,
                );
            }
        }
    }
}

} // verus!
