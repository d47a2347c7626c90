//! The range toolkit specialized to text: the same operations as
//! [`crate::vec_utils`], over the characters of a `String`.
//!
//! Behaviour matches the generic operations exactly, modulo the element type:
//! indices count characters, and the models are the same spec functions over
//! the string's character sequence.

use vstd::prelude::*;
use vstd::string::StrSliceExecFns;
use vstd::string::StringExecFns;

use crate::error::Error;
use crate::vec_utils::range_model;
use crate::vec_utils::remove_model;
use crate::vec_utils::repeated;

verus! {

/// True iff `a` and `b` hold the same characters, compared one by one.
pub fn str_eq(a: &str, b: &str) -> (r: bool)
    ensures
        r == (a@ == b@),
{
    let la = a.unicode_len();
    let lb = b.unicode_len();
    if la != lb {
        return false;
    }
    let mut i: usize = 0;
    while i < la
        invariant
            i <= la,
            la == a@.len(),
            lb == b@.len(),
            la == lb,
            forall|j: int| 0 <= j < i ==> a@[j] == b@[j],
        decreases la - i,
    {
        if a.get_char(i) != b.get_char(i) {
            return false;
        }
        i = i + 1;
    }
    proof {
        assert(a@ =~= b@);
    }
    true
}

/// True iff some character of `s` is `c`.
pub fn str_contains_char(s: &str, c: char) -> (r: bool)
    ensures
        r == s@.contains(c),
{
    let len = s.unicode_len();
    let mut i: usize = 0;
    while i < len
        invariant
            i <= len,
            len == s@.len(),
            forall|j: int| 0 <= j < i ==> s@[j] != c,
        decreases len - i,
    {
        if s.get_char(i) == c {
            assert(s@[i as int] == c);
            return true;
        }
        i = i + 1;
    }
    false
}

/// Removes and returns the last `n` characters of `s`, in their original
/// order; `Err(CountTooLarge)` if `s` holds fewer than `n` characters.
pub fn npop(s: &mut String, n: usize) -> (r: Result<String, Error>)
    ensures
        n <= old(s)@.len() ==> {
            &&& r matches Ok(p) && p@ == old(s)@.skip(old(s)@.len() - n)
            &&& final(s)@ == old(s)@.take(old(s)@.len() - n)
        },
        n > old(s)@.len() ==> r == Err::<String, Error>(Error::CountTooLarge) && final(s)@ == old(
            s,
        )@,
{
    let len = s.as_str().unicode_len();
    if n > len {
        return Err(Error::CountTooLarge);
    }
    let kept = s.as_str().substring_char(0, len - n).to_owned();
    let tail = s.as_str().substring_char(len - n, len).to_owned();
    proof {
        assert(s@.subrange(0, len - n) =~= s@.take(len - n));
        assert(s@.subrange(len - n, len as int) =~= s@.skip(len - n));
    }
    *s = kept;
    Ok(tail)
}

/// Returns the last `n` characters of `s`, in their original order, without
/// changing `s`; `Err(CountTooLarge)` if `s` holds fewer than `n` characters.
pub fn nget(s: &String, n: usize) -> (r: Result<String, Error>)
    ensures
        n <= s@.len() ==> (r matches Ok(p) && p@ == s@.skip(s@.len() - n)),
        n > s@.len() ==> r == Err::<String, Error>(Error::CountTooLarge),
{
    let len = s.as_str().unicode_len();
    if n > len {
        return Err(Error::CountTooLarge);
    }
    let tail = s.as_str().substring_char(len - n, len).to_owned();
    proof {
        assert(s@.subrange(len - n, len as int) =~= s@.skip(len - n));
    }
    Ok(tail)
}

/// True iff both `a` and `b` lie within `[0, character count]`. An inverted
/// pair (`a > b`) is reported valid; range extraction then selects nothing.
pub fn is_valid_range(s: &String, idx_a: usize, idx_b: usize) -> (r: bool)
    ensures
        r == (idx_a <= s@.len() && idx_b <= s@.len()),
{
    let len = s.as_str().unicode_len();
    idx_a <= len && idx_b <= len
}

/// Returns the characters of `s` at indices `[idx_a, idx_b)`, in order,
/// without changing `s`; `Err(InvalidRange)` if either bound exceeds the
/// character count.
pub fn get_range(s: &String, idx_a: usize, idx_b: usize) -> (r: Result<String, Error>)
    ensures
        idx_a <= s@.len() && idx_b <= s@.len() ==> (r matches Ok(p) && p@ == range_model(
            s@,
            idx_a as int,
            idx_b as int,
        )),
        !(idx_a <= s@.len() && idx_b <= s@.len()) ==> r == Err::<String, Error>(Error::InvalidRange),
{
    if !is_valid_range(s, idx_a, idx_b) {
        return Err(Error::InvalidRange);
    }
    if idx_a >= idx_b {
        proof {
            if idx_a <= idx_b {
                assert(s@.subrange(idx_a as int, idx_b as int) =~= Seq::empty());
            }
        }
        return Ok(String::new());
    }
    Ok(s.as_str().substring_char(idx_a, idx_b).to_owned())
}

/// Removes the characters of `s` at indices `[idx_a, idx_b)` and returns them
/// in order, keeping the rest of `s` in order; `Err(InvalidRange)` if either
/// bound exceeds the character count. An inverted range removes nothing.
pub fn pop_range(s: &mut String, idx_a: usize, idx_b: usize) -> (r: Result<String, Error>)
    ensures
        idx_a <= old(s)@.len() && idx_b <= old(s)@.len() ==> {
            &&& r matches Ok(p) && p@ == range_model(old(s)@, idx_a as int, idx_b as int)
            &&& final(s)@ == remove_model(old(s)@, idx_a as int, idx_b as int)
        },
        !(idx_a <= old(s)@.len() && idx_b <= old(s)@.len()) ==> r == Err::<String, Error>(
            Error::InvalidRange,
        ) && final(s)@ == old(s)@,
{
    let len = s.as_str().unicode_len();
    if !(idx_a <= len && idx_b <= len) {
        return Err(Error::InvalidRange);
    }
    if idx_a >= idx_b {
        proof {
            if idx_a <= idx_b {
                assert(s@.subrange(idx_a as int, idx_b as int) =~= Seq::empty());
            }
        }
        return Ok(String::new());
    }
    let front = s.as_str().substring_char(0, idx_a).to_owned();
    let removed = s.as_str().substring_char(idx_a, idx_b).to_owned();
    let kept = front.concat(s.as_str().substring_char(idx_b, len));
    proof {
        assert(s@.subrange(0, idx_a as int) =~= s@.take(idx_a as int));
        assert(s@.subrange(idx_b as int, len as int) =~= s@.skip(idx_b as int));
    }
    *s = kept;
    Ok(removed)
}

/// Returns `s` repeated `n` times, copies in order, without changing `s`.
pub fn mul(s: &String, n: usize) -> (r: String)
    ensures
        r@ == repeated(s@, n as nat),
{
    let mut res = String::new();
    let mut k: usize = 0;
    while k < n
        invariant
            k <= n,
            res@ == repeated(s@, k as nat),
        decreases n - k,
    {
        res.append(s.as_str());
        k = k + 1;
    }
    res
}

} // verus!
