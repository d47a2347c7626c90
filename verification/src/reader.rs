//! Type-directed reading of whitespace-delimited tokens.
//!
//! A [`Shape`] describes the value to read next: an unsigned integer, a
//! one-based index (read as an unsigned integer, then decremented), a token
//! exploded into its characters, a tuple of shapes read left to right, or a
//! fixed-length array of one shape. [`TokenSource::read_value`] interprets a
//! shape against a token source by recursive descent, consuming exactly one
//! token per primitive leaf; any failure aborts the whole read and leaves the
//! source as it was.

use vstd::prelude::*;
use vstd::string::StrSliceExecFns;

use crate::error::Error;
use crate::tokens::TokenSource;

verus! {

/// A decimal digit.
pub open spec fn is_digit(c: char) -> bool {
    '0' as int <= c as int <= '9' as int
}

/// The numeric value of a digit.
pub open spec fn digit_val(c: char) -> int {
    c as int - '0' as int
}

/// True iff every character of `t` is a decimal digit.
pub open spec fn all_digits(t: Seq<char>) -> bool {
    forall|i: int| 0 <= i < t.len() ==> is_digit(t[i])
}

/// The value of an all-digit token read as a decimal numeral.
pub open spec fn dec_val(t: Seq<char>) -> nat
    decreases t.len(),
{
    if t.len() == 0 {
        0
    } else {
        (10 * dec_val(t.drop_last()) + digit_val(t.last())) as nat
    }
}

/// The tokens an unsigned-integer read accepts: a non-empty run of digits
/// whose value fits the machine word.
pub open spec fn valid_usize_token(t: Seq<char>) -> bool {
    t.len() > 0 && all_digits(t) && dec_val(t) <= usize::MAX
}

/// The shape of the value to read next.
#[derive(Debug)]
pub enum Shape {
    /// One token, read as an unsigned decimal integer.
    Usize,
    /// One token, read as an unsigned decimal integer and decremented by
    /// one: input counts from one, the program counts from zero. A zero
    /// token is a defined failure, not a wrapped value.
    Usize1,
    /// One token, exploded into its characters in order.
    Chars,
    /// The sub-shapes in order, left to right.
    Tuple(Vec<Shape>),
    /// The sub-shape repeated a fixed number of times.
    Array(Box<Shape>, usize),
}

/// A value a [`Shape`] reads.
#[derive(Debug, PartialEq, Eq)]
pub enum Value {
    /// Read by `Shape::Usize` or `Shape::Usize1`.
    Usize(usize),
    /// Read by `Shape::Chars`.
    Chars(Vec<char>),
    /// Read by `Shape::Tuple`.
    Tuple(Vec<Value>),
    /// Read by `Shape::Array`.
    Array(Vec<Value>),
}

/// How many tokens a read of `s` consumes: one per primitive leaf.
pub open spec fn shape_count(s: Shape) -> nat
    decreases s, 0nat,
{
    match s {
        Shape::Usize => 1,
        Shape::Usize1 => 1,
        Shape::Chars => 1,
        Shape::Tuple(subs) => tuple_count(subs@),
        Shape::Array(sub, k) => (k * shape_count(*sub)) as nat,
    }
}

/// Tokens consumed by the shapes of a tuple, in order.
pub open spec fn tuple_count(shapes: Seq<Shape>) -> nat
    decreases shapes, 0nat,
{
    if shapes.len() == 0 {
        0
    } else {
        shape_count(shapes.first()) + tuple_count(shapes.drop_first())
    }
}

/// The first failure a read of `s` meets against `toks`, starting at token
/// `i`, or `None` if the read succeeds.
pub open spec fn parse_fail(s: Shape, toks: Seq<Seq<char>>, i: int) -> Option<Error>
    decreases s, 0nat,
{
    match s {
        Shape::Usize => if i >= toks.len() {
            Some(Error::TokenExhausted)
        } else if !valid_usize_token(toks[i]) {
            Some(Error::ParseFailure)
        } else {
            None
        },
        Shape::Usize1 => if i >= toks.len() {
            Some(Error::TokenExhausted)
        } else if !valid_usize_token(toks[i]) || dec_val(toks[i]) == 0 {
            Some(Error::ParseFailure)
        } else {
            None
        },
        Shape::Chars => if i >= toks.len() {
            Some(Error::TokenExhausted)
        } else {
            None
        },
        Shape::Tuple(subs) => tuple_fail(subs@, toks, i),
        Shape::Array(sub, k) => array_fail(*sub, k as nat, toks, i),
    }
}

/// The first failure among a tuple's shapes, read left to right.
pub open spec fn tuple_fail(shapes: Seq<Shape>, toks: Seq<Seq<char>>, i: int) -> Option<Error>
    decreases shapes, 0nat,
{
    if shapes.len() == 0 {
        None
    } else {
        match parse_fail(shapes.first(), toks, i) {
            Some(e) => Some(e),
            None => tuple_fail(shapes.drop_first(), toks, i + shape_count(shapes.first())),
        }
    }
}

/// The first failure among `k` reads of `sub`, one after the other.
pub open spec fn array_fail(sub: Shape, k: nat, toks: Seq<Seq<char>>, i: int) -> Option<Error>
    decreases sub, k,
{
    if k == 0 {
        None
    } else {
        match parse_fail(sub, toks, i) {
            Some(e) => Some(e),
            None => array_fail(sub, (k - 1) as nat, toks, i + shape_count(sub)),
        }
    }
}

/// True iff `v` is the value a read of `s` against `toks` at token `i`
/// yields. For each shape this pins the value exactly.
pub open spec fn value_ok(s: Shape, toks: Seq<Seq<char>>, i: int, v: Value) -> bool
    decreases s, 0nat,
{
    match s {
        Shape::Usize => v matches Value::Usize(n) && n == dec_val(toks[i]),
        Shape::Usize1 => v matches Value::Usize(n) && n == dec_val(toks[i]) - 1,
        Shape::Chars => v matches Value::Chars(cs) && cs@ == toks[i],
        Shape::Tuple(subs) => v matches Value::Tuple(vs) && tuple_ok(subs@, toks, i, vs@),
        Shape::Array(sub, k) => v matches Value::Array(vs) && array_ok(*sub, k as nat, toks, i, vs@),
    }
}

/// True iff `vs` holds, in order, the values of a tuple's shapes.
pub open spec fn tuple_ok(shapes: Seq<Shape>, toks: Seq<Seq<char>>, i: int, vs: Seq<Value>) -> bool
    decreases shapes, 0nat,
{
    if shapes.len() == 0 {
        vs.len() == 0
    } else {
        &&& vs.len() == shapes.len()
        &&& value_ok(shapes.first(), toks, i, vs.first())
        &&& tuple_ok(shapes.drop_first(), toks, i + shape_count(shapes.first()), vs.drop_first())
    }
}

/// True iff `vs` holds, in order, the values of `k` reads of `sub`.
pub open spec fn array_ok(sub: Shape, k: nat, toks: Seq<Seq<char>>, i: int, vs: Seq<Value>) -> bool
    decreases sub, k,
{
    if k == 0 {
        vs.len() == 0
    } else {
        &&& vs.len() == k
        &&& value_ok(sub, toks, i, vs.first())
        &&& array_ok(sub, (k - 1) as nat, toks, i + shape_count(sub), vs.drop_first())
    }
}

/// Extending an all-digit prefix never shrinks its value.
proof fn lemma_dec_val_prefix(t: Seq<char>, j: int)
    requires
        0 <= j <= t.len(),
        all_digits(t),
    ensures
        dec_val(t.take(j)) <= dec_val(t),
    decreases t.len() - j,
{
    if j < t.len() {
        assert(t.take(j + 1).drop_last() =~= t.take(j));
        assert(t.take(j + 1).last() == t[j]);
        lemma_dec_val_prefix(t, j + 1);
        if j + 1 == t.len() {
            assert(t.take(j + 1) =~= t);
        }
    } else {
        assert(t.take(j) =~= t);
    }
}

/// Reads `t` as an unsigned decimal integer: `Err(ParseFailure)` on an empty
/// text, a non-digit character, or a value above the machine word.
pub fn parse_usize(t: &str) -> (r: Result<usize, Error>)
    ensures
        valid_usize_token(t@) ==> (r matches Ok(n) && n == dec_val(t@)),
        !valid_usize_token(t@) ==> r == Err::<usize, Error>(Error::ParseFailure),
{
    let len = t.unicode_len();
    if len == 0 {
        return Err(Error::ParseFailure);
    }
    let mut n: usize = 0;
    let mut i: usize = 0;
    while i < len
        invariant
            i <= len,
            len == t@.len(),
            all_digits(t@.take(i as int)),
            n == dec_val(t@.take(i as int)),
        decreases len - i,
    {
        let c = t.get_char(i);
        let cu = c as u32;
        if cu < '0' as u32 || cu > '9' as u32 {
            assert(!is_digit(t@[i as int]));
            return Err(Error::ParseFailure);
        }
        let d = (cu - '0' as u32) as usize;
        proof {
            assert(t@.take(i + 1).drop_last() =~= t@.take(i as int));
            assert(t@.take(i + 1).last() == t@[i as int]);
        }
        if n > (usize::MAX - d) / 10 {
            proof {
                assert(dec_val(t@.take(i + 1)) > usize::MAX);
                if all_digits(t@) {
                    lemma_dec_val_prefix(t@, i + 1);
                }
            }
            return Err(Error::ParseFailure);
        }
        n = n * 10 + d;
        i = i + 1;
    }
    proof {
        assert(t@.take(len as int) =~= t@);
    }
    Ok(n)
}

/// Appending one shape to a tuple adds its token count.
proof fn lemma_tuple_count_snoc(shapes: Seq<Shape>, x: Shape)
    ensures
        tuple_count(shapes.push(x)) == tuple_count(shapes) + shape_count(x),
    decreases shapes.len(),
{
    assert(tuple_count(shapes.push(x)) == shape_count(shapes.push(x).first()) + tuple_count(
        shapes.push(x).drop_first(),
    ));
    if shapes.len() == 0 {
        assert(shapes.push(x).first() == x);
        assert(shapes.push(x).drop_first() =~= Seq::<Shape>::empty());
        assert(tuple_count(Seq::<Shape>::empty()) == 0);
    } else {
        assert(shapes.push(x).first() == shapes.first());
        assert(shapes.push(x).drop_first() =~= shapes.drop_first().push(x));
        lemma_tuple_count_snoc(shapes.drop_first(), x);
        assert(tuple_count(shapes) == shape_count(shapes.first()) + tuple_count(
            shapes.drop_first(),
        ));
    }
}

/// Appending one shape and one value to a tuple read: the whole is correct
/// iff the prefix is and the new value reads the new shape at the position
/// after the prefix.
proof fn lemma_tuple_ok_snoc(
    shapes: Seq<Shape>,
    x: Shape,
    toks: Seq<Seq<char>>,
    i: int,
    vs: Seq<Value>,
    v: Value,
)
    ensures
        tuple_ok(shapes.push(x), toks, i, vs.push(v)) <==> (tuple_ok(shapes, toks, i, vs)
            && value_ok(x, toks, i + tuple_count(shapes), v)),
    decreases shapes.len(),
{
    let sp = shapes.push(x);
    let vp = vs.push(v);
    if shapes.len() == 0 {
        assert(sp.first() == x);
        assert(sp.drop_first() =~= Seq::<Shape>::empty());
        assert(tuple_count(shapes) == 0);
        if vs.len() == 0 {
            assert(vp.first() == v);
            assert(vp.drop_first() =~= Seq::<Value>::empty());
            assert(tuple_ok(sp.drop_first(), toks, i + shape_count(sp.first()), vp.drop_first()));
        } else {
            assert(vp.len() != sp.len());
            assert(!tuple_ok(sp, toks, i, vp));
            assert(!tuple_ok(shapes, toks, i, vs));
        }
    } else {
        assert(sp.first() == shapes.first());
        assert(sp.drop_first() =~= shapes.drop_first().push(x));
        assert(tuple_count(shapes) == shape_count(shapes.first()) + tuple_count(
            shapes.drop_first(),
        ));
        if vs.len() == shapes.len() {
            assert(vp.first() == vs.first());
            assert(vp.drop_first() =~= vs.drop_first().push(v));
            lemma_tuple_ok_snoc(
                shapes.drop_first(),
                x,
                toks,
                i + shape_count(shapes.first()),
                vs.drop_first(),
                v,
            );
        } else {
            assert(vp.len() != sp.len());
            assert(!tuple_ok(sp, toks, i, vp));
            assert(!tuple_ok(shapes, toks, i, vs));
        }
    }
}

/// Appending one value to an array read: the whole is correct iff the prefix
/// is and the new value reads the element shape at the position after the
/// prefix.
proof fn lemma_array_ok_snoc(
    sub: Shape,
    j: nat,
    toks: Seq<Seq<char>>,
    i: int,
    vs: Seq<Value>,
    v: Value,
)
    ensures
        array_ok(sub, j + 1, toks, i, vs.push(v)) <==> (array_ok(sub, j, toks, i, vs) && value_ok(
            sub,
            toks,
            i + j * shape_count(sub),
            v,
        )),
    decreases j,
{
    let vp = vs.push(v);
    assert(i + 0 * shape_count(sub) == i);
    if j == 0 {
        if vs.len() == 0 {
            assert(vp.first() == v);
            assert(vp.drop_first() =~= Seq::<Value>::empty());
            assert(array_ok(sub, 0, toks, i + shape_count(sub), vp.drop_first()));
        } else {
            assert(vp.len() != j + 1);
            assert(!array_ok(sub, j + 1, toks, i, vp));
            assert(!array_ok(sub, j, toks, i, vs));
        }
    } else {
        let c = shape_count(sub) as int;
        assert(c + (j - 1) * c == j * c) by (nonlinear_arith);
        if vs.len() == j {
            assert(vp.first() == vs.first());
            assert(vp.drop_first() =~= vs.drop_first().push(v));
            lemma_array_ok_snoc(sub, (j - 1) as nat, toks, i + c, vs.drop_first(), v);
        } else {
            assert(vp.len() != j + 1);
            assert(!array_ok(sub, j + 1, toks, i, vp));
            assert(!array_ok(sub, j, toks, i, vs));
        }
    }
}

impl TokenSource {
    /// Reads one value of the given shape, consuming exactly one token per
    /// primitive leaf, sub-shapes strictly left to right. The read is
    /// all-or-nothing: on any failure the reported error is the first one
    /// met, and the source is left exactly as it was.
    pub fn read_value(&mut self, shape: &Shape) -> (r: Result<Value, Error>)
        requires
            old(self).wf(),
        ensures
            final(self).wf(),
            final(self).toks() == old(self).toks(),
            match r {
                Ok(v) => {
                    &&& parse_fail(*shape, old(self).toks(), old(self).cur()) is None
                    &&& value_ok(*shape, old(self).toks(), old(self).cur(), v)
                    &&& final(self).cur() == old(self).cur() + shape_count(*shape)
                },
                Err(e) => {
                    &&& parse_fail(*shape, old(self).toks(), old(self).cur()) == Some(e)
                    &&& final(self).cur() == old(self).cur()
                },
            },
        decreases *shape,
    {
        match shape {
            Shape::Usize => {
                let c0 = self.position();
                match self.next_token() {
                    Err(e) => Err(e),
                    Ok(t) => match parse_usize(t.as_str()) {
                        Ok(n) => Ok(Value::Usize(n)),
                        Err(e) => {
                            self.rewind(c0);
                            Err(e)
                        },
                    },
                }
            },
            Shape::Usize1 => {
                let c0 = self.position();
                match self.next_token() {
                    Err(e) => Err(e),
                    Ok(t) => match parse_usize(t.as_str()) {
                        Ok(n) => if n == 0 {
                            self.rewind(c0);
                            Err(Error::ParseFailure)
                        } else {
                            Ok(Value::Usize(n - 1))
                        },
                        Err(e) => {
                            self.rewind(c0);
                            Err(e)
                        },
                    },
                }
            },
            Shape::Chars => {
                match self.next_token() {
                    Err(e) => Err(e),
                    Ok(t) => Ok(Value::Chars(str_chars(t.as_str()))),
                }
            },
            Shape::Tuple(subs) => {
                let c0 = self.position();
                let ghost toks = self.toks();
                let mut vs: Vec<Value> = Vec::new();
                let mut j: usize = 0;
                proof {
                    assert(subs@.take(0) =~= Seq::<Shape>::empty());
                    assert(subs@.skip(0) =~= subs@);
                    assert(tuple_count(Seq::<Shape>::empty()) == 0);
                }
                while j < subs.len()
                    invariant
                        j <= subs@.len(),
                        self.wf(),
                        *shape == Shape::Tuple(*subs),
                        toks == old(self).toks(),
                        c0 == old(self).cur(),
                        self.toks() == toks,
                        c0 <= self.cur(),
                        vs@.len() == j,
                        self.cur() == c0 + tuple_count(subs@.take(j as int)),
                        tuple_fail(subs@, toks, c0 as int) == tuple_fail(
                            subs@.skip(j as int),
                            toks,
                            self.cur(),
                        ),
                        tuple_ok(subs@.take(j as int), toks, c0 as int, vs@),
                    decreases subs@.len() - j,
                {
                    proof {
                        assert(subs@.skip(j as int).first() == subs@[j as int]);
                        assert(decreases_to!(*shape => subs@[j as int]));
                    }
                    match self.read_value(&subs[j]) {
                        Ok(v) => {
                            proof {
                                assert(subs@.skip(j as int).drop_first() =~= subs@.skip(j + 1));
                                assert(subs@.take(j + 1) =~= subs@.take(j as int).push(
                                    subs@[j as int],
                                ));
                                lemma_tuple_count_snoc(subs@.take(j as int), subs@[j as int]);
                                lemma_tuple_ok_snoc(
                                    subs@.take(j as int),
                                    subs@[j as int],
                                    toks,
                                    c0 as int,
                                    vs@,
                                    v,
                                );
                            }
                            vs.push(v);
                            j = j + 1;
                        },
                        Err(e) => {
                            self.rewind(c0);
                            return Err(e);
                        },
                    }
                }
                proof {
                    assert(subs@.take(subs@.len() as int) =~= subs@);
                    assert(subs@.skip(subs@.len() as int) =~= Seq::<Shape>::empty());
                }
                Ok(Value::Tuple(vs))
            },
            Shape::Array(sub, k) => {
                let c0 = self.position();
                let ghost toks = self.toks();
                let ghost c = shape_count(**sub) as int;
                let mut vs: Vec<Value> = Vec::new();
                let mut j: usize = 0;
                while j < *k
                    invariant
                        j <= *k,
                        self.wf(),
                        *shape == Shape::Array(*sub, *k),
                        toks == old(self).toks(),
                        c0 == old(self).cur(),
                        self.toks() == toks,
                        c0 <= self.cur(),
                        vs@.len() == j,
                        c == shape_count(**sub) as int,
                        self.cur() == c0 + j * c,
                        array_fail(**sub, *k as nat, toks, c0 as int) == array_fail(
                            **sub,
                            (*k - j) as nat,
                            toks,
                            self.cur(),
                        ),
                        array_ok(**sub, j as nat, toks, c0 as int, vs@),
                    decreases *k - j,
                {
                    proof {
                        assert(decreases_to!(*shape => **sub));
                    }
                    match self.read_value(&**sub) {
                        Ok(v) => {
                            proof {
                                lemma_array_ok_snoc(**sub, j as nat, toks, c0 as int, vs@, v);
                                assert(c0 + j * c + c == c0 + (j + 1) * c) by (nonlinear_arith);
                            }
                            vs.push(v);
                            j = j + 1;
                        },
                        Err(e) => {
                            self.rewind(c0);
                            return Err(e);
                        },
                    }
                }
                proof {
                    assert(c0 + (*k as int) * c == c0 + shape_count(*shape)) by (nonlinear_arith)
                        requires
                            c == shape_count(**sub) as int,
                            shape_count(*shape) == (*k as nat * shape_count(**sub)) as nat,
                    ;
                }
                Ok(Value::Array(vs))
            },
        }
    }
}

/// The characters of `t`, in order, as a vector.
fn str_chars(t: &str) -> (v: Vec<char>)
    ensures
        v@ == t@,
{
    let len = t.unicode_len();
    let mut v: Vec<char> = Vec::new();
    let mut i: usize = 0;
    while i < len
        invariant
            i <= len,
            len == t@.len(),
            v@ == t@.take(i as int),
        decreases len - i,
    {
        v.push(t.get_char(i));
        proof {
            assert(t@.take(i + 1) =~= t@.take(i as int).push(t@[i as int]));
        }
        i = i + 1;
    }
    proof {
        assert(t@.take(len as int) =~= t@);
    }
    v
}

} // verus!
