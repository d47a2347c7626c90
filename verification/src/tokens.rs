//! Whitespace tokenization: a source of whitespace-delimited tokens consumed
//! strictly left to right, with no lookahead and no replay.
//!
//! The model is [`tokens_of`]: the maximal runs of non-whitespace characters
//! of the input, in order. A `TokenSource` built from a text holds exactly
//! those tokens and hands them out one by one.

use vstd::prelude::*;
use vstd::string::StrSliceExecFns;

use crate::error::Error;

verus! {

/// The characters that separate tokens: space, tab, newline and carriage
/// return, treated uniformly.
pub open spec fn is_ws(c: char) -> bool {
    c == ' ' || c == '\t' || c == '\n' || c == '\r'
}

/// Runtime test for [`is_ws`].
pub fn is_whitespace_char(c: char) -> (r: bool)
    ensures
        r == is_ws(c),
{
    c == ' ' || c == '\t' || c == '\n' || c == '\r'
}

/// The index of the first whitespace character at or after `i`, or the end of
/// `s` if the token runs to the end.
pub open spec fn token_end(s: Seq<char>, i: int) -> int
    decreases s.len() - i,
{
    if i < 0 || i >= s.len() || is_ws(s[i]) {
        i
    } else {
        token_end(s, i + 1)
    }
}

/// `token_end` stays within `[i, s.len()]` and everything before it is
/// non-whitespace.
pub proof fn lemma_token_end(s: Seq<char>, i: int)
    requires
        0 <= i <= s.len(),
    ensures
        i <= token_end(s, i) <= s.len(),
        forall|j: int| i <= j < token_end(s, i) ==> !is_ws(s[j]),
    decreases s.len() - i,
{
    if i < s.len() && !is_ws(s[i]) {
        lemma_token_end(s, i + 1);
    }
}

/// The tokens of `s` from position `i` on: skip whitespace, then take the
/// maximal non-whitespace run as one token and continue after it.
pub open spec fn tokens_from(s: Seq<char>, i: int) -> Seq<Seq<char>>
    decreases s.len() - i,
    via tokens_from_decreases
{
    if i < 0 || i >= s.len() {
        Seq::empty()
    } else if is_ws(s[i]) {
        tokens_from(s, i + 1)
    } else {
        seq![s.subrange(i, token_end(s, i))] + tokens_from(s, token_end(s, i))
    }
}

#[via_fn]
proof fn tokens_from_decreases(s: Seq<char>, i: int) {
    if 0 <= i < s.len() && !is_ws(s[i]) {
        lemma_token_end(s, i + 1);
        assert(token_end(s, i) == token_end(s, i + 1));
    }
}

/// The whitespace-delimited tokens of `s`, in input order.
pub open spec fn tokens_of(s: Seq<char>) -> Seq<Seq<char>> {
    tokens_from(s, 0)
}

/// A cursor over the tokens of one input. Tokens are handed out in order,
/// exactly once; there is no way to push one back.
pub struct TokenSource {
    tokens: Vec<String>,
    cursor: usize,
}

impl TokenSource {
    /// The tokens this source was built from, as character sequences.
    pub closed spec fn toks(&self) -> Seq<Seq<char>> {
        self.tokens@.map(|_i: int, t: String| t@)
    }

    /// How many tokens have been consumed so far.
    pub closed spec fn cur(&self) -> int {
        self.cursor as int
    }

    /// The cursor never runs past the token list.
    pub open spec fn wf(&self) -> bool {
        0 <= self.cur() <= self.toks().len()
    }

    /// Splits `s` on whitespace runs eagerly and positions the cursor on the
    /// first token.
    pub fn from_text(s: &str) -> (src: TokenSource)
        ensures
            src.wf(),
            src.toks() == tokens_of(s@),
            src.cur() == 0,
    {
        let len = s.unicode_len();
        let mut tokens: Vec<String> = Vec::new();
        let mut i: usize = 0;
        while i < len
            invariant
                i <= len,
                len == s@.len(),
                tokens@.map(|_k: int, t: String| t@) + tokens_from(s@, i as int) == tokens_of(s@),
            decreases len - i,
        {
            let c = s.get_char(i);
            if is_whitespace_char(c) {
                i = i + 1;
            } else {
                let start = i;
                let mut j = i;
                loop
                    invariant_except_break
                        start <= j <= len,
                        len == s@.len(),
                        token_end(s@, start as int) == token_end(s@, j as int),
                    ensures
                        start <= j <= len,
                        j == token_end(s@, start as int),
                    decreases len - j,
                {
                    if j >= len {
                        break ;
                    }
                    if is_whitespace_char(s.get_char(j)) {
                        break ;
                    }
                    j = j + 1;
                }
                let tok = s.substring_char(start, j).to_owned();
                proof {
                    let ghost old_map = tokens@.map(|_k: int, t: String| t@);
                    assert(tokens@.push(tok).map(|_k: int, t: String| t@) =~= old_map.push(tok@));
                    assert(old_map.push(tok@) + tokens_from(s@, j as int) =~= old_map + (seq![tok@]
                        + tokens_from(s@, j as int)));
                }
                tokens.push(tok);
                i = j;
            }
        }
        TokenSource { tokens, cursor: 0 }
    }

    /// The number of tokens consumed so far, as a runtime value.
    pub(crate) fn position(&self) -> (c: usize)
        ensures
            c == self.cur(),
    {
        self.cursor
    }

    /// Crate-internal: a composite read is all-or-nothing, so a failed read
    /// winds the cursor back to where that read began. The public interface
    /// offers no way to replay a token.
    pub(crate) fn rewind(&mut self, saved: usize)
        requires
            old(self).wf(),
            saved <= old(self).cur(),
        ensures
            final(self).wf(),
            final(self).toks() == old(self).toks(),
            final(self).cur() == saved,
    {
        self.cursor = saved;
    }

    /// Hands out the next token, advancing the cursor; `Err(TokenExhausted)`
    /// if every token has already been consumed, leaving the source unchanged.
    pub fn next_token(&mut self) -> (r: Result<String, Error>)
        requires
            old(self).wf(),
        ensures
            final(self).wf(),
            final(self).toks() == old(self).toks(),
            old(self).cur() < old(self).toks().len() ==> {
                &&& r matches Ok(t) && t@ == old(self).toks()[old(self).cur()]
                &&& final(self).cur() == old(self).cur() + 1
            },
            old(self).cur() >= old(self).toks().len() ==> r == Err::<String, Error>(
                Error::TokenExhausted,
            ) && final(self).cur() == old(self).cur(),
    {
        if self.cursor < self.tokens.len() {
            let t = self.tokens[self.cursor].clone();
            self.cursor = self.cursor + 1;
            Ok(t)
        } else {
            Err(Error::TokenExhausted)
        }
    }
}

} // verus!
