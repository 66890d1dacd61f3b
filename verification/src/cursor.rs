//! A forward-only cursor over the codepoints of a borrowed string.

use crate::chars::{chars_clone, chars_next, chars_of, chars_rest};
use std::str::Chars;
use vstd::prelude::*;

verus! {

/// What `peek` returns once the input is exhausted.
pub const EOF_CHAR: char = '\0';

/// The codepoint consumed last once a cursor whose last one before was
/// `before` has consumed the first `n` codepoints of `s`.
pub open spec fn last_after(before: char, s: Seq<char>, n: nat) -> char {
    if n > 0 {
        s[n - 1]
    } else {
        before
    }
}

/// Walks through an input string one codepoint at a time, without copying it.
pub struct Cursor<'a> {
    /// Codepoints that were left when the consumed length was last reset.
    initial_len: usize,
    /// Codepoints that are left now.
    len: usize,
    /// Decodes the codepoints that are left; lives as long as the input.
    chars: Chars<'a>,
    /// The codepoint consumed last.
    prev: char,
}

impl<'a> Cursor<'a> {
    /// The codepoints not consumed yet, next one first.
    pub closed spec fn view(&self) -> Seq<char> {
        chars_rest(self.chars)
    }

    /// How many codepoints were left when the consumed length was last reset.
    pub closed spec fn baseline(&self) -> nat {
        self.initial_len as nat
    }

    /// The codepoint consumed last; the end-of-input character before the
    /// first codepoint is consumed.
    pub closed spec fn last(&self) -> char {
        self.prev
    }

    /// The number of codepoints consumed since the last reset.
    pub open spec fn consumed(&self) -> nat {
        (self.baseline() - self@.len()) as nat
    }

    /// The counters agree with the input that is left, and the baseline lies
    /// at or before the current position.
    pub closed spec fn wf(&self) -> bool {
        &&& self.len == chars_rest(self.chars).len()
        &&& self.len <= self.initial_len
    }

    /// The baseline never lies behind the position, so the consumed length
    /// and what is left add up to the baseline.
    pub proof fn lemma_baseline_bounds(&self)
        requires
            self.wf(),
        ensures
            self.consumed() + self@.len() == self.baseline(),
            self.baseline() <= usize::MAX,
    {
    }

    /// Creates a cursor at the start of `input`.
    pub fn new(input: &'a str) -> (cursor: Cursor<'a>)
        ensures
            cursor.wf(),
            cursor@ == input@,
            cursor.baseline() == input@.len(),
            cursor.last() == EOF_CHAR,
    {
        let len: usize = input.unicode_len();
        Cursor { initial_len: len, len, chars: chars_of(input), prev: EOF_CHAR }
    }

    /// Whether nothing is left. Reads the current remaining length and
    /// consumes nothing.
    pub fn is_empty(&self) -> (empty: bool)
        requires
            self.wf(),
        ensures
            empty == (self@.len() == 0),
    {
        self.len == 0
    }

    /// The number of codepoints consumed since the last reset.
    pub fn len_consumed(&self) -> (n: usize)
        requires
            self.wf(),
        ensures
            n == self.consumed(),
    {
        self.initial_len - self.len
    }

    /// Makes the current position the baseline of `len_consumed`.
    pub fn reset_len_consumed(&mut self)
        requires
            old(self).wf(),
        ensures
            final(self).wf(),
            final(self)@ == old(self)@,
            final(self).baseline() == old(self)@.len(),
            final(self).last() == old(self).last(),
    {
        self.initial_len = self.len;
    }

    /// Consumes the next codepoint and records it as the last one consumed.
    /// At the end of the input it returns `None` and changes nothing.
    pub fn adv(&mut self) -> (consumed: Option<char>)
        requires
            old(self).wf(),
        ensures
            final(self).wf(),
            final(self).baseline() == old(self).baseline(),
            old(self)@.len() == 0 ==> {
                &&& consumed.is_none()
                &&& final(self)@ == old(self)@
                &&& final(self).last() == old(self).last()
            },
            old(self)@.len() > 0 ==> {
                &&& consumed == Some(old(self)@[0])
                &&& final(self)@ == old(self)@.drop_first()
                &&& final(self).last() == old(self)@[0]
            },
    {
        match chars_next(&mut self.chars) {
            Some(c) => {
                self.len = self.len - 1;
                self.prev = c;
                Some(c)
            },
            None => None,
        }
    }

    /// The next codepoint, without consuming it; `EOF_CHAR` once nothing is
    /// left.
    pub fn peek(&self) -> (c: char)
        requires
            self.wf(),
        ensures
            c == (if self@.len() > 0 {
                self@[0]
            } else {
                EOF_CHAR
            }),
    {
        let mut ahead = chars_clone(&self.chars);
        match chars_next(&mut ahead) {
            Some(ch) => ch,
            None => EOF_CHAR,
        }
    }

    /// Consumes codepoints for as long as `condition` accepts the next one and
    /// input is left.
    pub fn adv_until(&mut self, mut condition: impl FnMut(char) -> bool)
        requires
            old(self).wf(),
            forall|c: char| call_requires(condition, (c,)),
        ensures
            final(self).wf(),
            final(self).baseline() == old(self).baseline(),
            final(self)@.len() <= old(self)@.len(),
            final(self)@ == old(self)@.skip(old(self)@.len() - final(self)@.len()),
            forall|i: int|
                0 <= i < old(self)@.len() - final(self)@.len() ==> call_ensures(
                    condition,
                    (#[trigger] old(self)@[i],),
                    true,
                ),
            final(self)@.len() > 0 ==> call_ensures(condition, (final(self)@[0],), false),
            final(self).last() == last_after(
                old(self).last(),
                old(self)@,
                (old(self)@.len() - final(self)@.len()) as nat,
            ),
    {
        let ghost accepts = condition;
        while condition(self.peek()) && !self.is_empty()
            invariant
                self.wf(),
                condition == accepts,
                forall|c: char| call_requires(condition, (c,)),
                self.baseline() == old(self).baseline(),
                self@.len() <= old(self)@.len(),
                self@ == old(self)@.skip(old(self)@.len() - self@.len()),
                forall|i: int|
                    0 <= i < old(self)@.len() - self@.len() ==> call_ensures(
                        condition,
                        (#[trigger] old(self)@[i],),
                        true,
                    ),
                self.last() == last_after(
                    old(self).last(),
                    old(self)@,
                    (old(self)@.len() - self@.len()) as nat,
                ),
            decreases self@.len(),
        {
            self.adv();
        }
    }
}

} // verus!
