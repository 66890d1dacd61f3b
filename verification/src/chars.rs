//! The boundary to `std::str::Chars`, the iterator that decodes the borrowed
//! input one codepoint at a time.
//!
//! Nothing in this file is proved. The cursor is verified against the
//! contracts stated here, all of which speak of [`chars_rest`]. vstd
//! describes `Chars` by a prophecy of everything the iterator is going to
//! return; a cursor that keeps the iterator in a field needs a plain function
//! of the iterator's state instead, and [`chars_rest`] is that function.

use std::str::Chars;
use vstd::prelude::*;

verus! {

/// The codepoints that a `Chars` iterator has not handed out yet, in the
/// order in which `next` will return them.
pub uninterp spec fn chars_rest(chars: Chars<'_>) -> Seq<char>;

/// `str::chars`: the new iterator holds every codepoint of `input`, in order.
#[verifier::external_body]
pub(crate) fn chars_of<'a>(input: &'a str) -> (chars: Chars<'a>)
    ensures
        chars_rest(chars) == input@,
{
    input.chars()
}

/// `Chars::next`: hands out the first codepoint still held and drops it from
/// the iterator; on an exhausted iterator it returns `None` and what the
/// iterator holds stays empty.
#[verifier::external_body]
pub(crate) fn chars_next(chars: &mut Chars<'_>) -> (next: Option<char>)
    ensures
        chars_rest(*old(chars)).len() == 0 ==> next.is_none() && chars_rest(*final(chars))
            == chars_rest(*old(chars)),
        chars_rest(*old(chars)).len() > 0 ==> next == Some(chars_rest(*old(chars))[0])
            && chars_rest(*final(chars)) == chars_rest(*old(chars)).drop_first(),
{
    chars.next()
}

/// `Chars::clone`: the copy holds the same codepoints as the iterator it was
/// made from.
#[verifier::external_body]
pub(crate) fn chars_clone<'a>(chars: &Chars<'a>) -> (copy: Chars<'a>)
    ensures
        chars_rest(copy) == chars_rest(*chars),
{
    chars.clone()
}

} // verus!
