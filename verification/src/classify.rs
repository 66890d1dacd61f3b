//! The character classes that the tokenizer dispatches on.
//!
//! Whitespace, quote and punctuation are fixed ASCII sets. The identifier
//! classes follow the Unicode properties XID_Start and XID_Continue, which the
//! `unicode-xid` crate looks up; the two private wrappers around it are the
//! only items of this file that are not proved.

use crate::cursor::EOF_CHAR;
use unicode_xid::UnicodeXID;
use vstd::prelude::*;

verus! {

/// What `UnicodeXID::is_xid_start` returns for `c`.
pub uninterp spec fn xid_start(c: char) -> bool;

/// What `UnicodeXID::is_xid_continue` returns for `c`.
pub uninterp spec fn xid_continue(c: char) -> bool;

/// The letters `a` to `z` and `A` to `Z`.
pub open spec fn is_ascii_letter(c: char) -> bool {
    ('a' <= c && c <= 'z') || ('A' <= c && c <= 'Z')
}

/// The digits `0` to `9`.
pub open spec fn is_ascii_digit(c: char) -> bool {
    '0' <= c && c <= '9'
}

/// `UnicodeXID::is_xid_start` on `char`. Up to U+007F the crate answers
/// without its tables: exactly the ASCII letters qualify.
#[verifier::external_body]
fn xid_start_of(c: char) -> (holds: bool)
    ensures
        holds == xid_start(c),
        c <= '\x7f' ==> holds == is_ascii_letter(c),
{
    UnicodeXID::is_xid_start(c)
}

/// `UnicodeXID::is_xid_continue` on `char`. Up to U+007F the crate answers
/// without its tables: exactly the ASCII letters, the digits and the
/// underscore qualify.
#[verifier::external_body]
fn xid_continue_of(c: char) -> (holds: bool)
    ensures
        holds == xid_continue(c),
        c <= '\x7f' ==> holds == (is_ascii_letter(c) || is_ascii_digit(c) || c == '_'),
{
    UnicodeXID::is_xid_continue(c)
}

/// Tab, newline or space, and nothing else.
pub open spec fn spec_is_whitespace(c: char) -> bool {
    c == '\t' || c == '\n' || c == ' '
}

/// The underscore, or a codepoint with the property XID_Start: an ASCII
/// letter, or beyond ASCII whatever the Unicode tables say.
pub open spec fn spec_is_id_start(c: char) -> bool {
    c == '_' || if c <= '\x7f' {
        is_ascii_letter(c)
    } else {
        xid_start(c)
    }
}

/// A codepoint with the property XID_Continue: an ASCII letter, a digit or
/// the underscore, or beyond ASCII whatever the Unicode tables say.
pub open spec fn spec_is_id_continue(c: char) -> bool {
    if c <= '\x7f' {
        is_ascii_letter(c) || is_ascii_digit(c) || c == '_'
    } else {
        xid_continue(c)
    }
}

/// The double quote, which opens and closes a string literal.
pub open spec fn is_quote(c: char) -> bool {
    c == '"'
}

/// One of the six single-codepoint punctuation marks `; ( ) { } !`.
pub open spec fn is_punct(c: char) -> bool {
    c == ';' || c == '(' || c == ')' || c == '{' || c == '}' || c == '!'
}

/// A codepoint of none of the four recognised classes.
pub open spec fn is_unclassified(c: char) -> bool {
    !spec_is_whitespace(c) && !spec_is_id_start(c) && !is_quote(c) && !is_punct(c)
}

/// `1` where `holds`, else `0`.
pub open spec fn indicator(holds: bool) -> int {
    if holds {
        1
    } else {
        0
    }
}

/// Whether `c` can start an identifier.
pub fn is_id_start(c: char) -> (holds: bool)
    ensures
        holds == spec_is_id_start(c),
{
    if c == '_' || xid_start_of(c) {
        return true;
    }
    return false;
}

/// Whether `c` can continue an identifier.
pub fn is_id_continue(c: char) -> (holds: bool)
    ensures
        holds == spec_is_id_continue(c),
{
    return xid_continue_of(c);
}

/// Whether `c` is a tab, a newline or a space.
pub fn is_whitespace(c: char) -> (holds: bool)
    ensures
        holds == spec_is_whitespace(c),
{
    c == '\t' || c == '\n' || c == ' '
}

/// Every codepoint falls in exactly one of five classes: whitespace,
/// identifier start, quote, punctuation, or none of these.
pub proof fn lemma_classes_partition(c: char)
    ensures
        indicator(spec_is_whitespace(c)) + indicator(spec_is_id_start(c)) + indicator(is_quote(c))
            + indicator(is_punct(c)) + indicator(is_unclassified(c)) == 1,
{
}

/// The end-of-input character belongs to no recognised class, so a peek past
/// the end never looks like content: it is no whitespace, starts and
/// continues no identifier, and is neither a quote nor punctuation.
pub proof fn lemma_eof_char_unclassified()
    ensures
        !spec_is_whitespace(EOF_CHAR),
        !spec_is_id_start(EOF_CHAR),
        !spec_is_id_continue(EOF_CHAR),
        !is_quote(EOF_CHAR),
        !is_punct(EOF_CHAR),
        is_unclassified(EOF_CHAR),
{
}

} // verus!
