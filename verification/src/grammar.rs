//! What the tokenizer computes, stated over sequences of codepoints.
//!
//! A token is read off the front of the input: its first codepoint picks the
//! rule, and whitespace and identifiers then take the longest run that their
//! class allows. The laws at the end of the file say that the tokens of an
//! input tile it exactly.

use crate::classify::{
    is_punct, is_quote, is_unclassified, spec_is_id_continue, spec_is_id_start,
    spec_is_whitespace,
};
use crate::token::{Lexeme, LiteralKind, Token, TokenKind};
use vstd::prelude::*;

verus! {

/// The class of whitespace codepoints.
pub open spec fn whitespace_class() -> spec_fn(char) -> bool {
    |c: char| spec_is_whitespace(c)
}

/// The class of codepoints that continue an identifier.
pub open spec fn id_continue_class() -> spec_fn(char) -> bool {
    |c: char| spec_is_id_continue(c)
}

/// The class of codepoints inside a string literal: all but the quote.
pub open spec fn str_content_class() -> spec_fn(char) -> bool {
    |c: char| !is_quote(c)
}

/// The length of the longest prefix of `s` whose codepoints are all in
/// `class`.
pub open spec fn run_len(s: Seq<char>, class: spec_fn(char) -> bool) -> nat
    decreases s.len(),
{
    if s.len() > 0 && class(s[0]) {
        1 + run_len(s.drop_first(), class)
    } else {
        0
    }
}

/// Whether a string literal whose opening quote is followed by `rest` is
/// closed: whether a quote occurs in `rest`.
pub open spec fn str_terminated(rest: Seq<char>) -> bool {
    rest.contains('"')
}

/// The number of codepoints that a string literal takes from `rest`, the
/// input after its opening quote: up to and including the first quote, or
/// all of `rest` where there is none.
pub open spec fn str_body_len(rest: Seq<char>) -> nat {
    let content = run_len(rest, str_content_class());
    if content < rest.len() {
        content + 1
    } else {
        content
    }
}

/// The kind of the token that the single codepoint `c` makes when it starts
/// neither whitespace, an identifier nor a string.
pub open spec fn punct_kind(c: char) -> TokenKind {
    if c == ';' {
        TokenKind::Semi
    } else if c == '(' {
        TokenKind::OpenParen
    } else if c == ')' {
        TokenKind::CloseParen
    } else if c == '{' {
        TokenKind::OpenBrace
    } else if c == '}' {
        TokenKind::CloseBrace
    } else if c == '!' {
        TokenKind::Exclam
    } else {
        TokenKind::Unknown
    }
}

/// The kind of the token at the front of `s`.
pub open spec fn first_kind(s: Seq<char>) -> TokenKind
    recommends
        s.len() > 0,
{
    let c = s[0];
    if spec_is_whitespace(c) {
        TokenKind::Whitespace
    } else if spec_is_id_start(c) {
        TokenKind::Identifier
    } else if is_quote(c) {
        TokenKind::Literal { kind: LiteralKind::Str { terminated: str_terminated(s.drop_first()) } }
    } else {
        punct_kind(c)
    }
}

/// The number of codepoints of the token at the front of `s`.
pub open spec fn first_len(s: Seq<char>) -> nat
    recommends
        s.len() > 0,
{
    let c = s[0];
    let rest = s.drop_first();
    if spec_is_whitespace(c) {
        1 + run_len(rest, whitespace_class())
    } else if spec_is_id_start(c) {
        1 + run_len(rest, id_continue_class())
    } else if is_quote(c) {
        1 + str_body_len(rest)
    } else {
        1
    }
}

/// The token at the front of `s`.
pub open spec fn first_lexeme(s: Seq<char>) -> Lexeme
    recommends
        s.len() > 0,
{
    Lexeme { kind: first_kind(s), len: first_len(s) }
}

/// The tokens of `s`, first one first: the token at the front, then the
/// tokens of what follows it.
pub open spec fn tokens_of(s: Seq<char>) -> Seq<Lexeme>
    decreases s.len(),
    via tokens_of_decreases
{
    if s.len() == 0 {
        Seq::empty()
    } else {
        seq![first_lexeme(s)] + tokens_of(s.skip(first_len(s) as int))
    }
}

#[via_fn]
proof fn tokens_of_decreases(s: Seq<char>) {
    if s.len() != 0 {
        lemma_first_len_bounds(s);
    }
}

/// The sum of the lengths of `tokens`.
pub open spec fn total_len(tokens: Seq<Lexeme>) -> nat
    decreases tokens.len(),
{
    if tokens.len() == 0 {
        0
    } else {
        tokens[0].len + total_len(tokens.drop_first())
    }
}

/// Where token `i` of `tokens` starts, counted in codepoints from the start
/// of the input: the sum of the lengths of the tokens before it.
pub open spec fn span_start(tokens: Seq<Lexeme>, i: int) -> nat
    recommends
        0 <= i <= tokens.len(),
{
    total_len(tokens.take(i))
}

/// The mathematical values of a sequence of tokens.
pub open spec fn lexemes(tokens: Seq<Token>) -> Seq<Lexeme> {
    tokens.map_values(|t: Token| t@)
}

/// A run is a prefix, every codepoint of it is in the class, and the
/// codepoint after it, if there is one, is not: the run is maximal.
pub proof fn lemma_run_len_maximal(s: Seq<char>, class: spec_fn(char) -> bool)
    ensures
        run_len(s, class) <= s.len(),
        forall|i: int| 0 <= i < run_len(s, class) ==> class(#[trigger] s[i]),
        run_len(s, class) < s.len() ==> !class(s[run_len(s, class) as int]),
    decreases s.len(),
{
    if s.len() > 0 && class(s[0]) {
        let rest = s.drop_first();
        lemma_run_len_maximal(rest, class);
        assert forall|i: int| 0 <= i < run_len(s, class) implies class(#[trigger] s[i]) by {
            if i > 0 {
                assert(s[i] == rest[i - 1]);
            }
        }
        if run_len(s, class) < s.len() {
            assert(s[run_len(s, class) as int] == rest[run_len(rest, class) as int]);
        }
    }
}

/// Only one length is that of a maximal run: a prefix of `n` codepoints of
/// the class that stops at the end of `s` or before a codepoint outside the
/// class is the run.
pub proof fn lemma_run_len_unique(s: Seq<char>, class: spec_fn(char) -> bool, n: int)
    requires
        0 <= n <= s.len(),
        forall|i: int| 0 <= i < n ==> class(#[trigger] s[i]),
        n < s.len() ==> !class(s[n]),
    ensures
        run_len(s, class) == n,
    decreases s.len(),
{
    if n > 0 {
        let rest = s.drop_first();
        assert(class(s[0]));
        assert forall|i: int| 0 <= i < n - 1 implies class(#[trigger] rest[i]) by {
            assert(rest[i] == s[i + 1]);
        }
        if n - 1 < rest.len() {
            assert(rest[n - 1] == s[n]);
        }
        lemma_run_len_unique(rest, class, n - 1);
    }
}

/// A string literal is closed exactly where its content stops before the end
/// of the input.
pub proof fn lemma_str_terminated(rest: Seq<char>)
    ensures
        str_terminated(rest) <==> run_len(rest, str_content_class()) < rest.len(),
        str_body_len(rest) <= rest.len(),
        str_terminated(rest) ==> rest[str_body_len(rest) - 1] == '"',
{
    let n = run_len(rest, str_content_class());
    lemma_run_len_maximal(rest, str_content_class());
    if n < rest.len() {
        assert(rest[n as int] == '"');
    } else {
        if rest.contains('"') {
            let i = choose|i: int| 0 <= i < rest.len() && rest[i] == '"';
            assert(str_content_class()(rest[i]));
        }
    }
}

/// A token takes at least one codepoint and no more than there are.
pub proof fn lemma_first_len_bounds(s: Seq<char>)
    requires
        s.len() > 0,
    ensures
        1 <= first_len(s) <= s.len(),
{
    let rest = s.drop_first();
    lemma_run_len_maximal(rest, whitespace_class());
    lemma_run_len_maximal(rest, id_continue_class());
    lemma_str_terminated(rest);
}

/// The first codepoint alone picks the rule, and each class has kinds of
/// its own: whitespace and identifier starts give their kind, a quote gives a
/// string literal, a punctuation mark one of the six punctuation kinds, and
/// every other codepoint `Unknown`.
pub proof fn lemma_kind_by_class(s: Seq<char>)
    requires
        s.len() > 0,
    ensures
        first_kind(s) == TokenKind::Whitespace <==> spec_is_whitespace(s[0]),
        first_kind(s) == TokenKind::Identifier <==> spec_is_id_start(s[0]),
        first_kind(s) is Literal <==> is_quote(s[0]),
        first_kind(s) == TokenKind::Unknown <==> is_unclassified(s[0]),
        is_punct(s[0]) <==> {
            ||| first_kind(s) == TokenKind::Semi
            ||| first_kind(s) == TokenKind::OpenParen
            ||| first_kind(s) == TokenKind::CloseParen
            ||| first_kind(s) == TokenKind::OpenBrace
            ||| first_kind(s) == TokenKind::CloseBrace
            ||| first_kind(s) == TokenKind::Exclam
        },
{
}

/// Whitespace and identifiers take the longest match. A whitespace token is
/// made of whitespace throughout, an identifier of codepoints that continue
/// it after its first, and the codepoint that follows either token, if there
/// is one, would not have extended it.
pub proof fn lemma_maximal_munch(s: Seq<char>)
    requires
        s.len() > 0,
    ensures
        1 <= first_len(s) <= s.len(),
        first_kind(s) == TokenKind::Whitespace ==> {
            &&& forall|i: int| 0 <= i < first_len(s) ==> spec_is_whitespace(#[trigger] s[i])
            &&& first_len(s) < s.len() ==> !spec_is_whitespace(s[first_len(s) as int])
        },
        first_kind(s) == TokenKind::Identifier ==> {
            &&& spec_is_id_start(s[0])
            &&& forall|i: int| 1 <= i < first_len(s) ==> spec_is_id_continue(#[trigger] s[i])
            &&& first_len(s) < s.len() ==> !spec_is_id_continue(s[first_len(s) as int])
        },
{
    let rest = s.drop_first();
    lemma_first_len_bounds(s);
    lemma_kind_by_class(s);
    if first_kind(s) == TokenKind::Whitespace {
        lemma_run_len_maximal(rest, whitespace_class());
        assert forall|i: int| 0 <= i < first_len(s) implies spec_is_whitespace(
            #[trigger] s[i],
        ) by {
            if i > 0 {
                assert(whitespace_class()(rest[i - 1]));
            }
        }
        if first_len(s) < s.len() {
            assert(s[first_len(s) as int] == rest[first_len(s) - 1]);
        }
    }
    if first_kind(s) == TokenKind::Identifier {
        lemma_run_len_maximal(rest, id_continue_class());
        assert forall|i: int| 1 <= i < first_len(s) implies spec_is_id_continue(
            #[trigger] s[i],
        ) by {
            assert(id_continue_class()(rest[i - 1]));
        }
        if first_len(s) < s.len() {
            assert(s[first_len(s) as int] == rest[first_len(s) - 1]);
        }
    }
}

/// The lengths of the tokens of an input add up to the length of the input,
/// and there are no more tokens than codepoints.
pub proof fn lemma_tokens_cover(s: Seq<char>)
    ensures
        total_len(tokens_of(s)) == s.len(),
        tokens_of(s).len() <= s.len(),
    decreases s.len(),
{
    if s.len() > 0 {
        let rest = s.skip(first_len(s) as int);
        lemma_first_len_bounds(s);
        lemma_tokens_cover(rest);
        assert(tokens_of(s).drop_first() =~= tokens_of(rest));
    }
}

/// The tokens of an input tile it. Token `i` is the token read at the front
/// of the input from where token `i - 1` ended (from the start, for the first
/// one), it is not empty and ends within the input, and the last token ends
/// where the input ends: no codepoint is skipped and none is taken twice.
pub proof fn lemma_tokens_partition(s: Seq<char>, i: int)
    requires
        0 <= i < tokens_of(s).len(),
    ensures
        span_start(tokens_of(s), i) < s.len(),
        tokens_of(s)[i] == first_lexeme(s.skip(span_start(tokens_of(s), i) as int)),
        tokens_of(s)[i].len >= 1,
        span_start(tokens_of(s), i + 1) == span_start(tokens_of(s), i) + tokens_of(s)[i].len,
        span_start(tokens_of(s), i + 1) <= s.len(),
        i + 1 == tokens_of(s).len() ==> span_start(tokens_of(s), i + 1) == s.len(),
    decreases s.len(),
{
    let tokens = tokens_of(s);
    let rest = s.skip(first_len(s) as int);
    let rest_tokens = tokens_of(rest);
    lemma_first_len_bounds(s);
    assert(tokens.drop_first() =~= rest_tokens);
    assert(tokens.take(i + 1).drop_first() =~= rest_tokens.take(i));
    if i == 0 {
        assert(tokens.take(0) =~= Seq::<Lexeme>::empty());
        assert(s.skip(0) =~= s);
        assert(rest_tokens.take(0) =~= Seq::<Lexeme>::empty());
        if tokens.len() == 1 {
            lemma_tokens_cover(rest);
        }
    } else {
        lemma_tokens_partition(rest, i - 1);
        assert(tokens.take(i).drop_first() =~= rest_tokens.take(i - 1));
        assert(rest.skip(span_start(rest_tokens, i - 1) as int) =~= s.skip(
            span_start(tokens, i) as int,
        ));
    }
}

} // verus!
