//! The tokenizer: cuts the input into tokens, one per request.

use crate::classify::{is_id_continue, is_id_start, is_whitespace};
use crate::cursor::{last_after, Cursor};
use crate::grammar::{
    first_kind, first_len, id_continue_class, lemma_first_len_bounds, lemma_run_len_unique,
    lemma_str_terminated, lemma_tokens_cover, lexemes, run_len, str_body_len, str_content_class,
    str_terminated, tokens_of, total_len, whitespace_class,
};
use crate::token::{Lexeme, LiteralKind, Token, TokenKind};
use vstd::prelude::*;

verus! {

/// The tokens of an input, produced one at a time and only on request.
pub struct Tokens<'a> {
    cursor: Cursor<'a>,
}

/// Starts tokenizing `input`. No token is scanned before it is asked for.
pub fn tokenize(input: &'_ str) -> (tokens: Tokens<'_>)
    ensures
        tokens.wf(),
        tokens@ == input@,
        tokens.pending() == tokens_of(input@),
{
    Tokens { cursor: Cursor::new(input) }
}

impl<'a> Tokens<'a> {
    /// The input that no token has been cut from yet.
    pub closed spec fn view(&self) -> Seq<char> {
        self.cursor@
    }

    /// The tokens still to come, next one first.
    pub open spec fn pending(&self) -> Seq<Lexeme> {
        tokens_of(self@)
    }

    /// The cursor underneath is well formed.
    pub closed spec fn wf(&self) -> bool {
        self.cursor.wf()
    }

    /// Scans and returns the next token, or `None` once the input is used up.
    /// The token is the one at the front of the remaining input, and exactly
    /// its codepoints are consumed.
    pub fn next_token(&mut self) -> (next: Option<Token>)
        requires
            old(self).wf(),
        ensures
            final(self).wf(),
            old(self)@.len() == 0 ==> next.is_none() && final(self)@ == old(self)@,
            old(self)@.len() > 0 ==> {
                &&& next.is_some()
                &&& next.unwrap().kind == first_kind(old(self)@)
                &&& next.unwrap().len == first_len(old(self)@)
                &&& final(self)@ == old(self)@.skip(first_len(old(self)@) as int)
            },
            next.is_some() ==> {
                &&& next.unwrap()@ == old(self).pending().first()
                &&& final(self).pending() == old(self).pending().drop_first()
            },
            next.is_none() ==> old(self).pending().len() == 0,
    {
        if self.cursor.is_empty() {
            None
        } else {
            self.cursor.reset_len_consumed();
            let token = self.cursor.eat_token();
            proof {
                let s = old(self)@;
                assert(tokens_of(s) == seq![token@] + tokens_of(s.skip(first_len(s) as int)));
                assert(tokens_of(s).drop_first() =~= tokens_of(s.skip(first_len(s) as int)));
            }
            Some(token)
        }
    }

    /// Scans all the tokens that are left and returns them in order.
    pub fn collect(&mut self) -> (tokens: Vec<Token>)
        requires
            old(self).wf(),
        ensures
            final(self).wf(),
            final(self)@.len() == 0,
            lexemes(tokens@) == old(self).pending(),
            total_len(lexemes(tokens@)) == old(self)@.len(),
    {
        let mut tokens: Vec<Token> = Vec::new();
        loop
            invariant
                self.wf(),
                lexemes(tokens@) + self.pending() == old(self).pending(),
            ensures
                self.wf(),
                self@.len() == 0,
                lexemes(tokens@) == old(self).pending(),
            decreases self@.len(),
        {
            let ghost before = *self;
            let ghost scanned = tokens@;
            match self.next_token() {
                None => {
                    assert(lexemes(tokens@) + before.pending() =~= lexemes(tokens@));
                    break ;
                },
                Some(token) => {
                    proof {
                        lemma_first_len_bounds(before@);
                    }
                    tokens.push(token);
                    assert(lexemes(tokens@) =~= lexemes(scanned) + seq![token@]);
                    assert(before.pending() =~= seq![token@] + self.pending());
                    assert(lexemes(tokens@) + self.pending() =~= lexemes(scanned)
                        + before.pending());
                },
            }
        }
        proof {
            lemma_tokens_cover(old(self)@);
        }
        tokens
    }
}

impl Cursor<'_> {
    /// Consumes one token from a cursor that is not empty and returns it.
    ///
    /// The token's length is the length consumed since the last reset, so it
    /// spans the token alone only where the consumed length was reset just
    /// before the call.
    pub fn eat_token(&mut self) -> (token: Token)
        requires
            old(self).wf(),
            old(self)@.len() > 0,
        ensures
            final(self).wf(),
            final(self).baseline() == old(self).baseline(),
            final(self)@ == old(self)@.skip(first_len(old(self)@) as int),
            final(self).last() == old(self)@[first_len(old(self)@) - 1],
            token.kind == first_kind(old(self)@),
            token.len == old(self).consumed() + first_len(old(self)@),
    {
        proof {
            old(self).lemma_baseline_bounds();
            lemma_first_len_bounds(old(self)@);
        }
        let first_char = self.adv().unwrap();
        let token_kind = match first_char {
            c if is_whitespace(c) => self.eat_whitespace(),
            c if is_id_start(c) => self.eat_id_continue(),
            '"' => {
                let is_terminated = self.eat_double_quote_str();
                let kind = LiteralKind::Str { terminated: is_terminated };
                TokenKind::Literal { kind }
            },
            ';' => TokenKind::Semi,
            '(' => TokenKind::OpenParen,
            ')' => TokenKind::CloseParen,
            '{' => TokenKind::OpenBrace,
            '}' => TokenKind::CloseBrace,
            '!' => TokenKind::Exclam,
            _ => TokenKind::Unknown,
        };
        proof {
            let s = old(self)@;
            let rest = s.drop_first();
            assert(rest.skip(first_len(s) - 1) =~= s.skip(first_len(s) as int));
            assert(rest.skip(0) =~= rest);
        }
        return Token::new(token_kind, self.len_consumed());
    }

    /// Consumes whitespace up to the next codepoint that is none.
    fn eat_whitespace(&mut self) -> (kind: TokenKind)
        requires
            old(self).wf(),
        ensures
            final(self).wf(),
            final(self).baseline() == old(self).baseline(),
            final(self)@ == old(self)@.skip(run_len(old(self)@, whitespace_class()) as int),
            run_len(old(self)@, whitespace_class()) <= old(self)@.len(),
            final(self).last() == last_after(
                old(self).last(),
                old(self)@,
                run_len(old(self)@, whitespace_class()),
            ),
            kind == TokenKind::Whitespace,
    {
        self.adv_until(is_whitespace);
        proof {
            lemma_run_len_unique(
                old(self)@,
                whitespace_class(),
                old(self)@.len() - self@.len(),
            );
        }
        return TokenKind::Whitespace;
    }

    /// Consumes the rest of an identifier.
    fn eat_id_continue(&mut self) -> (kind: TokenKind)
        requires
            old(self).wf(),
        ensures
            final(self).wf(),
            final(self).baseline() == old(self).baseline(),
            final(self)@ == old(self)@.skip(run_len(old(self)@, id_continue_class()) as int),
            run_len(old(self)@, id_continue_class()) <= old(self)@.len(),
            final(self).last() == last_after(
                old(self).last(),
                old(self)@,
                run_len(old(self)@, id_continue_class()),
            ),
            kind == TokenKind::Identifier,
    {
        self.adv_until(is_id_continue);
        proof {
            lemma_run_len_unique(
                old(self)@,
                id_continue_class(),
                old(self)@.len() - self@.len(),
            );
        }
        return TokenKind::Identifier;
    }

    /// Consumes up to and including the next double quote, or all that is
    /// left where there is none. Says whether the quote was found.
    fn eat_double_quote_str(&mut self) -> (terminated: bool)
        requires
            old(self).wf(),
        ensures
            final(self).wf(),
            final(self).baseline() == old(self).baseline(),
            final(self)@ == old(self)@.skip(str_body_len(old(self)@) as int),
            str_body_len(old(self)@) <= old(self)@.len(),
            final(self).last() == last_after(
                old(self).last(),
                old(self)@,
                str_body_len(old(self)@),
            ),
            terminated == str_terminated(old(self)@),
    {
        proof {
            lemma_str_terminated(old(self)@);
        }
        loop
            invariant
                self.wf(),
                self.baseline() == old(self).baseline(),
                self@.len() <= old(self)@.len(),
                self@ == old(self)@.skip(old(self)@.len() - self@.len()),
                forall|i: int|
                    0 <= i < old(self)@.len() - self@.len() ==> #[trigger] old(self)@[i] != '"',
                self.last() == last_after(
                    old(self).last(),
                    old(self)@,
                    (old(self)@.len() - self@.len()) as nat,
                ),
            ensures
                self.wf(),
                self.baseline() == old(self).baseline(),
                self@.len() == 0,
                run_len(old(self)@, str_content_class()) == old(self)@.len(),
                self.last() == last_after(old(self).last(), old(self)@, old(self)@.len()),
            decreases self@.len(),
        {
            let ghost consumed = old(self)@.len() - self@.len();
            match self.adv() {
                None => {
                    proof {
                        lemma_run_len_unique(old(self)@, str_content_class(), consumed);
                        assert(old(self)@.skip(consumed) =~= Seq::<char>::empty());
                    }
                    break ;
                },
                Some('"') => {
                    proof {
                        assert(old(self)@.skip(consumed).drop_first() =~= old(self)@.skip(
                            consumed + 1,
                        ));
                        lemma_run_len_unique(old(self)@, str_content_class(), consumed);
                    }
                    return true;
                },
                Some(_) => {
                    assert(old(self)@.skip(consumed).drop_first() =~= old(self)@.skip(
                        consumed + 1,
                    ));
                },
            }
        }
        return false;
    }
}

} // verus!
