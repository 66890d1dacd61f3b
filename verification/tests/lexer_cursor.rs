use lexer::cursor::{Cursor, EOF_CHAR};
use lexer::token::{LiteralKind, Token, TokenKind};

fn not_a_digit(c: char) -> bool {
    if c.is_digit(10) {
        return false;
    }
    return true;
}

#[test]
fn cursor_test_adv() {
    let input = "ab";
    let mut cursor = Cursor::new(input);

    assert_eq!(cursor.adv(), Some('a'));
    assert_eq!(cursor.adv(), Some('b'));
    // Try calling when there is nothing left
    assert_eq!(cursor.adv(), None);
}

#[test]
fn cursor_test_peek() {
    let input = "a";
    let mut cursor = Cursor::new(input);

    assert_eq!(cursor.peek(), 'a');
    // Peek when there is nothing there
    cursor.adv();
    assert_eq!(cursor.peek(), EOF_CHAR);
}

#[test]
fn cursor_test_adv_until() {
    // Advance until we hit a digit
    let input = "abcds9";
    let mut cursor = Cursor::new(input);

    cursor.adv_until(not_a_digit);

    assert_eq!(cursor.adv(), Some('9'));
}

#[test]
fn eat_token_reads_one_token() {
    let mut cursor = Cursor::new("foo bar");
    let token = cursor.eat_token();
    assert_eq!(token, Token { kind: TokenKind::Identifier, len: 3 });
    assert_eq!(cursor.peek(), ' ');
}

#[test]
fn eat_token_without_reset_accumulates_length() {
    let mut cursor = Cursor::new("foo bar");
    assert_eq!(cursor.eat_token(), Token { kind: TokenKind::Identifier, len: 3 });
    // The baseline was not reset: the length runs on from the first token.
    assert_eq!(cursor.eat_token(), Token { kind: TokenKind::Whitespace, len: 4 });
    cursor.reset_len_consumed();
    assert_eq!(cursor.eat_token(), Token { kind: TokenKind::Identifier, len: 3 });
    assert!(cursor.is_empty());
}

#[test]
fn eat_token_string_literals() {
    let mut cursor = Cursor::new("\"ab\"cd");
    assert_eq!(
        cursor.eat_token(),
        Token { kind: TokenKind::Literal { kind: LiteralKind::Str { terminated: true } }, len: 4 }
    );
    assert_eq!(cursor.peek(), 'c');

    let mut cursor = Cursor::new("\"ab cd");
    assert_eq!(
        cursor.eat_token(),
        Token { kind: TokenKind::Literal { kind: LiteralKind::Str { terminated: false } }, len: 6 }
    );
    assert!(cursor.is_empty());
}

#[test]
fn token_new_keeps_its_arguments() {
    let token = Token::new(TokenKind::Semi, 1);
    assert_eq!(token.kind, TokenKind::Semi);
    assert_eq!(token.len, 1);
    let token = Token::new(TokenKind::Literal { kind: LiteralKind::Str { terminated: false } }, 7);
    assert_eq!(
        token,
        Token { kind: TokenKind::Literal { kind: LiteralKind::Str { terminated: false } }, len: 7 }
    );
}
