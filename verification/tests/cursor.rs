use lexer::cursor::{Cursor, EOF_CHAR};

fn condition_notdigit(c: char) -> bool {
    if c.is_digit(10) {
        return false;
    }
    return true;
}

#[test]
fn test_adv() {
    let input = "ab";
    let mut cursor = Cursor::new(input);

    assert_eq!(cursor.adv(), Some('a'));
    assert_eq!(cursor.adv(), Some('b'));
    // Try calling when there is nothing left
    assert_eq!(cursor.adv(), None);
}

#[test]
fn test_peek() {
    let input = "a";
    let mut cursor = Cursor::new(input);

    assert_eq!(cursor.peek(), 'a');
    // Peek when there is nothing there
    cursor.adv();
    assert_eq!(cursor.peek(), EOF_CHAR);
}

#[test]
fn test_adv_until() {
    // Advance until we hit a digit
    let input = "abcds9";
    let mut cursor = Cursor::new(input);

    cursor.adv_until(condition_notdigit);

    assert_eq!(cursor.adv(), Some('9'));
}

#[test]
fn peek_does_not_consume() {
    let mut cursor = Cursor::new("xy");
    assert_eq!(cursor.peek(), 'x');
    assert_eq!(cursor.peek(), 'x');
    assert_eq!(cursor.len_consumed(), 0);
    assert_eq!(cursor.adv(), Some('x'));
    assert_eq!(cursor.peek(), 'y');
    assert_eq!(cursor.adv(), Some('y'));
    assert_eq!(cursor.peek(), EOF_CHAR);
    assert_eq!(cursor.peek(), '\0');
}

#[test]
fn is_empty_follows_the_position() {
    let mut cursor = Cursor::new("ab");
    assert!(!cursor.is_empty());
    cursor.adv();
    assert!(!cursor.is_empty());
    cursor.adv();
    assert!(cursor.is_empty());
    assert_eq!(cursor.adv(), None);
    assert!(cursor.is_empty());
}

#[test]
fn empty_input_is_empty_at_once() {
    let mut cursor = Cursor::new("");
    assert!(cursor.is_empty());
    assert_eq!(cursor.peek(), EOF_CHAR);
    assert_eq!(cursor.adv(), None);
    assert_eq!(cursor.len_consumed(), 0);
}

#[test]
fn len_consumed_counts_codepoints() {
    // Two bytes each in UTF-8, one codepoint each.
    let mut cursor = Cursor::new("éé!");
    assert_eq!(cursor.len_consumed(), 0);
    assert_eq!(cursor.adv(), Some('é'));
    assert_eq!(cursor.len_consumed(), 1);
    assert_eq!(cursor.adv(), Some('é'));
    assert_eq!(cursor.len_consumed(), 2);
    assert_eq!(cursor.adv(), Some('!'));
    assert_eq!(cursor.len_consumed(), 3);
    assert!(cursor.is_empty());
    assert_eq!(cursor.adv(), None);
    assert_eq!(cursor.len_consumed(), 3);
}

#[test]
fn reset_len_consumed_moves_the_baseline() {
    let mut cursor = Cursor::new("abcd");
    cursor.adv();
    cursor.adv();
    assert_eq!(cursor.len_consumed(), 2);
    cursor.reset_len_consumed();
    assert_eq!(cursor.len_consumed(), 0);
    assert_eq!(cursor.peek(), 'c');
    cursor.adv();
    assert_eq!(cursor.len_consumed(), 1);
    cursor.reset_len_consumed();
    cursor.reset_len_consumed();
    assert_eq!(cursor.len_consumed(), 0);
    assert_eq!(cursor.adv(), Some('d'));
}

#[test]
fn adv_until_stops_at_the_end_of_input() {
    let mut cursor = Cursor::new("abc");
    cursor.adv_until(|_c: char| true);
    assert!(cursor.is_empty());
    assert_eq!(cursor.len_consumed(), 3);
    assert_eq!(cursor.adv(), None);
}

#[test]
fn adv_until_with_sentinel_accepting_condition_on_empty_input() {
    let mut cursor = Cursor::new("");
    cursor.adv_until(|c: char| c == EOF_CHAR);
    assert!(cursor.is_empty());
    assert_eq!(cursor.len_consumed(), 0);
}

#[test]
fn adv_until_consumes_nothing_when_first_is_rejected() {
    let mut cursor = Cursor::new("9abc");
    cursor.adv_until(condition_notdigit);
    assert_eq!(cursor.len_consumed(), 0);
    assert_eq!(cursor.peek(), '9');
}

#[test]
fn adv_until_accepts_a_stateful_condition() {
    let mut seen = 0usize;
    let mut cursor = Cursor::new("aaaa");
    cursor.adv_until(|c: char| {
        seen += 1;
        c == 'a' && seen <= 2
    });
    assert_eq!(cursor.len_consumed(), 2);
    assert_eq!(seen, 3);
}
