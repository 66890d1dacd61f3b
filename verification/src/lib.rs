//! A lexer front end: a forward-only cursor over the codepoints of a borrowed
//! string, and a tokenizer that cuts the text into length-tagged tokens.

pub mod chars;
pub mod classify;
pub mod cursor;
pub mod grammar;
pub mod lexer;
pub mod token;
