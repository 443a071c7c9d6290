//! Errors of the AsmFG parser.
use vstd::prelude::*;

use crate::text::{extend_chars, nat_digits, push_nat_digits, str_chars, string_chars, string_from_chars};

verus! {

/// An error met while parsing a program: the line (from 0) and a message.
#[derive(Debug)]
pub struct ParsingError {
    pub line: u32,
    pub msg: String,
}

/// The text of a parsing error.
pub open spec fn parsing_error_text(line: u32, msg: Seq<char>) -> Seq<char> {
    "ParseError: Error on line "@ + nat_digits(line as nat) + ": "@ + msg
}

impl ParsingError {
    /// An error on `line` with the message `msg`.
    pub fn new(line: u32, msg: String) -> (r: ParsingError)
        ensures
            r.line == line,
            r.msg == msg,
    {
        ParsingError { line, msg }
    }

    /// The text of the error: `ParseError: Error on line <line>: <msg>`.
    pub fn to_string(&self) -> (r: String)
        ensures
            r@ == parsing_error_text(self.line, self.msg@),
    {
        let mut out = str_chars("ParseError: Error on line ");
        push_nat_digits(&mut out, self.line as u64);
        extend_chars(&mut out, &str_chars(": "));
        extend_chars(&mut out, &string_chars(&self.msg));
        string_from_chars(&out)
    }
}

} // verus!
