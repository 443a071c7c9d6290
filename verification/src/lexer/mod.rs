//! A lexer turning AFG source text into [`token::Token`]s.
//!
//! Whitespace (space, tab, carriage return, line feed) and `//` comments that
//! end with a line feed are skipped. At each other position the first of these
//! that matches gives the token: a keyword (as a whole word), a comparison
//! operator (`>=`, `<=`, `==`, `!=`, `<`, `>`), an arithmetic operator or `=`,
//! a symbol (`;`, brackets, braces, parentheses), a literal (a digit followed by
//! digits and underscores), an identifier (an optional `$`, a letter or `_`,
//! then letters, digits and underscores). A character where nothing matches is
//! reported as an error and skipped.
use vstd::prelude::*;

pub mod token;
mod utils;

use crate::text::{is_digit, str_chars, string_from_chars};
use crate::token::lexer::utf8_len;
use token::{
    ComparisonKind, KeywordKind, OperationKind, SymbolKind, Token, TokenKind, TokenKindView,
    TokenLocation, TokenView,
};
pub use utils::{LexResult, LexerError, LexerErrorView};

verus! {

// ---------------------------------------------------------------------------
// Specification
// ---------------------------------------------------------------------------

pub open spec fn is_alpha(c: char) -> bool {
    ('a' <= c && c <= 'z') || ('A' <= c && c <= 'Z')
}

pub open spec fn is_ident_start(c: char) -> bool {
    is_alpha(c) || c == '_'
}

pub open spec fn is_ident_char(c: char) -> bool {
    is_alpha(c) || is_digit(c) || c == '_'
}

pub open spec fn is_whitespace(c: char) -> bool {
    c == ' ' || c == '\t' || c == '\r' || c == '\n'
}

/// The number of bytes before position `i`.
pub open spec fn byte_offset(s: Seq<char>, i: int) -> nat
    decreases i,
{
    if i <= 0 {
        0
    } else {
        byte_offset(s, i - 1) + utf8_len(s[i - 1])
    }
}

/// The line of position `i`, from 1.
pub open spec fn line_number(s: Seq<char>, i: int) -> nat
    decreases i,
{
    if i <= 0 {
        1
    } else {
        line_number(s, i - 1) + if s[i - 1] == '\n' {
            1nat
        } else {
            0nat
        }
    }
}

/// The byte offset where the line of position `i` starts.
pub open spec fn line_start_byte(s: Seq<char>, i: int) -> nat
    decreases i,
{
    if i <= 0 {
        0
    } else if s[i - 1] == '\n' {
        byte_offset(s, i)
    } else {
        line_start_byte(s, i - 1)
    }
}

/// The location of the `n` characters starting at position `i`.
pub open spec fn location_at(s: Seq<char>, i: int, n: int) -> TokenLocation {
    TokenLocation {
        start: byte_offset(s, i) as usize,
        end: byte_offset(s, i + n) as usize,
        line: line_number(s, i) as usize,
        column: (byte_offset(s, i) - line_start_byte(s, i) + 1) as usize,
    }
}

/// Whether the text at `i` starts with `w`.
pub open spec fn starts_with_at(s: Seq<char>, i: int, w: Seq<char>) -> bool {
    0 <= i && i + w.len() <= s.len() && s.subrange(i, i + w.len()) == w
}

/// The number of characters from `i` on satisfying `is_ident_char`.
pub open spec fn ident_tail_len(s: Seq<char>, i: int) -> nat
    decreases s.len() - i,
{
    if 0 <= i < s.len() && is_ident_char(s[i]) {
        1 + ident_tail_len(s, i + 1)
    } else {
        0
    }
}

/// The number of characters from `i` on that are digits or underscores.
pub open spec fn digit_tail_len(s: Seq<char>, i: int) -> nat
    decreases s.len() - i,
{
    if 0 <= i < s.len() && (is_digit(s[i]) || s[i] == '_') {
        1 + digit_tail_len(s, i + 1)
    } else {
        0
    }
}

/// The position of the first line feed at or after `i`.
pub open spec fn newline_from(s: Seq<char>, i: int) -> Option<int>
    decreases s.len() - i,
{
    if i < 0 || i >= s.len() {
        None
    } else if s[i] == '\n' {
        Some(i)
    } else {
        newline_from(s, i + 1)
    }
}

pub open spec fn keyword_text(k: KeywordKind) -> Seq<char> {
    match k {
        KeywordKind::Fn => seq!['f', 'n'],
        KeywordKind::While => seq!['w', 'h', 'i', 'l', 'e'],
        KeywordKind::SetVar => seq!['s', 'e', 't'],
        KeywordKind::If => seq!['i', 'f'],
        KeywordKind::Else => seq!['e', 'l', 's', 'e'],
        KeywordKind::Return => seq!['r', 'e', 't', 'u', 'r', 'n'],
        KeywordKind::Loop => seq!['l', 'o', 'o', 'p'],
        KeywordKind::Call => seq!['c', 'a', 'l', 'l'],
        KeywordKind::Print => seq!['p', 'r', 'i', 'n', 't'],
    }
}

/// Whether keyword `k` stands at `i` as a whole word.
pub open spec fn keyword_at(s: Seq<char>, i: int, k: KeywordKind) -> bool {
    let w = keyword_text(k);
    starts_with_at(s, i, w) && !(i + w.len() < s.len() && is_ident_char(s[i + w.len()]))
}

/// What the lexer finds at a position: characters to skip, a token of the
/// given length, or a character that starts nothing.
pub enum Lexeme {
    Ignore(nat),
    Tok(TokenKindView, nat),
    Invalid,
}

pub open spec fn keyword_lexeme(s: Seq<char>, i: int) -> Option<KeywordKind> {
    if keyword_at(s, i, KeywordKind::Fn) {
        Some(KeywordKind::Fn)
    } else if keyword_at(s, i, KeywordKind::While) {
        Some(KeywordKind::While)
    } else if keyword_at(s, i, KeywordKind::SetVar) {
        Some(KeywordKind::SetVar)
    } else if keyword_at(s, i, KeywordKind::If) {
        Some(KeywordKind::If)
    } else if keyword_at(s, i, KeywordKind::Else) {
        Some(KeywordKind::Else)
    } else if keyword_at(s, i, KeywordKind::Return) {
        Some(KeywordKind::Return)
    } else if keyword_at(s, i, KeywordKind::Loop) {
        Some(KeywordKind::Loop)
    } else if keyword_at(s, i, KeywordKind::Call) {
        Some(KeywordKind::Call)
    } else if keyword_at(s, i, KeywordKind::Print) {
        Some(KeywordKind::Print)
    } else {
        None
    }
}

/// A two-character comparison operator at `i`, then a one-character one.
pub open spec fn comparison_lexeme(s: Seq<char>, i: int) -> Option<(ComparisonKind, nat)> {
    if starts_with_at(s, i, seq!['>', '=']) {
        Some((ComparisonKind::GreaterThanOrEqual, 2))
    } else if starts_with_at(s, i, seq!['<', '=']) {
        Some((ComparisonKind::LessThanOrEqual, 2))
    } else if starts_with_at(s, i, seq!['=', '=']) {
        Some((ComparisonKind::Equal, 2))
    } else if starts_with_at(s, i, seq!['!', '=']) {
        Some((ComparisonKind::NotEqual, 2))
    } else if 0 <= i < s.len() && s[i] == '<' {
        Some((ComparisonKind::LessThan, 1))
    } else if 0 <= i < s.len() && s[i] == '>' {
        Some((ComparisonKind::GreaterThan, 1))
    } else {
        None
    }
}

pub open spec fn operation_lexeme(c: char) -> Option<OperationKind> {
    if c == '+' {
        Some(OperationKind::Add)
    } else if c == '-' {
        Some(OperationKind::Subtract)
    } else if c == '*' {
        Some(OperationKind::Multiply)
    } else if c == '/' {
        Some(OperationKind::Divide)
    } else if c == '%' {
        Some(OperationKind::Modulo)
    } else if c == '=' {
        Some(OperationKind::Assign)
    } else {
        None
    }
}

pub open spec fn symbol_lexeme(c: char) -> Option<SymbolKind> {
    if c == ';' {
        Some(SymbolKind::LineBreak)
    } else if c == '(' {
        Some(SymbolKind::LeftParen)
    } else if c == ')' {
        Some(SymbolKind::RightParen)
    } else if c == '[' {
        Some(SymbolKind::LeftBracket)
    } else if c == ']' {
        Some(SymbolKind::RightBracket)
    } else if c == '{' {
        Some(SymbolKind::LeftBrace)
    } else if c == '}' {
        Some(SymbolKind::RightBrace)
    } else {
        None
    }
}

/// The length of a `//` comment ending with a line feed at `i`, line feed included.
pub open spec fn comment_lexeme(s: Seq<char>, i: int) -> Option<nat> {
    if starts_with_at(s, i, seq!['/', '/']) {
        match newline_from(s, i + 2) {
            Some(j) => Some((j - i + 1) as nat),
            None => None,
        }
    } else {
        None
    }
}

/// The length of an identifier at `i`: an optional `$`, then a letter or
/// underscore, then identifier characters.
pub open spec fn identifier_lexeme(s: Seq<char>, i: int) -> Option<nat> {
    let j = if 0 <= i < s.len() && s[i] == '$' {
        i + 1
    } else {
        i
    };
    if 0 <= j < s.len() && is_ident_start(s[j]) {
        Some((j - i + 1 + ident_tail_len(s, j + 1)) as nat)
    } else {
        None
    }
}

/// What stands at position `i` (with `0 <= i < s.len()`).
pub open spec fn lexeme_at(s: Seq<char>, i: int) -> Lexeme {
    if is_whitespace(s[i]) {
        Lexeme::Ignore(1)
    } else if comment_lexeme(s, i) is Some {
        Lexeme::Ignore(comment_lexeme(s, i)->0)
    } else if keyword_lexeme(s, i) is Some {
        let k = keyword_lexeme(s, i)->0;
        Lexeme::Tok(TokenKindView::Keyword(k), keyword_text(k).len())
    } else if comparison_lexeme(s, i) is Some {
        let (c, n) = comparison_lexeme(s, i)->0;
        Lexeme::Tok(TokenKindView::Comp(c), n)
    } else if operation_lexeme(s[i]) is Some {
        Lexeme::Tok(TokenKindView::Op(operation_lexeme(s[i])->0), 1)
    } else if symbol_lexeme(s[i]) is Some {
        Lexeme::Tok(TokenKindView::Symbol(symbol_lexeme(s[i])->0), 1)
    } else if is_digit(s[i]) {
        let n = 1 + digit_tail_len(s, i + 1);
        Lexeme::Tok(TokenKindView::Literal(s.subrange(i, i + n)), n)
    } else if identifier_lexeme(s, i) is Some {
        let n = identifier_lexeme(s, i)->0;
        Lexeme::Tok(TokenKindView::Ident(s.subrange(i, i + n)), n)
    } else {
        Lexeme::Invalid
    }
}

/// The error recorded for a character that starts no token.
pub open spec fn invalid_char_error(s: Seq<char>, i: int) -> LexerErrorView {
    LexerErrorView { message: "Failed to parse token"@, location: location_at(s, i, 1) }
}

/// The tokens and errors found from position `i` on, appended to those given.
pub open spec fn scan(
    s: Seq<char>,
    i: int,
    toks: Seq<TokenView>,
    errs: Seq<LexerErrorView>,
) -> (Seq<TokenView>, Seq<LexerErrorView>)
    decreases s.len() - i,
{
    if i < 0 || i >= s.len() {
        (toks, errs)
    } else {
        match lexeme_at(s, i) {
            Lexeme::Ignore(n) => if n >= 1 && i + n <= s.len() {
                scan(s, i + n, toks, errs)
            } else {
                (toks, errs)
            },
            Lexeme::Tok(k, n) => if n >= 1 && i + n <= s.len() {
                scan(s, i + n, toks.push(TokenView { kind: k, location: location_at(s, i, n as int) }), errs)
            } else {
                (toks, errs)
            },
            Lexeme::Invalid => scan(s, i + 1, toks, errs.push(invalid_char_error(s, i))),
        }
    }
}

/// The tokens and errors of a source text.
pub open spec fn lex_source(s: Seq<char>) -> (Seq<TokenView>, Seq<LexerErrorView>) {
    scan(s, 0, seq![], seq![])
}

// ---------------------------------------------------------------------------
// Positions
// ---------------------------------------------------------------------------

proof fn lemma_offsets(s: Seq<char>, i: int)
    requires
        0 <= i <= s.len(),
    ensures
        byte_offset(s, i) <= 4 * i,
        line_number(s, i) <= i + 1,
        line_start_byte(s, i) <= byte_offset(s, i),
    decreases i,
{
    if i > 0 {
        lemma_offsets(s, i - 1);
    }
}

proof fn lemma_offset_monotone(s: Seq<char>, i: int, j: int)
    requires
        0 <= i <= j <= s.len(),
    ensures
        byte_offset(s, i) <= byte_offset(s, j),
    decreases j - i,
{
    if i < j {
        lemma_offset_monotone(s, i, j - 1);
    }
}

fn char_width(c: char) -> (n: usize)
    ensures
        n == utf8_len(c),
        1 <= n <= 4,
{
    let u = c as u32;
    if u < 0x80 {
        1
    } else if u < 0x800 {
        2
    } else if u < 0x10000 {
        3
    } else {
        4
    }
}

/// Moves the position counters over the `n` characters starting at `i`.
fn advance(s: &Vec<char>, i: usize, n: usize, byte: usize, line: usize, line_start: usize) -> (r:
    (usize, usize, usize))
    requires
        i + n <= s.len(),
        s.len() <= usize::MAX / 8,
        byte == byte_offset(s@, i as int),
        line == line_number(s@, i as int),
        line_start == line_start_byte(s@, i as int),
    ensures
        r.0 == byte_offset(s@, i + n),
        r.1 == line_number(s@, i + n),
        r.2 == line_start_byte(s@, i + n),
{
    let mut j = i;
    let mut b = byte;
    let mut l = line;
    let mut ls = line_start;
    while j < i + n
        invariant
            i <= j <= i + n,
            i + n <= s.len(),
            s.len() <= usize::MAX / 8,
            b == byte_offset(s@, j as int),
            l == line_number(s@, j as int),
            ls == line_start_byte(s@, j as int),
        decreases i + n - j,
    {
        proof {
            lemma_offsets(s@, j + 1);
        }
        b = b + char_width(s[j]);
        if s[j] == '\n' {
            l = l + 1;
            ls = b;
        }
        j = j + 1;
    }
    (b, l, ls)
}

fn location(s: &Vec<char>, i: usize, n: usize, byte: usize, line: usize, line_start: usize) -> (r:
    TokenLocation)
    requires
        i + n <= s.len(),
        s.len() <= usize::MAX / 8,
        byte == byte_offset(s@, i as int),
        line == line_number(s@, i as int),
        line_start == line_start_byte(s@, i as int),
    ensures
        r == location_at(s@, i as int, n as int),
{
    proof {
        lemma_offsets(s@, i as int);
    }
    let (end, _, _) = advance(s, i, n, byte, line, line_start);
    TokenLocation { start: byte, end, line, column: byte - line_start + 1 }
}

// ---------------------------------------------------------------------------
// Recognisers
// ---------------------------------------------------------------------------

fn starts_with(s: &Vec<char>, i: usize, w: &Vec<char>) -> (r: bool)
    requires
        i <= s.len(),
    ensures
        r == starts_with_at(s@, i as int, w@),
{
    if w.len() > s.len() - i {
        return false;
    }
    let mut k: usize = 0;
    while k < w.len()
        invariant
            k <= w.len(),
            i + w.len() <= s.len(),
            s@.subrange(i as int, i + k) == w@.take(k as int),
        decreases w.len() - k,
    {
        if s[i + k] != w[k] {
            assert(s@.subrange(i as int, i + w.len())[k as int] != w@[k as int]);
            return false;
        }
        assert(s@.subrange(i as int, i + k + 1) =~= s@.subrange(i as int, i + k).push(s@[i + k]));
        assert(w@.take(k + 1) =~= w@.take(k as int).push(w@[k as int]));
        k = k + 1;
    }
    assert(w@.take(w.len() as int) =~= w@);
    true
}

fn is_alpha_char(c: char) -> (r: bool)
    ensures
        r == is_alpha(c),
{
    ('a' <= c && c <= 'z') || ('A' <= c && c <= 'Z')
}

fn is_digit_char(c: char) -> (r: bool)
    ensures
        r == is_digit(c),
{
    '0' <= c && c <= '9'
}

fn is_ident_char_exec(c: char) -> (r: bool)
    ensures
        r == is_ident_char(c),
{
    is_alpha_char(c) || is_digit_char(c) || c == '_'
}

/// Whitespace: a space, a tab, a carriage return or a line feed.
fn whitespace_parser(c: char) -> (r: bool)
    ensures
        r == is_whitespace(c),
{
    c == ' ' || c == '\t' || c == '\r' || c == '\n'
}

fn newline_position(s: &Vec<char>, i: usize) -> (r: Option<usize>)
    ensures
        match newline_from(s@, i as int) {
            Some(j) => r == Some(j as usize),
            None => r is None,
        },
{
    let mut j = i;
    while j < s.len()
        invariant
            i <= j,
            newline_from(s@, i as int) == newline_from(s@, j as int),
        decreases s.len() - j,
    {
        if s[j] == '\n' {
            return Some(j);
        }
        j = j + 1;
    }
    None
}

/// A `//` comment ending with a line feed; gives its length, line feed included.
fn comments_parser(s: &Vec<char>, i: usize) -> (r: Option<usize>)
    requires
        i < s.len(),
    ensures
        match comment_lexeme(s@, i as int) {
            Some(n) => r == Some(n as usize),
            None => r is None,
        },
{
    if starts_with(s, i, &vec!['/', '/']) {
        proof {
            lemma_newline_from(s@, i + 2);
        }
        match newline_position(s, i + 2) {
            Some(j) => Some(j - i + 1),
            None => None,
        }
    } else {
        None
    }
}

fn keyword_chars(k: KeywordKind) -> (r: Vec<char>)
    ensures
        r@ == keyword_text(k),
{
    match k {
        KeywordKind::Fn => vec!['f', 'n'],
        KeywordKind::While => vec!['w', 'h', 'i', 'l', 'e'],
        KeywordKind::SetVar => vec!['s', 'e', 't'],
        KeywordKind::If => vec!['i', 'f'],
        KeywordKind::Else => vec!['e', 'l', 's', 'e'],
        KeywordKind::Return => vec!['r', 'e', 't', 'u', 'r', 'n'],
        KeywordKind::Loop => vec!['l', 'o', 'o', 'p'],
        KeywordKind::Call => vec!['c', 'a', 'l', 'l'],
        KeywordKind::Print => vec!['p', 'r', 'i', 'n', 't'],
    }
}

fn keyword_matches(s: &Vec<char>, i: usize, k: KeywordKind) -> (r: bool)
    requires
        i <= s.len(),
    ensures
        r == keyword_at(s@, i as int, k),
{
    let w = keyword_chars(k);
    if !starts_with(s, i, &w) {
        return false;
    }
    let end = i + w.len();
    !(end < s.len() && is_ident_char_exec(s[end]))
}

/// A keyword standing as a whole word.
pub fn keywords_parser(s: &Vec<char>, i: usize) -> (r: Option<KeywordKind>)
    requires
        i <= s.len(),
    ensures
        r == keyword_lexeme(s@, i as int),
{
    if keyword_matches(s, i, KeywordKind::Fn) {
        Some(KeywordKind::Fn)
    } else if keyword_matches(s, i, KeywordKind::While) {
        Some(KeywordKind::While)
    } else if keyword_matches(s, i, KeywordKind::SetVar) {
        Some(KeywordKind::SetVar)
    } else if keyword_matches(s, i, KeywordKind::If) {
        Some(KeywordKind::If)
    } else if keyword_matches(s, i, KeywordKind::Else) {
        Some(KeywordKind::Else)
    } else if keyword_matches(s, i, KeywordKind::Return) {
        Some(KeywordKind::Return)
    } else if keyword_matches(s, i, KeywordKind::Loop) {
        Some(KeywordKind::Loop)
    } else if keyword_matches(s, i, KeywordKind::Call) {
        Some(KeywordKind::Call)
    } else if keyword_matches(s, i, KeywordKind::Print) {
        Some(KeywordKind::Print)
    } else {
        None
    }
}

/// A comparison operator, two-character ones first.
fn comparison_operators_parser(s: &Vec<char>, i: usize) -> (r: Option<(ComparisonKind, usize)>)
    requires
        i < s.len(),
    ensures
        match comparison_lexeme(s@, i as int) {
            Some((k, n)) => r == Some((k, n as usize)),
            None => r is None,
        },
{
    if starts_with(s, i, &vec!['>', '=']) {
        Some((ComparisonKind::GreaterThanOrEqual, 2))
    } else if starts_with(s, i, &vec!['<', '=']) {
        Some((ComparisonKind::LessThanOrEqual, 2))
    } else if starts_with(s, i, &vec!['=', '=']) {
        Some((ComparisonKind::Equal, 2))
    } else if starts_with(s, i, &vec!['!', '=']) {
        Some((ComparisonKind::NotEqual, 2))
    } else if s[i] == '<' {
        Some((ComparisonKind::LessThan, 1))
    } else if s[i] == '>' {
        Some((ComparisonKind::GreaterThan, 1))
    } else {
        None
    }
}

/// An arithmetic operator or the assignment sign.
fn arithmetic_operators_parser(c: char) -> (r: Option<OperationKind>)
    ensures
        r == operation_lexeme(c),
{
    if c == '+' {
        Some(OperationKind::Add)
    } else if c == '-' {
        Some(OperationKind::Subtract)
    } else if c == '*' {
        Some(OperationKind::Multiply)
    } else if c == '/' {
        Some(OperationKind::Divide)
    } else if c == '%' {
        Some(OperationKind::Modulo)
    } else if c == '=' {
        Some(OperationKind::Assign)
    } else {
        None
    }
}

/// A line break, a parenthesis, a bracket or a brace.
pub fn symbols_parser(c: char) -> (r: Option<SymbolKind>)
    ensures
        r == symbol_lexeme(c),
{
    if c == ';' {
        Some(SymbolKind::LineBreak)
    } else if c == '(' {
        Some(SymbolKind::LeftParen)
    } else if c == ')' {
        Some(SymbolKind::RightParen)
    } else if c == '[' {
        Some(SymbolKind::LeftBracket)
    } else if c == ']' {
        Some(SymbolKind::RightBracket)
    } else if c == '{' {
        Some(SymbolKind::LeftBrace)
    } else if c == '}' {
        Some(SymbolKind::RightBrace)
    } else {
        None
    }
}

fn digit_tail(s: &Vec<char>, i: usize) -> (n: usize)
    requires
        i <= s.len(),
    ensures
        n == digit_tail_len(s@, i as int),
        i + n <= s.len(),
{
    let mut j = i;
    while j < s.len() && (is_digit_char(s[j]) || s[j] == '_')
        invariant
            i <= j <= s.len(),
            digit_tail_len(s@, i as int) == (j - i) + digit_tail_len(s@, j as int),
        decreases s.len() - j,
    {
        j = j + 1;
    }
    j - i
}

fn ident_tail(s: &Vec<char>, i: usize) -> (n: usize)
    requires
        i <= s.len(),
    ensures
        n == ident_tail_len(s@, i as int),
        i + n <= s.len(),
{
    let mut j = i;
    while j < s.len() && is_ident_char_exec(s[j])
        invariant
            i <= j <= s.len(),
            ident_tail_len(s@, i as int) == (j - i) + ident_tail_len(s@, j as int),
        decreases s.len() - j,
    {
        j = j + 1;
    }
    j - i
}

/// A literal: a digit, then digits and underscores; gives its length.
fn literals_parser(s: &Vec<char>, i: usize) -> (r: Option<usize>)
    requires
        i < s.len(),
    ensures
        is_digit(s@[i as int]) ==> (r matches Some(n) && n == 1 + digit_tail_len(s@, i + 1)),
        !is_digit(s@[i as int]) ==> r is None,
        r matches Some(n) ==> i + n <= s.len(),
{
    if is_digit_char(s[i]) {
        Some(1 + digit_tail(s, i + 1))
    } else {
        None
    }
}

/// An identifier: an optional `$`, a letter or underscore, then letters,
/// digits and underscores; gives its length.
fn identifier_parser(s: &Vec<char>, i: usize) -> (r: Option<usize>)
    requires
        i < s.len(),
    ensures
        match identifier_lexeme(s@, i as int) {
            Some(n) => r == Some(n as usize) && i + n <= s.len(),
            None => r is None,
        },
{
    let j = if s[i] == '$' { i + 1 } else { i };
    if j < s.len() && (is_alpha_char(s[j]) || s[j] == '_') {
        let t = ident_tail(s, j + 1);
        Some(j - i + 1 + t)
    } else {
        None
    }
}

fn slice_chars(s: &Vec<char>, i: usize, n: usize) -> (r: Vec<char>)
    requires
        i + n <= s.len(),
    ensures
        r@ == s@.subrange(i as int, i + n),
{
    let mut out: Vec<char> = Vec::new();
    let mut k: usize = 0;
    while k < n
        invariant
            k <= n,
            i + n <= s.len(),
            out@ == s@.subrange(i as int, i + k),
        decreases n - k,
    {
        out.push(s[i + k]);
        k = k + 1;
        assert(out@ =~= s@.subrange(i as int, i + k));
    }
    out
}

/// The token at `i`, where no whitespace or comment starts; gives the token's
/// kind and length, or nothing when no token starts there.
fn token_parser(s: &Vec<char>, i: usize) -> (r: Option<(TokenKind, usize)>)
    requires
        i < s.len(),
        !(lexeme_at(s@, i as int) is Ignore),
    ensures
        match lexeme_at(s@, i as int) {
            Lexeme::Tok(k, n) => r matches Some((kind, m)) && kind@ == k && m == n && 1 <= m
                && i + m <= s.len(),
            _ => r is None,
        },
{
    if let Some(k) = keywords_parser(s, i) {
        let n = keyword_chars(k).len();
        proof {
            assert(starts_with_at(s@, i as int, keyword_text(k)));
        }
        return Some((TokenKind::Keyword(k), n));
    }
    if let Some((c, n)) = comparison_operators_parser(s, i) {
        return Some((TokenKind::Comp(c), n));
    }
    if let Some(o) = arithmetic_operators_parser(s[i]) {
        return Some((TokenKind::Op(o), 1));
    }
    if let Some(sym) = symbols_parser(s[i]) {
        return Some((TokenKind::Symbol(sym), 1));
    }
    if let Some(n) = literals_parser(s, i) {
        let text = slice_chars(s, i, n);
        proof {
            assert(is_digit(s@[i as int]));
            assert(lexeme_at(s@, i as int) == Lexeme::Tok(
                TokenKindView::Literal(s@.subrange(i as int, i + n)),
                n as nat,
            ));
        }
        return Some((TokenKind::Literal(string_from_chars(&text)), n));
    }
    if let Some(n) = identifier_parser(s, i) {
        let text = slice_chars(s, i, n);
        return Some((TokenKind::Ident(string_from_chars(&text)), n));
    }
    None
}

/// Skips whitespace and comments from `i` on; the tokens and errors found from
/// the returned position are those found from `i`.
fn skip_ignorable(
    s: &Vec<char>,
    i: usize,
    Ghost(toks): Ghost<Seq<TokenView>>,
    Ghost(errs): Ghost<Seq<LexerErrorView>>,
) -> (r: usize)
    requires
        i <= s.len(),
    ensures
        i <= r <= s.len(),
        scan(s@, i as int, toks, errs) == scan(s@, r as int, toks, errs),
        r < s.len() ==> !(lexeme_at(s@, r as int) is Ignore),
{
    let mut j = i;
    while j < s.len()
        invariant
            i <= j <= s.len(),
            scan(s@, i as int, toks, errs) == scan(s@, j as int, toks, errs),
        decreases s.len() - j,
    {
        if whitespace_parser(s[j]) {
            j = j + 1;
        } else {
            match comments_parser(s, j) {
                Some(n) => {
                    proof {
                        let k = newline_from(s@, j + 2)->0;
                        lemma_newline_from(s@, j + 2);
                    }
                    j = j + n;
                },
                None => {
                    return j;
                },
            }
        }
    }
    j
}

proof fn lemma_newline_from(s: Seq<char>, i: int)
    ensures
        newline_from(s, i) matches Some(j) ==> i <= j < s.len() && 0 <= i,
    decreases s.len() - i,
{
    if 0 <= i < s.len() && s[i] != '\n' {
        lemma_newline_from(s, i + 1);
    }
}

/// Cuts a source text into tokens, collecting an error for every character
/// where no token starts.
pub fn parse_source(source: &str) -> (r: LexResult)
    requires
        source@.len() <= usize::MAX / 8,
    ensures
        r.tokens@.map_values(|t: Token| t@) == lex_source(source@).0,
        r.errors@.map_values(|e: LexerError| e@) == lex_source(source@).1,
{
    let s = str_chars(source);
    let mut tokens: Vec<Token> = Vec::new();
    let mut errors: Vec<LexerError> = Vec::new();
    let mut i: usize = 0;
    let mut byte: usize = 0;
    let mut line: usize = 1;
    let mut line_start: usize = 0;
    assert(tokens@.map_values(|t: Token| t@) =~= Seq::<TokenView>::empty());
    assert(errors@.map_values(|e: LexerError| e@) =~= Seq::<LexerErrorView>::empty());
    while i < s.len()
        invariant
            i <= s.len(),
            s@ == source@,
            s.len() <= usize::MAX / 8,
            byte == byte_offset(s@, i as int),
            line == line_number(s@, i as int),
            line_start == line_start_byte(s@, i as int),
            lex_source(s@) == scan(
                s@,
                i as int,
                tokens@.map_values(|t: Token| t@),
                errors@.map_values(|e: LexerError| e@),
            ),
        decreases s.len() - i,
    {
        let ghost tv = tokens@.map_values(|t: Token| t@);
        let ghost ev = errors@.map_values(|e: LexerError| e@);
        let j = skip_ignorable(&s, i, Ghost(tv), Ghost(ev));
        let (b, l, ls) = advance(&s, i, j - i, byte, line, line_start);
        byte = b;
        line = l;
        line_start = ls;
        i = j;
        if i < s.len() {
        match token_parser(&s, i) {
            Some((kind, n)) => {
                let loc = location(&s, i, n, byte, line, line_start);
                let t = Token { kind, location: loc };
                tokens.push(t);
                assert(tokens@.map_values(|t: Token| t@) =~= tv.push(t@));
                let (b, l, ls) = advance(&s, i, n, byte, line, line_start);
                byte = b;
                line = l;
                line_start = ls;
                i = i + n;
            },
            None => {
                let loc = location(&s, i, 1, byte, line, line_start);
                let e = LexerError { message: String::from_str("Failed to parse token"), location: loc };
                errors.push(e);
                assert(errors@.map_values(|e: LexerError| e@) =~= ev.push(e@));
                let (b, l, ls) = advance(&s, i, 1, byte, line, line_start);
                byte = b;
                line = l;
                line_start = ls;
                i = i + 1;
            },
        }
        }
    }
    LexResult { tokens, errors }
}


/// Whether each token ends before the next one starts.
pub open spec fn tokens_in_order(toks: Seq<TokenView>) -> bool {
    forall|k: int, l: int|
        0 <= k < l < toks.len() ==> #[trigger] toks[k].location.end <= #[trigger] toks[l].location.start
}

/// Whether every token ends by the byte offset `b`.
pub open spec fn tokens_end_by(toks: Seq<TokenView>, b: nat) -> bool {
    forall|k: int| 0 <= k < toks.len() ==> (#[trigger] toks[k]).location.end <= b
}

proof fn lemma_scan_in_order(s: Seq<char>, i: int, toks: Seq<TokenView>, errs: Seq<LexerErrorView>)
    requires
        0 <= i <= s.len(),
        s.len() <= usize::MAX / 4,
        tokens_in_order(toks),
        tokens_end_by(toks, byte_offset(s, i)),
    ensures
        tokens_in_order(scan(s, i, toks, errs).0),
    decreases s.len() - i,
{
    if i < s.len() {
        match lexeme_at(s, i) {
            Lexeme::Ignore(n) => {
                if n >= 1 && i + n <= s.len() {
                    lemma_offset_monotone(s, i, i + n);
                    lemma_scan_in_order(s, i + n, toks, errs);
                }
            },
            Lexeme::Tok(k, n) => {
                if n >= 1 && i + n <= s.len() {
                    lemma_offset_monotone(s, i, i + n);
                    lemma_offsets(s, i + n);
                    let t = TokenView { kind: k, location: location_at(s, i, n as int) };
                    let more = toks.push(t);
                    assert(tokens_in_order(more)) by {
                        assert forall|a: int, b: int| 0 <= a < b < more.len() implies #[trigger] more[a].location.end
                            <= #[trigger] more[b].location.start by {
                            if b == toks.len() {
                                assert(more[a] == toks[a]);
                            } else {
                                assert(more[a] == toks[a] && more[b] == toks[b]);
                            }
                        }
                    }
                    assert(tokens_end_by(more, byte_offset(s, i + n))) by {
                        assert forall|a: int| 0 <= a < more.len() implies (#[trigger] more[a]).location.end
                            <= byte_offset(s, i + n) by {
                            if a < toks.len() {
                                assert(more[a] == toks[a]);
                            }
                        }
                    }
                    lemma_scan_in_order(s, i + n, more, errs);
                }
            },
            Lexeme::Invalid => {
                lemma_offset_monotone(s, i, i + 1);
                lemma_scan_in_order(s, i + 1, toks, errs.push(invalid_char_error(s, i)));
            },
        }
    }
}

/// The tokens of a text come in the order of the text: each one ends before
/// the next one starts.
pub proof fn lemma_tokens_in_order(s: Seq<char>)
    requires
        s.len() <= usize::MAX / 4,
    ensures
        tokens_in_order(lex_source(s).0),
{
    lemma_scan_in_order(s, 0, seq![], seq![]);
}

} // verus!
