use vstd::prelude::*;

use super::{tokens_view, Token, TokenType, TokenView};
use crate::text::{
    chars_equal, int_chars, parse_i32, parse_i32_spec, push_int_chars, str_chars, string_chars,
    string_from_chars, IntParseError,
};

verus! {

// ---------------------------------------------------------------------------
// Specification
// ---------------------------------------------------------------------------

/// The characters at which the text is cut; each of them is a piece of its own.
pub open spec fn is_separator(c: char) -> bool {
    c == ' ' || c == '(' || c == ')' || c == '{' || c == '}' || c == '\n' || c == ';' || c == '['
        || c == ']' || c == '+' || c == '-' || c == '*' || c == '/' || c == '%' || c == '<' || c
        == '=' || c == '>'
}

/// The number of bytes of a character in UTF-8.
pub open spec fn utf8_len(c: char) -> nat {
    if (c as u32) < 0x80 {
        1
    } else if (c as u32) < 0x800 {
        2
    } else if (c as u32) < 0x10000 {
        3
    } else {
        4
    }
}

/// A piece of the text: its characters, its line and its position.
pub struct PieceView {
    pub text: Seq<char>,
    pub line: nat,
    pub pos: nat,
}

/// The state of the splitter after a prefix of the text: the pieces cut so far,
/// the run of non-separator characters not cut yet and the byte offset where it
/// starts, the current line and the byte offset where it starts, and the byte
/// offset reached.
pub struct SplitState {
    pub pieces: Seq<PieceView>,
    pub run: Seq<char>,
    pub run_start: nat,
    pub line: nat,
    pub line_start: nat,
    pub byte: nat,
}

pub open spec fn split_step(st: SplitState, c: char) -> SplitState {
    if is_separator(c) {
        let with_run = if st.run.len() > 0 {
            st.pieces.push(PieceView { text: st.run, line: st.line, pos: st.run_start })
        } else {
            st.pieces
        };
        SplitState {
            pieces: with_run.push(PieceView { text: seq![c], line: st.line, pos: st.byte }),
            run: seq![],
            run_start: st.byte + 1,
            line: if c == '\n' {
                st.line + 1
            } else {
                st.line
            },
            line_start: if c == '\n' {
                st.byte + 1
            } else {
                st.line_start
            },
            byte: st.byte + 1,
        }
    } else {
        SplitState {
            pieces: st.pieces,
            run: st.run.push(c),
            run_start: st.run_start,
            line: st.line,
            line_start: st.line_start,
            byte: st.byte + utf8_len(c),
        }
    }
}

pub open spec fn split_run(s: Seq<char>) -> SplitState
    decreases s.len(),
{
    if s.len() == 0 {
        SplitState { pieces: seq![], run: seq![], run_start: 0, line: 1, line_start: 0, byte: 0 }
    } else {
        split_step(split_run(s.drop_last()), s.last())
    }
}

/// The pieces of a text: every separator character alone, and every maximal run
/// of other characters. A piece has the line it stands on (from 1) and the byte
/// offset where it starts; the last run, when the text does not end with a
/// separator, has its offset counted from the start of its line instead.
pub open spec fn split_pieces(s: Seq<char>) -> Seq<PieceView> {
    let st = split_run(s);
    if st.run.len() > 0 {
        st.pieces.push(
            PieceView { text: st.run, line: st.line, pos: (st.run_start - st.line_start) as nat },
        )
    } else {
        st.pieces
    }
}

/// The characters of `s` other than commas.
pub open spec fn drop_commas(s: Seq<char>) -> Seq<char>
    decreases s.len(),
{
    if s.len() == 0 {
        seq![]
    } else if s.last() == ',' {
        drop_commas(s.drop_last())
    } else {
        drop_commas(s.drop_last()).push(s.last())
    }
}

pub open spec fn is_keyword_text(s: Seq<char>) -> bool {
    s == seq!['f', 'n'] || s == seq!['w', 'h', 'i', 'l', 'e'] || s == seq!['s', 'e', 't'] || s
        == seq!['i', 'f'] || s == seq!['e', 'l', 's', 'e'] || s == seq![
        'r',
        'e',
        't',
        'u',
        'r',
        'n',
    ] || s == seq!['l', 'o', 'o', 'p'] || s == seq!['c', 'a', 'l', 'l'] || s == seq![
        'p',
        'r',
        'i',
        'n',
        't',
    ]
}

pub open spec fn is_operator_text(s: Seq<char>) -> bool {
    s == seq!['+'] || s == seq!['-'] || s == seq!['*'] || s == seq!['/'] || s == seq!['%'] || s
        == seq!['<'] || s == seq!['='] || s == seq!['>']
}

pub open spec fn piece_token(
    token_type: TokenType,
    value: Option<Seq<char>>,
    p: PieceView,
) -> TokenView {
    TokenView { token_type, value, line: p.line as usize, char: p.pos as usize }
}

/// The token a piece becomes: spaces are dropped, keywords and operators keep
/// their text, punctuation has no value, and anything else is an identifier
/// whose commas are removed.
pub open spec fn classify_piece(p: PieceView) -> Option<TokenView> {
    let t = p.text;
    if t == seq![' '] {
        None
    } else if is_keyword_text(t) {
        Some(piece_token(TokenType::KEYWORD, Some(t), p))
    } else if is_operator_text(t) {
        Some(piece_token(TokenType::OP, Some(t), p))
    } else if t == seq!['('] {
        Some(piece_token(TokenType::LPAREN, None, p))
    } else if t == seq![')'] {
        Some(piece_token(TokenType::RPAREN, None, p))
    } else if t == seq!['{'] {
        Some(piece_token(TokenType::LBRACE, None, p))
    } else if t == seq!['}'] {
        Some(piece_token(TokenType::RBRACE, None, p))
    } else if t == seq!['['] {
        Some(piece_token(TokenType::LBRACKET, None, p))
    } else if t == seq![']'] {
        Some(piece_token(TokenType::RBRACKET, None, p))
    } else if t == seq!['/', '/'] {
        Some(piece_token(TokenType::COMMENT, None, p))
    } else if t == seq![';'] {
        Some(piece_token(TokenType::ENDL, None, p))
    } else if t == seq!['\n'] {
        Some(piece_token(TokenType::LRTRN, None, p))
    } else {
        Some(piece_token(TokenType::ID, Some(drop_commas(t)), p))
    }
}

pub open spec fn classify_pieces(ps: Seq<PieceView>) -> Seq<TokenView>
    decreases ps.len(),
{
    if ps.len() == 0 {
        seq![]
    } else {
        match classify_piece(ps.last()) {
            Some(t) => classify_pieces(ps.drop_last()).push(t),
            None => classify_pieces(ps.drop_last()),
        }
    }
}

/// An operator token made by merging two tokens; it has no position.
pub open spec fn merged_op(v: Seq<char>) -> TokenView {
    TokenView { token_type: TokenType::OP, value: Some(v), line: 0, char: 0 }
}

pub open spec fn value_or_empty(t: TokenView) -> Seq<char> {
    match t.value {
        Some(v) => v,
        None => seq![],
    }
}

/// The state of the operator-merging pass: the tokens emitted, the token held
/// back, and whether a `//` comment is being skipped.
pub struct MergeState {
    pub out: Seq<TokenView>,
    pub last: Option<TokenView>,
    pub skip: bool,
}

pub open spec fn merge_step(st: MergeState, cur: TokenView) -> MergeState {
    if st.skip {
        if cur.token_type == TokenType::LRTRN {
            MergeState { out: st.out, last: None, skip: false }
        } else {
            st
        }
    } else {
        match st.last {
            None => MergeState { out: st.out, last: Some(cur), skip: false },
            Some(lt) => {
                let lv = value_or_empty(lt);
                match cur.value {
                    Some(cv) => {
                        if lv == seq!['>'] && cv == seq!['='] {
                            MergeState { out: st.out.push(merged_op(seq!['>', '='])), last: None, skip: false }
                        } else if lv == seq!['<'] && cv == seq!['='] {
                            MergeState { out: st.out.push(merged_op(seq!['<', '='])), last: None, skip: false }
                        } else if lv == seq!['='] && cv == seq!['='] {
                            MergeState { out: st.out.push(merged_op(seq!['=', '='])), last: None, skip: false }
                        } else if lv == seq!['!'] && cv == seq!['='] {
                            MergeState { out: st.out.push(merged_op(seq!['!', '='])), last: None, skip: false }
                        } else if lv == seq!['/'] && cv == seq!['/'] {
                            MergeState { out: st.out, last: None, skip: true }
                        } else {
                            MergeState { out: st.out.push(lt), last: Some(cur), skip: false }
                        }
                    },
                    None => MergeState { out: st.out.push(lt), last: Some(cur), skip: false },
                }
            },
        }
    }
}

pub open spec fn merge_run(first: TokenView, rest: Seq<TokenView>) -> MergeState
    decreases rest.len(),
{
    if rest.len() == 0 {
        MergeState { out: seq![], last: Some(first), skip: false }
    } else {
        merge_step(merge_run(first, rest.drop_last()), rest.last())
    }
}

/// Merges `>` `=`, `<` `=`, `=` `=` and `!` `=` into one operator token each,
/// and drops a `//` comment: both slashes and every token up to and including
/// the next line return.
pub open spec fn merge_double_operators(ts: Seq<TokenView>) -> Seq<TokenView> {
    if ts.len() == 0 {
        seq![]
    } else {
        let st = merge_run(ts[0], ts.drop_first());
        match st.last {
            Some(t) => st.out.push(t),
            None => st.out,
        }
    }
}

/// The state of the negative-literal pass: the tokens emitted, the previous
/// input token, and whether the next token is to be negated.
pub struct NegState {
    pub out: Seq<TokenView>,
    pub last: TokenView,
    pub negate: bool,
}

/// An identifier holding the text of a negated literal; it has no position.
pub open spec fn negated_literal(x: i32) -> TokenView {
    TokenView { token_type: TokenType::ID, value: Some(int_chars(-(x as int))), line: 0, char: 0 }
}

pub open spec fn neg_step(st: NegState, tok: TokenView) -> NegState {
    if tok.token_type == TokenType::OP && tok.value == Some(seq!['-']) && st.last.token_type
        != TokenType::ID {
        NegState { out: st.out, last: tok, negate: true }
    } else if st.negate {
        let emitted = match tok.value {
            Some(v) => match parse_i32_spec(v) {
                Ok(x) => seq![negated_literal(x)],
                Err(_) => seq![],
            },
            None => seq![],
        };
        NegState { out: st.out + emitted, last: tok, negate: false }
    } else {
        NegState { out: st.out.push(tok), last: tok, negate: false }
    }
}

pub open spec fn neg_run(first: TokenView, rest: Seq<TokenView>) -> NegState
    decreases rest.len(),
{
    if rest.len() == 0 {
        NegState { out: seq![first], last: first, negate: false }
    } else {
        neg_step(neg_run(first, rest.drop_last()), rest.last())
    }
}

/// Turns a `-` operator that does not follow an identifier into the sign of the
/// literal after it: the `-` is dropped and the next token, when its text is an
/// `i32`, becomes an identifier holding the negated value (and is dropped otherwise).
pub open spec fn merge_negative_literals(ts: Seq<TokenView>) -> Seq<TokenView> {
    if ts.len() == 0 {
        ts
    } else {
        neg_run(ts[0], ts.drop_first()).out
    }
}

/// The tokens that are not line returns, in order.
pub open spec fn drop_line_returns(ts: Seq<TokenView>) -> Seq<TokenView>
    decreases ts.len(),
{
    if ts.len() == 0 {
        seq![]
    } else if ts.last().token_type == TokenType::LRTRN {
        drop_line_returns(ts.drop_last())
    } else {
        drop_line_returns(ts.drop_last()).push(ts.last())
    }
}

/// The tokens of a text.
pub open spec fn lex_spec(text: Seq<char>) -> Seq<TokenView> {
    drop_line_returns(
        merge_negative_literals(merge_double_operators(classify_pieces(split_pieces(text)))),
    )
}

// ---------------------------------------------------------------------------
// Splitting and classifying
// ---------------------------------------------------------------------------

struct Piece {
    text: Vec<char>,
    line: usize,
    pos: usize,
}

impl View for Piece {
    type V = PieceView;

    closed spec fn view(&self) -> PieceView {
        PieceView { text: self.text@, line: self.line as nat, pos: self.pos as nat }
    }
}

spec fn pieces_view(s: Seq<Piece>) -> Seq<PieceView> {
    s.map_values(|p: Piece| p@)
}

fn is_separator_char(c: char) -> (r: bool)
    ensures
        r == is_separator(c),
{
    c == ' ' || c == '(' || c == ')' || c == '{' || c == '}' || c == '\n' || c == ';' || c == '['
        || c == ']' || c == '+' || c == '-' || c == '*' || c == '/' || c == '%' || c == '<' || c
        == '=' || c == '>'
}

fn utf8_width(c: char) -> (n: usize)
    ensures
        n == utf8_len(c),
{
    let u = c as u32;
    if u < 0x80 {
        1
    } else if u < 0x800 {
        2
    } else if u < 0x10000 {
        3
    } else {
        4
    }
}

fn split_text(chars: &Vec<char>) -> (r: Vec<Piece>)
    requires
        chars.len() <= usize::MAX / 8,
    ensures
        pieces_view(r@) == split_pieces(chars@),
{
    let mut pieces: Vec<Piece> = Vec::new();
    let mut run: Vec<char> = Vec::new();
    let mut run_start: usize = 0;
    let mut line: usize = 1;
    let mut line_start: usize = 0;
    let mut byte: usize = 0;
    let mut i: usize = 0;
    assert(chars@.take(0) =~= Seq::<char>::empty());
    assert(pieces_view(pieces@) =~= Seq::<PieceView>::empty());
    while i < chars.len()
        invariant
            i <= chars.len(),
            chars.len() <= usize::MAX / 8,
            split_run(chars@.take(i as int)).pieces == pieces_view(pieces@),
            split_run(chars@.take(i as int)).run == run@,
            split_run(chars@.take(i as int)).run_start == run_start as nat,
            split_run(chars@.take(i as int)).line == line as nat,
            split_run(chars@.take(i as int)).line_start == line_start as nat,
            split_run(chars@.take(i as int)).byte == byte as nat,
            byte <= 4 * i,
            line <= i + 1,
            line_start <= run_start <= byte,
        decreases chars.len() - i,
    {
        let c = chars[i];
        let ghost old_pieces = pieces@;
        assert(chars@.take(i + 1).drop_last() =~= chars@.take(i as int));
        assert(chars@.take(i + 1).last() == c);
        if is_separator_char(c) {
            if run.len() > 0 {
                let mut taken: Vec<char> = Vec::new();
                std::mem::swap(&mut taken, &mut run);
                let p = Piece { text: taken, line, pos: run_start };
                pieces.push(p);
                assert(pieces_view(pieces@) =~= pieces_view(old_pieces).push(p@));
            }
            let ghost mid_pieces = pieces@;
            let p2 = Piece { text: vec![c], line, pos: byte };
            pieces.push(p2);
            assert(pieces_view(pieces@) =~= pieces_view(mid_pieces).push(p2@));
            assert(p2@.text =~= seq![c]);
            run_start = byte + 1;
            if c == '\n' {
                line = line + 1;
                line_start = byte + 1;
            }
            byte = byte + 1;
            assert(run@ =~= Seq::<char>::empty());
        } else {
            run.push(c);
            byte = byte + utf8_width(c);
        }
        i = i + 1;
    }
    assert(chars@.take(chars.len() as int) =~= chars@);
    if run.len() > 0 {
        let ghost old_pieces = pieces@;
        let p = Piece { text: run, line, pos: run_start - line_start };
        pieces.push(p);
        assert(pieces_view(pieces@) =~= pieces_view(old_pieces).push(p@));
    }
    pieces
}

fn keyword_match(t: &Vec<char>) -> (r: bool)
    ensures
        r == is_keyword_text(t@),
{
    let fn_kw = vec!['f', 'n'];
    let while_kw = vec!['w', 'h', 'i', 'l', 'e'];
    let set_kw = vec!['s', 'e', 't'];
    let if_kw = vec!['i', 'f'];
    let else_kw = vec!['e', 'l', 's', 'e'];
    let return_kw = vec!['r', 'e', 't', 'u', 'r', 'n'];
    let loop_kw = vec!['l', 'o', 'o', 'p'];
    let call_kw = vec!['c', 'a', 'l', 'l'];
    let print_kw = vec!['p', 'r', 'i', 'n', 't'];
    chars_equal(t, &fn_kw) || chars_equal(t, &while_kw) || chars_equal(t, &set_kw) || chars_equal(
        t,
        &if_kw,
    ) || chars_equal(t, &else_kw) || chars_equal(t, &return_kw) || chars_equal(t, &loop_kw)
        || chars_equal(t, &call_kw) || chars_equal(t, &print_kw)
}

fn is_single(t: &Vec<char>, c: char) -> (r: bool)
    ensures
        r == (t@ == seq![c]),
{
    if t.len() == 1 && t[0] == c {
        assert(t@ =~= seq![c]);
        true
    } else {
        false
    }
}

fn remove_commas(t: &Vec<char>) -> (r: Vec<char>)
    ensures
        r@ == drop_commas(t@),
{
    let mut out: Vec<char> = Vec::new();
    let mut i: usize = 0;
    while i < t.len()
        invariant
            i <= t.len(),
            out@ == drop_commas(t@.take(i as int)),
        decreases t.len() - i,
    {
        assert(t@.take(i + 1).drop_last() =~= t@.take(i as int));
        if t[i] != ',' {
            out.push(t[i]);
        }
        i = i + 1;
    }
    assert(t@.take(t.len() as int) =~= t@);
    out
}

spec fn opt_token_view(t: Option<Token>) -> Option<TokenView> {
    match t {
        Some(t) => Some(t@),
        None => None,
    }
}

fn classify(p: &Piece) -> (r: Option<Token>)
    ensures
        opt_token_view(r) == classify_piece(p@),
{
    let t = &p.text;
    let line = p.line;
    let pos = p.pos;
    if is_single(t, ' ') {
        None
    } else if keyword_match(t) {
        Some(Token::new(TokenType::KEYWORD, Some(string_from_chars(t)), line, pos))
    } else if is_single(t, '+') || is_single(t, '-') || is_single(t, '*') || is_single(t, '/')
        || is_single(t, '%') || is_single(t, '<') || is_single(t, '=') || is_single(t, '>') {
        Some(Token::new(TokenType::OP, Some(string_from_chars(t)), line, pos))
    } else if is_single(t, '(') {
        Some(Token::new(TokenType::LPAREN, None, line, pos))
    } else if is_single(t, ')') {
        Some(Token::new(TokenType::RPAREN, None, line, pos))
    } else if is_single(t, '{') {
        Some(Token::new(TokenType::LBRACE, None, line, pos))
    } else if is_single(t, '}') {
        Some(Token::new(TokenType::RBRACE, None, line, pos))
    } else if is_single(t, '[') {
        Some(Token::new(TokenType::LBRACKET, None, line, pos))
    } else if is_single(t, ']') {
        Some(Token::new(TokenType::RBRACKET, None, line, pos))
    } else if chars_equal(t, &vec!['/', '/']) {
        Some(Token::new(TokenType::COMMENT, None, line, pos))
    } else if is_single(t, ';') {
        Some(Token::new(TokenType::ENDL, None, line, pos))
    } else if is_single(t, '\n') {
        Some(Token::new(TokenType::LRTRN, None, line, pos))
    } else {
        Some(Token::new(TokenType::ID, Some(string_from_chars(&remove_commas(t))), line, pos))
    }
}

fn classify_all(ps: &Vec<Piece>) -> (r: Vec<Token>)
    ensures
        tokens_view(r@) == classify_pieces(pieces_view(ps@)),
{
    let mut out: Vec<Token> = Vec::new();
    let mut i: usize = 0;
    assert(tokens_view(out@) =~= Seq::<TokenView>::empty());
    assert(pieces_view(ps@.take(0)) =~= Seq::<PieceView>::empty());
    while i < ps.len()
        invariant
            i <= ps.len(),
            tokens_view(out@) == classify_pieces(pieces_view(ps@.take(i as int))),
        decreases ps.len() - i,
    {
        let ghost old_out = out@;
        assert(pieces_view(ps@.take(i + 1)).drop_last() =~= pieces_view(ps@.take(i as int)));
        assert(pieces_view(ps@.take(i + 1)).last() == ps@[i as int]@);
        match classify(&ps[i]) {
            Some(t) => {
                out.push(t);
                assert(tokens_view(out@) =~= tokens_view(old_out).push(t@));
            },
            None => {},
        }
        i = i + 1;
    }
    assert(ps@.take(ps.len() as int) =~= ps@);
    out
}

// ---------------------------------------------------------------------------
// Passes over the token list
// ---------------------------------------------------------------------------

fn value_chars(t: &Token) -> (r: Vec<char>)
    ensures
        r@ == value_or_empty(t@),
{
    match &t.value {
        Some(v) => string_chars(v),
        None => Vec::new(),
    }
}

fn merged_op_token(a: char, b: char) -> (r: Token)
    ensures
        r@ == merged_op(seq![a, b]),
{
    let v = vec![a, b];
    let t = Token::new(TokenType::OP, Some(string_from_chars(&v)), 0, 0);
    assert(t@.value == Some(seq![a, b]));
    t
}

/// Transforms a pair of operators into a single operator, turning
/// `OP(>), OP(=)` into `OP(>=)` (and likewise for `<=`, `==` and `!=`),
/// and removes `//` comments up to the end of their line.
fn match_double_operators(tokens: Vec<Token>) -> (r: Vec<Token>)
    ensures
        tokens_view(r@) == merge_double_operators(tokens_view(tokens@)),
{
    let ghost ts = tokens_view(tokens@);
    if tokens.len() == 0 {
        let empty: Vec<Token> = Vec::new();
        assert(tokens_view(empty@) =~= Seq::<TokenView>::empty());
        return empty;
    }
    let mut last: Option<Token> = Some(tokens[0].duplicate());
    let mut out: Vec<Token> = Vec::new();
    let mut skip = false;
    let mut i: usize = 1;
    assert(ts.drop_first().subrange(0, 0) =~= Seq::<TokenView>::empty());
    assert(tokens_view(out@) =~= Seq::<TokenView>::empty());
    while i < tokens.len()
        invariant
            1 <= i <= tokens.len(),
            ts == tokens_view(tokens@),
            merge_run(ts[0], ts.drop_first().take(i - 1)).out == tokens_view(out@),
            merge_run(ts[0], ts.drop_first().take(i - 1)).last == opt_token_view(last),
            merge_run(ts[0], ts.drop_first().take(i - 1)).skip == skip,
        decreases tokens.len() - i,
    {
        let cur = &tokens[i];
        let ghost old_out = out@;
        assert(ts.drop_first().take(i as int).drop_last() =~= ts.drop_first().take(i - 1));
        assert(ts.drop_first().take(i as int).last() == cur@);
        if skip {
            if cur.token_type == TokenType::LRTRN {
                last = None;
                skip = false;
            }
        } else {
            let prev = last;
            last = None;
            match prev {
                None => {
                    last = Some(cur.duplicate());
                },
                Some(lt) => {
                    let lv = value_chars(&lt);
                    match &cur.value {
                        Some(cv_string) => {
                            let cv = string_chars(cv_string);
                            if is_single(&lv, '>') && is_single(&cv, '=') {
                                let t = merged_op_token('>', '=');
                                out.push(t);
                                assert(tokens_view(out@) =~= tokens_view(old_out).push(t@));
                            } else if is_single(&lv, '<') && is_single(&cv, '=') {
                                let t = merged_op_token('<', '=');
                                out.push(t);
                                assert(tokens_view(out@) =~= tokens_view(old_out).push(t@));
                            } else if is_single(&lv, '=') && is_single(&cv, '=') {
                                let t = merged_op_token('=', '=');
                                out.push(t);
                                assert(tokens_view(out@) =~= tokens_view(old_out).push(t@));
                            } else if is_single(&lv, '!') && is_single(&cv, '=') {
                                let t = merged_op_token('!', '=');
                                out.push(t);
                                assert(tokens_view(out@) =~= tokens_view(old_out).push(t@));
                            } else if is_single(&lv, '/') && is_single(&cv, '/') {
                                skip = true;
                            } else {
                                let ghost ltv = lt@;
                                out.push(lt);
                                assert(tokens_view(out@) =~= tokens_view(old_out).push(ltv));
                                last = Some(cur.duplicate());
                            }
                        },
                        None => {
                            let ghost ltv = lt@;
                            out.push(lt);
                            assert(tokens_view(out@) =~= tokens_view(old_out).push(ltv));
                            last = Some(cur.duplicate());
                        },
                    }
                },
            }
        }
        i = i + 1;
    }
    assert(ts.drop_first().take(tokens.len() - 1) =~= ts.drop_first());
    let ghost before = out@;
    match last {
        Some(t) => {
            let ghost tv = t@;
            out.push(t);
            assert(tokens_view(out@) =~= tokens_view(before).push(tv));
        },
        None => {},
    }
    out
}

fn negated_literal_token(x: i32) -> (r: Token)
    ensures
        r@ == negated_literal(x),
{
    let mut v: Vec<char> = Vec::new();
    let n: i64 = -(x as i64);
    push_int_chars(&mut v, n);
    assert(v@ =~= int_chars(-(x as int)));
    Token::new(TokenType::ID, Some(string_from_chars(&v)), 0, 0)
}

/// Transforms a set (NON-ID, OP('-'), ID[is_literal]) into a set (NON-ID, ID[is_literal,negative]),
/// turning `KEYWORD(set), ID(test), OP(=), OP(-), ID(1), ENDL(;)`
/// into `KEYWORD(set), ID(test), OP(=), ID(-1), ENDL(;)`.
fn lex_negative_immediates(tokens: Vec<Token>) -> (r: Vec<Token>)
    ensures
        tokens_view(r@) == merge_negative_literals(tokens_view(tokens@)),
{
    let ghost ts = tokens_view(tokens@);
    if tokens.len() == 0 {
        return tokens;
    }
    let mut last_index: usize = 0;
    let mut negate_next_token = false;
    let mut new_tokens: Vec<Token> = Vec::new();
    new_tokens.push(tokens[0].duplicate());
    let mut i: usize = 1;
    assert(ts.drop_first().take(0) =~= Seq::<TokenView>::empty());
    assert(tokens_view(new_tokens@) =~= seq![ts[0]]);
    while i < tokens.len()
        invariant
            1 <= i <= tokens.len(),
            last_index == i - 1,
            ts == tokens_view(tokens@),
            neg_run(ts[0], ts.drop_first().take(i - 1)).out == tokens_view(new_tokens@),
            neg_run(ts[0], ts.drop_first().take(i - 1)).last == ts[last_index as int],
            neg_run(ts[0], ts.drop_first().take(i - 1)).negate == negate_next_token,
        decreases tokens.len() - i,
    {
        let token = &tokens[i];
        let ghost old_out = new_tokens@;
        assert(ts.drop_first().take(i as int).drop_last() =~= ts.drop_first().take(i - 1));
        assert(ts.drop_first().take(i as int).last() == token@);
        let is_minus = match &token.value {
            Some(v) => is_single(&string_chars(v), '-'),
            None => false,
        };
        assert(is_minus == (token@.value == Some(seq!['-'])));
        if token.token_type == TokenType::OP && is_minus && tokens[last_index].token_type
            != TokenType::ID {
            negate_next_token = true;
        } else {
            if negate_next_token {
                match &token.value {
                    Some(value) => match parse_i32(&string_chars(value)) {
                        Ok(x) => {
                            let t = negated_literal_token(x);
                            new_tokens.push(t);
                            assert(tokens_view(new_tokens@) =~= tokens_view(old_out) + seq![t@]);
                        },
                        Err(_) => {
                            assert(tokens_view(old_out) =~= tokens_view(old_out) + Seq::<TokenView>::empty());
                        },
                    },
                    None => {
                        assert(tokens_view(old_out) =~= tokens_view(old_out) + Seq::<TokenView>::empty());
                    },
                }
                negate_next_token = false;
            } else {
                let t = token.duplicate();
                new_tokens.push(t);
                assert(tokens_view(new_tokens@) =~= tokens_view(old_out).push(t@));
            }
        }
        last_index = i;
        i = i + 1;
    }
    assert(ts.drop_first().take(tokens.len() - 1) =~= ts.drop_first());
    new_tokens
}

/// Removes line return tokens, which are only useful to end comments.
fn remove_line_returns(tokens: Vec<Token>) -> (r: Vec<Token>)
    ensures
        tokens_view(r@) == drop_line_returns(tokens_view(tokens@)),
{
    let ghost ts = tokens_view(tokens@);
    let mut out: Vec<Token> = Vec::new();
    let mut i: usize = 0;
    assert(ts.take(0) =~= Seq::<TokenView>::empty());
    assert(tokens_view(out@) =~= Seq::<TokenView>::empty());
    while i < tokens.len()
        invariant
            i <= tokens.len(),
            ts == tokens_view(tokens@),
            drop_line_returns(ts.take(i as int)) == tokens_view(out@),
        decreases tokens.len() - i,
    {
        let ghost old_out = out@;
        assert(ts.take(i + 1).drop_last() =~= ts.take(i as int));
        assert(ts.take(i + 1).last() == tokens@[i as int]@);
        if tokens[i].token_type != TokenType::LRTRN {
            let t = tokens[i].duplicate();
            out.push(t);
            assert(tokens_view(out@) =~= tokens_view(old_out).push(t@));
        }
        i = i + 1;
    }
    assert(ts.take(tokens.len() as int) =~= ts);
    out
}

/// Cuts a text into tokens.
///
/// The text is cut at separator characters (space, brackets, `;`, line
/// returns and operators); the pieces are classified into keywords,
/// operators, punctuation and identifiers; then `>=`, `<=`, `==` and `!=` are
/// merged, `//` comments dropped, negative literals joined to their sign, and
/// line returns removed.
pub fn lex(text: &str) -> (r: Vec<Token>)
    requires
        text@.len() <= usize::MAX / 8,
    ensures
        tokens_view(r@) == lex_spec(text@),
{
    let chars = str_chars(text);
    let pieces = split_text(&chars);
    let tokens = classify_all(&pieces);
    let tokens = match_double_operators(tokens);
    let tokens = lex_negative_immediates(tokens);
    remove_line_returns(tokens)
}


/// Dropping the line returns leaves none.
proof fn lemma_drop_line_returns(ts: Seq<TokenView>)
    ensures
        forall|k: int|
            0 <= k < drop_line_returns(ts).len() ==> (#[trigger] drop_line_returns(ts)[k]).token_type
                != TokenType::LRTRN,
    decreases ts.len(),
{
    if ts.len() > 0 {
        lemma_drop_line_returns(ts.drop_last());
    }
}

/// The tokens of a text hold no line return: lines only separate tokens.
pub proof fn lemma_no_line_returns(text: Seq<char>)
    ensures
        forall|k: int|
            0 <= k < lex_spec(text).len() ==> (#[trigger] lex_spec(text)[k]).token_type != TokenType::LRTRN,
{
    lemma_drop_line_returns(
        merge_negative_literals(merge_double_operators(classify_pieces(split_pieces(text)))),
    );
}

} // verus!
