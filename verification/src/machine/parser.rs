//! The parser of AsmFG program text.
//!
//! A program is read line by line. Empty lines and lines starting with `;`
//! are skipped; a line starting with a space ends the program. Otherwise the
//! line holds an operation and up to two operands separated by single spaces;
//! an operand starting with `[` runs up to the next `]`.
use vstd::prelude::*;

use super::enums::{property_named, register_name, MemoryMappedProperties, OpCodes, OperandType};
use super::errors::ParsingError;
use super::instruction::{operand_text, register_text, Instruction};
use crate::text::{
    chars_equal, extend_chars, int_chars, int_error_message, int_error_text, is_digit,
    lemma_nat_digits_all_digits, lemma_nat_digits_len, lemma_parse_int_chars, nat_digits,
    parse_i32, parse_i32_spec, str_chars, string_chars, string_from_chars,
};

verus! {

// ---------------------------------------------------------------------------
// Specification
// ---------------------------------------------------------------------------

/// The pieces of `s` between the occurrences of `c` (as `str::split` gives them).
pub open spec fn split_on(s: Seq<char>, c: char) -> Seq<Seq<char>>
    decreases s.len(),
{
    if s.len() == 0 {
        seq![seq![]]
    } else {
        let prev = split_on(s.drop_last(), c);
        if s.last() == c {
            prev.push(seq![])
        } else {
            prev.update(prev.len() - 1, prev.last().push(s.last()))
        }
    }
}

/// The characters from `i` up to the first `c`, and the position after that
/// `c` (the end when there is none), as `take_while` consumes them.
pub open spec fn take_until(s: Seq<char>, i: int, c: char) -> (Seq<char>, int)
    decreases s.len() - i,
{
    if i < 0 || i >= s.len() {
        (seq![], s.len() as int)
    } else if s[i] == c {
        (seq![], i + 1)
    } else {
        let (r, q) = take_until(s, i + 1, c);
        (seq![s[i]] + r, q)
    }
}

/// An operand starting at `p`: up to and including `]` when it starts with
/// `[`, else up to a space; and the position after it and its separator.
pub open spec fn operand_part(line: Seq<char>, p: int, skip_after_bracket: bool) -> (Seq<char>, int) {
    if 0 <= p < line.len() && line[p] == '[' {
        let (x, q) = take_until(line, p, ']');
        (x + "]"@, if skip_after_bracket && q < line.len() { q + 1 } else { q })
    } else {
        take_until(line, p, ' ')
    }
}

/// The operation and the two operands of a line.
pub open spec fn line_parts(line: Seq<char>) -> (Seq<char>, Seq<char>, Seq<char>) {
    let (opcode, p1) = take_until(line, 0, ' ');
    let (op1, p2) = operand_part(line, p1, true);
    let (op2, _) = operand_part(line, p2, false);
    (opcode, op1, op2)
}

/// `c` in lower case, for ASCII letters.
pub open spec fn ascii_lower(c: char) -> char {
    if 'A' <= c && c <= 'Z' {
        ((c as u32) + 32) as char
    } else {
        c
    }
}

pub open spec fn lower(s: Seq<char>) -> Seq<char> {
    s.map_values(|c: char| ascii_lower(c))
}

/// The operation a name stands for, whatever its case.
pub open spec fn opcode_named(s: Seq<char>) -> Option<OpCodes> {
    let l = lower(s);
    if l == "mov"@ {
        Some(OpCodes::MOV)
    } else if l == "store"@ {
        Some(OpCodes::STORE)
    } else if l == "load"@ {
        Some(OpCodes::LOAD)
    } else if l == "add"@ {
        Some(OpCodes::ADD)
    } else if l == "sub"@ {
        Some(OpCodes::SUB)
    } else if l == "mul"@ {
        Some(OpCodes::MUL)
    } else if l == "div"@ {
        Some(OpCodes::DIV)
    } else if l == "mod"@ {
        Some(OpCodes::MOD)
    } else if l == "cmp"@ {
        Some(OpCodes::CMP)
    } else if l == "jmp"@ {
        Some(OpCodes::JMP)
    } else if l == "jz"@ {
        Some(OpCodes::JZ)
    } else if l == "jnz"@ {
        Some(OpCodes::JNZ)
    } else if l == "jn"@ {
        Some(OpCodes::JN)
    } else if l == "jp"@ {
        Some(OpCodes::JP)
    } else if l == "call"@ {
        Some(OpCodes::CALL)
    } else if l == "ret"@ {
        Some(OpCodes::RET)
    } else if l == "pop"@ {
        Some(OpCodes::POP)
    } else if l == "push"@ {
        Some(OpCodes::PUSH)
    } else if l == "print"@ {
        Some(OpCodes::PRINT)
    } else if l == "halt"@ {
        Some(OpCodes::HLT)
    } else {
        None
    }
}

pub open spec fn instr_spec(s: Seq<char>) -> Result<OpCodes, Seq<char>> {
    match opcode_named(s) {
        Some(o) => Ok(o),
        None => Err("Unknown instruction: "@ + s),
    }
}

pub open spec fn register_spec(s: Seq<char>) -> Result<usize, Seq<char>> {
    if s == "GPA"@ {
        Ok(0)
    } else if s == "GPB"@ {
        Ok(1)
    } else if s == "SBP"@ {
        Ok(2)
    } else if s == "TSP"@ {
        Ok(3)
    } else if s == "FRV"@ {
        Ok(4)
    } else {
        Err(
            "Unknown register: "@ + s
                + " (If you try to modify the instruction pointer, it cannot be written to direcctly, use branching instructions)"@,
        )
    }
}

pub open spec fn literal_spec(s: Seq<char>) -> Result<i32, Seq<char>> {
    match parse_i32_spec(s) {
        Ok(v) => Ok(v),
        Err(e) => Err("Unable to parse int : "@ + int_error_message(e)),
    }
}

/// The characters of `s` but the brackets.
pub open spec fn without_brackets(s: Seq<char>) -> Seq<char>
    decreases s.len(),
{
    if s.len() == 0 {
        seq![]
    } else {
        without_brackets(s.drop_last()) + if s.last() == '[' || s.last() == ']' {
            seq![]
        } else {
            seq![s.last()]
        }
    }
}

/// Whether `c` is white space, as `char::is_whitespace` tells.
pub open spec fn is_space(c: char) -> bool {
    c == ' ' || ('\t' <= c && c <= '\r') || c == '\u{85}' || c == '\u{a0}' || c == '\u{1680}'
        || ('\u{2000}' <= c && c <= '\u{200a}') || c == '\u{2028}' || c == '\u{2029}' || c
        == '\u{202f}' || c == '\u{205f}' || c == '\u{3000}'
}

pub open spec fn all_space(s: Seq<char>) -> bool {
    forall|i: int| 0 <= i < s.len() ==> is_space(s[i])
}

/// The pieces of `s` between single spaces that are not only white space.
pub open spec fn words_of(pieces: Seq<Seq<char>>) -> Seq<Seq<char>>
    decreases pieces.len(),
{
    if pieces.len() == 0 {
        seq![]
    } else {
        words_of(pieces.drop_last()) + if all_space(pieces.last()) {
            seq![]
        } else {
            seq![pieces.last()]
        }
    }
}

/// An operand: `$name` for a memory-mapped property (its address), `#n` for a
/// literal, `'NAME` for a register, `['REG + n]` or `['REG - n]` for a stack
/// value; any other first character is skipped before a literal.
pub open spec fn operand_spec(s: Seq<char>) -> Result<OperandType, Seq<char>> {
    if s.len() == 0 {
        Err("No operand to parse !"@)
    } else if s[0] == '$' {
        match property_named(s.drop_first()) {
            Some(p) => Ok(OperandType::Literal { value: p.spec_address() }),
            None => Err("Unknown variable: "@ + s.drop_first()),
        }
    } else if s[0] == '\'' {
        match register_spec(s.drop_first()) {
            Ok(idx) => Ok(OperandType::Register { idx }),
            Err(e) => Err(e),
        }
    } else if s[0] == '[' {
        let parts = words_of(split_on(without_brackets(s), ' '));
        if parts.len() == 3 {
            match register_spec(parts[0].drop_first()) {
                Err(e) => Err(e),
                Ok(base_register) => match literal_spec(parts[2]) {
                    Err(e) => Err(e),
                    Ok(offset) => Ok(
                        OperandType::StackValue {
                            base_register,
                            addition: parts[1] == "+"@,
                            offset: offset as usize,
                        },
                    ),
                },
            }
        } else {
            Err("Stack access must be composed of three operands"@)
        }
    } else {
        match literal_spec(s.drop_first()) {
            Ok(value) => Ok(OperandType::Literal { value }),
            Err(e) => Err(e),
        }
    }
}

/// An operand that may be missing.
pub open spec fn maybe_operand(s: Seq<char>) -> Result<OperandType, Seq<char>> {
    if s.len() == 0 {
        Ok(OperandType::NoOperand)
    } else {
        operand_spec(s)
    }
}

/// The instructions of the lines from `k` on, appended to `acc`; or the
/// number of the first wrong line and what is wrong with it.
pub open spec fn parse_lines(lines: Seq<Seq<char>>, k: int, acc: Seq<Instruction>) -> Result<
    Seq<Instruction>,
    (int, Seq<char>),
>
    decreases lines.len() - k,
{
    if k < 0 || k >= lines.len() {
        Ok(acc)
    } else {
        let line = lines[k];
        if line.len() == 0 || line[0] == ';' {
            parse_lines(lines, k + 1, acc)
        } else {
            let (opc, o1, o2) = line_parts(line);
            if opc.len() == 0 {
                Ok(acc)
            } else {
                match instr_spec(opc) {
                    Err(e) => Err((k, e)),
                    Ok(opcode) => match maybe_operand(o1) {
                        Err(e) => Err((k, e)),
                        Ok(operand_1) => match maybe_operand(o2) {
                            Err(e) => Err((k, e)),
                            Ok(operand_2) => parse_lines(
                                lines,
                                k + 1,
                                acc.push(Instruction { opcode, operand_1, operand_2 }),
                            ),
                        },
                    },
                }
            }
        }
    }
}

/// The instructions of a program text, or the first error.
pub open spec fn program_spec(text: Seq<char>) -> Result<Seq<Instruction>, (int, Seq<char>)> {
    parse_lines(split_on(text, '\n'), 0, seq![])
}

// ---------------------------------------------------------------------------
// Parsing
// ---------------------------------------------------------------------------

pub proof fn lemma_words_nonempty(pieces: Seq<Seq<char>>)
    ensures
        forall|i: int| 0 <= i < words_of(pieces).len() ==> words_of(pieces)[i].len() > 0,
    decreases pieces.len(),
{
    if pieces.len() > 0 {
        lemma_words_nonempty(pieces.drop_last());
        let prev = words_of(pieces.drop_last());
        if !all_space(pieces.last()) {
            if pieces.last().len() == 0 {
                assert(all_space(pieces.last()));
            }
            assert forall|i: int| 0 <= i < words_of(pieces).len() implies words_of(pieces)[i].len() > 0 by {
                if i < prev.len() {
                    assert(words_of(pieces)[i] == prev[i]);
                }
            }
        } else {
            assert(words_of(pieces) =~= prev);
        }
    }
}

pub proof fn lemma_split_nonempty(s: Seq<char>, c: char)
    ensures
        split_on(s, c).len() >= 1,
    decreases s.len(),
{
    if s.len() > 0 {
        lemma_split_nonempty(s.drop_last(), c);
    }
}

/// The pieces of `s` between the occurrences of `c`.
fn split_chars(s: &Vec<char>, c: char) -> (r: Vec<Vec<char>>)
    ensures
        r@.map_values(|v: Vec<char>| v@) == split_on(s@, c),
{
    let mut pieces: Vec<Vec<char>> = Vec::new();
    let mut current: Vec<char> = Vec::new();
    let mut i: usize = 0;
    while i < s.len()
        invariant
            i <= s.len(),
            pieces@.map_values(|v: Vec<char>| v@).push(current@) == split_on(s@.take(i as int), c),
        decreases s.len() - i,
    {
        proof {
            lemma_split_nonempty(s@.take(i as int), c);
        }
        assert(s@.take(i + 1).drop_last() =~= s@.take(i as int));
        let ghost before = pieces@.map_values(|v: Vec<char>| v@);
        if s[i] == c {
            let done = current;
            pieces.push(done);
            current = Vec::new();
            assert(pieces@.map_values(|v: Vec<char>| v@) =~= before.push(done@));
            assert(pieces@.map_values(|v: Vec<char>| v@).push(current@) =~= before.push(done@).push(seq![]));
        } else {
            current.push(s[i]);
            assert(pieces@.map_values(|v: Vec<char>| v@).push(current@) =~= before.push(current@));
        }
        i = i + 1;
    }
    assert(s@.take(s.len() as int) =~= s@);
    let ghost before = pieces@.map_values(|v: Vec<char>| v@);
    pieces.push(current);
    assert(pieces@.map_values(|v: Vec<char>| v@) =~= before.push(current@));
    pieces
}

/// The characters from `i` up to the first `c`, and the position after it.
fn take_until_exec(s: &Vec<char>, i: usize, c: char) -> (r: (Vec<char>, usize))
    requires
        i <= s.len(),
    ensures
        (r.0@, r.1 as int) == take_until(s@, i as int, c),
        r.1 <= s.len(),
{
    let mut j = i;
    while j < s.len() && s[j] != c
        invariant
            i <= j <= s.len(),
            forall|k: int| i <= k < j ==> s@[k] != c,
            take_until(s@, i as int, c) == ({
                let (x, q) = take_until(s@, j as int, c);
                (s@.subrange(i as int, j as int) + x, q)
            }),
        decreases s.len() - j,
    {
        assert(s@.subrange(i as int, j + 1) =~= s@.subrange(i as int, j as int) + seq![s@[j as int]]);
        assert(forall|x: Seq<char>| s@.subrange(i as int, j as int) + (seq![s@[j as int]] + x) =~= s@.subrange(i as int, j + 1) + x);
        j = j + 1;
    }
    let mut out: Vec<char> = Vec::new();
    let mut k = i;
    while k < j
        invariant
            i <= k <= j,
            j <= s.len(),
            out@ == s@.subrange(i as int, k as int),
        decreases j - k,
    {
        out.push(s[k]);
        k = k + 1;
        assert(out@ =~= s@.subrange(i as int, k as int));
    }
    assert(out@ + Seq::<char>::empty() =~= out@);
    if j < s.len() {
        (out, j + 1)
    } else {
        (out, s.len())
    }
}

fn operand_part_exec(line: &Vec<char>, p: usize, skip_after_bracket: bool) -> (r: (Vec<char>, usize))
    requires
        p <= line.len(),
    ensures
        (r.0@, r.1 as int) == operand_part(line@, p as int, skip_after_bracket),
        r.1 <= line.len(),
{
    if p < line.len() && line[p] == '[' {
        let (mut x, q) = take_until_exec(line, p, ']');
        x.push(']');
        proof {
            reveal_strlit("]");
        }
        if skip_after_bracket && q < line.len() {
            (x, q + 1)
        } else {
            (x, q)
        }
    } else {
        take_until_exec(line, p, ' ')
    }
}

fn ascii_lower_exec(c: char) -> (r: char)
    ensures
        r == ascii_lower(c),
{
    if 'A' <= c && c <= 'Z' {
        let b: u8 = (c as u32 + 32) as u8;
        b as char
    } else {
        c
    }
}

fn matches_word(s: &Vec<char>, w: &str) -> (r: bool)
    ensures
        r == (s@ == w@),
{
    chars_equal(s, &str_chars(w))
}

/// The operation a name stands for, whatever its case.
fn parse_instr(instr: &Vec<char>) -> (r: Result<OpCodes, String>)
    ensures
        match instr_spec(instr@) {
            Ok(o) => r == Ok::<OpCodes, String>(o),
            Err(e) => (r matches Err(m) && m@ == e),
        },
{
    let mut l: Vec<char> = Vec::new();
    let mut i: usize = 0;
    while i < instr.len()
        invariant
            i <= instr.len(),
            l@ == lower(instr@.take(i as int)),
        decreases instr.len() - i,
    {
        l.push(ascii_lower_exec(instr[i]));
        i = i + 1;
        assert(l@ =~= lower(instr@.take(i as int)));
    }
    assert(instr@.take(instr.len() as int) =~= instr@);
    let opcode = if matches_word(&l, "mov") {
        Some(OpCodes::MOV)
    } else if matches_word(&l, "store") {
        Some(OpCodes::STORE)
    } else if matches_word(&l, "load") {
        Some(OpCodes::LOAD)
    } else if matches_word(&l, "add") {
        Some(OpCodes::ADD)
    } else if matches_word(&l, "sub") {
        Some(OpCodes::SUB)
    } else if matches_word(&l, "mul") {
        Some(OpCodes::MUL)
    } else if matches_word(&l, "div") {
        Some(OpCodes::DIV)
    } else if matches_word(&l, "mod") {
        Some(OpCodes::MOD)
    } else if matches_word(&l, "cmp") {
        Some(OpCodes::CMP)
    } else if matches_word(&l, "jmp") {
        Some(OpCodes::JMP)
    } else if matches_word(&l, "jz") {
        Some(OpCodes::JZ)
    } else if matches_word(&l, "jnz") {
        Some(OpCodes::JNZ)
    } else if matches_word(&l, "jn") {
        Some(OpCodes::JN)
    } else if matches_word(&l, "jp") {
        Some(OpCodes::JP)
    } else if matches_word(&l, "call") {
        Some(OpCodes::CALL)
    } else if matches_word(&l, "ret") {
        Some(OpCodes::RET)
    } else if matches_word(&l, "pop") {
        Some(OpCodes::POP)
    } else if matches_word(&l, "push") {
        Some(OpCodes::PUSH)
    } else if matches_word(&l, "print") {
        Some(OpCodes::PRINT)
    } else if matches_word(&l, "halt") {
        Some(OpCodes::HLT)
    } else {
        None
    };
    match opcode {
        Some(o) => Ok(o),
        None => {
            let mut msg = str_chars("Unknown instruction: ");
            extend_chars(&mut msg, instr);
            Err(string_from_chars(&msg))
        },
    }
}

/// The index of a register named `GPA`, `GPB`, `SBP`, `TSP` or `FRV`.
fn parse_register(register: &Vec<char>) -> (r: Result<usize, String>)
    ensures
        match register_spec(register@) {
            Ok(i) => r == Ok::<usize, String>(i),
            Err(e) => (r matches Err(m) && m@ == e),
        },
{
    if matches_word(register, "GPA") {
        Ok(0)
    } else if matches_word(register, "GPB") {
        Ok(1)
    } else if matches_word(register, "SBP") {
        Ok(2)
    } else if matches_word(register, "TSP") {
        Ok(3)
    } else if matches_word(register, "FRV") {
        Ok(4)
    } else {
        let mut msg = str_chars("Unknown register: ");
        extend_chars(&mut msg, register);
        extend_chars(
            &mut msg,
            &str_chars(
                " (If you try to modify the instruction pointer, it cannot be written to direcctly, use branching instructions)",
            ),
        );
        Err(string_from_chars(&msg))
    }
}

/// A decimal `i32`.
fn parse_literal(literal: &Vec<char>) -> (r: Result<i32, String>)
    ensures
        match literal_spec(literal@) {
            Ok(v) => r == Ok::<i32, String>(v),
            Err(e) => (r matches Err(m) && m@ == e),
        },
{
    match parse_i32(literal) {
        Ok(v) => Ok(v),
        Err(e) => {
            let mut msg = str_chars("Unable to parse int : ");
            extend_chars(&mut msg, &string_chars(&int_error_text(e)));
            Err(string_from_chars(&msg))
        },
    }
}

fn drop_first(s: &Vec<char>) -> (r: Vec<char>)
    requires
        s.len() > 0,
    ensures
        r@ == s@.drop_first(),
{
    let mut out: Vec<char> = Vec::new();
    let mut i: usize = 1;
    while i < s.len()
        invariant
            1 <= i <= s.len(),
            out@ == s@.subrange(1, i as int),
        decreases s.len() - i,
    {
        out.push(s[i]);
        i = i + 1;
        assert(out@ =~= s@.subrange(1, i as int));
    }
    out
}

fn property_by_name(name: &Vec<char>) -> (r: Option<MemoryMappedProperties>)
    ensures
        r == property_named(name@),
{
    if matches_word(name, "Velocity") {
        Some(MemoryMappedProperties::Velocity)
    } else if matches_word(name, "VelocityX") {
        Some(MemoryMappedProperties::VelocityX)
    } else if matches_word(name, "VelocityY") {
        Some(MemoryMappedProperties::VelocityY)
    } else if matches_word(name, "Moment") {
        Some(MemoryMappedProperties::Moment)
    } else if matches_word(name, "Rotation") {
        Some(MemoryMappedProperties::Rotation)
    } else if matches_word(name, "PositionX") {
        Some(MemoryMappedProperties::PositionX)
    } else if matches_word(name, "PositionY") {
        Some(MemoryMappedProperties::PositionY)
    } else if matches_word(name, "Ray0Dist") {
        Some(MemoryMappedProperties::Ray0Dist)
    } else if matches_word(name, "Ray0Type") {
        Some(MemoryMappedProperties::Ray0Type)
    } else if matches_word(name, "Ray1Dist") {
        Some(MemoryMappedProperties::Ray1Dist)
    } else if matches_word(name, "Ray1Type") {
        Some(MemoryMappedProperties::Ray1Type)
    } else if matches_word(name, "Ray2Dist") {
        Some(MemoryMappedProperties::Ray2Dist)
    } else if matches_word(name, "Ray2Type") {
        Some(MemoryMappedProperties::Ray2Type)
    } else if matches_word(name, "Ray3Dist") {
        Some(MemoryMappedProperties::Ray3Dist)
    } else if matches_word(name, "Ray3Type") {
        Some(MemoryMappedProperties::Ray3Type)
    } else if matches_word(name, "Ray4Dist") {
        Some(MemoryMappedProperties::Ray4Dist)
    } else if matches_word(name, "Ray4Type") {
        Some(MemoryMappedProperties::Ray4Type)
    } else if matches_word(name, "Ray5Dist") {
        Some(MemoryMappedProperties::Ray5Dist)
    } else if matches_word(name, "Ray5Type") {
        Some(MemoryMappedProperties::Ray5Type)
    } else if matches_word(name, "Ray6Dist") {
        Some(MemoryMappedProperties::Ray6Dist)
    } else if matches_word(name, "Ray6Type") {
        Some(MemoryMappedProperties::Ray6Type)
    } else {
        None
    }
}

fn is_space_exec(c: char) -> (r: bool)
    ensures
        r == is_space(c),
{
    c == ' ' || ('\t' <= c && c <= '\r') || c == '\u{85}' || c == '\u{a0}' || c == '\u{1680}'
        || ('\u{2000}' <= c && c <= '\u{200a}') || c == '\u{2028}' || c == '\u{2029}' || c
        == '\u{202f}' || c == '\u{205f}' || c == '\u{3000}'
}

fn all_space_exec(s: &Vec<char>) -> (r: bool)
    ensures
        r == all_space(s@),
{
    let mut i: usize = 0;
    while i < s.len()
        invariant
            i <= s.len(),
            forall|k: int| 0 <= k < i ==> is_space(s@[k]),
        decreases s.len() - i,
    {
        if !is_space_exec(s[i]) {
            return false;
        }
        i = i + 1;
    }
    true
}

/// The words of a stack access, its brackets removed.
fn stack_words(s: &Vec<char>) -> (r: Vec<Vec<char>>)
    ensures
        r@.map_values(|v: Vec<char>| v@) == words_of(split_on(without_brackets(s@), ' ')),
{
    let mut inner: Vec<char> = Vec::new();
    let mut i: usize = 0;
    while i < s.len()
        invariant
            i <= s.len(),
            inner@ == without_brackets(s@.take(i as int)),
        decreases s.len() - i,
    {
        assert(s@.take(i + 1).drop_last() =~= s@.take(i as int));
        if s[i] != '[' && s[i] != ']' {
            inner.push(s[i]);
        }
        i = i + 1;
        assert(inner@ =~= without_brackets(s@.take(i as int)));
    }
    assert(s@.take(s.len() as int) =~= s@);
    let pieces = split_chars(&inner, ' ');
    let ghost pv = pieces@.map_values(|v: Vec<char>| v@);
    let mut words: Vec<Vec<char>> = Vec::new();
    let mut j: usize = 0;
    while j < pieces.len()
        invariant
            j <= pieces.len(),
            pv == pieces@.map_values(|v: Vec<char>| v@),
            words@.map_values(|v: Vec<char>| v@) == words_of(pv.take(j as int)),
        decreases pieces.len() - j,
    {
        assert(pv.take(j + 1).drop_last() =~= pv.take(j as int));
        let ghost before = words@.map_values(|v: Vec<char>| v@);
        if !all_space_exec(&pieces[j]) {
            words.push(pieces[j].clone());
            assert(words@.map_values(|v: Vec<char>| v@) =~= before.push(pv[j as int]));
        } else {
            assert(words@.map_values(|v: Vec<char>| v@) =~= before + seq![]);
        }
        j = j + 1;
    }
    assert(pv.take(pieces.len() as int) =~= pv);
    words
}

/// One operand (see [`operand_spec`]).
fn parse_operand(operand: &Vec<char>) -> (r: Result<OperandType, String>)
    ensures
        match operand_spec(operand@) {
            Ok(o) => r == Ok::<OperandType, String>(o),
            Err(e) => (r matches Err(m) && m@ == e),
        },
{
    if operand.len() == 0 {
        return Err(string_from_chars(&str_chars("No operand to parse !")));
    }
    let first = operand[0];
    if first == '$' {
        let name = drop_first(operand);
        match property_by_name(&name) {
            Some(p) => Ok(OperandType::Literal { value: p.address() }),
            None => {
                let mut msg = str_chars("Unknown variable: ");
                extend_chars(&mut msg, &name);
                Err(string_from_chars(&msg))
            },
        }
    } else if first == '\'' {
        match parse_register(&drop_first(operand)) {
            Ok(idx) => Ok(OperandType::Register { idx }),
            Err(e) => Err(e),
        }
    } else if first == '[' {
        let parts = stack_words(operand);
        if parts.len() == 3 {
            proof {
                lemma_words_nonempty(split_on(without_brackets(operand@), ' '));
                assert(parts@.map_values(|v: Vec<char>| v@)[0] == parts@[0]@);
            }
            let base = drop_first(&parts[0]);
            let base_register = match parse_register(&base) {
                Ok(b) => b,
                Err(e) => {
                    return Err(e);
                },
            };
            let offset = match parse_literal(&parts[2]) {
                Ok(v) => v,
                Err(e) => {
                    return Err(e);
                },
            };
            let addition = chars_equal(&parts[1], &str_chars("+"));
            Ok(OperandType::StackValue { base_register, addition, offset: offset as usize })
        } else {
            Err(string_from_chars(&str_chars("Stack access must be composed of three operands")))
        }
    } else {
        match parse_literal(&drop_first(operand)) {
            Ok(value) => Ok(OperandType::Literal { value }),
            Err(e) => Err(e),
        }
    }
}

fn parse_maybe_operand(operand: &Vec<char>) -> (r: Result<OperandType, String>)
    ensures
        match maybe_operand(operand@) {
            Ok(o) => r == Ok::<OperandType, String>(o),
            Err(e) => (r matches Err(m) && m@ == e),
        },
{
    if operand.len() == 0 {
        Ok(OperandType::NoOperand)
    } else {
        parse_operand(operand)
    }
}

/// Whether an executable parse result is the one the spec gives.
pub open spec fn parse_result(r: Result<Vec<Instruction>, ParsingError>, text: Seq<char>) -> bool {
    match program_spec(text) {
        Ok(instrs) => (r matches Ok(v) && v@ == instrs),
        Err((line, msg)) => (r matches Err(e) && e.line == line as u32 && e.msg@ == msg),
    }
}

/// Parses the text of a program (see [`program_spec`]).
pub fn parse(text: &str) -> (r: Result<Vec<Instruction>, ParsingError>)
    ensures
        parse_result(r, text@),
{
    let lines = split_chars(&str_chars(text), '\n');
    let ghost lv = lines@.map_values(|v: Vec<char>| v@);
    let mut instructions: Vec<Instruction> = Vec::new();
    let mut k: usize = 0;
    while k < lines.len()
        invariant
            k <= lines.len(),
            lv == lines@.map_values(|v: Vec<char>| v@),
            lv == split_on(text@, '\n'),
            program_spec(text@) == parse_lines(lv, k as int, instructions@),
        decreases lines.len() - k,
    {
        let line = &lines[k];
        assert(line@ == lv[k as int]);
        if line.len() == 0 || line[0] == ';' {
            k = k + 1;
            continue;
        }
        let (opc, p1) = take_until_exec(line, 0, ' ');
        let (op1, p2) = operand_part_exec(line, p1, true);
        let (op2, _) = operand_part_exec(line, p2, false);
        if opc.len() == 0 {
            return Ok(instructions);
        }
        let opcode = match parse_instr(&opc) {
            Ok(o) => o,
            Err(e) => {
                return Err(ParsingError::new(k as u32, e));
            },
        };
        let operand_1 = match parse_maybe_operand(&op1) {
            Ok(o) => o,
            Err(e) => {
                return Err(ParsingError::new(k as u32, e));
            },
        };
        let operand_2 = match parse_maybe_operand(&op2) {
            Ok(o) => o,
            Err(e) => {
                return Err(ParsingError::new(k as u32, e));
            },
        };
        instructions.push(Instruction { opcode, operand_1, operand_2 });
        k = k + 1;
    }
    Ok(instructions)
}


/// Whether a line holds no instruction: it is empty or a comment.
pub open spec fn is_comment_line(line: Seq<char>) -> bool {
    line.len() == 0 || line[0] == ';'
}

/// A result whose error, when it is on line `j` or after, is one line further.
pub open spec fn shifted(r: Result<Seq<Instruction>, (int, Seq<char>)>, j: int) -> Result<
    Seq<Instruction>,
    (int, Seq<char>),
> {
    match r {
        Ok(x) => Ok(x),
        Err((n, e)) => Err((if n >= j { n + 1 } else { n }, e)),
    }
}

/// From a line after an inserted comment line, parsing goes as it went from
/// the line before the insertion.
proof fn lemma_parse_after_comment(
    lines: Seq<Seq<char>>,
    j: int,
    c: Seq<char>,
    k: int,
    acc: Seq<Instruction>,
)
    requires
        0 <= j <= lines.len(),
        j < k,
    ensures
        parse_lines(lines.insert(j, c), k, acc) == shifted(parse_lines(lines, k - 1, acc), j),
    decreases lines.len() + 1 - k,
{
    let ins = lines.insert(j, c);
    if k < ins.len() {
        assert(ins[k] == lines[k - 1]);
        let line = ins[k];
        if !(line.len() == 0 || line[0] == ';') {
            let (opc, o1, o2) = line_parts(line);
            if opc.len() != 0 {
                if let Ok(opcode) = instr_spec(opc) {
                    if let Ok(operand_1) = maybe_operand(o1) {
                        if let Ok(operand_2) = maybe_operand(o2) {
                            lemma_parse_after_comment(lines, j, c, k + 1, acc.push(Instruction { opcode, operand_1, operand_2 }));
                        }
                    }
                }
            }
        } else {
            lemma_parse_after_comment(lines, j, c, k + 1, acc);
        }
    }
}

/// Up to an inserted comment line, parsing goes as it goes without it.
proof fn lemma_parse_before_comment(
    lines: Seq<Seq<char>>,
    j: int,
    c: Seq<char>,
    k: int,
    acc: Seq<Instruction>,
)
    requires
        0 <= j <= lines.len(),
        0 <= k <= j,
        is_comment_line(c),
    ensures
        parse_lines(lines.insert(j, c), k, acc) == shifted(parse_lines(lines, k, acc), j),
    decreases j - k,
{
    let ins = lines.insert(j, c);
    if k == j {
        assert(ins[j] == c);
        lemma_parse_after_comment(lines, j, c, j + 1, acc);
    } else {
        assert(ins[k] == lines[k]);
        let line = ins[k];
        if !(line.len() == 0 || line[0] == ';') {
            let (opc, o1, o2) = line_parts(line);
            if opc.len() != 0 {
                if let Ok(opcode) = instr_spec(opc) {
                    if let Ok(operand_1) = maybe_operand(o1) {
                        if let Ok(operand_2) = maybe_operand(o2) {
                            lemma_parse_before_comment(lines, j, c, k + 1, acc.push(Instruction { opcode, operand_1, operand_2 }));
                        }
                    }
                }
            }
        } else {
            lemma_parse_before_comment(lines, j, c, k + 1, acc);
        }
    }
}

/// A comment line, inserted anywhere among the lines of a program, changes
/// none of its instructions and does not count in the offsets of jumps; it
/// only moves the line of an error found after it.
pub proof fn lemma_comment_lines_count_for_nothing(lines: Seq<Seq<char>>, j: int, c: Seq<char>)
    requires
        0 <= j <= lines.len(),
        is_comment_line(c),
    ensures
        parse_lines(lines.insert(j, c), 0, seq![]) == shifted(parse_lines(lines, 0, seq![]), j),
{
    lemma_parse_before_comment(lines, j, c, 0, seq![]);
}


proof fn lemma_split_on_len(s: Seq<char>, c: char)
    ensures
        split_on(s, c).len() >= 1,
    decreases s.len(),
{
    if s.len() > 0 {
        lemma_split_on_len(s.drop_last(), c);
    }
}

/// Characters other than the separator extend the last piece.
proof fn lemma_split_on_extend(p: Seq<char>, b: Seq<char>, c: char)
    requires
        forall|i: int| 0 <= i < b.len() ==> b[i] != c,
    ensures
        split_on(p + b, c) == split_on(p, c).update(
            split_on(p, c).len() - 1,
            split_on(p, c).last() + b,
        ),
    decreases b.len(),
{
    lemma_split_on_len(p, c);
    let sp = split_on(p, c);
    if b.len() == 0 {
        assert(p + b =~= p);
        assert(sp.last() + b =~= sp.last());
        assert(sp.update(sp.len() - 1, sp.last() + b) =~= sp);
    } else {
        let b0 = b.drop_last();
        lemma_split_on_extend(p, b0, c);
        assert((p + b).drop_last() =~= p + b0);
        assert((p + b).last() == b.last());
        assert((sp.last() + b0).push(b.last()) =~= sp.last() + b);
        assert(split_on(p + b, c) =~= sp.update(sp.len() - 1, sp.last() + b));
    }
}

/// A separator starts a new, empty piece.
proof fn lemma_split_on_separator(p: Seq<char>, c: char)
    ensures
        split_on(p.push(c), c) == split_on(p, c).push(seq![]),
{
    assert(p.push(c).drop_last() =~= p);
}

/// The pieces of a text without the separator followed by a separator and a piece.
proof fn lemma_split_on_next(p: Seq<char>, b: Seq<char>, c: char)
    requires
        forall|i: int| 0 <= i < b.len() ==> b[i] != c,
    ensures
        split_on(p.push(c) + b, c) == split_on(p, c).push(b),
{
    lemma_split_on_separator(p, c);
    lemma_split_on_extend(p.push(c), b, c);
    let sp = split_on(p, c);
    assert(seq![] + b =~= b);
    assert(sp.push(seq![]).update(sp.len() as int, b) =~= sp.push(b));
}

proof fn lemma_without_brackets_append(a: Seq<char>, b: Seq<char>)
    ensures
        without_brackets(a + b) == without_brackets(a) + without_brackets(b),
    decreases b.len(),
{
    if b.len() == 0 {
        assert(a + b =~= a);
        assert(without_brackets(a) + without_brackets(b) =~= without_brackets(a));
    } else {
        lemma_without_brackets_append(a, b.drop_last());
        assert((a + b).drop_last() =~= a + b.drop_last());
        assert((a + b).last() == b.last());
        assert(without_brackets(a + b) =~= without_brackets(a) + without_brackets(b));
    }
}

proof fn lemma_without_brackets_none(a: Seq<char>)
    requires
        forall|i: int| 0 <= i < a.len() ==> a[i] != '[' && a[i] != ']',
    ensures
        without_brackets(a) == a,
    decreases a.len(),
{
    if a.len() > 0 {
        lemma_without_brackets_none(a.drop_last());
        assert(a.drop_last().push(a.last()) =~= a);
    }
}

/// The characters of a register name and of a decimal number are neither
/// spaces nor brackets.
proof fn lemma_register_text_plain(idx: usize)
    requires
        idx < 5,
    ensures
        register_text(idx) == register_name(idx)->Some_0,
        register_text(idx).len() == 3,
        forall|i: int|
            0 <= i < register_text(idx).len() ==> {
                let ch = #[trigger] register_text(idx)[i];
                ch != ' ' && ch != '[' && ch != ']' && !is_space(ch)
            },
{
    reveal_strlit("GPA");
    reveal_strlit("GPB");
    reveal_strlit("SBP");
    reveal_strlit("TSP");
    reveal_strlit("FRV");
}

proof fn lemma_register_named_back(idx: usize)
    requires
        idx < 5,
    ensures
        register_spec(register_text(idx)) == Ok::<usize, Seq<char>>(idx),
{
    reveal_strlit("GPA");
    reveal_strlit("GPB");
    reveal_strlit("SBP");
    reveal_strlit("TSP");
    reveal_strlit("FRV");
    let n = register_text(idx);
    if idx >= 1 {
        assert(n != "GPA"@) by {
            assert(n[0] != "GPA"@[0] || n[2] != "GPA"@[2]);
        }
    }
    if idx >= 2 {
        assert(n != "GPB"@) by {
            assert(n[0] != "GPB"@[0]);
        }
    }
    if idx >= 3 {
        assert(n != "SBP"@) by {
            assert(n[0] != "SBP"@[0]);
        }
    }
    if idx >= 4 {
        assert(n != "TSP"@) by {
            assert(n[0] != "TSP"@[0]);
        }
    }
}

/// Printing an operand and parsing the text gives the operand back, for
/// every register but the instruction pointer (which a program cannot name)
/// and every stack offset within the `i32` range (the parser reads the
/// offset as an `i32`).
pub proof fn lemma_printed_operand_parses_back(o: OperandType)
    requires
        match o {
            OperandType::Register { idx } => idx < 5,
            OperandType::Literal { .. } => true,
            OperandType::StackValue { base_register, offset, .. } => base_register < 5 && offset
                <= i32::MAX,
            OperandType::NoOperand => false,
        },
    ensures
        operand_spec(operand_text(o)) == Ok::<OperandType, Seq<char>>(o),
{
    reveal_strlit("'");
    reveal_strlit("#");
    reveal_strlit("['");
    reveal_strlit(" + ");
    reveal_strlit(" - ");
    reveal_strlit("]");
    reveal_strlit("+");
    reveal_strlit("GPA");
    reveal_strlit("GPB");
    reveal_strlit("SBP");
    reveal_strlit("TSP");
    reveal_strlit("FRV");
    match o {
        OperandType::Register { idx } => {
            lemma_register_text_plain(idx);
            lemma_register_named_back(idx);
            let t = operand_text(o);
            assert(t.drop_first() =~= register_text(idx));
        },
        OperandType::Literal { value } => {
            let t = operand_text(o);
            assert(t.drop_first() =~= int_chars(value as int));
            lemma_parse_int_chars(value);
        },
        OperandType::StackValue { base_register, addition, offset } => {
            let name = register_text(base_register);
            let digits = nat_digits(offset as nat);
            let op: char = if addition { '+' } else { '-' };
            lemma_register_text_plain(base_register);
            lemma_nat_digits_all_digits(offset as nat);
            lemma_nat_digits_len(offset as nat);
            let t = operand_text(o);
            let head = seq!['\''] + name;
            let inner = head.push(' ').push(op).push(' ') + digits;
            assert(t =~= seq!['['] + inner + seq![']']);
            lemma_without_brackets_append(seq!['['] + inner, seq![']']);
            lemma_without_brackets_append(seq!['['], inner);
            assert forall|i: int| 0 <= i < inner.len() implies inner[i] != '[' && inner[i] != ']' by {
                if i >= head.len() + 3 {
                    assert(inner[i] == digits[i - head.len() - 3]);
                    assert(is_digit(digits[i - head.len() - 3]));
                } else if 1 <= i < head.len() {
                    assert(inner[i] == name[i - 1]);
                }
            }
            lemma_without_brackets_none(inner);
            assert(without_brackets(seq!['[']) =~= Seq::<char>::empty()) by {
                assert(seq!['['].drop_last() =~= Seq::<char>::empty());
                reveal_with_fuel(without_brackets, 2);
            }
            assert(without_brackets(seq![']']) =~= Seq::<char>::empty()) by {
                assert(seq![']'].drop_last() =~= Seq::<char>::empty());
                reveal_with_fuel(without_brackets, 2);
            }
            assert(without_brackets(t) =~= inner);
            assert forall|i: int| 0 <= i < head.len() implies head[i] != ' ' by {
                if i >= 1 {
                    assert(head[i] == name[i - 1]);
                }
            }
            assert forall|i: int| 0 <= i < digits.len() implies digits[i] != ' ' by {
                assert(is_digit(digits[i]));
            }
            lemma_split_on_extend(Seq::<char>::empty(), head, ' ');
            assert(Seq::<char>::empty() + head =~= head);
            assert(Seq::<Seq<char>>::empty().push(Seq::<char>::empty()).update(0, Seq::<char>::empty() + head) =~= seq![head]);
            lemma_split_on_next(head, seq![op], ' ');
            assert(head.push(' ') + seq![op] =~= head.push(' ').push(op));
            lemma_split_on_next(head.push(' ').push(op), digits, ' ');
            let pieces = split_on(inner, ' ');
            assert(pieces =~= seq![head, seq![op], digits]);
            assert(!all_space(head)) by {
                assert(!is_space(head[0]));
            }
            assert(!all_space(seq![op])) by {
                assert(!is_space(seq![op][0]));
            }
            assert(!all_space(digits)) by {
                assert(is_digit(digits[0]));
            }
            reveal_with_fuel(words_of, 4);
            assert(pieces.drop_last() =~= seq![head, seq![op]]);
            assert(pieces.drop_last().drop_last() =~= seq![head]);
            assert(pieces.drop_last().drop_last().drop_last() =~= Seq::<Seq<char>>::empty());
            let parts = words_of(pieces);
            assert(parts =~= pieces);
            assert(head.drop_first() =~= name);
            assert(offset as int == offset as i32 as int);
            lemma_parse_int_chars(offset as i32);
            assert(int_chars(offset as i32 as int) == digits);
            if addition {
                assert(seq![op] =~= "+"@);
            } else {
                assert(seq![op][0] != "+"@[0]);
            }
            lemma_register_named_back(base_register);
        },
        OperandType::NoOperand => {},
    }
}

/// The jump mnemonics that the compiler emits name the machine's jumps.
pub proof fn lemma_jump_mnemonics()
    ensures
        opcode_named("jz"@) == Some(OpCodes::JZ),
        opcode_named("jnz"@) == Some(OpCodes::JNZ),
        opcode_named("jn"@) == Some(OpCodes::JN),
        opcode_named("jp"@) == Some(OpCodes::JP),
        opcode_named("cmp"@) == Some(OpCodes::CMP),
{
    reveal_strlit("mov");
    reveal_strlit("store");
    reveal_strlit("load");
    reveal_strlit("add");
    reveal_strlit("sub");
    reveal_strlit("mul");
    reveal_strlit("div");
    reveal_strlit("mod");
    reveal_strlit("cmp");
    reveal_strlit("jmp");
    reveal_strlit("jz");
    reveal_strlit("jnz");
    reveal_strlit("jn");
    reveal_strlit("jp");
    assert(lower("jz"@) =~= "jz"@);
    assert(lower("jnz"@) =~= "jnz"@);
    assert(lower("jn"@) =~= "jn"@);
    assert(lower("jp"@) =~= "jp"@);
    assert(lower("cmp"@) =~= "cmp"@);
    assert("jnz"@ != "jmp"@) by {
        assert("jnz"@[1] != "jmp"@[1]);
    }
    assert("jn"@ != "jz"@) by {
        assert("jn"@[1] != "jz"@[1]);
    }
    assert("jp"@ != "jz"@) by {
        assert("jp"@[1] != "jz"@[1]);
    }
    assert("jp"@ != "jn"@) by {
        assert("jp"@[1] != "jn"@[1]);
    }
    assert("jnz"@ != "mov"@ && "jnz"@ != "add"@ && "jnz"@ != "sub"@ && "jnz"@ != "mul"@
        && "jnz"@ != "div"@ && "jnz"@ != "mod"@ && "jnz"@ != "cmp"@) by {
        assert("jnz"@[0] != "mov"@[0] && "jnz"@[0] != "add"@[0] && "jnz"@[0] != "sub"@[0]
            && "jnz"@[0] != "mul"@[0] && "jnz"@[0] != "div"@[0] && "jnz"@[0] != "mod"@[0]
            && "jnz"@[0] != "cmp"@[0]);
    }
    assert("cmp"@ != "mov"@ && "cmp"@ != "add"@ && "cmp"@ != "sub"@ && "cmp"@ != "mul"@
        && "cmp"@ != "div"@ && "cmp"@ != "mod"@) by {
        assert("cmp"@[0] != "mov"@[0] && "cmp"@[0] != "add"@[0] && "cmp"@[0] != "sub"@[0]
            && "cmp"@[0] != "mul"@[0] && "cmp"@[0] != "div"@[0] && "cmp"@[0] != "mod"@[0]);
    }
}

} // verus!
