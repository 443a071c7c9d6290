//! Character-level helpers shared by the lexers, the parsers and the
//! message builders: conversions between `String`/`&str` and `Vec<char>`,
//! decimal printing and `i32` parsing with the semantics of `str::parse::<i32>`.
use vstd::prelude::*;

verus! {

/// Appends one character to a string.
///
/// Trusted: calls `String::push`, whose documentation states that it appends
/// the given character to the end of the string. The contract claims exactly
/// that the new view is the old view followed by `c`.
#[verifier::external_body]
fn push_char(s: &mut String, c: char)
    ensures
        final(s)@ == old(s)@.push(c),
{
    s.push(c);
}

/// The characters of a string slice, in order.
pub fn str_chars(s: &str) -> (v: Vec<char>)
    ensures
        v@ == s@,
{
    let mut v: Vec<char> = Vec::new();
    for c in it: s.chars()
        invariant
            v@ == it.seq().take(it.index() as int),
            it.seq() == s@,
    {
        v.push(c);
    }
    v
}

/// The characters of a string, in order.
pub fn string_chars(s: &String) -> (v: Vec<char>)
    ensures
        v@ == s@,
{
    str_chars(s.as_str())
}

/// Builds a string holding exactly the given characters.
pub fn string_from_chars(v: &Vec<char>) -> (s: String)
    ensures
        s@ == v@,
{
    let mut s = String::new();
    let mut i: usize = 0;
    while i < v.len()
        invariant
            i <= v.len(),
            s@ == v@.take(i as int),
        decreases v.len() - i,
    {
        push_char(&mut s, v[i]);
        i = i + 1;
        assert(s@ == v@.take(i as int));
    }
    assert(v@.take(v.len() as int) == v@);
    s
}

/// Appends all characters of `extra` to `out`.
pub fn extend_chars(out: &mut Vec<char>, extra: &Vec<char>)
    ensures
        final(out)@ == old(out)@ + extra@,
{
    let mut i: usize = 0;
    while i < extra.len()
        invariant
            i <= extra.len(),
            out@ == old(out)@ + extra@.take(i as int),
        decreases extra.len() - i,
    {
        out.push(extra[i]);
        i = i + 1;
        assert(out@ == old(out)@ + extra@.take(i as int));
    }
    assert(extra@.take(extra.len() as int) == extra@);
}

/// Whether two character vectors hold the same characters.
pub fn chars_equal(a: &Vec<char>, b: &Vec<char>) -> (r: bool)
    ensures
        r == (a@ == b@),
{
    if a.len() != b.len() {
        return false;
    }
    let mut i: usize = 0;
    while i < a.len()
        invariant
            i <= a.len(),
            a.len() == b.len(),
            a@.take(i as int) == b@.take(i as int),
        decreases a.len() - i,
    {
        if a[i] != b[i] {
            assert(a@[i as int] != b@[i as int]);
            return false;
        }
        assert(a@.take(i + 1) == a@.take(i as int).push(a@[i as int]));
        assert(b@.take(i + 1) == b@.take(i as int).push(b@[i as int]));
        i = i + 1;
    }
    assert(a@.take(a.len() as int) == a@);
    assert(b@.take(b.len() as int) == b@);
    true
}

/// Whether `s` starts with the character `c`.
pub open spec fn starts_with_char(s: Seq<char>, c: char) -> bool {
    s.len() > 0 && s[0] == c
}

/// Whether a string starts with the given character.
pub fn string_starts_with(s: &String, c: char) -> (r: bool)
    ensures
        r == starts_with_char(s@, c),
{
    let v = string_chars(s);
    v.len() > 0 && v[0] == c
}

/// An ASCII decimal digit.
pub open spec fn is_digit(c: char) -> bool {
    '0' <= c && c <= '9'
}

/// The value of an ASCII decimal digit.
pub open spec fn digit_value(c: char) -> int {
    (c as int) - ('0' as int)
}

/// The character of a decimal digit `d < 10`.
pub open spec fn digit_char(d: nat) -> char {
    ((d + 48) as u32) as char
}

/// The decimal representation of a natural number, most significant digit first.
pub open spec fn nat_digits(n: nat) -> Seq<char>
    decreases n,
{
    if n < 10 {
        seq![digit_char(n)]
    } else {
        nat_digits(n / 10).push(digit_char(n % 10))
    }
}

/// The decimal representation of an integer, as `Display` prints it:
/// a minus sign for negative values, then the digits of the magnitude.
pub open spec fn int_chars(i: int) -> Seq<char> {
    if i < 0 {
        seq!['-'] + nat_digits((-i) as nat)
    } else {
        nat_digits(i as nat)
    }
}

fn digit_to_char(d: u64) -> (c: char)
    requires
        d < 10,
    ensures
        c == digit_char(d as nat),
{
    let b: u8 = (d as u8) + 48;
    let c = b as char;
    assert(c == digit_char(d as nat));
    c
}

/// Appends the decimal digits of `n` to `out`.
pub fn push_nat_digits(out: &mut Vec<char>, n: u64)
    ensures
        final(out)@ == old(out)@ + nat_digits(n as nat),
    decreases n,
{
    if n >= 10 {
        push_nat_digits(out, n / 10);
    }
    out.push(digit_to_char(n % 10));
    assert(out@ == old(out)@ + nat_digits(n as nat));
}

/// Appends the decimal representation of a signed value to `out`.
pub fn push_int_chars(out: &mut Vec<char>, i: i64)
    requires
        i > i64::MIN,
    ensures
        final(out)@ == old(out)@ + int_chars(i as int),
{
    if i < 0 {
        out.push('-');
        let m: i64 = -i;
        push_nat_digits(out, m as u64);
        assert(out@ == old(out)@ + int_chars(i as int));
    } else {
        push_nat_digits(out, i as u64);
    }
}

/// The decimal representation of a `usize`.
pub fn usize_to_string(n: usize) -> (s: String)
    ensures
        s@ == nat_digits(n as nat),
{
    let mut v: Vec<char> = Vec::new();
    push_nat_digits(&mut v, n as u64);
    assert(v@ == nat_digits(n as nat));
    string_from_chars(&v)
}

/// The decimal representation of an `i32`, as `i32::to_string` gives it.
pub fn i32_to_string(n: i32) -> (s: String)
    ensures
        s@ == int_chars(n as int),
{
    let mut v: Vec<char> = Vec::new();
    push_int_chars(&mut v, n as i64);
    assert(v@ == int_chars(n as int));
    string_from_chars(&v)
}

/// Why a string is not a valid `i32`, following the kinds of `core::num::IntErrorKind`.
#[derive(Debug, Clone, Copy, PartialEq, Eq, Structural)]
pub enum IntParseError {
    Empty,
    InvalidDigit,
    PosOverflow,
    NegOverflow,
}

/// Scans decimal digits left to right, accumulating into `acc`
/// (subtracting for a negative number) and stopping at the first
/// non-digit or at the first overflow of the `i32` range.
pub open spec fn scan_digits(s: Seq<char>, acc: int, neg: bool) -> Result<int, IntParseError>
    decreases s.len(),
{
    if s.len() == 0 {
        Ok(acc)
    } else if !is_digit(s[0]) {
        Err(IntParseError::InvalidDigit)
    } else {
        let v = if neg {
            acc * 10 - digit_value(s[0])
        } else {
            acc * 10 + digit_value(s[0])
        };
        if v > i32::MAX {
            Err(IntParseError::PosOverflow)
        } else if v < i32::MIN {
            Err(IntParseError::NegOverflow)
        } else {
            scan_digits(s.drop_first(), v, neg)
        }
    }
}

/// What `str::parse::<i32>` returns on the given characters: an optional
/// sign, then at least one decimal digit, within the `i32` range.
pub open spec fn parse_i32_spec(s: Seq<char>) -> Result<i32, IntParseError> {
    if s.len() == 0 {
        Err(IntParseError::Empty)
    } else if s.len() == 1 && (s[0] == '+' || s[0] == '-') {
        Err(IntParseError::InvalidDigit)
    } else {
        let neg = s[0] == '-';
        let digits = if s[0] == '-' || s[0] == '+' {
            s.drop_first()
        } else {
            s
        };
        match scan_digits(digits, 0, neg) {
            Ok(v) => Ok(v as i32),
            Err(e) => Err(e),
        }
    }
}

proof fn lemma_scan_digits_range(s: Seq<char>, acc: int, neg: bool)
    requires
        i32::MIN <= acc <= i32::MAX,
        neg ==> acc <= 0,
        !neg ==> acc >= 0,
    ensures
        scan_digits(s, acc, neg) matches Ok(v) ==> i32::MIN <= v <= i32::MAX && (neg ==> v
            <= 0) && (!neg ==> v >= 0),
    decreases s.len(),
{
    if s.len() > 0 && is_digit(s[0]) {
        let v = if neg {
            acc * 10 - digit_value(s[0])
        } else {
            acc * 10 + digit_value(s[0])
        };
        if i32::MIN <= v <= i32::MAX {
            lemma_scan_digits_range(s.drop_first(), v, neg);
        }
    }
}

/// Parses a sequence of characters as an `i32`, exactly as `str::parse::<i32>` does.
pub fn parse_i32(s: &Vec<char>) -> (r: Result<i32, IntParseError>)
    ensures
        r == parse_i32_spec(s@),
{
    let n = s.len();
    if n == 0 {
        return Err(IntParseError::Empty);
    }
    if n == 1 && (s[0] == '+' || s[0] == '-') {
        return Err(IntParseError::InvalidDigit);
    }
    let neg = s[0] == '-';
    let start: usize = if s[0] == '-' || s[0] == '+' { 1 } else { 0 };
    let ghost digits = s@.subrange(start as int, n as int);
    assert(digits == (if s@[0] == '-' || s@[0] == '+' { s@.drop_first() } else { s@ }));
    let mut acc: i64 = 0;
    let mut i: usize = start;
    while i < n
        invariant
            start <= i <= n,
            n == s@.len(),
            i32::MIN <= acc <= i32::MAX,
            neg ==> acc <= 0,
            !neg ==> acc >= 0,
            scan_digits(digits, 0, neg) == scan_digits(s@.subrange(i as int, n as int), acc as int, neg),
            digits == s@.subrange(start as int, n as int),
            !(s@.len() == 1 && (s@[0] == '+' || s@[0] == '-')),
            s@.len() > 0,
            neg == (s@[0] == '-'),
            digits == (if s@[0] == '-' || s@[0] == '+' { s@.drop_first() } else { s@ }),
        decreases n - i,
    {
        let c = s[i];
        let ghost rest = s@.subrange(i as int, n as int);
        assert(rest[0] == c);
        assert(rest.drop_first() == s@.subrange(i + 1, n as int));
        if !('0' <= c && c <= '9') {
            assert(scan_digits(rest, acc as int, neg) == Err::<int, IntParseError>(IntParseError::InvalidDigit));
            return Err(IntParseError::InvalidDigit);
        }
        let d: i64 = (c as u32 as i64) - 48;
        assert(d == digit_value(c));
        let v: i64 = if neg { acc * 10 - d } else { acc * 10 + d };
        assert(v == (if neg { acc * 10 - digit_value(rest[0]) } else { acc * 10 + digit_value(rest[0]) }));
        if v > 2147483647 {
            assert(scan_digits(rest, acc as int, neg) == Err::<int, IntParseError>(IntParseError::PosOverflow));
            return Err(IntParseError::PosOverflow);
        }
        if v < -2147483648 {
            assert(scan_digits(rest, acc as int, neg) == Err::<int, IntParseError>(IntParseError::NegOverflow));
            return Err(IntParseError::NegOverflow);
        }
        acc = v;
        i = i + 1;
    }
    assert(s@.subrange(n as int, n as int).len() == 0);
    Ok(acc as i32)
}

/// Whether `s` is the decimal form that `str::parse::<i32>` accepts.
pub open spec fn is_i32_text(s: Seq<char>) -> bool {
    parse_i32_spec(s) is Ok
}

/// The message that `ParseIntError`'s `Display` prints for each kind.
pub open spec fn int_error_message(e: IntParseError) -> Seq<char> {
    match e {
        IntParseError::Empty => "cannot parse integer from empty string"@,
        IntParseError::InvalidDigit => "invalid digit found in string"@,
        IntParseError::PosOverflow => "number too large to fit in target type"@,
        IntParseError::NegOverflow => "number too small to fit in target type"@,
    }
}

/// The message of an integer parsing error, as `ParseIntError` displays it.
pub fn int_error_text(e: IntParseError) -> (s: String)
    ensures
        s@ == int_error_message(e),
{
    match e {
        IntParseError::Empty => String::from_str("cannot parse integer from empty string"),
        IntParseError::InvalidDigit => String::from_str("invalid digit found in string"),
        IntParseError::PosOverflow => String::from_str("number too large to fit in target type"),
        IntParseError::NegOverflow => String::from_str("number too small to fit in target type"),
    }
}

} // verus!

verus! {

/// The characters of `s` other than underscores, in order.
pub open spec fn strip_underscores(s: Seq<char>) -> Seq<char>
    decreases s.len(),
{
    if s.len() == 0 {
        seq![]
    } else {
        let rest = strip_underscores(s.drop_last());
        if s.last() == '_' {
            rest
        } else {
            rest.push(s.last())
        }
    }
}

/// The characters of `s` other than underscores, in order.
pub fn remove_underscores(s: &Vec<char>) -> (r: Vec<char>)
    ensures
        r@ == strip_underscores(s@),
{
    let mut out: Vec<char> = Vec::new();
    let mut i: usize = 0;
    while i < s.len()
        invariant
            i <= s.len(),
            out@ == strip_underscores(s@.take(i as int)),
        decreases s.len() - i,
    {
        assert(s@.take(i + 1).drop_last() == s@.take(i as int));
        if s[i] != '_' {
            out.push(s[i]);
        }
        i = i + 1;
    }
    assert(s@.take(s.len() as int) == s@);
    out
}

} // verus!

verus! {

/// A string holding all characters of `s` but the first.
pub fn string_tail(s: &String) -> (r: String)
    requires
        s@.len() > 0,
    ensures
        r@ == s@.drop_first(),
{
    let cs = string_chars(s);
    let mut out: Vec<char> = Vec::new();
    let mut i: usize = 1;
    while i < cs.len()
        invariant
            1 <= i <= cs.len(),
            cs@ == s@,
            out@ == cs@.subrange(1, i as int),
        decreases cs.len() - i,
    {
        out.push(cs[i]);
        i = i + 1;
        assert(out@ == cs@.subrange(1, i as int));
    }
    string_from_chars(&out)
}

} // verus!

verus! {

/// Whether a string holds exactly the characters of `lit`.
pub fn string_equals(s: &String, lit: &str) -> (r: bool)
    ensures
        r == (s@ == lit@),
{
    chars_equal(&string_chars(s), &str_chars(lit))
}

/// A string holding the characters of `s`.
pub fn to_owned_string(s: &str) -> (r: String)
    ensures
        r@ == s@,
{
    string_from_chars(&str_chars(s))
}


/// The decimal representation has at least one digit.
pub proof fn lemma_nat_digits_len(n: nat)
    ensures
        nat_digits(n).len() >= 1,
        n >= 10 ==> nat_digits(n).len() >= 2,
    decreases n,
{
    if n >= 10 {
        lemma_nat_digits_len(n / 10);
    }
}

/// Two different numbers have different decimal representations.
pub proof fn lemma_nat_digits_injective(n: nat, m: nat)
    requires
        nat_digits(n) == nat_digits(m),
    ensures
        n == m,
    decreases n,
{
    lemma_nat_digits_len(n);
    lemma_nat_digits_len(m);
    if n < 10 && m < 10 {
        assert(nat_digits(n)[0] == digit_char(n));
        assert(nat_digits(m)[0] == digit_char(m));
    } else if n >= 10 && m >= 10 {
        let a = nat_digits(n);
        let b = nat_digits(m);
        assert(a.last() == b.last());
        assert(digit_char(n % 10) == digit_char(m % 10));
        assert(a.drop_last() =~= nat_digits(n / 10));
        assert(b.drop_last() =~= nat_digits(m / 10));
        lemma_nat_digits_injective(n / 10, m / 10);
    }
}


proof fn lemma_digit_char_value(d: nat)
    requires
        d < 10,
    ensures
        is_digit(digit_char(d)),
        digit_value(digit_char(d)) == d,
{
}

proof fn lemma_scan_digits_append(a: Seq<char>, b: Seq<char>, acc: int, neg: bool)
    requires
        scan_digits(a, acc, neg) is Ok,
    ensures
        scan_digits(a + b, acc, neg) == scan_digits(b, scan_digits(a, acc, neg)->Ok_0, neg),
    decreases a.len(),
{
    if a.len() == 0 {
        assert(a + b =~= b);
    } else {
        let v = if neg {
            acc * 10 - digit_value(a[0])
        } else {
            acc * 10 + digit_value(a[0])
        };
        assert((a + b).drop_first() =~= a.drop_first() + b);
        lemma_scan_digits_append(a.drop_first(), b, v, neg);
    }
}

proof fn lemma_scan_nat_digits(n: nat, neg: bool)
    requires
        neg ==> n <= 2147483648,
        !neg ==> n <= 2147483647,
    ensures
        scan_digits(nat_digits(n), 0, neg) == Ok::<int, IntParseError>(
            if neg {
                -n
            } else {
                n as int
            },
        ),
    decreases n,
{
    reveal_with_fuel(scan_digits, 2);
    if n < 10 {
        lemma_digit_char_value(n);
        let s = nat_digits(n);
        assert(s.drop_first() =~= Seq::<char>::empty());
    } else {
        lemma_scan_nat_digits(n / 10, neg);
        lemma_digit_char_value(n % 10);
        let d = seq![digit_char(n % 10)];
        assert(nat_digits(n) =~= nat_digits(n / 10) + d);
        lemma_scan_digits_append(nat_digits(n / 10), d, 0, neg);
        assert(d.drop_first() =~= Seq::<char>::empty());
        assert((n / 10) * 10 + n % 10 == n) by (nonlinear_arith);
        let acc: int = if neg { -((n / 10) as int) } else { (n / 10) as int };
        assert(d[0] == digit_char(n % 10));
        assert(scan_digits(d, acc, neg) == Ok::<int, IntParseError>(
            if neg { -n } else { n as int },
        ));
    }
}

/// Parsing the decimal representation of an `i32` gives the value back.
pub proof fn lemma_parse_int_chars(v: i32)
    ensures
        parse_i32_spec(int_chars(v as int)) == Ok::<i32, IntParseError>(v),
{
    let s = int_chars(v as int);
    if v < 0 {
        let m: nat = (-v) as nat;
        lemma_nat_digits_len(m);
        lemma_scan_nat_digits(m, true);
        assert(s.drop_first() =~= nat_digits(m));
        assert(s.len() >= 2);
    } else {
        let m: nat = v as nat;
        lemma_nat_digits_len(m);
        lemma_scan_nat_digits(m, false);
        lemma_nat_digits_first_is_digit(m);
        assert(s[0] != '-' && s[0] != '+');
    }
}

proof fn lemma_nat_digits_first_is_digit(n: nat)
    ensures
        is_digit(nat_digits(n)[0]),
    decreases n,
{
    lemma_nat_digits_len(n);
    if n < 10 {
        lemma_digit_char_value(n);
    } else {
        lemma_nat_digits_first_is_digit(n / 10);
        lemma_nat_digits_len(n / 10);
        assert(nat_digits(n)[0] == nat_digits(n / 10)[0]);
    }
}

/// Every character of a decimal representation is a digit.
pub proof fn lemma_nat_digits_all_digits(n: nat)
    ensures
        forall|i: int| 0 <= i < nat_digits(n).len() ==> is_digit(#[trigger] nat_digits(n)[i]),
    decreases n,
{
    if n < 10 {
        lemma_digit_char_value(n);
    } else {
        lemma_nat_digits_all_digits(n / 10);
        lemma_digit_char_value(n % 10);
        assert(nat_digits(n) =~= nat_digits(n / 10).push(digit_char(n % 10)));
    }
}

} // verus!
