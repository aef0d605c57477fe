//! Numbers as text: decimal and hexadecimal forms, and reading a decimal back.
use crate::text;
use vstd::prelude::*;

verus! {

// ── Writing ──────────────────────────────────────────────────────────────

/// The digit for `d`, with small letters from ten on.
pub open spec fn digit(d: int) -> char {
    if d == 0 { '0' } else if d == 1 { '1' } else if d == 2 { '2' } else if d == 3 { '3' }
    else if d == 4 { '4' } else if d == 5 { '5' } else if d == 6 { '6' } else if d == 7 { '7' }
    else if d == 8 { '8' } else if d == 9 { '9' } else if d == 10 { 'a' } else if d == 11 { 'b' }
    else if d == 12 { 'c' } else if d == 13 { 'd' } else if d == 14 { 'e' } else { 'f' }
}

/// The digit for `d`, with small letters from ten on.
fn digit_char(d: u64) -> (c: char)
    requires
        d < 16,
    ensures
        c == digit(d as int),
{
    match d {
        0 => '0',
        1 => '1',
        2 => '2',
        3 => '3',
        4 => '4',
        5 => '5',
        6 => '6',
        7 => '7',
        8 => '8',
        9 => '9',
        10 => 'a',
        11 => 'b',
        12 => 'c',
        13 => 'd',
        14 => 'e',
        _ => 'f',
    }
}

/// The decimal form of `n`, with no leading zeros.
pub open spec fn decimal(n: nat) -> Seq<char>
    decreases n,
{
    if n < 10 {
        seq![digit(n as int)]
    } else {
        decimal(n / 10).push(digit((n % 10) as int))
    }
}

/// The decimal form of `n`, with a minus sign before it where `n` is negative.
pub open spec fn signed_decimal(n: int) -> Seq<char> {
    if n < 0 {
        seq!['-'] + decimal((-n) as nat)
    } else {
        decimal(n as nat)
    }
}

/// The decimal form of `n`.
pub fn decimal_text(n: u64) -> (out: String)
    ensures
        out@ == decimal(n as nat),
    decreases n,
{
    let mut out: String = if n < 10 {
        String::new()
    } else {
        decimal_text(n / 10)
    };
    out.push(digit_char(n % 10));
    assert(n < 10 ==> out@ =~= decimal(n as nat));
    out
}

/// The decimal form of `n`.
pub fn signed_decimal_text(n: i64) -> (out: String)
    ensures
        out@ == signed_decimal(n as int),
{
    if n < 0 {
        let magnitude: u64 = (-(n as i128)) as u64;
        let mut out: String = String::new();
        out.push('-');
        out.append(decimal_text(magnitude).as_str());
        assert(out@ =~= signed_decimal(n as int));
        out
    } else {
        decimal_text(n as u64)
    }
}

/// The hexadecimal form of `n` with small letters, with no leading zeros.
pub open spec fn hexadecimal(n: nat) -> Seq<char>
    decreases n,
{
    if n < 16 {
        seq![digit(n as int)]
    } else {
        hexadecimal(n / 16).push(digit((n % 16) as int))
    }
}

/// The hexadecimal form of `n`.
pub fn hexadecimal_text(n: u64) -> (out: String)
    ensures
        out@ == hexadecimal(n as nat),
    decreases n,
{
    let mut out: String = if n < 16 {
        String::new()
    } else {
        hexadecimal_text(n / 16)
    };
    out.push(digit_char(n % 16));
    assert(n < 16 ==> out@ =~= hexadecimal(n as nat));
    out
}

/// The hexadecimal form of `n` with capital letters, as four digits.
pub open spec fn hex4(n: u16) -> Seq<char> {
    seq![
        text::ascii_upper(digit(n as int / 4096)),
        text::ascii_upper(digit(n as int / 256 % 16)),
        text::ascii_upper(digit(n as int / 16 % 16)),
        text::ascii_upper(digit(n as int % 16)),
    ]
}

/// The hexadecimal form of `n` with capital letters, as four digits.
pub fn hex4_text(n: u16) -> (out: String)
    ensures
        out@ == hex4(n),
{
    let v: u64 = n as u64;
    let mut out: String = String::new();
    out.push(digit_char(v / 4096).to_ascii_uppercase());
    out.push(digit_char(v / 256 % 16).to_ascii_uppercase());
    out.push(digit_char(v / 16 % 16).to_ascii_uppercase());
    out.push(digit_char(v % 16).to_ascii_uppercase());
    assert(out@ =~= hex4(n));
    out
}

/// The hexadecimal form of `n` with small letters, as two digits.
pub open spec fn hex2(n: u8) -> Seq<char> {
    seq![digit(n as int / 16), digit(n as int % 16)]
}

/// The hexadecimal form of `n` with small letters, as two digits.
pub fn hex2_text(n: u8) -> (out: String)
    ensures
        out@ == hex2(n),
{
    let v: u64 = n as u64;
    let mut out: String = String::new();
    out.push(digit_char(v / 16));
    out.push(digit_char(v % 16));
    assert(out@ =~= hex2(n));
    out
}

// ── Reading ──────────────────────────────────────────────────────────────

/// Why a text is not a number of the wanted size.
#[derive(Debug, Clone, Copy, PartialEq, Eq, Structural)]
pub enum IntError {
    /// There is nothing to read.
    Empty,
    /// Something that is not a decimal digit stands among the digits.
    InvalidDigit,
    /// The number is over the limit.
    TooLarge,
}

impl IntError {
    /// The reason in words.
    pub open spec fn text(self) -> Seq<char> {
        match self {
            IntError::Empty => "cannot parse integer from empty string"@,
            IntError::InvalidDigit => "invalid digit found in string"@,
            IntError::TooLarge => "number too large to fit in target type"@,
        }
    }

    /// The reason in words.
    pub fn message(self) -> (r: &'static str)
        ensures
            r@ == self.text(),
    {
        match self {
            IntError::Empty => "cannot parse integer from empty string",
            IntError::InvalidDigit => "invalid digit found in string",
            IntError::TooLarge => "number too large to fit in target type",
        }
    }
}

/// Whether `c` is a decimal digit.
pub open spec fn is_decimal_digit(c: char) -> bool {
    '0' <= c <= '9'
}

/// The number that the decimal digits `s` stand for, read from the left and
/// given up at the first thing that is not a digit or that takes the number
/// over `max`.
pub open spec fn read_digits(s: Seq<char>, max: nat) -> Result<nat, IntError>
    decreases s.len(),
{
    if s.len() == 0 {
        Ok(0)
    } else {
        match read_digits(s.drop_last(), max) {
            Err(e) => Err(e),
            Ok(v) => if !is_decimal_digit(s.last()) {
                Err(IntError::InvalidDigit)
            } else if v * 10 + (s.last() as nat - '0' as nat) > max {
                Err(IntError::TooLarge)
            } else {
                Ok((v * 10 + (s.last() as nat - '0' as nat)) as nat)
            },
        }
    }
}

/// The number that `s` stands for: decimal digits, at least one, after an
/// optional plus sign, and no more than `max`.
pub open spec fn read_uint(s: Seq<char>, max: nat) -> Result<nat, IntError> {
    if s.len() == 0 {
        Err(IntError::Empty)
    } else if s == seq!['+'] {
        Err(IntError::InvalidDigit)
    } else if s[0] == '+' {
        read_digits(s.skip(1), max)
    } else {
        read_digits(s, max)
    }
}

/// A prefix that cannot be read settles how the whole is read.
proof fn read_digits_stops(s: Seq<char>, n: int, max: nat)
    requires
        0 <= n <= s.len(),
        read_digits(s.take(n), max) is Err,
    ensures
        read_digits(s, max) == read_digits(s.take(n), max),
    decreases s.len() - n,
{
    if n < s.len() {
        assert(s.take(n + 1).drop_last() =~= s.take(n));
        read_digits_stops(s, n + 1, max);
    } else {
        assert(s.take(n) =~= s);
    }
}

/// The decimal digits of a number read back as that number.
pub proof fn decimal_reads_back(n: nat, max: nat)
    requires
        n <= max,
    ensures
        read_uint(decimal(n), max) == Ok::<nat, IntError>(n),
    decreases n,
{
    decimal_digits_read_back(n, max);
    let s = decimal(n);
    decimal_starts_with_a_digit(n);
    assert(seq!['+'][0] == '+');
}

proof fn decimal_starts_with_a_digit(n: nat)
    ensures
        decimal(n).len() > 0,
        is_decimal_digit(decimal(n)[0]),
    decreases n,
{
    if n >= 10 {
        decimal_starts_with_a_digit(n / 10);
    }
}

proof fn decimal_digits_read_back(n: nat, max: nat)
    requires
        n <= max,
    ensures
        read_digits(decimal(n), max) == Ok::<nat, IntError>(n),
    decreases n,
{
    let s = decimal(n);
    if n >= 10 {
        decimal_digits_read_back(n / 10, max);
        assert(s.drop_last() =~= decimal(n / 10));
    } else {
        assert(s.drop_last() =~= Seq::<char>::empty());
        assert(read_digits(s.drop_last(), max) == Ok::<nat, IntError>(0));
    }
}

/// Reads a decimal number of at most `max`.
pub fn parse_uint(s: &str, max: u64) -> (r: Result<u64, IntError>)
    ensures
        match r {
            Ok(v) => read_uint(s@, max as nat) == Ok::<nat, IntError>(v as nat),
            Err(e) => read_uint(s@, max as nat) == Err::<nat, IntError>(e),
        },
        r matches Ok(v) ==> v <= max,
{
    let chars: Vec<char> = text::chars_of(s);
    let n: usize = chars.len();
    if n == 0 {
        return Err(IntError::Empty);
    }
    let start: usize = if chars[0] == '+' {
        1
    } else {
        0
    };
    if start == n {
        assert(s@ =~= seq!['+']);
        return Err(IntError::InvalidDigit);
    }
    let ghost digits = s@.skip(start as int);
    assert(start == 0 ==> digits =~= s@);
    assert(s@ != seq!['+']) by {
        if s@ == seq!['+'] {
            assert(s@.len() == 1);
        }
    }
    let mut v: u64 = 0;
    let mut i: usize = start;
    while i < n
        invariant
            start <= i <= n,
            n == chars@.len(),
            chars@ == s@,
            digits == s@.skip(start as int),
            read_uint(s@, max as nat) == read_digits(digits, max as nat),
            read_digits(digits.take(i - start), max as nat) == Ok::<nat, IntError>(v as nat),
            v <= max,
        decreases n - i,
    {
        let c: char = chars[i];
        assert(digits.take(i + 1 - start).drop_last() =~= digits.take(i - start));
        assert(digits.take(i + 1 - start).last() == c);
        if c < '0' || '9' < c {
            proof {
                read_digits_stops(digits, i + 1 - start, max as nat);
            }
            return Err(IntError::InvalidDigit);
        }
        let d: u64 = (c as u64) - ('0' as u64);
        if (v as u128) * 10 + (d as u128) > max as u128 {
            proof {
                read_digits_stops(digits, i + 1 - start, max as nat);
            }
            return Err(IntError::TooLarge);
        }
        v = v * 10 + d;
        i = i + 1;
    }
    assert(digits.take(n - start) =~= digits);
    Ok(v)
}

/// A plus sign before the digits changes nothing, and neither do zeros.
pub proof fn a_plus_sign_and_zeros_change_nothing(s: Seq<char>, max: nat)
    requires
        s.len() > 0,
        s[0] != '+',
    ensures
        read_uint(seq!['+'] + s, max) == read_uint(s, max),
        read_uint(seq!['0'] + s, max) == read_uint(s, max),
{
    let signed = seq!['+'] + s;
    let zeroed = seq!['0'] + s;
    assert(signed.skip(1) =~= s);
    assert(signed.len() > 1);
    assert(signed[0] == '+' && zeroed[0] == '0');
    assert(seq!['+'][0] == '+');
    a_zero_changes_nothing(s, max);
}

proof fn a_zero_changes_nothing(s: Seq<char>, max: nat)
    ensures
        read_digits(seq!['0'] + s, max) == read_digits(s, max),
    decreases s.len(),
{
    let zeroed = seq!['0'] + s;
    if s.len() > 0 {
        a_zero_changes_nothing(s.drop_last(), max);
        assert(zeroed.drop_last() =~= seq!['0'] + s.drop_last());
    } else {
        assert(zeroed.drop_last() =~= Seq::empty());
        assert(read_digits(zeroed.drop_last(), max) == Ok::<nat, IntError>(0));
    }
}

/// A number is read only from decimal digits, at least one, behind a plus sign or
/// none, and never one over the limit.
pub proof fn only_digits_make_a_number(s: Seq<char>, max: nat)
    requires
        read_uint(s, max) is Ok,
    ensures
        read_uint(s, max)->Ok_0 <= max,
        s.len() > 0,
        s[0] == '+' || is_decimal_digit(s[0]),
        s[0] == '+' ==> s.len() > 1,
        forall|i: int| 1 <= i < s.len() ==> is_decimal_digit(#[trigger] s[i]),
{
    if s[0] == '+' {
        let digits = s.skip(1);
        digits_are_read(digits, max);
        if s.len() == 1 {
            assert(s =~= seq!['+']);
        }
        assert forall|i: int| 1 <= i < s.len() implies is_decimal_digit(#[trigger] s[i]) by {
            assert(digits[i - 1] == s[i]);
        }
    } else {
        digits_are_read(s, max);
    }
}

proof fn digits_are_read(s: Seq<char>, max: nat)
    requires
        read_digits(s, max) is Ok,
    ensures
        read_digits(s, max)->Ok_0 <= max,
        forall|i: int| 0 <= i < s.len() ==> is_decimal_digit(#[trigger] s[i]),
    decreases s.len(),
{
    if s.len() > 0 {
        let shorter = s.drop_last();
        digits_are_read(shorter, max);
        assert forall|i: int| 0 <= i < s.len() implies is_decimal_digit(#[trigger] s[i]) by {
            if i < shorter.len() {
                assert(shorter[i] == s[i]);
            }
        }
    }
}

/// No two numbers have the same hexadecimal form, so what is told by it is told
/// apart.
pub proof fn hexadecimal_forms_are_distinct(a: nat, b: nat)
    requires
        hexadecimal(a) == hexadecimal(b),
    ensures
        a == b,
    decreases a,
{
    hexadecimal_is_not_empty(a);
    hexadecimal_is_not_empty(b);
    assert(hexadecimal(a).last() == digit((a % 16) as int));
    assert(hexadecimal(b).last() == digit((b % 16) as int));
    assert(a % 16 == b % 16);
    if a >= 16 && b >= 16 {
        assert(hexadecimal(a).drop_last() =~= hexadecimal(a / 16));
        assert(hexadecimal(b).drop_last() =~= hexadecimal(b / 16));
        hexadecimal_forms_are_distinct(a / 16, b / 16);
    }
}

proof fn hexadecimal_is_not_empty(n: nat)
    ensures
        n < 16 ==> hexadecimal(n).len() == 1,
        n >= 16 ==> hexadecimal(n).len() > 1,
    decreases n,
{
    if n >= 16 {
        hexadecimal_is_not_empty(n / 16);
    }
}

} // verus!
