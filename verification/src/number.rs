//! Decimal and hexadecimal text for machine integers.

use vstd::prelude::*;

use crate::text;

verus! {

/// The decimal digit character of `d < 10`.
pub open spec fn digit(d: nat) -> char {
    (48 + d) as char
}

/// Whether `c` is an ASCII decimal digit.
pub open spec fn is_digit(c: char) -> bool {
    '0' <= c <= '9'
}

/// The decimal form of `n`: no sign, no leading zero.
pub open spec fn decimal(n: nat) -> Seq<char>
    decreases n,
{
    if n < 10 {
        seq![digit(n)]
    } else {
        decimal(n / 10).push(digit(n % 10))
    }
}

/// The decimal form of a signed integer.
pub open spec fn signed(n: int) -> Seq<char> {
    if n < 0 {
        seq!['-'] + decimal((-n) as nat)
    } else {
        decimal(n as nat)
    }
}

/// Whether every character is a decimal digit.
pub open spec fn all_digits(s: Seq<char>) -> bool {
    forall|i: int| 0 <= i < s.len() ==> is_digit(#[trigger] s[i])
}

/// The number that a sequence of digits denotes.
pub open spec fn value(s: Seq<char>) -> nat
    decreases s.len(),
{
    if s.len() == 0 {
        0
    } else {
        value(s.drop_last()) * 10 + (s.last() as nat - 48) as nat
    }
}

/// What reading an unsigned integer of at most `max` gives: an optional `+`,
/// then one or more digits whose value is in range.
pub open spec fn parsed(s: Seq<char>, max: nat) -> Option<nat> {
    let digits = if s.len() > 0 && s[0] == '+' {
        s.skip(1)
    } else {
        s
    };
    if digits.len() > 0 && all_digits(digits) && value(digits) <= max {
        Some(value(digits))
    } else {
        None
    }
}

/// What reading a 32-bit signed integer gives: an optional `+` or `-`, then one
/// or more digits, in range.
pub open spec fn parsed_signed(s: Seq<char>) -> Option<int> {
    if s.len() > 0 && s[0] == '-' {
        let digits = s.skip(1);
        if digits.len() > 0 && all_digits(digits) && value(digits) <= 0x8000_0000 {
            Some(-(value(digits) as int))
        } else {
            None
        }
    } else {
        match parsed(s, 0x7fff_ffff) {
            Some(n) => Some(n as int),
            None => None,
        }
    }
}

/// The decimal form of `n`.
pub fn decimal_chars(n: u64) -> (out: Vec<char>)
    ensures
        out@ == decimal(n as nat),
    decreases n,
{
    if n < 10 {
        let mut out: Vec<char> = Vec::new();
        out.push((48 + n as u8) as char);
        assert(out@ =~= seq![digit(n as nat)]);
        out
    } else {
        let mut out = decimal_chars(n / 10);
        out.push((48 + (n % 10) as u8) as char);
        out
    }
}

/// The decimal form of `n` as a string.
pub fn decimal_text(n: u64) -> (out: String)
    ensures
        out@ == decimal(n as nat),
{
    let chars = decimal_chars(n);
    text::string_of(&chars)
}

/// The decimal form of a signed integer as a string.
pub fn signed_text(n: i32) -> (out: String)
    ensures
        out@ == signed(n as int),
{
    if n < 0 {
        let mut out = String::new();
        out.push('-');
        let digits = decimal_text((-(n as i64)) as u64);
        out.append(digits.as_str());
        assert(out@ =~= seq!['-'] + decimal((-(n as int)) as nat));
        out
    } else {
        decimal_text(n as u64)
    }
}

pub proof fn lemma_value_bound(s: Seq<char>, k: int)
    requires
        0 <= k <= s.len(),
        all_digits(s),
    ensures
        value(s.take(k)) <= value(s),
    decreases s.len() - k,
{
    if k == s.len() {
        assert(s.take(k) =~= s);
    } else {
        lemma_value_bound(s, k + 1);
        assert(s.take(k + 1).drop_last() =~= s.take(k));
        assert(is_digit(s[k]));
    }
}

/// Reads digits from position `from` on; `None` unless there is at least one,
/// all are digits, and the value is at most `max`.
fn read_digits(s: &[char], from: usize, max: u64) -> (r: Option<u64>)
    requires
        from <= s@.len(),
    ensures
        ({
            let digits = s@.skip(from as int);
            match r {
                Some(n) => digits.len() > 0 && all_digits(digits) && value(digits) == n && n <= max,
                None => !(digits.len() > 0 && all_digits(digits) && value(digits) <= max),
            }
        }),
{
    let ghost digits = s@.skip(from as int);
    if from == s.len() {
        return None;
    }
    let mut n: u64 = 0;
    let mut i: usize = from;
    assert(digits.take(0) =~= Seq::<char>::empty());
    while i < s.len()
        invariant
            from <= i <= s@.len(),
            digits == s@.skip(from as int),
            all_digits(digits.take(i - from)),
            value(digits.take(i - from)) == n,
            n <= max,
        decreases s@.len() - i,
    {
        let c = s[i];
        assert(digits[i - from] == c);
        if !('0' <= c && c <= '9') {
            return None;
        }
        let d: u64 = c as u64 - 48;
        assert(digits.take(i - from + 1).drop_last() =~= digits.take(i - from));
        assert(value(digits.take(i - from + 1)) == n * 10 + d);
        let next: u128 = n as u128 * 10 + d as u128;
        if next > max as u128 {
            proof {
                if all_digits(digits) {
                    lemma_value_bound(digits, i - from + 1);
                }
            }
            return None;
        }
        n = next as u64;
        i = i + 1;
        assert(all_digits(digits.take(i - from)));
    }
    assert(digits.take(i - from) =~= digits);
    Some(n)
}

/// Reads an unsigned integer of at most `max`.
pub fn parse_unsigned(s: &[char], max: u64) -> (r: Option<u64>)
    ensures
        match r {
            Some(n) => parsed(s@, max as nat) == Some(n as nat) && n <= max,
            None => parsed(s@, max as nat) is None,
        },
{
    assert(s@.skip(0) =~= s@);
    if s.len() > 0 && s[0] == '+' {
        read_digits(s, 1, max)
    } else {
        read_digits(s, 0, max)
    }
}

/// Reads a 32-bit signed integer.
pub fn parse_signed(s: &[char]) -> (r: Option<i32>)
    ensures
        match r {
            Some(n) => parsed_signed(s@) == Some(n as int),
            None => parsed_signed(s@) is None,
        },
{
    if s.len() > 0 && s[0] == '-' {
        match read_digits(s, 1, 0x8000_0000) {
            Some(n) => Some((-(n as i64)) as i32),
            None => None,
        }
    } else {
        match parse_unsigned(s, 0x7fff_ffff) {
            Some(n) => Some(n as i32),
            None => None,
        }
    }
}

/// The decimal form of a number holds one or more digits, and they denote it.
pub proof fn law_decimal_denotes(n: nat)
    ensures
        decimal(n).len() > 0,
        all_digits(decimal(n)),
        value(decimal(n)) == n,
    decreases n,
{
    if n < 10 {
        assert(decimal(n).drop_last() =~= Seq::<char>::empty());
        assert(value(Seq::<char>::empty()) == 0);
    } else {
        law_decimal_denotes(n / 10);
        assert(decimal(n).drop_last() =~= decimal(n / 10));
    }
}

/// Reading back the decimal form of a number in range gives the number.
pub proof fn law_decimal_round_trip(n: nat, max: nat)
    requires
        n <= max,
    ensures
        parsed(decimal(n), max) == Some(n),
{
    law_decimal_denotes(n);
    assert(is_digit(decimal(n)[0]));
}

/// Reading back the decimal form of a 32-bit signed integer gives the integer.
pub proof fn law_signed_round_trip(n: i32)
    ensures
        parsed_signed(signed(n as int)) == Some(n as int),
{
    if n < 0 {
        let digits = decimal((-(n as int)) as nat);
        law_decimal_denotes((-(n as int)) as nat);
        assert(signed(n as int).skip(1) =~= digits);
    } else {
        law_decimal_round_trip(n as nat, 0x7fff_ffff);
        assert(is_digit(decimal(n as nat)[0])) by {
            law_decimal_denotes(n as nat);
        }
    }
}

/// The lower-case hexadecimal digit of `d < 16`.
pub open spec fn hex_digit(d: nat) -> char {
    if d < 10 {
        (48 + d) as char
    } else {
        (87 + d) as char
    }
}

/// Two lower-case hexadecimal digits per byte, high half first.
pub open spec fn hex(bytes: Seq<u8>) -> Seq<char> {
    Seq::new(
        2 * bytes.len(),
        |i: int|
            if i % 2 == 0 {
                hex_digit(bytes[i / 2] as nat / 16)
            } else {
                hex_digit(bytes[i / 2] as nat % 16)
            },
    )
}

fn hex_char(d: u8) -> (c: char)
    requires
        d < 16,
    ensures
        c == hex_digit(d as nat),
{
    if d < 10 {
        (48 + d) as char
    } else {
        (87 + d) as char
    }
}

/// Lower-case hexadecimal text of the bytes.
pub fn hex_text(bytes: &[u8]) -> (out: String)
    ensures
        out@ == hex(bytes@),
{
    let mut out = String::new();
    let mut i: usize = 0;
    while i < bytes.len()
        invariant
            i <= bytes@.len(),
            out@ == hex(bytes@.take(i as int)),
        decreases bytes@.len() - i,
    {
        out.push(hex_char(bytes[i] / 16));
        out.push(hex_char(bytes[i] % 16));
        i = i + 1;
        assert(out@ =~= hex(bytes@.take(i as int)));
    }
    assert(bytes@.take(i as int) =~= bytes@);
    out
}

/// A digit more is ten times the number, and the digit.
pub proof fn law_digits_count_in_tens(s: Seq<char>, c: char)
    requires
        '0' <= c <= '9',
    ensures
        value(Seq::empty()) == 0,
        value(s.push(c)) == value(s) * 10 + (c as int - '0' as int),
{
    assert(s.push(c).drop_last() =~= s);
}

/// The decimal form of a number starts with a zero only if it is nothing else, and
/// that of a negative one is a minus sign before that of its opposite.
pub proof fn law_decimal_has_no_leading_zero(n: u64, m: i32, r: String, s: String, t: String)
    requires
        decimal_text.ensures((n,), r),
        signed_text.ensures((m,), s),
        m < 0 ==> decimal_text.ensures((-(m as int) as u64,), t),
        m >= 0 ==> decimal_text.ensures((m as u64,), t),
    ensures
        r@.len() > 0,
        n > 0 ==> r@[0] != '0',
        n == 0 ==> r@ == seq!['0'],
        m >= 0 ==> s@ == t@,
        m < 0 ==> s@ == seq!['-'] + t@,
{
    lemma_first_digit(n as nat);
}

proof fn lemma_first_digit(n: nat)
    ensures
        decimal(n).len() > 0,
        n > 0 ==> decimal(n)[0] != '0',
    decreases n,
{
    if n >= 10 {
        lemma_first_digit(n / 10);
    }
}

/// Reading an unsigned number takes one or more decimal digits, with or without a
/// plus sign before them, and nothing else; it gives what the digits denote, unless
/// that is more than allowed.
pub proof fn law_unsigned_reads_digits(s: &[char], max: u64, r: Option<u64>, c: char)
    requires
        parse_unsigned.ensures((s, max), r),
    ensures
        r matches Some(n) ==> n <= max,
        s@.len() == 0 ==> r is None,
        forall|i: int|
            1 <= i < s@.len() && !('0' <= #[trigger] s@[i] <= '9') ==> r is None,
        s@.len() > 0 && s@[0] != '+' && !('0' <= s@[0] <= '9') ==> r is None,
        s@ == seq!['+'] ==> r is None,
        s@.len() > 0 && (forall|i: int| 0 <= i < s@.len() ==> '0' <= #[trigger] s@[i] <= '9')
            && value(s@) <= max ==> (r matches Some(n) && n == value(s@)),
        s@.len() > 0 && (forall|i: int| 0 <= i < s@.len() ==> '0' <= #[trigger] s@[i] <= '9')
            && value(s@) > max ==> r is None,
        s@.len() > 1 && s@[0] == '+' && (forall|i: int|
            1 <= i < s@.len() ==> '0' <= #[trigger] s@[i] <= '9') && value(s@.skip(1)) <= max
            ==> (r matches Some(n) && n == value(s@.skip(1))),
{
    let rest = s@.skip(1);
    assert forall|i: int| 1 <= i < s@.len() && !('0' <= #[trigger] s@[i] <= '9') implies r is None by {
        if s@[0] == '+' {
            assert(rest[i - 1] == s@[i]);
            assert(!is_digit(rest[i - 1]));
        } else {
            assert(!is_digit(s@[i]));
        }
    }
    if s@.len() > 0 && s@[0] != '+' && !('0' <= s@[0] <= '9') {
        assert(!is_digit(s@[0]));
    }
    if s@.len() > 1 && (forall|i: int| 1 <= i < s@.len() ==> '0' <= #[trigger] s@[i] <= '9') {
        assert forall|i: int| 0 <= i < rest.len() implies is_digit(#[trigger] rest[i]) by {
            assert('0' <= s@[i + 1] <= '9');
        }
    }
    if s@ == seq!['+'] {
        assert(s@[0] == '+');
        assert(rest.len() == 0);
    }
}

/// Reading a signed number is reading an unsigned one, but that a minus sign before
/// the digits gives the opposite, and that it has to fit.
pub proof fn law_signed_reads_sign(
    s: &[char],
    negative: &[char],
    r: Option<i32>,
    opposite: Option<i32>,
    small: Option<u64>,
    large: Option<u64>,
)
    requires
        s@.len() > 0 && s@[0] != '-' && s@[0] != '+',
        negative@ == seq!['-'] + s@,
        parse_signed.ensures((s,), r),
        parse_signed.ensures((negative,), opposite),
        parse_unsigned.ensures((s, 0x7fff_ffffu64), small),
        parse_unsigned.ensures((s, 0x8000_0000u64), large),
    ensures
        r is Some <==> small is Some,
        r matches Some(n) ==> n == small->0,
        opposite is Some <==> large is Some,
        opposite matches Some(n) ==> n == -(large->0 as int),
{
    assert(negative@.skip(1) =~= s@);
}

/// The half byte that a hexadecimal digit denotes.
pub open spec fn nibble(c: char) -> int {
    if c <= '9' {
        c as int - '0' as int
    } else {
        c as int - 'a' as int + 10
    }
}

/// The hexadecimal text of bytes has two digits for each, of the ten figures and the
/// letters from `a` to `f`, and they denote it, the higher half first.
pub proof fn law_hex_denotes(bytes: &[u8], out: String, i: int)
    requires
        hex_text.ensures((bytes,), out),
        0 <= i < bytes@.len(),
    ensures
        out@.len() == 2 * bytes@.len(),
        '0' <= out@[2 * i] <= '9' || 'a' <= out@[2 * i] <= 'f',
        '0' <= out@[2 * i + 1] <= '9' || 'a' <= out@[2 * i + 1] <= 'f',
        nibble(out@[2 * i]) * 16 + nibble(out@[2 * i + 1]) == bytes@[i],
{
    assert((2 * i) / 2 == i && (2 * i + 1) / 2 == i);
    assert((2 * i) % 2 == 0 && (2 * i + 1) % 2 == 1);
}

} // verus!
