//! Whole numbers as decimal text: reading them and writing them.

use vstd::prelude::*;

verus! {

/// Whether `c` is one of the ten ASCII digits.
pub open spec fn is_digit(c: char) -> bool {
    '0' as u32 <= c as u32 <= '9' as u32
}

/// The digit that stands for `d`, for `d` below ten.
pub open spec fn digit_char(d: nat) -> char {
    (('0' as u32 + d) as u8) as char
}

/// What the digit `c` stands for; zero where `c` is no digit.
pub open spec fn digit_of(c: char) -> nat {
    if is_digit(c) {
        (c as u32 - '0' as u32) as nat
    } else {
        0
    }
}

/// Whether `s` holds digits only.
pub open spec fn all_digits(s: Seq<char>) -> bool {
    forall|i: int| 0 <= i < s.len() ==> is_digit(#[trigger] s[i])
}

/// The number that the digits of `s` write in base ten.
pub open spec fn digits_value(s: Seq<char>) -> nat
    decreases s.len(),
{
    if s.len() == 0 {
        0
    } else {
        10 * digits_value(s.drop_last()) + digit_of(s.last())
    }
}

/// The number that `s` writes in base ten: a sign, which is optional, then
/// one digit or more and nothing else. A minus sign is accepted only where
/// `signed` holds; a plus sign always.
pub open spec fn parse_int(s: Seq<char>, signed: bool) -> Option<int> {
    let negative = signed && s.len() > 0 && s[0] == '-';
    let digits = if s.len() > 0 && (s[0] == '+' || negative) {
        s.drop_first()
    } else {
        s
    };
    if digits.len() == 0 || !all_digits(digits) {
        None
    } else if negative {
        Some(-(digits_value(digits) as int))
    } else {
        Some(digits_value(digits) as int)
    }
}

/// The number that `s` writes, where it lies between `lo` and `hi`.
pub open spec fn parse_within(s: Seq<char>, signed: bool, lo: int, hi: int) -> Option<int> {
    match parse_int(s, signed) {
        Some(v) => if lo <= v <= hi {
            Some(v)
        } else {
            None
        },
        None => None,
    }
}

/// The `i32` that `s` writes.
pub open spec fn parse_i32(s: Seq<char>) -> Option<i32> {
    match parse_within(s, true, i32::MIN as int, i32::MAX as int) {
        Some(v) => Some(v as i32),
        None => None,
    }
}

/// The `u16` that `s` writes.
pub open spec fn parse_u16(s: Seq<char>) -> Option<u16> {
    match parse_within(s, false, 0, u16::MAX as int) {
        Some(v) => Some(v as u16),
        None => None,
    }
}

/// The `u32` that `s` writes.
pub open spec fn parse_u32(s: Seq<char>) -> Option<u32> {
    match parse_within(s, false, 0, u32::MAX as int) {
        Some(v) => Some(v as u32),
        None => None,
    }
}

/// `n` in base ten, without leading zeros.
pub open spec fn decimal(n: nat) -> Seq<char>
    decreases n,
{
    if n < 10 {
        seq![digit_char(n)]
    } else {
        decimal(n / 10).push(digit_char(n % 10))
    }
}

/// `v` in base ten, with a minus sign in front where it is negative.
pub open spec fn signed_decimal(v: int) -> Seq<char> {
    if v < 0 {
        seq!['-'] + decimal((-v) as nat)
    } else {
        decimal(v as nat)
    }
}

/// The digits of a prefix write no more than the digits of the whole.
pub proof fn lemma_digits_value_prefix(s: Seq<char>, k: int)
    requires
        0 <= k <= s.len(),
    ensures
        digits_value(s.take(k)) <= digits_value(s),
    decreases s.len(),
{
    if k == s.len() {
        assert(s.take(k) =~= s);
    } else {
        lemma_digits_value_prefix(s.drop_last(), k);
        assert(s.drop_last().take(k) =~= s.take(k));
    }
}

/// What is written is read back: the decimal text of a number holds digits
/// only, at least one, and they write that number.
pub proof fn lemma_decimal_round_trip(n: nat)
    ensures
        decimal(n).len() > 0,
        all_digits(decimal(n)),
        digits_value(decimal(n)) == n,
        parse_int(decimal(n), true) == Some(n as int),
        parse_int(decimal(n), false) == Some(n as int),
    decreases n,
{
    if n < 10 {
        let s = decimal(n);
        assert(s.drop_last() =~= Seq::<char>::empty());
        assert(digits_value(s.drop_last()) == 0);
        assert(digit_of(digit_char(n)) == n);
    } else {
        lemma_decimal_round_trip(n / 10);
        let s = decimal(n);
        assert(s.drop_last() =~= decimal(n / 10));
        assert(digit_of(digit_char(n % 10)) == n % 10);
        assert forall|i: int| 0 <= i < s.len() implies is_digit(#[trigger] s[i]) by {
            if i < s.len() - 1 {
                assert(s[i] == decimal(n / 10)[i]);
            }
        }
    }
    assert(decimal(n)[0] != '-' && decimal(n)[0] != '+');
}

/// A number written with its sign is read back with its sign.
pub proof fn lemma_signed_decimal_round_trip(v: int)
    ensures
        parse_int(signed_decimal(v), true) == Some(v),
{
    if v < 0 {
        let n = (-v) as nat;
        lemma_decimal_round_trip(n);
        assert(signed_decimal(v).drop_first() =~= decimal(n));
    } else {
        lemma_decimal_round_trip(v as nat);
    }
}

/// Tests whether `c` is a digit.
pub fn is_digit_char(c: char) -> (r: bool)
    ensures
        r == is_digit(c),
{
    let u: u32 = c as u32;
    48 <= u && u <= 57
}

/// The number that `chars` writes, where it lies between `lo` and `hi`.
#[verifier::loop_isolation(false)]
fn parse_bounded(chars: &Vec<char>, signed: bool, lo: i64, hi: i64) -> (r: Option<i64>)
    requires
        -0x1_0000_0000 <= lo <= 0 <= hi <= 0x1_0000_0000,
    ensures
        r matches Some(v) ==> parse_within(chars@, signed, lo as int, hi as int) == Some(v as int),
        r is None ==> parse_within(chars@, signed, lo as int, hi as int) is None,
{
    let n = chars.len();
    if n == 0 {
        return None;
    }
    let negative = signed && chars[0] == '-';
    let first: usize = if chars[0] == '+' || negative {
        1
    } else {
        0
    };
    if first == n {
        return None;
    }
    let ghost digits = chars@.skip(first as int);
    assert(digits =~= if first == 1 {
        chars@.drop_first()
    } else {
        chars@
    });
    let limit: i64 = if negative {
        -lo
    } else {
        hi
    };
    let mut value: i64 = 0;
    let mut i: usize = first;
    assert(digits.take(0) =~= Seq::<char>::empty());
    while i < n
        invariant
            first <= i <= n == chars.len(),
            digits == chars@.skip(first as int),
            all_digits(digits.take(i - first)),
            value == digits_value(digits.take(i - first)),
            0 <= value <= limit <= 0x1_0000_0000,
        decreases n - i,
    {
        let c = chars[i];
        let ghost read = digits.take(i - first + 1);
        assert(read.drop_last() =~= digits.take(i - first));
        assert(read.last() == c);
        if !is_digit_char(c) {
            assert(!all_digits(digits)) by {
                assert(digits[i - first] == c);
            }
            return None;
        }
        let d: i64 = (c as u32 - 48) as i64;
        value = value * 10 + d;
        if value > limit {
            proof {
                lemma_digits_value_prefix(digits, i - first + 1);
            }
            return None;
        }
        assert forall|k: int| 0 <= k < read.len() implies is_digit(#[trigger] read[k]) by {
            if k < read.len() - 1 {
                assert(read[k] == digits.take(i - first)[k]);
            }
        }
        i += 1;
    }
    assert(digits.take(n - first) =~= digits);
    if negative {
        Some(-value)
    } else {
        Some(value)
    }
}

/// The `i32` that `chars` writes.
pub fn parse_i32_chars(chars: &Vec<char>) -> (r: Option<i32>)
    ensures
        r == parse_i32(chars@),
{
    match parse_bounded(chars, true, -0x8000_0000, 0x7fff_ffff) {
        Some(v) => Some(v as i32),
        None => None,
    }
}

/// The `u16` that `chars` writes.
pub fn parse_u16_chars(chars: &Vec<char>) -> (r: Option<u16>)
    ensures
        r == parse_u16(chars@),
{
    match parse_bounded(chars, false, 0, 0xffff) {
        Some(v) => Some(v as u16),
        None => None,
    }
}

/// The `u32` that `chars` writes.
pub fn parse_u32_chars(chars: &Vec<char>) -> (r: Option<u32>)
    ensures
        r == parse_u32(chars@),
{
    match parse_bounded(chars, false, 0, 0xffff_ffff) {
        Some(v) => Some(v as u32),
        None => None,
    }
}

/// The digit that stands for `d`.
fn digit(d: u8) -> (c: char)
    requires
        d < 10,
    ensures
        c == digit_char(d as nat),
{
    (48u8 + d) as char
}

/// Appends `n` in base ten to `out`.
pub fn push_decimal(out: &mut String, n: u64)
    ensures
        final(out)@ == old(out)@ + decimal(n as nat),
    decreases n,
{
    if n >= 10 {
        push_decimal(out, n / 10);
    }
    out.push(digit((n % 10) as u8));
    assert(out@ =~= old(out)@ + decimal(n as nat));
}

/// Appends `v` in base ten to `out`, with its sign where it is negative.
pub fn push_signed_decimal(out: &mut String, v: i32)
    ensures
        final(out)@ == old(out)@ + signed_decimal(v as int),
{
    if v < 0 {
        out.push('-');
        push_decimal(out, (-(v as i64)) as u64);
        assert(out@ =~= old(out)@ + signed_decimal(v as int));
    } else {
        push_decimal(out, v as u64);
    }
}

/// `n` in base ten.
pub fn decimal_string(n: u64) -> (s: String)
    ensures
        s@ == decimal(n as nat),
{
    let mut s = String::new();
    push_decimal(&mut s, n);
    assert(s@ =~= decimal(n as nat));
    s
}

} // verus!
