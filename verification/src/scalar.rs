//! Fixed-point scalars: real numbers held as thousandths, read from and
//! written as decimal text.

use crate::text::{append_nat, decimal_text, digit_char, nat_text};
use vstd::prelude::*;
use vstd::utf8::{encode_utf8, is_ascii_chars, is_ascii_chars_encode_utf8};

verus! {

/// Thousandths in one unit.
pub const SCALE: u32 = 1000;

/// The largest whole part whose thousandths fit 32 bits.
pub const MAX_WHOLE: u64 = 4_294_967;

/// Whether a byte is an ASCII decimal digit.
pub open spec fn is_digit(b: u8) -> bool {
    48 <= b <= 57
}

/// Whether every byte is a decimal digit.
pub open spec fn all_digits(s: Seq<u8>) -> bool {
    forall|i: int| 0 <= i < s.len() ==> is_digit(#[trigger] s[i])
}

/// The number that a run of decimal digits spells.
pub open spec fn digits_value(s: Seq<u8>) -> nat
    decreases s.len(),
{
    if s.len() == 0 {
        0
    } else {
        digits_value(s.drop_last()) * 10 + (s.last() - 48) as nat
    }
}

/// The index of the first decimal point, or the length where there is none.
pub open spec fn first_dot(s: Seq<u8>) -> int
    decreases s.len(),
{
    if s.len() == 0 {
        0
    } else if s[0] == 46 {
        0
    } else {
        1 + first_dot(s.drop_first())
    }
}

/// The digit at a position of a fraction, zero past its end.
pub open spec fn fraction_digit(frac: Seq<u8>, i: int) -> nat {
    if 0 <= i < frac.len() {
        (frac[i] - 48) as nat
    } else {
        0
    }
}

/// The thousandths that a fraction's first three digits spell; further
/// digits are cut off.
pub open spec fn fraction_milli(frac: Seq<u8>) -> nat {
    fraction_digit(frac, 0) * 100 + fraction_digit(frac, 1) * 10 + fraction_digit(frac, 2)
}

/// The whole part of a decimal text: what stands before the first point.
pub open spec fn whole_part(s: Seq<u8>) -> Seq<u8> {
    s.subrange(0, first_dot(s))
}

/// The fraction of a decimal text: what stands after the first point.
pub open spec fn fraction_part(s: Seq<u8>) -> Seq<u8> {
    if first_dot(s) < s.len() {
        s.subrange(first_dot(s) + 1, s.len() as int)
    } else {
        Seq::empty()
    }
}

/// Whether a text is an unsigned decimal: digits, then optionally a point
/// and more digits.
pub open spec fn is_decimal(s: Seq<u8>) -> bool {
    &&& whole_part(s).len() > 0
    &&& all_digits(whole_part(s))
    &&& all_digits(fraction_part(s))
    &&& first_dot(s) < s.len() ==> fraction_part(s).len() > 0
}

/// The thousandths that a decimal text spells, cut off after the third
/// decimal place; `None` where the text is no unsigned decimal or the
/// thousandths do not fit 32 bits.
pub open spec fn milli_of(s: Seq<u8>) -> Option<u32> {
    let value = digits_value(whole_part(s)) * 1000 + fraction_milli(fraction_part(s));
    if is_decimal(s) && value <= u32::MAX {
        Some(value as u32)
    } else {
        None
    }
}

/// The decimal text of a number of thousandths, with three decimal places.
pub open spec fn milli_text(m: u32) -> Seq<char> {
    (nat_text((m / 1000) as nat) + seq!['.']).push(digit_char(((m / 100) % 10) as int)).push(
        digit_char(((m / 10) % 10) as int),
    ).push(digit_char((m % 10) as int))
}

proof fn lemma_first_dot_bounds(s: Seq<u8>)
    ensures
        0 <= first_dot(s) <= s.len(),
        first_dot(s) < s.len() ==> s[first_dot(s)] == 46,
        forall|i: int| 0 <= i < first_dot(s) ==> #[trigger] s[i] != 46,
    decreases s.len(),
{
    if s.len() > 0 && s[0] != 46 {
        let rest = s.drop_first();
        lemma_first_dot_bounds(rest);
        assert forall|i: int| 0 <= i < first_dot(s) implies #[trigger] s[i] != 46 by {
            if i > 0 {
                assert(s[i] == rest[i - 1]);
            }
        }
    }
}

proof fn lemma_first_dot_at(s: Seq<u8>, k: int)
    requires
        0 <= k <= s.len(),
        forall|i: int| 0 <= i < k ==> #[trigger] s[i] != 46,
        k < s.len() ==> s[k] == 46,
    ensures
        first_dot(s) == k,
{
    lemma_first_dot_bounds(s);
    let d = first_dot(s);
    if d < k {
        assert(s[d] != 46);
    }
}

/// The decimal digits of a natural number as bytes.
pub open spec fn digit_bytes(n: nat) -> Seq<u8>
    decreases n,
{
    if n < 10 {
        seq![(48 + n) as u8]
    } else {
        digit_bytes(n / 10).push((48 + n % 10) as u8)
    }
}

proof fn lemma_digit_bytes(n: nat)
    ensures
        digit_bytes(n).len() > 0,
        all_digits(digit_bytes(n)),
        digits_value(digit_bytes(n)) == n,
        nat_text(n).len() == digit_bytes(n).len(),
        forall|i: int| 0 <= i < nat_text(n).len() ==> (#[trigger] nat_text(n)[i]) as u8 == digit_bytes(n)[i],
        is_ascii_chars(nat_text(n)),
    decreases n,
{
    if n < 10 {
        let one = digit_bytes(n);
        assert(one.drop_last() =~= Seq::<u8>::empty());
        assert(digits_value(one.drop_last()) == 0);
    } else {
        lemma_digit_bytes(n / 10);
        let all = digit_bytes(n);
        assert(all.drop_last() =~= digit_bytes(n / 10));
        assert(digits_value(all) == (n / 10) * 10 + n % 10);
    }
}

proof fn lemma_decimal_value(whole: Seq<u8>, d2: u8, d1: u8, d0: u8)
    requires
        whole.len() > 0,
        all_digits(whole),
        d2 < 10,
        d1 < 10,
        d0 < 10,
        digits_value(whole) * 1000 + d2 * 100 + d1 * 10 + d0 <= u32::MAX,
    ensures
        milli_of(whole + seq![46u8] + seq![(48 + d2) as u8, (48 + d1) as u8, (48 + d0) as u8])
            == Some((digits_value(whole) * 1000 + d2 * 100 + d1 * 10 + d0) as u32),
{
    let s = whole + seq![46u8] + seq![(48 + d2) as u8, (48 + d1) as u8, (48 + d0) as u8];
    let k = whole.len() as int;
    assert forall|i: int| 0 <= i < k implies #[trigger] s[i] != 46 by {
        assert(s[i] == whole[i]);
        assert(is_digit(whole[i]));
    }
    assert(s[k] == 46);
    lemma_first_dot_at(s, k);
    assert(whole_part(s) =~= whole);
    let frac = fraction_part(s);
    assert(frac =~= seq![(48 + d2) as u8, (48 + d1) as u8, (48 + d0) as u8]);
    assert(fraction_milli(frac) == d2 * 100 + d1 * 10 + d0);
}

proof fn lemma_milli_bytes(m: u32)
    ensures
        encode_utf8(milli_text(m)) == digit_bytes((m / 1000) as nat) + seq![46u8] + seq![
            (48 + (m / 100) % 10) as u8,
            (48 + (m / 10) % 10) as u8,
            (48 + m % 10) as u8,
        ],
{
    let whole = (m / 1000) as nat;
    let text = milli_text(m);
    let k = nat_text(whole).len() as int;
    lemma_digit_bytes(whole);
    assert(text.len() == k + 4);
    assert forall|i: int| 0 <= i < text.len() implies '\0' <= #[trigger] text[i] <= '\u{7f}' by {
        if i < k {
            assert(text[i] == nat_text(whole)[i]);
        }
    }
    is_ascii_chars_encode_utf8(text);
    let s = encode_utf8(text);
    let expected = digit_bytes(whole) + seq![46u8] + seq![
        (48 + (m / 100) % 10) as u8,
        (48 + (m / 10) % 10) as u8,
        (48 + m % 10) as u8,
    ];
    assert forall|i: int| 0 <= i < s.len() implies s[i] == expected[i] by {
        assert(s[i] == text[i] as u8);
        if i < k {
            assert(text[i] == nat_text(whole)[i]);
        }
    }
    assert(s =~= expected);
}

proof fn lemma_milli_places(m: int)
    requires
        0 <= m,
    ensures
        (m / 1000) * 1000 + ((m / 100) % 10) * 100 + ((m / 10) % 10) * 10 + m % 10 == m,
{
    let tens = m / 10;
    let hundreds = tens / 10;
    assert(m == tens * 10 + m % 10);
    assert(tens == hundreds * 10 + tens % 10);
    assert(hundreds == (hundreds / 10) * 10 + hundreds % 10);
    assert(m / 100 == hundreds);
    assert(m / 1000 == hundreds / 10);
}

/// What is written for a number of thousandths reads back as that number.
pub proof fn lemma_written_milli_reads_back(m: u32)
    ensures
        milli_of(encode_utf8(milli_text(m))) == Some(m),
{
    let whole = (m / 1000) as nat;
    let d2 = ((m / 100) % 10) as u8;
    let d1 = ((m / 10) % 10) as u8;
    let d0 = (m % 10) as u8;
    lemma_digit_bytes(whole);
    lemma_milli_bytes(m);
    lemma_milli_places(m as int);
    lemma_decimal_value(digit_bytes(whole), d2, d1, d0);
}

/// What is written for an integer reads back as that integer.
pub proof fn lemma_written_int_reads_back(n: i64)
    ensures
        int_of(encode_utf8(decimal_text(n as int))) == Some(n),
{
    let magnitude = (if n < 0 {
        -n
    } else {
        n as int
    }) as nat;
    let text = decimal_text(n as int);
    lemma_digit_bytes(magnitude);
    let k = nat_text(magnitude).len() as int;
    assert forall|i: int| 0 <= i < text.len() implies '\0' <= #[trigger] text[i] <= '\u{7f}' by {
        if n < 0 {
            if i > 0 {
                assert(text[i] == nat_text(magnitude)[i - 1]);
            }
        } else {
            assert(text[i] == nat_text(magnitude)[i]);
        }
    }
    is_ascii_chars_encode_utf8(text);
    let s = encode_utf8(text);
    if n < 0 {
        assert(s[0] == text[0] as u8);
        assert forall|i: int| 0 <= i < k implies #[trigger] int_digits(s)[i] == digit_bytes(
            magnitude,
        )[i] by {
            assert(s[i + 1] == text[i + 1] as u8);
            assert(text[i + 1] == nat_text(magnitude)[i]);
        }
        assert(int_digits(s) =~= digit_bytes(magnitude));
    } else {
        assert(s[0] == text[0] as u8);
        assert(text[0] == nat_text(magnitude)[0]);
        assert(is_digit(digit_bytes(magnitude)[0]));
        assert forall|i: int| 0 <= i < k implies #[trigger] s[i] == digit_bytes(magnitude)[i] by {
            assert(s[i] == text[i] as u8);
            assert(text[i] == nat_text(magnitude)[i]);
        }
        assert(int_digits(s) =~= digit_bytes(magnitude));
    }
}

fn is_digit_byte(b: u8) -> (yes: bool)
    ensures
        yes == is_digit(b),
{
    48 <= b && b <= 57
}

/// Reads an unsigned decimal text as thousandths.
pub fn read_milli(raw: &str) -> (value: Option<u32>)
    ensures
        value == milli_of(encode_utf8(raw@)),
{
    let bytes = raw.as_bytes();
    let ghost s = bytes@;
    let len = bytes.len();
    let mut whole: u64 = 0;
    let mut i: usize = 0;
    let mut overflow = false;
    while i < len && is_digit_byte(bytes[i])
        invariant
            i <= len,
            len == s.len(),
            s == bytes@,
            all_digits(s.subrange(0, i as int)),
            !overflow ==> whole == digits_value(s.subrange(0, i as int)) && whole <= MAX_WHOLE,
            overflow ==> digits_value(s.subrange(0, i as int)) > MAX_WHOLE,
        decreases len - i,
    {
        let d = (bytes[i] - 48) as u64;
        proof {
            assert(s.subrange(0, i + 1).drop_last() =~= s.subrange(0, i as int));
            assert(s.subrange(0, i + 1).last() == s[i as int]);
        }
        if !overflow {
            whole = whole * 10 + d;
            if whole > MAX_WHOLE {
                overflow = true;
            }
        }
        i = i + 1;
    }
    let dot = i;
    proof {
        lemma_first_dot_bounds(s);
        assert forall|k: int| 0 <= k < dot implies #[trigger] s[k] != 46 by {
            assert(s.subrange(0, dot as int)[k] == s[k]);
        }
    }
    if dot == 0 {
        proof {
            if first_dot(s) > 0 {
                assert(whole_part(s)[0] == s[0]);
            }
        }
        return None;
    }
    if dot < len && bytes[dot] != 46 {
        proof {
            if first_dot(s) < dot {
                assert(s[first_dot(s)] == 46);
            }
            assert(whole_part(s)[dot as int] == s[dot as int]);
        }
        return None;
    }
    proof {
        lemma_first_dot_at(s, dot as int);
        assert(whole_part(s) =~= s.subrange(0, dot as int));
    }
    let mut milli: u64 = 0;
    if dot < len {
        if dot + 1 == len {
            proof {
                assert(fraction_part(s).len() == 0);
            }
            return None;
        }
        let ghost frac = fraction_part(s);
        let mut j: usize = dot + 1;
        let mut place: u64 = 100;
        while j < len && is_digit_byte(bytes[j])
            invariant
                dot + 1 <= j <= len,
                dot + 1 < len,
                len == s.len(),
                s == bytes@,
                first_dot(s) == dot,
                frac == fraction_part(s),
                all_digits(frac.subrange(0, j - dot - 1)),
                milli <= 999,
                j - dot - 1 == 0 ==> place == 100 && milli == 0,
                j - dot - 1 == 1 ==> place == 10 && milli == fraction_digit(frac, 0) * 100,
                j - dot - 1 == 2 ==> place == 1 && milli == fraction_digit(frac, 0) * 100
                    + fraction_digit(frac, 1) * 10,
                j - dot - 1 >= 3 ==> place == 0 && milli == fraction_milli(frac),
            decreases len - j,
        {
            let d = (bytes[j] - 48) as u64;
            proof {
                assert(frac[j - dot - 1] == s[j as int]);
                assert forall|k: int| 0 <= k < j - dot implies is_digit(
                    #[trigger] frac.subrange(0, j - dot)[k],
                ) by {
                    if k < j - dot - 1 {
                        assert(frac.subrange(0, j - dot - 1)[k] == frac[k]);
                    }
                }
            }
            milli = milli + d * place;
            place = if place == 100 {
                10
            } else if place == 10 {
                1
            } else {
                0
            };
            j = j + 1;
        }
        if j < len {
            proof {
                assert(frac[j - dot - 1] == s[j as int]);
            }
            return None;
        }
        proof {
            assert(frac.subrange(0, len - dot - 1) =~= frac);
            assert(milli == fraction_milli(frac));
        }
    } else {
        proof {
            assert(fraction_part(s) =~= Seq::<u8>::empty());
        }
    }
    if overflow {
        return None;
    }
    let value = whole * 1000 + milli;
    if value > 0xffff_ffff {
        return None;
    }
    Some(value as u32)
}

/// The digits of a decimal integer text: what follows the sign, if there
/// is one.
pub open spec fn int_digits(s: Seq<u8>) -> Seq<u8> {
    if s.len() > 0 && s[0] == 45 {
        s.drop_first()
    } else {
        s
    }
}

/// The integer that a decimal text spells: digits, with a minus sign in
/// front where it is negative; `None` where the text is of another form or
/// the integer does not fit 64 bits.
pub open spec fn int_of(s: Seq<u8>) -> Option<i64> {
    let digits = int_digits(s);
    let value = digits_value(digits);
    if digits.len() == 0 || !all_digits(digits) {
        None
    } else if s[0] == 45 {
        if value <= 0x8000_0000_0000_0000 {
            Some((-value) as i64)
        } else {
            None
        }
    } else if value <= i64::MAX {
        Some(value as i64)
    } else {
        None
    }
}

/// Reads a decimal integer text.
pub fn read_int(raw: &str) -> (value: Option<i64>)
    ensures
        value == int_of(encode_utf8(raw@)),
{
    let bytes = raw.as_bytes();
    let ghost s = bytes@;
    let len = bytes.len();
    let negative = len > 0 && bytes[0] == 45;
    let start: usize = if negative {
        1
    } else {
        0
    };
    let ghost digits = int_digits(s);
    proof {
        assert(digits =~= s.subrange(start as int, len as int));
    }
    if start == len {
        return None;
    }
    let mut acc: u128 = 0;
    let mut overflow = false;
    let mut i: usize = start;
    proof {
        assert(digits.subrange(0, 0) =~= Seq::<u8>::empty());
    }
    while i < len && is_digit_byte(bytes[i])
        invariant
            start <= i <= len,
            len == s.len(),
            s == bytes@,
            digits == s.subrange(start as int, len as int),
            all_digits(digits.subrange(0, i - start)),
            !overflow ==> acc == digits_value(digits.subrange(0, i - start)) && acc
                <= 0x8000_0000_0000_0000,
            overflow ==> digits_value(digits.subrange(0, i - start)) > 0x8000_0000_0000_0000,
        decreases len - i,
    {
        let d = (bytes[i] - 48) as u128;
        proof {
            let next = digits.subrange(0, i - start + 1);
            assert(next.drop_last() =~= digits.subrange(0, i - start));
            assert(next.last() == s[i as int]);
            assert forall|k: int| 0 <= k < next.len() implies is_digit(#[trigger] next[k]) by {
                if k < i - start {
                    assert(digits.subrange(0, i - start)[k] == next[k]);
                }
            }
        }
        if !overflow {
            acc = acc * 10 + d;
            if acc > 0x8000_0000_0000_0000 {
                overflow = true;
            }
        }
        i = i + 1;
    }
    if i < len {
        proof {
            assert(digits[i - start] == s[i as int]);
        }
        return None;
    }
    proof {
        assert(digits.subrange(0, len - start) =~= digits);
    }
    if overflow {
        return None;
    }
    if negative {
        if acc == 0x8000_0000_0000_0000 {
            Some(i64::MIN)
        } else {
            Some(-(acc as i64))
        }
    } else if acc <= 0x7fff_ffff_ffff_ffff {
        Some(acc as i64)
    } else {
        None
    }
}

/// Writes a number of thousandths as decimal text with three decimal places.
pub fn write_milli(m: u32) -> (text: String)
    ensures
        text@ == milli_text(m),
{
    let mut text = String::new();
    append_nat(&mut text, (m / 1000) as u64);
    text.append(".");
    append_nat(&mut text, ((m / 100) % 10) as u64);
    append_nat(&mut text, ((m / 10) % 10) as u64);
    append_nat(&mut text, (m % 10) as u64);
    proof {
        reveal_strlit(".");
        assert(text@ =~= milli_text(m));
    }
    text
}

/// A number confined to an interval: the nearer bound where it lies
/// outside, the lower bound first.
pub open spec fn clamped(value: u32, low: u32, high: u32) -> u32 {
    if value < low {
        low
    } else if value > high {
        high
    } else {
        value
    }
}

/// Confines a number of thousandths to an interval.
pub fn clamp_milli(value: u32, low: u32, high: u32) -> (confined: u32)
    ensures
        confined == clamped(value, low, high),
        low <= high ==> low <= confined <= high,
{
    if value < low {
        low
    } else if value > high {
        high
    } else {
        value
    }
}

} // verus!
