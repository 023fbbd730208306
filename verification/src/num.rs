//! Little-endian integers and their decimal text.
//!
//! Records hold every multi-byte number least significant byte first. The
//! functions here read such numbers out of byte slices and write integers
//! as decimal text; the lemmas at the end say that the text reads back to
//! the number it was written from.

use vstd::prelude::*;

verus! {

/// The power `256^k`.
pub open spec fn pow256(k: nat) -> nat
    decreases k,
{
    if k == 0 {
        1
    } else {
        256 * pow256((k - 1) as nat)
    }
}

/// The number that `bytes` spell, least significant byte first.
pub open spec fn le_value(bytes: Seq<u8>) -> nat
    decreases bytes.len(),
{
    if bytes.len() == 0 {
        0
    } else {
        bytes[0] as nat + 256 * le_value(bytes.drop_first())
    }
}

/// The two's-complement reading of `bytes`, least significant byte first.
pub open spec fn le_signed_value(bytes: Seq<u8>) -> int {
    if 2 * le_value(bytes) >= pow256(bytes.len()) {
        le_value(bytes) - pow256(bytes.len())
    } else {
        le_value(bytes) as int
    }
}

/// The values of `pow256` up to eight bytes.
pub proof fn lemma_pow256_values()
    ensures
        pow256(0) == 1,
        pow256(1) == 0x100,
        pow256(2) == 0x1_0000,
        pow256(3) == 0x100_0000,
        pow256(4) == 0x1_0000_0000,
        pow256(5) == 0x100_0000_0000,
        pow256(6) == 0x1_0000_0000_0000,
        pow256(7) == 0x100_0000_0000_0000,
        pow256(8) == 0x1_0000_0000_0000_0000,
{
    reveal_with_fuel(pow256, 10);
}

/// A little-endian number of `n` bytes is below `256^n`.
pub proof fn lemma_le_value_bound(bytes: Seq<u8>)
    ensures
        le_value(bytes) < pow256(bytes.len()),
    decreases bytes.len(),
{
    if bytes.len() > 0 {
        lemma_le_value_bound(bytes.drop_first());
    }
}

/// Reading one more byte in front: the byte, then 256 times the rest.
proof fn lemma_le_value_skip(bytes: Seq<u8>, i: int)
    requires
        0 <= i < bytes.len(),
    ensures
        le_value(bytes.skip(i)) == bytes[i] as nat + 256 * le_value(bytes.skip(i + 1)),
{
    assert(bytes.skip(i).drop_first() =~= bytes.skip(i + 1));
}

/// Reads an unsigned little-endian number of at most eight bytes.
pub fn read_le(bytes: &[u8]) -> (r: u64)
    requires
        bytes@.len() <= 8,
    ensures
        r == le_value(bytes@),
{
    let n: usize = bytes.len();
    let mut i: usize = n;
    let mut acc: u64 = 0;
    proof {
        lemma_pow256_values();
        assert(bytes@.skip(n as int) =~= Seq::<u8>::empty());
    }
    while i > 0
        invariant
            n == bytes@.len(),
            n <= 8,
            i <= n,
            acc == le_value(bytes@.skip(i as int)),
            acc < pow256((n - i) as nat),
        decreases i,
    {
        proof {
            lemma_le_value_skip(bytes@, i - 1);
            lemma_pow256_values();
            assert(pow256((n - i + 1) as nat) == 256 * pow256((n - i) as nat));
        }
        i = i - 1;
        acc = acc * 256 + bytes[i] as u64;
    }
    proof {
        assert(bytes@.skip(0) =~= bytes@);
    }
    acc
}

/// Reads a two's-complement little-endian number of one to eight bytes.
pub fn read_le_signed(bytes: &[u8]) -> (r: i64)
    requires
        1 <= bytes@.len() <= 8,
    ensures
        r == le_signed_value(bytes@),
{
    let n: usize = bytes.len();
    let u: u64 = read_le(bytes);
    proof {
        lemma_pow256_values();
        lemma_le_value_bound(bytes@);
    }
    if n == 8 {
        if u >= 0x8000_0000_0000_0000 {
            let low: u64 = u - 0x8000_0000_0000_0000;
            low as i64 + i64::MIN
        } else {
            u as i64
        }
    } else {
        let mut span: u64 = 1;
        let mut k: usize = 0;
        while k < n
            invariant
                k <= n,
                n < 8,
                span == pow256(k as nat),
            decreases n - k,
        {
            proof {
                lemma_pow256_values();
                assert(pow256((k + 1) as nat) == 256 * pow256(k as nat));
            }
            span = span * 256;
            k = k + 1;
        }
        if u >= span / 2 {
            u as i64 - span as i64
        } else {
            u as i64
        }
    }
}

/// The character of one decimal digit.
pub open spec fn digit_char(d: nat) -> char {
    if d == 0 {
        '0'
    } else if d == 1 {
        '1'
    } else if d == 2 {
        '2'
    } else if d == 3 {
        '3'
    } else if d == 4 {
        '4'
    } else if d == 5 {
        '5'
    } else if d == 6 {
        '6'
    } else if d == 7 {
        '7'
    } else if d == 8 {
        '8'
    } else {
        '9'
    }
}

/// The decimal text of a natural number, without leading zeros.
pub open spec fn decimal(n: nat) -> Seq<char>
    decreases n,
{
    if n < 10 {
        seq![digit_char(n)]
    } else {
        decimal(n / 10).push(digit_char(n % 10))
    }
}

/// The decimal text of an integer: a minus sign before the magnitude of a
/// negative one.
pub open spec fn signed_decimal(v: int) -> Seq<char> {
    if v < 0 {
        seq!['-'] + decimal((-v) as nat)
    } else {
        decimal(v as nat)
    }
}

/// The digit that a character stands for, if it is one.
pub open spec fn digit_value(c: char) -> Option<nat> {
    if c == '0' {
        Some(0)
    } else if c == '1' {
        Some(1)
    } else if c == '2' {
        Some(2)
    } else if c == '3' {
        Some(3)
    } else if c == '4' {
        Some(4)
    } else if c == '5' {
        Some(5)
    } else if c == '6' {
        Some(6)
    } else if c == '7' {
        Some(7)
    } else if c == '8' {
        Some(8)
    } else if c == '9' {
        Some(9)
    } else {
        None
    }
}

/// The number that a string of decimal digits spells; `None` for the empty
/// string and for one that holds anything but digits.
pub open spec fn parse_decimal(s: Seq<char>) -> Option<nat>
    decreases s.len(),
{
    if s.len() == 0 {
        None
    } else {
        match digit_value(s.last()) {
            None => None,
            Some(d) => if s.len() == 1 {
                Some(d)
            } else {
                match parse_decimal(s.drop_last()) {
                    None => None,
                    Some(high) => Some(10 * high + d),
                }
            },
        }
    }
}

/// The integer that a decimal string with an optional leading minus
/// spells.
pub open spec fn parse_signed_decimal(s: Seq<char>) -> Option<int> {
    if s.len() > 0 && s[0] == '-' {
        match parse_decimal(s.drop_first()) {
            None => None,
            Some(m) => Some(-(m as int)),
        }
    } else {
        match parse_decimal(s) {
            None => None,
            Some(m) => Some(m as int),
        }
    }
}

/// The text of one decimal digit.
fn digit_str(d: u64) -> (s: &'static str)
    requires
        d < 10,
    ensures
        s@ == seq![digit_char(d as nat)],
{
    proof {
        reveal_strlit("0");
        reveal_strlit("1");
        reveal_strlit("2");
        reveal_strlit("3");
        reveal_strlit("4");
        reveal_strlit("5");
        reveal_strlit("6");
        reveal_strlit("7");
        reveal_strlit("8");
        reveal_strlit("9");
    }
    let s: &'static str = if d == 0 {
        "0"
    } else if d == 1 {
        "1"
    } else if d == 2 {
        "2"
    } else if d == 3 {
        "3"
    } else if d == 4 {
        "4"
    } else if d == 5 {
        "5"
    } else if d == 6 {
        "6"
    } else if d == 7 {
        "7"
    } else if d == 8 {
        "8"
    } else {
        "9"
    };
    assert(s@ =~= seq![digit_char(d as nat)]);
    s
}

/// Writes `n` in decimal.
pub fn format_unsigned(n: u64) -> (s: String)
    ensures
        s@ == decimal(n as nat),
    decreases n,
{
    if n < 10 {
        String::from_str(digit_str(n))
    } else {
        let mut s: String = format_unsigned(n / 10);
        s.append(digit_str(n % 10));
        assert(s@ =~= decimal(n as nat));
        s
    }
}

/// Writes `v` in decimal, with a leading minus when it is negative.
pub fn format_signed(v: i64) -> (s: String)
    ensures
        s@ == signed_decimal(v as int),
{
    if v < 0 {
        let magnitude: u64 = (-(v + 1)) as u64 + 1;
        let mut s: String = String::from_str("-");
        let digits: String = format_unsigned(magnitude);
        s.append(digits.as_str());
        proof {
            reveal_strlit("-");
            assert(s@ =~= signed_decimal(v as int));
        }
        s
    } else {
        format_unsigned(v as u64)
    }
}

/// Writes a wide `n` in decimal.
pub fn format_wide_unsigned(n: u128) -> (s: String)
    ensures
        s@ == decimal(n as nat),
    decreases n,
{
    if n < 10 {
        String::from_str(digit_str(n as u64))
    } else {
        let mut s: String = format_wide_unsigned(n / 10);
        s.append(digit_str((n % 10) as u64));
        assert(s@ =~= decimal(n as nat));
        s
    }
}

/// Writes a wide `v` in decimal, with a leading minus when it is negative.
pub fn format_wide(v: i128) -> (s: String)
    ensures
        s@ == signed_decimal(v as int),
{
    if v < 0 {
        let magnitude: u128 = (-(v + 1)) as u128 + 1;
        let mut s: String = String::from_str("-");
        let digits: String = format_wide_unsigned(magnitude);
        s.append(digits.as_str());
        proof {
            reveal_strlit("-");
            assert(s@ =~= signed_decimal(v as int));
        }
        s
    } else {
        format_wide_unsigned(v as u128)
    }
}

/// Every character of a decimal text is a digit, so none is a minus sign.
pub proof fn lemma_decimal_digits(n: nat)
    ensures
        decimal(n).len() >= 1,
        forall|i: int| 0 <= i < decimal(n).len() ==> digit_value(#[trigger] decimal(n)[i]) is Some,
    decreases n,
{
    if n >= 10 {
        lemma_decimal_digits(n / 10);
    }
}

/// Decimal text reads back to the number it was written from.
pub proof fn lemma_decimal_round_trip(n: nat)
    ensures
        parse_decimal(decimal(n)) == Some(n),
    decreases n,
{
    if n >= 10 {
        lemma_decimal_round_trip(n / 10);
        lemma_decimal_digits(n / 10);
        let text = decimal(n);
        assert(text.drop_last() =~= decimal(n / 10));
        assert(text.last() == digit_char(n % 10));
    }
}

/// Signed decimal text reads back to the integer it was written from.
pub proof fn lemma_signed_decimal_round_trip(v: int)
    ensures
        parse_signed_decimal(signed_decimal(v)) == Some(v),
{
    if v < 0 {
        let m = (-v) as nat;
        lemma_decimal_round_trip(m);
        assert(signed_decimal(v).drop_first() =~= decimal(m));
    } else {
        lemma_decimal_round_trip(v as nat);
        lemma_decimal_digits(v as nat);
        assert(digit_value(decimal(v as nat)[0]) is Some);
    }
}

} // verus!
