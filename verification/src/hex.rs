//! Verified numeral parsing and formatting.
//!
//! Identifier fields in the database text are unprefixed lowercase or
//! uppercase hex numerals; fallback names render identifiers as zero-padded
//! lowercase hex at the field's native width, and statistics render their
//! counts in decimal.

use vstd::prelude::*;

verus! {

/// True when `c` is an ASCII hexadecimal digit.
pub open spec fn is_hex_digit(c: char) -> bool {
    ('0' <= c && c <= '9') || ('a' <= c && c <= 'f') || ('A' <= c && c <= 'F')
}

/// The numeric value of a hexadecimal digit.
pub open spec fn hex_digit_value(c: char) -> nat {
    if '0' <= c && c <= '9' {
        (c as nat - '0' as nat) as nat
    } else if 'a' <= c && c <= 'f' {
        (c as nat - 'a' as nat + 10) as nat
    } else {
        (c as nat - 'A' as nat + 10) as nat
    }
}

/// True when every character of `s` is a hexadecimal digit.
pub open spec fn all_hex_digits(s: Seq<char>) -> bool {
    forall|i: int| 0 <= i < s.len() ==> is_hex_digit(#[trigger] s[i])
}

/// The value of `s` read as a big-endian hexadecimal numeral.
pub open spec fn hex_value_of(s: Seq<char>) -> nat
    decreases s.len(),
{
    if s.len() == 0 {
        0
    } else {
        hex_value_of(s.drop_last()) * 16 + hex_digit_value(s.last())
    }
}

/// True when `s` is a well-formed hexadecimal numeral whose value fits in
/// `width_bound` (one past the largest admissible value).
pub open spec fn valid_hex(s: Seq<char>, width_bound: nat) -> bool {
    s.len() > 0 && all_hex_digits(s) && hex_value_of(s) < width_bound
}

/// A numeral's value only grows as digits are appended after a prefix.
proof fn lemma_hex_value_prefix(s: Seq<char>, i: int)
    requires
        0 <= i <= s.len(),
    ensures
        hex_value_of(s.take(i)) <= hex_value_of(s),
    decreases s.len(),
{
    if i < s.len() {
        let t = s.drop_last();
        assert(s.take(i) =~= t.take(i));
        lemma_hex_value_prefix(t, i);
    } else {
        assert(s.take(i) =~= s);
    }
}

/// Executable test for [`is_hex_digit`].
pub fn is_hex_digit_char(c: char) -> (r: bool)
    ensures
        r == is_hex_digit(c),
{
    ('0' <= c && c <= '9') || ('a' <= c && c <= 'f') || ('A' <= c && c <= 'F')
}

/// The numeric value of one hexadecimal digit character, or `None` when the
/// character is no such digit.
fn hex_digit_of(c: char) -> (r: Option<u8>)
    ensures
        match r {
            Some(v) => is_hex_digit(c) && v == hex_digit_value(c) && v < 16,
            None => !is_hex_digit(c),
        },
{
    if '0' <= c && c <= '9' {
        Some((c as u8) - ('0' as u8))
    } else if 'a' <= c && c <= 'f' {
        Some((c as u8) - ('a' as u8) + 10)
    } else if 'A' <= c && c <= 'F' {
        Some((c as u8) - ('A' as u8) + 10)
    } else {
        None
    }
}

/// Parse `s` as a hexadecimal numeral bounded by `bound` (exclusive).
///
/// Succeeds exactly on nonempty all-hex inputs whose value is below `bound`;
/// anything else is an [`crate::PciError::InvalidHexValue`].
fn parse_hex_bounded(s: &str, bound: u32) -> (r: Result<u32, crate::PciError>)
    requires
        bound >= 1,
    ensures
        match r {
            Ok(v) => valid_hex(s@, bound as nat) && v == hex_value_of(s@),
            Err(e) => !valid_hex(s@, bound as nat) && e == crate::PciError::InvalidHexValue,
        },
{
    let n = s.unicode_len();
    if n == 0 {
        return Err(crate::PciError::InvalidHexValue);
    }
    let mut acc: u32 = 0;
    let mut i: usize = 0;
    while i < n
        invariant
            i <= n,
            n == s@.len(),
            1 <= bound <= u32::MAX,
            all_hex_digits(s@.take(i as int)),
            acc == hex_value_of(s@.take(i as int)),
            acc < bound,
        decreases n - i,
    {
        let c = s.get_char(i);
        match hex_digit_of(c) {
            None => {
                assert(!all_hex_digits(s@));
                return Err(crate::PciError::InvalidHexValue);
            },
            Some(d) => {
                proof {
                    assert(s@.take(i + 1).drop_last() =~= s@.take(i as int));
                    assert(s@.take(i + 1).last() == s@[i as int]);
                }
                if acc >= 0x1000_0000 || acc * 16 + (d as u32) >= bound {
                    proof {
                        lemma_hex_value_prefix(s@, i + 1);
                    }
                    return Err(crate::PciError::InvalidHexValue);
                }
                acc = acc * 16 + (d as u32);
                i = i + 1;
            },
        }
    }
    proof {
        assert(s@.take(n as int) =~= s@);
    }
    Ok(acc)
}

/// Parse a 16-bit hexadecimal field, as vendor, device, subvendor and
/// subdevice identifiers are written.
pub fn parse_hex_u16(s: &str) -> (r: Result<u16, crate::PciError>)
    ensures
        match r {
            Ok(v) => valid_hex(s@, 0x10000) && v == hex_value_of(s@),
            Err(e) => !valid_hex(s@, 0x10000) && e == crate::PciError::InvalidHexValue,
        },
{
    match parse_hex_bounded(s, 0x10000) {
        Ok(v) => Ok(v as u16),
        Err(e) => Err(e),
    }
}

/// Parse an 8-bit hexadecimal field, as class, subclass and programming
/// interface identifiers are written.
pub fn parse_hex_u8(s: &str) -> (r: Result<u8, crate::PciError>)
    ensures
        match r {
            Ok(v) => valid_hex(s@, 0x100) && v == hex_value_of(s@),
            Err(e) => !valid_hex(s@, 0x100) && e == crate::PciError::InvalidHexValue,
        },
{
    match parse_hex_bounded(s, 0x100) {
        Ok(v) => Ok(v as u8),
        Err(e) => Err(e),
    }
}

/// The lowercase hexadecimal digit character for a value below 16.
pub open spec fn hex_char_of(d: nat) -> char {
    if d == 0 { '0' } else if d == 1 { '1' } else if d == 2 { '2' }
    else if d == 3 { '3' } else if d == 4 { '4' } else if d == 5 { '5' }
    else if d == 6 { '6' } else if d == 7 { '7' } else if d == 8 { '8' }
    else if d == 9 { '9' } else if d == 10 { 'a' } else if d == 11 { 'b' }
    else if d == 12 { 'c' } else if d == 13 { 'd' } else if d == 14 { 'e' }
    else { 'f' }
}

/// A 16-bit value as four zero-padded lowercase hexadecimal digits.
pub open spec fn hex4_seq(v: u16) -> Seq<char> {
    seq![
        hex_char_of((v as nat / 4096) % 16),
        hex_char_of((v as nat / 256) % 16),
        hex_char_of((v as nat / 16) % 16),
        hex_char_of(v as nat % 16),
    ]
}

/// An 8-bit value as two zero-padded lowercase hexadecimal digits.
pub open spec fn hex2_seq(v: u8) -> Seq<char> {
    seq![hex_char_of((v as nat / 16) % 16), hex_char_of(v as nat % 16)]
}

/// The one-character string holding the lowercase hex digit for `d`.
fn hex_digit_str(d: u8) -> (r: &'static str)
    requires
        d < 16,
    ensures
        r@ =~= seq![hex_char_of(d as nat)],
        r@.len() == 1,
{
    proof {
        reveal_strlit("0");
        reveal_strlit("1");
        reveal_strlit("2");
        reveal_strlit("3");
        reveal_strlit("4");
        reveal_strlit("5");
        reveal_strlit("6");
        reveal_strlit("7");
        reveal_strlit("8");
        reveal_strlit("9");
        reveal_strlit("a");
        reveal_strlit("b");
        reveal_strlit("c");
        reveal_strlit("d");
        reveal_strlit("e");
        reveal_strlit("f");
    }
    match d {
        0 => "0",
        1 => "1",
        2 => "2",
        3 => "3",
        4 => "4",
        5 => "5",
        6 => "6",
        7 => "7",
        8 => "8",
        9 => "9",
        10 => "a",
        11 => "b",
        12 => "c",
        13 => "d",
        14 => "e",
        _ => "f",
    }
}

/// Render a 16-bit value as four zero-padded lowercase hexadecimal digits.
pub fn hex_u16_string(v: u16) -> (r: String)
    ensures
        r@ =~= hex4_seq(v),
        r@.len() == 4,
        vstd::utf8::is_ascii_chars(r@),
{
    let mut r = String::new();
    r.append(hex_digit_str(((v / 4096) % 16) as u8));
    r.append(hex_digit_str(((v / 256) % 16) as u8));
    r.append(hex_digit_str(((v / 16) % 16) as u8));
    r.append(hex_digit_str((v % 16) as u8));
    proof {
        assert(r@ =~= hex4_seq(v));
        assert forall|i: int| 0 <= i < r@.len() implies '\0' <= #[trigger] r@[i] <= '\u{7f}' by {
            assert(r@[i] == hex4_seq(v)[i]);
        }
    }
    r
}

/// A value as its decimal numeral, most significant digit first.
pub open spec fn dec_seq(n: nat) -> Seq<char>
    decreases n,
{
    if n < 10 {
        seq![hex_char_of(n)]
    } else {
        dec_seq(n / 10).push(hex_char_of(n % 10))
    }
}

/// Render a value as its decimal numeral.
pub fn dec_string(n: usize) -> (r: String)
    ensures
        r@ =~= dec_seq(n as nat),
    decreases n,
{
    if n < 10 {
        String::from_str(hex_digit_str(n as u8))
    } else {
        let mut s = dec_string(n / 10);
        s.append(hex_digit_str((n % 10) as u8));
        proof {
            assert(s@ =~= dec_seq(n as nat));
        }
        s
    }
}

/// Render an 8-bit value as two zero-padded lowercase hexadecimal digits.
pub fn hex_u8_string(v: u8) -> (r: String)
    ensures
        r@ =~= hex2_seq(v),
        r@.len() == 2,
{
    let mut r = String::new();
    r.append(hex_digit_str((v / 16) % 16));
    r.append(hex_digit_str(v % 16));
    r
}

} // verus!
