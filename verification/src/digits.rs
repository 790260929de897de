//! Numbers written as digits of four or six bits each.
//!
//! The UUID form writes the 128-bit value as 32 hexadecimal digits; the
//! native form writes 102 bits of it as 17 digits of six bits, in an
//! alphabet whose characters order as their values do: `-`, `0`-`9`, `A`-`Z`,
//! `_`, `a`-`z`.

use vstd::prelude::*;

verus! {

/// The letter case of the hexadecimal digits above 9.
#[derive(Clone, Copy, Debug, PartialEq, Eq, Structural)]
pub enum Case {
    /// `a` to `f`.
    Lower,
    /// `A` to `F`.
    Upper,
}

/// Whether `c` is a hexadecimal digit, in either case.
pub open spec fn is_hex_digit(c: char) -> bool {
    ('0' <= c && c <= '9') || ('a' <= c && c <= 'f') || ('A' <= c && c <= 'F')
}

/// The value of a hexadecimal digit.
pub open spec fn hex_value(c: char) -> u8 {
    if c <= '9' {
        (c as u32 - 48) as u8
    } else if c <= 'F' {
        (c as u32 - 55) as u8
    } else {
        (c as u32 - 87) as u8
    }
}

/// The hexadecimal digit of value `v`, for `v` below 16.
pub open spec fn hex_symbol(v: u8, case: Case) -> char {
    if v <= 9 {
        ((v + 48) as u8) as char
    } else if case == Case::Upper {
        ((v + 55) as u8) as char
    } else {
        ((v + 87) as u8) as char
    }
}

/// `c` in the given letter case, where it is a letter from `A` to `Z` or
/// from `a` to `z`; any other character is `c` itself.
pub open spec fn in_case(c: char, case: Case) -> char {
    if case == Case::Lower && 'A' <= c && c <= 'Z' {
        ((c as u32 + 32) as u8) as char
    } else if case == Case::Upper && 'a' <= c && c <= 'z' {
        ((c as u32 - 32) as u8) as char
    } else {
        c
    }
}

/// `s` with each of its letters in the given letter case.
pub open spec fn text_in_case(s: Seq<char>, case: Case) -> Seq<char> {
    Seq::new(s.len(), |i: int| in_case(s[i], case))
}

/// Whether every character of `s` is a hexadecimal digit.
pub open spec fn all_hex(s: Seq<char>) -> bool {
    forall|i: int| 0 <= i < s.len() ==> is_hex_digit(#[trigger] s[i])
}

/// The number that the hexadecimal digits of `s` spell, first digit highest.
pub open spec fn hex_number(s: Seq<char>) -> u128
    decreases s.len(),
{
    if s.len() == 0 {
        0
    } else {
        (hex_number(s.drop_last()) << 4) | (hex_value(s.last()) as u128)
    }
}

/// Digit `k` of the 32 hexadecimal digits of `bits`, counted from the highest.
pub open spec fn nibble(bits: u128, k: int) -> u8 {
    ((bits >> ((4 * (31 - k)) as u128)) & 15) as u8
}

/// Whether `c` is a digit of the six-bit alphabet.
pub open spec fn is_data_digit(c: char) -> bool {
    c == '-' || ('0' <= c && c <= '9') || ('A' <= c && c <= 'Z') || c == '_' || ('a' <= c && c
        <= 'z')
}

/// The value of a digit of the six-bit alphabet.
pub open spec fn data_value(c: char) -> u8 {
    if c == '-' {
        0
    } else if c <= '9' {
        (c as u32 - 47) as u8
    } else if c <= 'Z' {
        (c as u32 - 54) as u8
    } else if c == '_' {
        37
    } else {
        (c as u32 - 59) as u8
    }
}

/// The digit of the six-bit alphabet of value `v`, for `v` below 64.
pub open spec fn data_symbol(v: u8) -> char {
    if v == 0 {
        '-'
    } else if v <= 10 {
        ((v + 47) as u8) as char
    } else if v <= 36 {
        ((v + 54) as u8) as char
    } else if v == 37 {
        '_'
    } else {
        ((v + 59) as u8) as char
    }
}

/// Whether every character of `s` is a digit of the six-bit alphabet.
pub open spec fn all_data(s: Seq<char>) -> bool {
    forall|i: int| 0 <= i < s.len() ==> is_data_digit(#[trigger] s[i])
}

/// The number that the six-bit digits of `s` spell, first digit highest.
pub open spec fn data_number(s: Seq<char>) -> u128
    decreases s.len(),
{
    if s.len() == 0 {
        0
    } else {
        (data_number(s.drop_last()) << 6) | (data_value(s.last()) as u128)
    }
}

/// Digit `i` of the 17 six-bit digits of a number below 2^102, counted from
/// the highest.
pub open spec fn sextet(number: u128, i: int) -> u8 {
    ((number >> ((6 * (16 - i)) as u128)) & 63) as u8
}

/// The first `j` of the 32 hexadecimal digits of `bits` spell `bits` without
/// its last `32 - j` digits.
pub proof fn lemma_hex_number_prefix(bits: u128, s: Seq<char>, j: int)
    requires
        s.len() == 32,
        forall|k: int| 0 <= k < 32 ==> hex_value(#[trigger] s[k]) == nibble(bits, k),
        1 <= j <= 32,
    ensures
        hex_number(s.take(j)) == bits >> ((4 * (32 - j)) as u128),
    decreases j,
{
    let shift: u128 = (4 * (32 - j)) as u128;
    let digit: u8 = hex_value(s[j - 1]);
    assert(digit == nibble(bits, j - 1));
    assert(s.take(j).drop_last() =~= s.take(j - 1));
    assert(s.take(j).last() == s[j - 1]);
    if j == 1 {
        assert(hex_number(s.take(0)) == 0);
        assert((0u128 << 4) | ((((bits >> 124) & 15) as u8) as u128) == bits >> 124)
            by (bit_vector);
    } else {
        lemma_hex_number_prefix(bits, s, j - 1);
        assert(((bits >> ((shift + 4) as u128)) << 4) | ((((bits >> shift) & 15) as u8) as u128)
            == bits >> shift) by (bit_vector)
            requires
                shift <= 120,
        ;
    }
}

/// The 32 hexadecimal digits of `bits` spell `bits`.
pub proof fn lemma_hex_number_of_nibbles(bits: u128, s: Seq<char>)
    requires
        s.len() == 32,
        forall|k: int| 0 <= k < 32 ==> hex_value(#[trigger] s[k]) == nibble(bits, k),
    ensures
        hex_number(s) == bits,
{
    lemma_hex_number_prefix(bits, s, 32);
    assert(s.take(32) =~= s);
    lemma_shift_by_zero(bits);
}

/// The number that the first `m` of 32 hexadecimal digits spell is below
/// 2^(4m), and its `m` digits are the values of those characters.
pub proof fn lemma_nibbles_of_prefix(s: Seq<char>, m: int)
    requires
        s.len() == 32,
        all_hex(s),
        0 <= m <= 32,
    ensures
        m < 32 ==> hex_number(s.take(m)) >> ((4 * m) as u128) == 0,
        forall|j: int|
            0 <= j < m ==> (hex_number(s.take(m)) >> ((4 * (m - 1 - j)) as u128)) & 15
                == hex_value(#[trigger] s[j]),
    decreases m,
{
    if m == 0 {
        lemma_shift_by_zero(0);
    } else {
        lemma_nibbles_of_prefix(s, m - 1);
        let before: u128 = hex_number(s.take(m - 1));
        let digit: u128 = hex_value(s[m - 1]) as u128;
        let bound: u128 = (4 * (m - 1)) as u128;
        assert(is_hex_digit(s[m - 1]));
        assert(s.take(m).drop_last() =~= s.take(m - 1));
        assert(s.take(m).last() == s[m - 1]);
        let number: u128 = hex_number(s.take(m));
        assert(number == (before << 4) | digit);
        assert(number & 15 == digit && (bound <= 120 ==> number >> ((bound + 4) as u128) == 0))
            by (bit_vector)
            requires
                number == (before << 4) | digit,
                before >> bound == 0,
                bound <= 124,
                digit < 16,
        ;
        lemma_shift_by_zero(number);
        assert forall|j: int| 0 <= j < m implies (number >> ((4 * (m - 1 - j)) as u128)) & 15
            == hex_value(#[trigger] s[j]) by {
            if j < m - 1 {
                let shift: u128 = (4 * (m - 2 - j)) as u128;
                assert((number >> ((shift + 4) as u128)) & 15 == (before >> shift) & 15)
                    by (bit_vector)
                    requires
                        number == (before << 4) | digit,
                        before >> bound == 0,
                        bound <= 124,
                        shift <= bound,
                        digit < 16,
                ;
            }
        }
    }
}

/// The 32 hexadecimal digits of the number that 32 such digits spell are
/// the values of those characters.
pub proof fn lemma_nibbles_of_hex_number(s: Seq<char>)
    requires
        s.len() == 32,
        all_hex(s),
    ensures
        forall|k: int| 0 <= k < 32 ==> nibble(hex_number(s), k) == hex_value(#[trigger] s[k]),
{
    lemma_nibbles_of_prefix(s, 32);
    assert(s.take(32) =~= s);
    let number = hex_number(s);
    assert forall|k: int| 0 <= k < 32 implies nibble(number, k) == hex_value(#[trigger] s[k]) by {
        assert(is_hex_digit(s[k]));
        assert((number >> ((4 * (31 - k)) as u128)) & 15 == hex_value(s[k]));
    }
}

/// The first `j` of the 17 six-bit digits of a number below 2^102 spell the
/// number without its last `17 - j` digits.
pub proof fn lemma_data_number_prefix(number: u128, s: Seq<char>, j: int)
    requires
        number < 0x40_0000_0000_0000_0000_0000_0000,
        s.len() == 17,
        forall|i: int| 0 <= i < 17 ==> data_value(#[trigger] s[i]) == sextet(number, i),
        0 <= j <= 17,
    ensures
        data_number(s.take(j)) == number >> ((6 * (17 - j)) as u128),
    decreases j,
{
    if j == 0 {
        assert(number >> 102 == 0) by (bit_vector)
            requires
                number < 0x40_0000_0000_0000_0000_0000_0000,
        ;
    } else {
        let shift: u128 = (6 * (17 - j)) as u128;
        let digit: u8 = data_value(s[j - 1]);
        assert(digit == sextet(number, j - 1));
        assert(s.take(j).drop_last() =~= s.take(j - 1));
        assert(s.take(j).last() == s[j - 1]);
        lemma_data_number_prefix(number, s, j - 1);
        assert(((number >> ((shift + 6) as u128)) << 6) | ((((number >> shift) & 63) as u8) as u128)
            == number >> shift) by (bit_vector)
            requires
                shift <= 96,
        ;
    }
}

/// The 17 six-bit digits of a number below 2^102 spell the number.
pub proof fn lemma_data_number_of_sextets(number: u128, s: Seq<char>)
    requires
        number < 0x40_0000_0000_0000_0000_0000_0000,
        s.len() == 17,
        forall|i: int| 0 <= i < 17 ==> data_value(#[trigger] s[i]) == sextet(number, i),
    ensures
        data_number(s) == number,
{
    lemma_data_number_prefix(number, s, 17);
    assert(s.take(17) =~= s);
    lemma_shift_by_zero(number);
}

/// The number that the first `m` of 17 six-bit digits spell is below
/// 2^(6m), and its `m` digits are the values of those characters.
pub proof fn lemma_sextets_of_prefix(s: Seq<char>, m: int)
    requires
        s.len() == 17,
        all_data(s),
        0 <= m <= 17,
    ensures
        data_number(s.take(m)) >> ((6 * m) as u128) == 0,
        forall|j: int|
            0 <= j < m ==> (data_number(s.take(m)) >> ((6 * (m - 1 - j)) as u128)) & 63
                == data_value(#[trigger] s[j]),
    decreases m,
{
    if m == 0 {
        lemma_shift_by_zero(0);
    } else {
        lemma_sextets_of_prefix(s, m - 1);
        let before: u128 = data_number(s.take(m - 1));
        let digit: u128 = data_value(s[m - 1]) as u128;
        let bound: u128 = (6 * (m - 1)) as u128;
        assert(is_data_digit(s[m - 1]));
        assert(s.take(m).drop_last() =~= s.take(m - 1));
        assert(s.take(m).last() == s[m - 1]);
        let number: u128 = data_number(s.take(m));
        assert(number == (before << 6) | digit);
        assert(number >> ((bound + 6) as u128) == 0 && number & 63 == digit) by (bit_vector)
            requires
                number == (before << 6) | digit,
                before >> bound == 0,
                bound <= 96,
                digit < 64,
        ;
        lemma_shift_by_zero(number);
        assert forall|j: int| 0 <= j < m implies (number >> ((6 * (m - 1 - j)) as u128)) & 63
            == data_value(#[trigger] s[j]) by {
            if j < m - 1 {
                let shift: u128 = (6 * (m - 2 - j)) as u128;
                assert((number >> ((shift + 6) as u128)) & 63 == (before >> shift) & 63)
                    by (bit_vector)
                    requires
                        number == (before << 6) | digit,
                        before >> bound == 0,
                        bound <= 96,
                        shift <= bound,
                        digit < 64,
                ;
            }
        }
    }
}

/// The number that 17 six-bit digits spell is below 2^102, and its 17 digits
/// are the values of those characters.
pub proof fn lemma_sextets_of_data_number(s: Seq<char>)
    requires
        s.len() == 17,
        all_data(s),
    ensures
        data_number(s) < 0x40_0000_0000_0000_0000_0000_0000,
        forall|i: int| 0 <= i < 17 ==> sextet(data_number(s), i) == data_value(#[trigger] s[i]),
{
    lemma_sextets_of_prefix(s, 17);
    assert(s.take(17) =~= s);
    let number = data_number(s);
    assert(number < 0x40_0000_0000_0000_0000_0000_0000) by (bit_vector)
        requires
            number >> 102 == 0,
    ;
    assert forall|i: int| 0 <= i < 17 implies sextet(number, i) == data_value(#[trigger] s[i]) by {
        let shift: u128 = (6 * (16 - i)) as u128;
        assert((number >> shift) & 63 == data_value(s[i]));
    }
}

/// Whether `s` writes a number in base 16: hexadecimal digits of either
/// case, at least one, after at most one plus sign.
pub open spec fn is_radix16(s: Seq<char>) -> bool {
    s.len() > 0 && if s[0] == '+' {
        s.len() > 1 && all_hex(s.skip(1))
    } else {
        all_hex(s)
    }
}

/// The digits of a number written in base 16, without its sign.
pub open spec fn radix16_digits(s: Seq<char>) -> Seq<char> {
    if s.len() > 0 && s[0] == '+' {
        s.skip(1)
    } else {
        s
    }
}

/// The number that `s` writes in base 16.
pub open spec fn radix16_number(s: Seq<char>) -> u128 {
    hex_number(radix16_digits(s))
}

/// The value of a hexadecimal digit, or nothing for another character.
pub fn read_hex_digit(c: char) -> (r: Option<u8>)
    ensures
        r == if is_hex_digit(c) {
            Some(hex_value(c))
        } else {
            None
        },
        is_hex_digit(c) ==> hex_value(c) < 16,
{
    if '0' <= c && c <= '9' {
        Some((c as u32 - 48) as u8)
    } else if 'A' <= c && c <= 'F' {
        Some((c as u32 - 55) as u8)
    } else if 'a' <= c && c <= 'f' {
        Some((c as u32 - 87) as u8)
    } else {
        None
    }
}

/// The hexadecimal digit of a value below 16.
pub(crate) fn write_hex_digit(v: u8, case: Case) -> (c: char)
    requires
        v < 16,
    ensures
        c == hex_symbol(v, case),
        is_hex_digit(c),
        hex_value(c) == v,
{
    if v <= 9 {
        (v + 48) as char
    } else {
        match case {
            Case::Upper => (v + 55) as char,
            Case::Lower => (v + 87) as char,
        }
    }
}

/// The value of a digit of the six-bit alphabet, or nothing for another
/// character.
pub fn read_data_digit(c: char) -> (r: Option<u8>)
    ensures
        r == if is_data_digit(c) {
            Some(data_value(c))
        } else {
            None
        },
        is_data_digit(c) ==> data_value(c) < 64 && data_symbol(data_value(c)) == c,
{
    if c == '-' {
        Some(0)
    } else if '0' <= c && c <= '9' {
        Some((c as u32 - 47) as u8)
    } else if 'A' <= c && c <= 'Z' {
        Some((c as u32 - 54) as u8)
    } else if c == '_' {
        Some(37)
    } else if 'a' <= c && c <= 'z' {
        Some((c as u32 - 59) as u8)
    } else {
        None
    }
}

/// The digit of the six-bit alphabet of a value below 64.
pub(crate) fn write_data_digit(v: u8) -> (c: char)
    requires
        v < 64,
    ensures
        c == data_symbol(v),
        is_data_digit(c),
        data_value(c) == v,
{
    if v == 0 {
        '-'
    } else if v <= 10 {
        (v + 47) as char
    } else if v <= 36 {
        (v + 54) as char
    } else if v == 37 {
        '_'
    } else {
        (v + 59) as char
    }
}

/// Reads a number written in base 16 with exactly `width` characters, the
/// sign counted: the number, or nothing where the text has another length or
/// is no such writing.
pub(crate) fn read_radix16(text: &str, width: usize) -> (r: Option<u128>)
    requires
        1 <= width <= 32,
    ensures
        r == if text@.len() == width && is_radix16(text@) {
            Some(radix16_number(text@))
        } else {
            None
        },
        r is Some && width <= 16 ==> r.unwrap() <= u64::MAX,
{
    let len: usize = text.unicode_len();
    if len != width {
        return None;
    }
    let start: usize = if text.get_char(0) == '+' {
        1
    } else {
        0
    };
    if start == len {
        return None;
    }
    let ghost digits = radix16_digits(text@);
    let mut number: u128 = 0;
    let mut k: usize = start;
    proof {
        lemma_shift_by_zero(0);
    }
    while k < len
        invariant
            start <= k <= len,
            len == text@.len(),
            len <= 32,
            start == if text@[0] == '+' {
                1usize
            } else {
                0usize
            },
            digits == radix16_digits(text@),
            digits.len() == len - start,
            forall|j: int| 0 <= j < k - start ==> is_hex_digit(#[trigger] digits[j]),
            number == hex_number(digits.take(k - start)),
            number >> ((4 * (k - start)) as u128) == 0 || k - start == 32,
        decreases len - k,
    {
        let c: char = text.get_char(k);
        match read_hex_digit(c) {
            None => {
                proof {
                    assert(digits[k - start] == c);
                }
                return None;
            },
            Some(v) => {
                proof {
                    assert(digits[k - start] == c);
                    assert(digits.take(k - start + 1).drop_last() =~= digits.take(k - start));
                    assert(digits.take(k - start + 1).last() == c);
                    let bound: u128 = (4 * (k - start)) as u128;
                    let wide: u128 = v as u128;
                    if k - start < 31 {
                        assert(((number << 4) | wide) >> ((bound + 4) as u128) == 0) by (bit_vector)
                            requires
                                number >> bound == 0,
                                bound <= 120,
                                wide < 16,
                        ;
                    }
                }
                number = (number << 4) | (v as u128);
                k = k + 1;
            },
        }
    }
    proof {
        assert(digits.take(len - start) =~= digits);
        if width <= 16 {
            let bound: u128 = (4 * (len - start)) as u128;
            assert(number <= 0xffff_ffff_ffff_ffff) by (bit_vector)
                requires
                    number >> bound == 0,
                    bound <= 64,
            ;
        }
    }
    Some(number)
}

/// Shifting right by no place changes nothing.
pub proof fn lemma_shift_by_zero(x: u128)
    ensures
        x >> 0 == x,
{
    assert(x >> 0 == x) by (bit_vector);
}

} // verus!
