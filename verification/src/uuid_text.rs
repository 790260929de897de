//! The UUID form of a 128-bit value: 32 hexadecimal digits, highest first,
//! in groups of 8, 4, 4, 4 and 12 with a hyphen between groups. Of an
//! identifier it is the payload that is written so; the name is left out.

use vstd::prelude::*;
use crate::digits::{
    hex_number, hex_symbol, hex_value, in_case, is_hex_digit, lemma_hex_number_of_nibbles,
    lemma_nibbles_of_hex_number, nibble, read_hex_digit, text_in_case, write_hex_digit, Case,
};
use crate::strings::push_char;

verus! {

/// Whether place `i` of the 36 holds a hyphen.
pub open spec fn is_hyphen_place(i: int) -> bool {
    i == 8 || i == 13 || i == 18 || i == 23
}

/// Which of the 32 digits stands in place `i`, where `i` is no hyphen place:
/// `i` less the hyphens before it.
pub open spec fn digit_at_place(i: int) -> int {
    if i > 23 {
        i - 4
    } else if i > 18 {
        i - 3
    } else if i > 13 {
        i - 2
    } else if i > 8 {
        i - 1
    } else {
        i
    }
}

/// The place in which digit `k` of the 32 stands.
pub open spec fn place_of_digit(k: int) -> int {
    if k >= 20 {
        k + 4
    } else if k >= 16 {
        k + 3
    } else if k >= 12 {
        k + 2
    } else if k >= 8 {
        k + 1
    } else {
        k
    }
}

/// The UUID form of `bits`.
pub open spec fn uuid_text(bits: u128, case: Case) -> Seq<char> {
    Seq::new(
        36,
        |i: int|
            if is_hyphen_place(i) {
                '-'
            } else {
                hex_symbol(nibble(bits, digit_at_place(i)), case)
            },
    )
}

/// Whether `s` has the shape of a UUID form: 36 characters, hyphens in their
/// four places, hexadecimal digits of either case in the others.
pub open spec fn is_uuid_text(s: Seq<char>) -> bool {
    &&& s.len() == 36
    &&& forall|i: int|
        0 <= i < 36 ==> if is_hyphen_place(i) {
            #[trigger] s[i] == '-'
        } else {
            is_hex_digit(s[i])
        }
}

/// The 32 digits of a text of 36 characters, without its hyphens.
pub open spec fn uuid_digits(s: Seq<char>) -> Seq<char> {
    Seq::new(32, |k: int| s[place_of_digit(k)])
}

/// The value that a UUID form spells.
pub open spec fn uuid_number(s: Seq<char>) -> u128 {
    hex_number(uuid_digits(s))
}

/// Reading the UUID form of a value, written in either case, gives the value
/// back.
pub proof fn lemma_uuid_text_round_trip(bits: u128, case: Case)
    ensures
        is_uuid_text(uuid_text(bits, case)),
        uuid_number(uuid_text(bits, case)) == bits,
{
    let s = uuid_text(bits, case);
    assert forall|i: int| 0 <= i < 36 && !is_hyphen_place(i) implies is_hex_digit(#[trigger] s[i])
        && hex_value(s[i]) == nibble(bits, digit_at_place(i)) by {
        lemma_nibble_symbol(bits, digit_at_place(i), case);
    }
    let d = uuid_digits(s);
    assert forall|k: int| 0 <= k < 32 implies hex_value(#[trigger] d[k]) == nibble(bits, k) by {
        assert(d[k] == s[place_of_digit(k)]);
        assert(digit_at_place(place_of_digit(k)) == k);
    }
    lemma_hex_number_of_nibbles(bits, d);
}

/// The UUID form is canonical up to letter case: the value that a text of
/// that shape spells has, in either case, that text in that case as its UUID
/// form. No bit that the text spells is lost.
pub proof fn lemma_uuid_text_canonical(s: Seq<char>, case: Case)
    requires
        is_uuid_text(s),
    ensures
        uuid_text(uuid_number(s), case) == text_in_case(s, case),
{
    let d = uuid_digits(s);
    let number = uuid_number(s);
    assert forall|k: int| 0 <= k < 32 implies is_hex_digit(#[trigger] d[k]) by {
        assert(d[k] == s[place_of_digit(k)]);
        assert(!is_hyphen_place(place_of_digit(k)));
    }
    lemma_nibbles_of_hex_number(d);
    assert forall|i: int| 0 <= i < 36 implies uuid_text(number, case)[i] == text_in_case(
        s,
        case,
    )[i] by {
        if is_hyphen_place(i) {
            assert(s[i] == '-');
        } else {
            let k = digit_at_place(i);
            assert(place_of_digit(k) == i);
            assert(d[k] == s[i]);
            assert(is_hex_digit(s[i]));
            assert(nibble(number, k) == hex_value(d[k]));
            assert(hex_symbol(hex_value(s[i]), case) == in_case(s[i], case));
        }
    }
    assert(uuid_text(number, case) =~= text_in_case(s, case));
}

/// Each of the 32 digits of a value is below 16, and its symbol reads as it.
pub proof fn lemma_nibble_symbol(bits: u128, k: int, case: Case)
    requires
        0 <= k < 32,
    ensures
        nibble(bits, k) < 16,
        is_hex_digit(hex_symbol(nibble(bits, k), case)),
        hex_value(hex_symbol(nibble(bits, k), case)) == nibble(bits, k),
{
    let shift: u128 = (4 * (31 - k)) as u128;
    assert((((bits >> shift) & 15) as u8) < 16) by (bit_vector);
}

/// Writes `bits` in its UUID form.
pub fn format_uuid(bits: u128, case: Case) -> (text: String)
    ensures
        text@ == uuid_text(bits, case),
{
    let mut text = String::new();
    let mut i: usize = 0;
    while i < 36
        invariant
            i <= 36,
            text@ == uuid_text(bits, case).take(i as int),
        decreases 36 - i,
    {
        let c: char = if i == 8 || i == 13 || i == 18 || i == 23 {
            '-'
        } else {
            let k: usize = if i > 23 {
                i - 4
            } else if i > 18 {
                i - 3
            } else if i > 13 {
                i - 2
            } else if i > 8 {
                i - 1
            } else {
                i
            };
            let shift: u32 = (4 * (31 - k)) as u32;
            proof {
                lemma_nibble_symbol(bits, k as int, case);
                assert(bits >> (shift as u128) == bits >> shift) by (bit_vector);
            }
            write_hex_digit(((bits >> shift) & 15) as u8, case)
        };
        push_char(&mut text, c);
        proof {
            assert(text@ =~= uuid_text(bits, case).take(i + 1));
        }
        i = i + 1;
    }
    proof {
        assert(text@ =~= uuid_text(bits, case));
    }
    text
}

/// Reads a UUID form, in either case or both: the value it spells, or
/// nothing where the text has another shape.
pub fn read_uuid(text: &str) -> (r: Option<u128>)
    ensures
        r == if is_uuid_text(text@) {
            Some(uuid_number(text@))
        } else {
            None
        },
{
    let len: usize = text.unicode_len();
    if len != 36 {
        return None;
    }
    let ghost digits = uuid_digits(text@);
    let mut number: u128 = 0;
    let mut i: usize = 0;
    let mut k: usize = 0;
    while i < 36
        invariant
            text@.len() == 36,
            i <= 36,
            i < 36 ==> k == digit_at_place(i as int),
            i == 36 ==> k == 32,
            forall|j: int|
                0 <= j < i ==> if is_hyphen_place(j) {
                    #[trigger] text@[j] == '-'
                } else {
                    is_hex_digit(text@[j])
                },
            digits == uuid_digits(text@),
            number == hex_number(digits.take(k as int)),
        decreases 36 - i,
    {
        let c: char = text.get_char(i);
        if i == 8 || i == 13 || i == 18 || i == 23 {
            if c != '-' {
                return None;
            }
        } else {
            match read_hex_digit(c) {
                None => {
                    return None;
                },
                Some(v) => {
                    proof {
                        assert(place_of_digit(k as int) == i);
                        assert(digits[k as int] == c);
                        assert(digits.take(k + 1).drop_last() =~= digits.take(k as int));
                        assert(digits.take(k + 1).last() == c);
                    }
                    number = (number << 4) | (v as u128);
                    k = k + 1;
                },
            }
        }
        i = i + 1;
    }
    proof {
        assert(digits.take(32) =~= digits);
    }
    Some(number)
}

} // verus!
