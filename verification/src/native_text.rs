//! The native form of an identifier: its name, a dot, and 17 digits of the
//! six-bit alphabet.
//!
//! The 17 digits spell 102 bits of the payload, highest first: bits 80-107,
//! then bits 64-75, then bits 0-61, so the tag of the variant and the 100
//! field bits. The marks are not written, as every payload carries them. The
//! functions here work on the packed value, which holds the code of the name
//! above the payload.
//! Neither the alphabet of names nor that of the digits holds the dot.

use vstd::prelude::*;
use crate::digits::{
    data_number, data_symbol, data_value, is_data_digit, lemma_data_number_of_sextets,
    lemma_sextets_of_data_number, read_data_digit, sextet, write_data_digit,
};
use crate::layout::{
    compose, is_tnid, lemma_compose, lemma_compose_parts, name_field, MARKS, MARKS_MASK,
    PAYLOAD_MASK,
};
use crate::name::{
    append_code_name, code_len, code_name, is_name, lemma_code_name_round_trip,
    lemma_name_code_round_trip, name_code, Name,
};
use crate::strings::push_char;

verus! {

/// The places of the 102 bits that the digits spell.
pub const DATA_MASK: u128 = 0x0000_0fff_ffff_0fff_3fff_ffff_ffff_ffff;

/// The 102 bits that the digits spell, moved together.
pub open spec fn data_compact(bits: u128) -> u128 {
    (bits & 0x3fff_ffff_ffff_ffff) | (((bits >> 64) & 0xfff) << 62) | (((bits >> 80) & 0xfff_ffff)
        << 74)
}

/// The 102 bits of a number below 2^102, moved apart to their places.
pub open spec fn data_expand(number: u128) -> u128 {
    (number & 0x3fff_ffff_ffff_ffff) | (((number >> 62) & 0xfff) << 64) | (((number >> 74)
        & 0xfff_ffff) << 80)
}

/// The 17 digits of the native form of `bits`.
pub open spec fn data_text(bits: u128) -> Seq<char> {
    Seq::new(17, |i: int| data_symbol(sextet(data_compact(bits), i)))
}

/// The native form of the packed value of an identifier.
pub open spec fn tnid_text(bits: u128) -> Seq<char> {
    code_name(name_field(bits)) + seq!['.'] + data_text(bits)
}

/// Whether `s` has the shape of a native form: a name, a dot, and 17 digits
/// of the six-bit alphabet.
pub open spec fn is_tnid_text(s: Seq<char>) -> bool {
    &&& 19 <= s.len() <= 22
    &&& is_name(s.subrange(0, s.len() - 18))
    &&& s[s.len() - 18] == '.'
    &&& forall|i: int| s.len() - 17 <= i < s.len() ==> is_data_digit(#[trigger] s[i])
}

/// The packed value that a native form spells.
pub open spec fn tnid_number(s: Seq<char>) -> u128 {
    compose(
        name_code(s.subrange(0, s.len() - 18)),
        MARKS | data_expand(data_number(s.subrange(s.len() - 17, s.len() as int))),
    )
}

/// The 102 bits moved together are below 2^102; moved apart again they are
/// the bits of the value in the places of `DATA_MASK`.
pub proof fn lemma_expand_compact(bits: u128)
    ensures
        data_compact(bits) < 0x40_0000_0000_0000_0000_0000_0000,
        data_expand(data_compact(bits)) == bits & DATA_MASK,
        bits & MARKS_MASK == MARKS ==> MARKS | (bits & DATA_MASK) == bits & PAYLOAD_MASK,
{
    assert({
        let c = (bits & 0x3fff_ffff_ffff_ffff) | (((bits >> 64) & 0xfff) << 62) | (((bits >> 80)
            & 0xfff_ffff) << 74);
        &&& c < 0x40_0000_0000_0000_0000_0000_0000
        &&& (c & 0x3fff_ffff_ffff_ffff) | (((c >> 62) & 0xfff) << 64) | (((c >> 74) & 0xfff_ffff)
            << 80) == bits & DATA_MASK
        &&& bits & MARKS_MASK == MARKS ==> MARKS | (bits & DATA_MASK) == bits & PAYLOAD_MASK
    }) by (bit_vector);
}

/// Each of the 17 digits of a number is below 64.
pub proof fn lemma_sextet_bound(number: u128, i: int)
    requires
        0 <= i < 17,
    ensures
        sextet(number, i) < 64,
{
    let shift: u128 = (6 * (16 - i)) as u128;
    assert((((number >> shift) & 63) as u8) < 64) by (bit_vector);
}

/// Reading the native form of an identifier gives its value back.
pub proof fn lemma_tnid_text_round_trip(bits: u128)
    requires
        is_tnid(bits),
    ensures
        is_tnid_text(tnid_text(bits)),
        tnid_number(tnid_text(bits)) == bits,
{
    let code = name_field(bits);
    let s = tnid_text(bits);
    let n = code_len(code) as int;
    let data = data_text(bits);
    lemma_code_name_round_trip(code);
    assert(s.len() == n + 18);
    assert(s.subrange(0, n) =~= code_name(code));
    assert(s[n] == '.');
    assert(s.subrange(n + 1, s.len() as int) =~= data);
    assert forall|i: int| 0 <= i < 17 implies is_data_digit(#[trigger] data[i]) && data_value(
        data[i],
    ) == sextet(data_compact(bits), i) by {
        lemma_sextet_bound(data_compact(bits), i);
    }
    assert forall|i: int| s.len() - 17 <= i < s.len() implies is_data_digit(#[trigger] s[i]) by {
        assert(s[i] == data[i - n - 1]);
    }
    lemma_expand_compact(bits);
    lemma_data_number_of_sextets(data_compact(bits), data);
    lemma_compose_parts(bits);
    assert(compose(code, bits & PAYLOAD_MASK) == compose(code, bits)) by {
        assert((bits & PAYLOAD_MASK) & PAYLOAD_MASK == bits & PAYLOAD_MASK) by (bit_vector);
    }
}

/// The native form is canonical: a text of that shape is the native form of
/// the value it spells, and that value is the value of an identifier whose
/// name is the part of the text before the dot.
pub proof fn lemma_tnid_text_canonical(s: Seq<char>)
    requires
        is_tnid_text(s),
    ensures
        is_tnid(tnid_number(s)),
        tnid_text(tnid_number(s)) == s,
        code_name(name_field(tnid_number(s))) == s.subrange(0, s.len() - 18),
{
    let n = s.len() - 18;
    let name = s.subrange(0, n);
    let data = s.subrange(n + 1, s.len() as int);
    let code = name_code(name);
    let number = data_number(data);
    let bits = tnid_number(s);
    lemma_name_code_round_trip(name);
    assert forall|i: int| 0 <= i < 17 implies is_data_digit(#[trigger] data[i]) by {
        assert(data[i] == s[n + 1 + i]);
    }
    lemma_sextets_of_data_number(data);
    lemma_compose(code, MARKS | data_expand(number));
    assert({
        let spread = (number & 0x3fff_ffff_ffff_ffff) | (((number >> 62) & 0xfff) << 64) | (((
        number >> 74) & 0xfff_ffff) << 80);
        let v = ((code as u128) << 108) | ((MARKS | spread) & PAYLOAD_MASK);
        &&& (MARKS | spread) & MARKS_MASK == MARKS
        &&& (v & 0x3fff_ffff_ffff_ffff) | (((v >> 64) & 0xfff) << 62) | (((v >> 80) & 0xfff_ffff)
            << 74) == number
    }) by (bit_vector)
        requires
            number < 0x40_0000_0000_0000_0000_0000_0000,
    ;
    assert(data_compact(bits) == number);
    assert(data_text(bits) =~= data) by {
        assert forall|i: int| 0 <= i < 17 implies data_text(bits)[i] == data[i] by {
            assert(sextet(number, i) == data_value(data[i]));
            assert(data_symbol(data_value(data[i])) == data[i]);
        }
    }
    assert(tnid_text(bits) =~= s);
}

/// Writes the value of an identifier in its native form.
pub(crate) fn format_tnid(bits: u128) -> (text: String)
    requires
        is_tnid(bits),
    ensures
        text@ == tnid_text(bits),
{
    let code: u32 = (bits >> 108) as u32;
    let number: u128 = (bits & 0x3fff_ffff_ffff_ffff) | (((bits >> 64) & 0xfff) << 62) | (((bits
        >> 80) & 0xfff_ffff) << 74);
    let mut text = String::new();
    append_code_name(&mut text, code);
    push_char(&mut text, '.');
    let ghost head = text@;
    let mut i: usize = 0;
    while i < 17
        invariant
            i <= 17,
            number == data_compact(bits),
            head == code_name(name_field(bits)) + seq!['.'],
            text@ == head + data_text(bits).take(i as int),
        decreases 17 - i,
    {
        let shift: u32 = (6 * (16 - i)) as u32;
        proof {
            lemma_sextet_bound(number, i as int);
            assert(number >> (shift as u128) == number >> shift) by (bit_vector);
        }
        let c: char = write_data_digit(((number >> shift) & 63) as u8);
        push_char(&mut text, c);
        proof {
            assert(text@ =~= head + data_text(bits).take(i + 1));
        }
        i = i + 1;
    }
    proof {
        assert(data_text(bits).take(17) =~= data_text(bits));
    }
    text
}

/// Reads a native form: the value it spells, or nothing where the text has
/// another shape.
pub fn read_tnid(text: &str) -> (r: Option<u128>)
    ensures
        r == if is_tnid_text(text@) {
            Some(tnid_number(text@))
        } else {
            None
        },
        is_tnid_text(text@) ==> is_tnid(tnid_number(text@)),
{
    let len: usize = text.unicode_len();
    if len < 19 || len > 22 {
        return None;
    }
    let n: usize = len - 18;
    let name = match Name::validate(text.substring_char(0, n)) {
        Ok(name) => name,
        Err(_) => {
            return None;
        },
    };
    if text.get_char(n) != '.' {
        return None;
    }
    let ghost data = text@.subrange(len - 17, len as int);
    let mut number: u128 = 0;
    let mut k: usize = 0;
    while k < 17
        invariant
            k <= 17,
            len == text@.len(),
            n == len - 18,
            19 <= len <= 22,
            data == text@.subrange(len - 17, len as int),
            forall|j: int| len - 17 <= j < len - 17 + k ==> is_data_digit(#[trigger] text@[j]),
            number == data_number(data.take(k as int)),
        decreases 17 - k,
    {
        let c: char = text.get_char(n + 1 + k);
        match read_data_digit(c) {
            None => {
                return None;
            },
            Some(v) => {
                proof {
                    assert(data[k as int] == c);
                    assert(data.take(k + 1).drop_last() =~= data.take(k as int));
                    assert(data.take(k + 1).last() == c);
                }
                number = (number << 6) | (v as u128);
                k = k + 1;
            },
        }
    }
    proof {
        assert(data.take(17) =~= data);
    }
    let code: u32 = name.code();
    let spread: u128 = (number & 0x3fff_ffff_ffff_ffff) | (((number >> 62) & 0xfff) << 64) | (((
    number >> 74) & 0xfff_ffff) << 80);
    let bits: u128 = ((code as u128) << 108) | ((MARKS | spread) & PAYLOAD_MASK);
    proof {
        lemma_compose(code, MARKS | spread);
        assert((MARKS | spread) & MARKS_MASK == MARKS) by (bit_vector)
            requires
                spread == (number & 0x3fff_ffff_ffff_ffff) | (((number >> 62) & 0xfff) << 64) | (((
                number >> 74) & 0xfff_ffff) << 80),
        ;
    }
    Some(bits)
}

} // verus!
