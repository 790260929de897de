//! The bit map of the payload, and of the packed value that holds a name
//! beside it.
//!
//! Bits are numbered from 0, the lowest, to 127.
//!
//! | bits      | width | a payload holds                         |
//! |-----------|-------|-----------------------------------------|
//! | 108 - 127 | 20    | nothing: always zero                    |
//! | 80 - 107  | 28    | field bits                              |
//! | 76 - 79   | 4     | UUID version, always `1000` (version 8) |
//! | 64 - 75   | 12    | field bits                              |
//! | 62 - 63   | 2     | UUID variant, always `10`               |
//! | 60 - 61   | 2     | the tag of the variant                  |
//! | 0 - 59    | 60    | field bits                              |
//!
//! The name takes no bit of the payload, and the UUID form writes the
//! payload alone. The 100 field bits hold, for a time-ordered identifier, the
//! low 43 bits of the timestamp in bits 80-107, 64-75 and 57-59, highest
//! first, and the low 57 bits of the random number in bits 0-56; the higher
//! bits of either input are dropped. For a high-entropy identifier they hold
//! those bits of the random number that stand in the same places: the random
//! bits in the other places are dropped.
//!
//! The packed value of an identifier is its payload with the 20-bit code of
//! its name in bits 108-127, which the payload leaves empty. It is what the
//! native form spells and what the cipher works on.

use vstd::prelude::*;
use crate::error::TnidError;
use crate::name::is_name_code;
use crate::variant::Variant;

verus! {

/// The places of the UUID version and UUID variant.
pub const MARKS_MASK: u128 = 0x0000_0000_0000_f000_c000_0000_0000_0000;

/// What the places of the UUID version and UUID variant hold in every payload.
pub const MARKS: u128 = 0x0000_0000_0000_8000_8000_0000_0000_0000;

/// The places of the tag of the variant.
pub const TAG_MASK: u128 = 0x0000_0000_0000_0000_3000_0000_0000_0000;

/// The places of the 100 field bits.
pub const FIELD_MASK: u128 = 0x0000_0fff_ffff_0fff_0fff_ffff_ffff_ffff;

/// The places that a payload may fill: everything below bit 108.
pub const PAYLOAD_MASK: u128 = 0x0000_0fff_ffff_ffff_ffff_ffff_ffff_ffff;

/// The largest timestamp that a time-ordered payload holds in full.
pub const TIMESTAMP_MAX: u64 = 0x07ff_ffff_ffff;

/// The largest random number that a time-ordered payload holds in full.
pub const RANDOM_MAX: u64 = 0x01ff_ffff_ffff_ffff;

/// Whether the UUID version and UUID variant of `bits` are those of an
/// identifier.
pub open spec fn has_marks(bits: u128) -> bool {
    bits & MARKS_MASK == MARKS
}

/// Whether `bits` is a payload: it carries the marks, and its 20 highest
/// bits are zero.
pub open spec fn is_payload(bits: u128) -> bool {
    has_marks(bits) && bits & !PAYLOAD_MASK == 0
}

/// The payload in a packed value: the value without its 20 highest bits.
pub open spec fn payload_of(bits: u128) -> u128 {
    bits & PAYLOAD_MASK
}

/// The variant that the tag of `bits` stands for.
pub open spec fn variant_of(bits: u128) -> Variant {
    Variant::of_tag((bits >> 60) & 3)
}

/// The 20 highest bits of a packed value: the place of the code of the name.
pub open spec fn name_field(bits: u128) -> u32 {
    (bits >> 108) as u32
}

/// The packed value made of the code of a name and a payload.
pub open spec fn compose(code: u32, payload: u128) -> u128 {
    ((code as u128) << 108) | (payload & PAYLOAD_MASK)
}

/// Whether `bits` is the packed value of an identifier: it carries the
/// marks, and its 20 highest bits are the code of a name.
pub open spec fn is_tnid(bits: u128) -> bool {
    has_marks(bits) && is_name_code(name_field(bits))
}

/// A value packed of a code below 2^20 and a payload has that code in its
/// name field and, below it, the payload unchanged.
pub proof fn lemma_compose(code: u32, payload: u128)
    requires
        code < 0x10_0000,
    ensures
        name_field(compose(code, payload)) == code,
        payload_of(compose(code, payload)) == payload_of(payload),
        is_payload(payload) ==> payload_of(compose(code, payload)) == payload,
        is_payload(payload_of(compose(code, payload))) == has_marks(payload),
        has_marks(compose(code, payload)) == has_marks(payload),
        variant_of(compose(code, payload)) == variant_of(payload),
        fields_of(compose(code, payload)) == fields_of(payload),
{
    assert({
        let v = ((code as u128) << 108) | (payload & PAYLOAD_MASK);
        &&& (v >> 108) as u32 == code
        &&& v & PAYLOAD_MASK == payload & PAYLOAD_MASK
        &&& (payload & !PAYLOAD_MASK == 0 ==> payload & PAYLOAD_MASK == payload)
        &&& (v & PAYLOAD_MASK) & !PAYLOAD_MASK == 0
        &&& (v & PAYLOAD_MASK) & MARKS_MASK == payload & MARKS_MASK
        &&& v & MARKS_MASK == payload & MARKS_MASK
        &&& (v >> 60) & 3 == (payload >> 60) & 3
        &&& v & FIELD_MASK == payload & FIELD_MASK
        &&& (v >> 80) & 0xfff_ffff == (payload >> 80) & 0xfff_ffff
        &&& (v >> 64) & 0xfff == (payload >> 64) & 0xfff
        &&& (v >> 57) & 7 == (payload >> 57) & 7
        &&& v & 0x01ff_ffff_ffff_ffff == payload & 0x01ff_ffff_ffff_ffff
    }) by (bit_vector)
        requires
            code < 0x10_0000,
    ;
}

/// A packed value is packed of its own name field and payload, and the
/// payload in it has what the value has below bit 108.
pub proof fn lemma_compose_parts(bits: u128)
    ensures
        compose(name_field(bits), bits) == bits,
        compose(name_field(bits), payload_of(bits)) == bits,
        name_field(bits) < 0x10_0000,
        is_payload(payload_of(bits)) == has_marks(bits),
        variant_of(payload_of(bits)) == variant_of(bits),
        fields_of(payload_of(bits)) == fields_of(bits),
{
    lemma_compose(0, bits);
    assert({
        &&& ((0u32 as u128) << 108) | (bits & PAYLOAD_MASK) == bits & PAYLOAD_MASK
        &&& (bits & PAYLOAD_MASK) & PAYLOAD_MASK == bits & PAYLOAD_MASK
        &&& ((((bits >> 108) as u32) as u128) << 108) | (bits & PAYLOAD_MASK) == bits
        &&& ((bits >> 108) as u32) < 0x10_0000
    }) by (bit_vector);
}

/// The timestamp in the field bits of a time-ordered payload.
pub open spec fn timestamp_of(bits: u128) -> u64 {
    ((((bits >> 80) & 0xfff_ffff) << 15) | (((bits >> 64) & 0xfff) << 3) | ((bits >> 57) & 7)) as u64
}

/// The random number in the field bits of a time-ordered payload.
pub open spec fn random_of(bits: u128) -> u64 {
    (bits & 0x01ff_ffff_ffff_ffff) as u64
}

/// The time-ordered payload made of a timestamp and a random number.
pub open spec fn v0_payload(timestamp_ms: u64, random: u64) -> u128 {
    MARKS | ((((timestamp_ms >> 15) & 0xfff_ffff) as u128) << 80) | ((((timestamp_ms >> 3)
        & 0xfff) as u128) << 64) | (((timestamp_ms & 7) as u128) << 57) | ((random
        & RANDOM_MAX) as u128)
}

/// The high-entropy payload made of a random number.
pub open spec fn v1_payload(random: u128) -> u128 {
    MARKS | (1u128 << 60) | (random & FIELD_MASK)
}

/// What a payload holds besides its marks and its tag.
#[derive(Clone, Copy, Debug, PartialEq, Eq, Structural)]
pub enum Fields {
    /// The fields of a time-ordered payload.
    TimeOrdered { timestamp_ms: u64, random: u64 },
    /// The field bits of a high-entropy payload, each in its place.
    HighEntropy { entropy: u128 },
    /// The field bits of a payload of a reserved variant, each in its place.
    Reserved { raw: u128 },
}

/// The fields of a payload, by its variant.
pub open spec fn fields_of(bits: u128) -> Fields {
    match variant_of(bits) {
        Variant::V0 => Fields::TimeOrdered {
            timestamp_ms: timestamp_of(bits),
            random: random_of(bits),
        },
        Variant::V1 => Fields::HighEntropy { entropy: bits & FIELD_MASK },
        _ => Fields::Reserved { raw: bits & FIELD_MASK },
    }
}

/// What `decode` makes of a 128-bit value.
pub open spec fn decoded(bits: u128) -> Result<(Variant, Fields), TnidError> {
    if is_payload(bits) {
        Ok((variant_of(bits), fields_of(bits)))
    } else {
        Err(TnidError::UnknownVariant)
    }
}

/// Packs a timestamp in milliseconds and a random number as a time-ordered
/// payload. Of the timestamp the low 43 bits are kept, of the random number
/// the low 57.
pub fn encode_v0(timestamp_ms: u64, random: u64) -> (payload: u128)
    ensures
        payload == v0_payload(timestamp_ms, random),
        is_payload(payload),
        decoded(payload) == Ok::<(Variant, Fields), TnidError>(
            (
                Variant::V0,
                Fields::TimeOrdered {
                    timestamp_ms: timestamp_ms & TIMESTAMP_MAX,
                    random: random & RANDOM_MAX,
                },
            ),
        ),
{
    proof {
        lemma_decode_encode_v0(timestamp_ms, random);
    }
    let high: u128 = (((timestamp_ms >> 15) & 0xfff_ffff) as u128) << 80;
    let middle: u128 = (((timestamp_ms >> 3) & 0xfff) as u128) << 64;
    let low: u128 = ((timestamp_ms & 7) as u128) << 57;
    MARKS | high | middle | low | ((random & RANDOM_MAX) as u128)
}

/// Packs a random number as a high-entropy payload. The bits of the random
/// number in the places of `FIELD_MASK` are kept.
pub fn encode_v1(random: u128) -> (payload: u128)
    ensures
        payload == v1_payload(random),
        is_payload(payload),
        decoded(payload) == Ok::<(Variant, Fields), TnidError>(
            (Variant::V1, Fields::HighEntropy { entropy: random & FIELD_MASK }),
        ),
{
    proof {
        lemma_decode_encode_v1(random);
    }
    MARKS | (1u128 << 60) | (random & FIELD_MASK)
}

/// Reads the variant and the fields of a payload.
///
/// Fails with `UnknownVariant` unless the value is a payload: unless the
/// places of the UUID version and UUID variant hold the marks of an
/// identifier and the 20 highest bits are zero.
pub fn decode(payload: u128) -> (r: Result<(Variant, Fields), TnidError>)
    ensures
        r == decoded(payload),
{
    if payload & MARKS_MASK != MARKS || payload & !PAYLOAD_MASK != 0 {
        return Err(TnidError::UnknownVariant);
    }
    let tag: u128 = (payload >> 60) & 3;
    if tag == 0 {
        let high: u128 = ((payload >> 80) & 0xfff_ffff) << 15;
        let middle: u128 = ((payload >> 64) & 0xfff) << 3;
        let low: u128 = (payload >> 57) & 7;
        let timestamp_ms: u64 = (high | middle | low) as u64;
        let random: u64 = (payload & 0x01ff_ffff_ffff_ffff) as u64;
        Ok((Variant::V0, Fields::TimeOrdered { timestamp_ms, random }))
    } else if tag == 1 {
        Ok((Variant::V1, Fields::HighEntropy { entropy: payload & FIELD_MASK }))
    } else if tag == 2 {
        Ok((Variant::V2, Fields::Reserved { raw: payload & FIELD_MASK }))
    } else {
        Ok((Variant::V3, Fields::Reserved { raw: payload & FIELD_MASK }))
    }
}

/// Decoding a time-ordered payload gives the variant V0 and the two inputs
/// back, each cut to the width that the payload holds: exactly, where the
/// timestamp is below 2^43 and the random number below 2^57.
pub proof fn lemma_decode_encode_v0(timestamp_ms: u64, random: u64)
    ensures
        is_payload(v0_payload(timestamp_ms, random)),
        decoded(v0_payload(timestamp_ms, random)) == Ok::<(Variant, Fields), TnidError>(
            (
                Variant::V0,
                Fields::TimeOrdered {
                    timestamp_ms: timestamp_ms & TIMESTAMP_MAX,
                    random: random & RANDOM_MAX,
                },
            ),
        ),
        timestamp_ms <= TIMESTAMP_MAX && random <= RANDOM_MAX ==> decoded(
            v0_payload(timestamp_ms, random),
        ) == Ok::<(Variant, Fields), TnidError>(
            (Variant::V0, Fields::TimeOrdered { timestamp_ms, random }),
        ),
{
    let p = v0_payload(timestamp_ms, random);
    assert({
        let p = MARKS | ((((timestamp_ms >> 15) & 0xfff_ffff) as u128) << 80) | ((((timestamp_ms
            >> 3) & 0xfff) as u128) << 64) | (((timestamp_ms & 7) as u128) << 57) | ((random
            & RANDOM_MAX) as u128);
        &&& p & MARKS_MASK == MARKS
        &&& p & !PAYLOAD_MASK == 0
        &&& (p >> 60) & 3 == 0
        &&& ((((p >> 80) & 0xfff_ffff) << 15) | (((p >> 64) & 0xfff) << 3) | ((p >> 57) & 7)) as u64
            == timestamp_ms & TIMESTAMP_MAX
        &&& (p & 0x01ff_ffff_ffff_ffff) as u64 == random & RANDOM_MAX
    }) by (bit_vector);
    assert(timestamp_ms <= TIMESTAMP_MAX ==> timestamp_ms & TIMESTAMP_MAX == timestamp_ms)
        by (bit_vector);
    assert(random <= RANDOM_MAX ==> random & RANDOM_MAX == random) by (bit_vector);
}

/// Decoding a high-entropy payload gives the variant V1 and the bits of the
/// random number that stand in the places of the field bits.
pub proof fn lemma_decode_encode_v1(random: u128)
    ensures
        is_payload(v1_payload(random)),
        decoded(v1_payload(random)) == Ok::<(Variant, Fields), TnidError>(
            (Variant::V1, Fields::HighEntropy { entropy: random & FIELD_MASK }),
        ),
{
    assert({
        let p = MARKS | (1u128 << 60) | (random & FIELD_MASK);
        &&& p & MARKS_MASK == MARKS
        &&& p & !PAYLOAD_MASK == 0
        &&& (p >> 60) & 3 == 1
        &&& p & FIELD_MASK == random & FIELD_MASK
    }) by (bit_vector);
}

} // verus!
