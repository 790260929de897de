use tnid_codec::layout::{FIELD_MASK, MARKS, RANDOM_MAX, TIMESTAMP_MAX};
use tnid_codec::{decode, encode_v0, encode_v1, Fields, TnidError, Variant};

#[test]
fn time_ordered_payload_has_the_documented_bits() {
    let payload = encode_v0(1_700_000_000_000, 0x0123_4567_89ab_cdef);
    assert_eq!(payload, 0x0000_0317_9fca_8d00_8123_4567_89ab_cdef);
    assert_eq!(encode_v0(0, 0), MARKS);
    assert_eq!(encode_v0(u64::MAX, u64::MAX), 0x0000_0fff_ffff_8fff_8fff_ffff_ffff_ffff);
    assert_eq!(encode_v0(1, 0), MARKS | (1 << 57));
    assert_eq!(encode_v0(8, 0), MARKS | (1 << 64));
    assert_eq!(encode_v0(1 << 15, 0), MARKS | (1 << 80));
    assert_eq!(encode_v0(1 << 42, 0), MARKS | (1 << 107));
    assert_eq!(encode_v0(0, 1), MARKS | 1);
    assert_eq!(encode_v0(0, 1 << 56), MARKS | (1 << 56));
}

#[test]
fn high_entropy_payload_has_the_documented_bits() {
    let payload = encode_v1(0x0123_4567_89ab_cdef_0123_4567_89ab_cdef);
    assert_eq!(payload, 0x0000_0567_89ab_8def_9123_4567_89ab_cdef);
    assert_eq!(encode_v1(0), MARKS | (1 << 60));
    assert_eq!(encode_v1(u128::MAX), 0x0000_0fff_ffff_8fff_9fff_ffff_ffff_ffff);
}

#[test]
fn decoding_a_time_ordered_payload_gives_the_parts_back() {
    let cases: [(u64, u64); 6] = [
        (0, 0),
        (1_700_000_000_000, 0x0123_4567_89ab_cdef),
        (TIMESTAMP_MAX, RANDOM_MAX),
        (1, 1),
        (1_750_118_400_000, 42),
        (0x0555_5555_5555, 0x00aa_aaaa_aaaa_aaaa),
    ];
    for (timestamp_ms, random) in cases {
        assert_eq!(
            decode(encode_v0(timestamp_ms, random)),
            Ok((Variant::V0, Fields::TimeOrdered { timestamp_ms, random }))
        );
    }
}

#[test]
fn bits_above_the_width_of_a_part_are_dropped() {
    assert_eq!(
        decode(encode_v0(TIMESTAMP_MAX + 1 + 5, RANDOM_MAX + 1 + 9)),
        Ok((Variant::V0, Fields::TimeOrdered { timestamp_ms: 5, random: 9 }))
    );
    assert_eq!(
        decode(encode_v0(u64::MAX, u64::MAX)),
        Ok((Variant::V0, Fields::TimeOrdered { timestamp_ms: TIMESTAMP_MAX, random: RANDOM_MAX }))
    );
    assert_eq!(encode_v0(TIMESTAMP_MAX + 1, 0), encode_v0(0, 0));
}

#[test]
fn decoding_a_high_entropy_payload_gives_the_field_bits_back() {
    let random: u128 = 0x0123_4567_89ab_cdef_0123_4567_89ab_cdef;
    assert_eq!(
        decode(encode_v1(random)),
        Ok((Variant::V1, Fields::HighEntropy { entropy: random & FIELD_MASK }))
    );
    assert_eq!(
        decode(encode_v1(u128::MAX)),
        Ok((Variant::V1, Fields::HighEntropy { entropy: FIELD_MASK }))
    );
}

#[test]
fn reserved_variants_decode_to_raw_field_bits() {
    let v1 = encode_v1(0x0123_4567_89ab_cdef_0123_4567_89ab_cdef);
    let v2 = (v1 & !(3 << 60)) | (2 << 60);
    let v3 = v1 | (3 << 60);
    assert_eq!(decode(v2), Ok((Variant::V2, Fields::Reserved { raw: v1 & FIELD_MASK })));
    assert_eq!(decode(v3), Ok((Variant::V3, Fields::Reserved { raw: v1 & FIELD_MASK })));
}

#[test]
fn payloads_without_the_marks_fail_with_unknown_variant() {
    assert_eq!(decode(0), Err(TnidError::UnknownVariant));
    assert_eq!(decode(u128::MAX), Err(TnidError::UnknownVariant));
    // UUID version 4 in place of 8
    assert_eq!(decode(0x0000_0000_0000_4000_8000_0000_0000_0000), Err(TnidError::UnknownVariant));
    // UUID version 9
    assert_eq!(decode(0x0000_0000_0000_9000_8000_0000_0000_0000), Err(TnidError::UnknownVariant));
    // UUID variant 11 and 00
    assert_eq!(decode(0x0000_0000_0000_8000_c000_0000_0000_0000), Err(TnidError::UnknownVariant));
    assert_eq!(decode(0x0000_0000_0000_8000_0000_0000_0000_0000), Err(TnidError::UnknownVariant));
}

#[test]
fn values_with_a_bit_above_the_payload_fail_with_unknown_variant() {
    let payload = encode_v0(1_700_000_000_000, 7);
    assert!(decode(payload).is_ok());
    assert_eq!(decode(payload | (0xcab19 << 108)), Err(TnidError::UnknownVariant));
    assert_eq!(decode(payload | (1 << 108)), Err(TnidError::UnknownVariant));
    assert_eq!(decode(payload | (1 << 127)), Err(TnidError::UnknownVariant));
}

#[test]
fn encoding_what_was_decoded_gives_the_payload_back() {
    for payload in [
        encode_v0(1_700_000_000_000, 0x0123_4567_89ab_cdef),
        encode_v1(0x0123_4567_89ab_cdef_0123_4567_89ab_cdef),
        encode_v0(0, 0),
        encode_v1(u128::MAX),
    ] {
        match decode(payload).unwrap() {
            (Variant::V0, Fields::TimeOrdered { timestamp_ms, random }) => {
                assert_eq!(encode_v0(timestamp_ms, random), payload)
            }
            (Variant::V1, Fields::HighEntropy { entropy }) => {
                assert_eq!(encode_v1(entropy), payload)
            }
            other => panic!("{other:?}"),
        }
    }
}

#[test]
fn variant_labels() {
    assert_eq!(Variant::V0.label(), "v0");
    assert_eq!(Variant::V1.label(), "v1");
    assert_eq!(Variant::V2.label(), "v2");
    assert_eq!(Variant::V3.label(), "v3");
}
