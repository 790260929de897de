use tnid_codec::{Key, Name, Tnid, TnidError, Variant};

fn name(text: &str) -> Name {
    Name::validate(text).expect("valid name")
}

fn key(hex: &str) -> Key {
    Key::from_hex(hex).expect("valid key")
}

#[test]
fn scenario_encrypt_then_decrypt_gives_the_identifier_back() {
    let id = Tnid::new_v0(name("usr"), 1_700_000_000_000, 0x0123_4567_89ab_cdef);
    let k = key("000102030405060708090a0b0c0d0e0f");
    let sealed = id.encrypt_v0_to_v1(&k).expect("a V0 identifier");
    assert_eq!(sealed.variant(), Variant::V1);
    assert_eq!(sealed.name().text(), "usr");
    assert_ne!(sealed.payload(), id.payload());
    let back = sealed.decrypt_v1_to_v0(&k).expect("a V1 identifier");
    assert_eq!(back, id);
    assert_eq!(back.variant(), Variant::V0);
    assert_eq!(back.name(), id.name());
    assert_eq!(back.payload(), id.payload());
    assert_eq!(back.packed(), id.packed());
}

#[test]
fn encrypting_a_known_identifier_gives_the_known_result() {
    let id = Tnid::new_v0(name("usr"), 1_700_000_000_000, 0x0123_4567_89ab_cdef);
    let sealed = id.encrypt_v0_to_v1(&key("000102030405060708090a0b0c0d0e0f")).unwrap();
    assert_eq!(sealed.packed(), 0xd62e_0a1e_53df_8055_9004_5f98_27d7_f204);
    assert_eq!(sealed.to_tnid_string(), "usr.cTJxw4K-3MtVbpz73");
    let id = Tnid::new_v0(name("a0"), 1_750_118_400_000, 42);
    let sealed = id.encrypt_v0_to_v1(&key("0102030405060708090a0b0c0d0e0f10")).unwrap();
    assert_eq!(sealed.to_tnid_string(), "a0.udQ4oPt36FnMPgRmV");
}

#[test]
fn round_trip_over_many_identifiers_and_keys() {
    let mut state: u64 = 0x9e37_79b9_7f4a_7c15;
    let mut next = move || {
        state = state.wrapping_mul(6364136223846793005).wrapping_add(1442695040888963407);
        state
    };
    for round in 0..200 {
        let names = ["a", "ab", "usr", "user", "z4a0"];
        let id = Tnid::new_v0(name(names[round % names.len()]), next(), next());
        let mut bytes = [0u8; 16];
        bytes[..8].copy_from_slice(&next().to_be_bytes());
        bytes[8..].copy_from_slice(&next().to_be_bytes());
        let k = Key::from_bytes(&bytes).unwrap();
        let sealed = id.encrypt_v0_to_v1(&k).unwrap();
        assert_eq!(sealed.variant(), Variant::V1);
        assert_eq!(sealed.name(), id.name());
        assert_eq!(sealed.decrypt_v1_to_v0(&k), Ok(id));
    }
}

#[test]
fn encrypt_fails_with_wrong_variant_unless_v0() {
    let k = key("000102030405060708090a0b0c0d0e0f");
    let v1 = Tnid::new_v1(name("usr"), 0x0123_4567_89ab_cdef_0123_4567_89ab_cdef);
    assert_eq!(v1.encrypt_v0_to_v1(&k), Err(TnidError::WrongVariant));
    assert_eq!(v1.with_fields(Variant::V2, 1).encrypt_v0_to_v1(&k), Err(TnidError::WrongVariant));
    assert_eq!(v1.with_fields(Variant::V3, 1).encrypt_v0_to_v1(&k), Err(TnidError::WrongVariant));
}

#[test]
fn decrypt_fails_with_wrong_variant_unless_v1() {
    let k = key("000102030405060708090a0b0c0d0e0f");
    let v0 = Tnid::new_v0(name("usr"), 1_700_000_000_000, 0x0123_4567_89ab_cdef);
    assert_eq!(v0.decrypt_v1_to_v0(&k), Err(TnidError::WrongVariant));
    assert_eq!(v0.with_fields(Variant::V2, 1).decrypt_v1_to_v0(&k), Err(TnidError::WrongVariant));
    assert_eq!(v0.with_fields(Variant::V3, 1).decrypt_v1_to_v0(&k), Err(TnidError::WrongVariant));
}

#[test]
fn decrypting_under_another_key_succeeds_with_another_identifier() {
    let id = Tnid::new_v0(name("usr"), 1_700_000_000_000, 0x0123_4567_89ab_cdef);
    let sealed = id.encrypt_v0_to_v1(&key("000102030405060708090a0b0c0d0e0f")).unwrap();
    let other = sealed.decrypt_v1_to_v0(&key("0102030405060708090a0b0c0d0e0f10")).unwrap();
    assert_eq!(other.variant(), Variant::V0);
    assert_eq!(other.name().text(), "usr");
    assert_ne!(other, id);
    assert_eq!(other.packed(), 0xd62e_0bd3_00f7_8f0f_8225_4580_bf98_ab26);
}

#[test]
fn any_high_entropy_identifier_can_be_decrypted() {
    let k = key("000102030405060708090a0b0c0d0e0f");
    let v1 = Tnid::new_v1(name("usr"), 0x0123_4567_89ab_cdef_0123_4567_89ab_cdef);
    let v0 = v1.decrypt_v1_to_v0(&k).unwrap();
    assert_eq!(v0.variant(), Variant::V0);
    assert_eq!(v0.name().text(), "usr");
    assert_eq!(v0.encrypt_v0_to_v1(&k), Ok(v1));
}

#[test]
fn keys_are_16_bytes() {
    assert!(Key::from_bytes(&[7u8; 16]).is_ok());
    assert_eq!(Key::from_bytes(&[7u8; 16]).unwrap().as_bytes(), &[7u8; 16]);
    for len in [0usize, 1, 15, 17, 32] {
        assert_eq!(Key::from_bytes(&vec![0u8; len]).err(), Some(TnidError::InvalidKeyLength));
    }
}

#[test]
fn keys_are_32_hexadecimal_digits() {
    let k = key("000102030405060708090a0b0c0d0e0f");
    assert_eq!(k.as_bytes(), &[0, 1, 2, 3, 4, 5, 6, 7, 8, 9, 10, 11, 12, 13, 14, 15]);
    let k = key("fFeEdDcCbBaA99887766554433221100");
    assert_eq!(
        k.as_bytes(),
        &[0xff, 0xee, 0xdd, 0xcc, 0xbb, 0xaa, 0x99, 0x88, 0x77, 0x66, 0x55, 0x44, 0x33, 0x22, 0x11, 0]
    );
    for text in [
        "",
        "0102",
        "000102030405060708090a0b0c0d0e0",
        "000102030405060708090a0b0c0d0e0f0",
        "000102030405060708090a0b0c0d0e0g",
        "+00102030405060708090a0b0c0d0e0f",
        "000102030405060708090a0b0c0d0e \u{e9}",
        "0x0102030405060708090a0b0c0d0e0f",
    ] {
        assert_eq!(Key::from_hex(text).err(), Some(TnidError::InvalidKeyLength), "{text:?}");
    }
}

#[test]
fn the_same_key_from_bytes_and_from_hex_encrypts_alike() {
    let id = Tnid::new_v0(name("usr"), 1_700_000_000_000, 0x0123_4567_89ab_cdef);
    let from_hex = key("000102030405060708090A0B0C0D0E0F");
    let from_bytes = Key::from_bytes(&[0, 1, 2, 3, 4, 5, 6, 7, 8, 9, 10, 11, 12, 13, 14, 15]).unwrap();
    assert_eq!(id.encrypt_v0_to_v1(&from_hex), id.encrypt_v0_to_v1(&from_bytes));
}
