use tnid_codec::{
    decrypt_v1_to_v0, encrypt_v0_to_v1, get_name, get_variant, new_v0, new_v1, parse, parse_uuid,
    to_uuid_string, TnidError,
};

const KEY: &str = "000102030405060708090a0b0c0d0e0f";

#[test]
fn scenario_new_v0_from_text() {
    let id = new_v0("usr", 1_700_000_000_000, "0123456789abcdef").unwrap();
    assert_eq!(id, "usr.BMbwfF-3YGLT8ewrj");
    assert_eq!(get_variant(&id).unwrap(), "v0");
    assert_eq!(get_name(&id).unwrap(), "usr");
    let uuid = to_uuid_string(&id).unwrap();
    assert_eq!(uuid.len(), 36);
    assert_eq!(uuid, uuid.to_lowercase());
    assert_eq!(uuid, "00000317-9fca-8d00-8123-456789abcdef");
}

#[test]
fn scenario_encrypt_and_decrypt_from_text() {
    let id = new_v0("usr", 1_700_000_000_000, "0123456789abcdef").unwrap();
    let sealed = encrypt_v0_to_v1(&id, KEY).unwrap();
    assert_eq!(get_variant(&sealed).unwrap(), "v1");
    assert_eq!(get_name(&sealed).unwrap(), "usr");
    assert_eq!(sealed, "usr.cTJxw4K-3MtVbpz73");
    let back = decrypt_v1_to_v0(&sealed, KEY).unwrap();
    assert_eq!(back, id);
    assert_eq!(get_variant(&back).unwrap(), "v0");
    assert_eq!(to_uuid_string(&back), to_uuid_string(&id));
}

#[test]
fn parse_returns_the_text_of_a_native_form() {
    for text in ["usr.BMbwfF-3YGLT8ewrj", "test.Jew8ph_9D_ic2r5fn", "a.-----------------", "user.Br2flcNDfF6LYICnT"] {
        assert_eq!(parse(text).unwrap(), text);
    }
    for text in ["", "usr", "usr.BMbwfF-3YGLT8ewr", "USR.BMbwfF-3YGLT8ewrj", "usr.BMbwfF-3YGLT8ewr*"] {
        assert_eq!(parse(text), Err(TnidError::MalformedString));
        assert_eq!(to_uuid_string(text), Err(TnidError::MalformedString));
        assert_eq!(get_variant(text), Err(TnidError::MalformedString));
        assert_eq!(get_name(text), Err(TnidError::MalformedString));
        assert_eq!(encrypt_v0_to_v1(text, KEY), Err(TnidError::MalformedString));
        assert_eq!(decrypt_v1_to_v0(text, KEY), Err(TnidError::MalformedString));
    }
}

#[test]
fn parse_uuid_pairs_the_name_with_the_payload() {
    assert_eq!(parse_uuid("test", "0000052a-f09d-86d9-928e-96ea03dc6af3").unwrap(), "test.Jew8ph_9D_ic2r5fn");
    assert_eq!(parse_uuid("test", "0000052A-F09D-86D9-928E-96EA03DC6AF3").unwrap(), "test.Jew8ph_9D_ic2r5fn");
    assert_eq!(parse_uuid("usr", "00000317-9fca-8d00-8123-456789abcdef").unwrap(), "usr.BMbwfF-3YGLT8ewrj");
    assert_eq!(parse_uuid("a0", "00000317-9fca-8d00-8123-456789abcdef").unwrap(), "a0.BMbwfF-3YGLT8ewrj");
    let id = new_v1("z4a0", "0123456789abcdef0123456789abcdef").unwrap();
    assert_eq!(parse_uuid("z4a0", &to_uuid_string(&id).unwrap()).unwrap(), id);
}

#[test]
fn the_uuid_form_of_what_parse_uuid_read_is_the_text_in_lower_case() {
    for text in [
        "00000317-9fca-8d00-8123-456789abcdef",
        "00000317-9FCA-8D00-8123-456789ABCDEF",
        "0000052a-F09D-86d9-928E-96ea03dc6af3",
        "00000FFF-FFFF-8FFF-BFFF-FFFFFFFFFFFF",
    ] {
        for name in ["a", "usr", "post"] {
            let id = parse_uuid(name, text).unwrap();
            assert_eq!(to_uuid_string(&id).unwrap(), text.to_ascii_lowercase());
            assert_eq!(get_name(&id).unwrap(), name);
        }
    }
}

#[test]
fn the_uuid_form_does_not_depend_on_the_name() {
    let one = to_uuid_string(&new_v1("usr", "0123456789abcdef0123456789abcdef").unwrap()).unwrap();
    for name in ["a", "post", "zzzz"] {
        let id = new_v1(name, "0123456789abcdef0123456789abcdef").unwrap();
        assert_eq!(to_uuid_string(&id).unwrap(), one);
    }
    assert_eq!(one, "00000567-89ab-8def-9123-456789abcdef");
}

#[test]
fn parse_uuid_failures() {
    assert_eq!(parse_uuid("", "0000052a-f09d-86d9-928e-96ea03dc6af3"), Err(TnidError::InvalidLength));
    assert_eq!(parse_uuid("tests", "0000052a-f09d-86d9-928e-96ea03dc6af3"), Err(TnidError::InvalidLength));
    assert_eq!(parse_uuid("Test", "0000052a-f09d-86d9-928e-96ea03dc6af3"), Err(TnidError::InvalidCharacter));
    // the name is looked at first
    assert_eq!(parse_uuid("Test", "not-a-uuid"), Err(TnidError::InvalidCharacter));
    assert_eq!(parse_uuid("test", "not-a-uuid"), Err(TnidError::MalformedUuid));
    assert_eq!(parse_uuid("test", "0000052a-f09d-86d9-928e-96ea03dc6af"), Err(TnidError::MalformedUuid));
    assert_eq!(parse_uuid("test", "0000052a-f09d-86d9-928e_96ea03dc6af3"), Err(TnidError::MalformedUuid));
    assert_eq!(parse_uuid("test", "0000052a-f09d-46d9-928e-96ea03dc6af3"), Err(TnidError::UnknownVariant));
    assert_eq!(parse_uuid("test", "0000052a-f09d-86d9-128e-96ea03dc6af3"), Err(TnidError::UnknownVariant));
    // a bit above the payload
    assert_eq!(parse_uuid("test", "cab1952a-f09d-86d9-928e-96ea03dc6af3"), Err(TnidError::UnknownVariant));
    assert_eq!(parse_uuid("test", "0000152a-f09d-86d9-928e-96ea03dc6af3"), Err(TnidError::UnknownVariant));
}

#[test]
fn new_v0_failures() {
    assert_eq!(new_v0("", 0, "0123456789abcdef"), Err(TnidError::InvalidLength));
    assert_eq!(new_v0("toolong", 0, "0123456789abcdef"), Err(TnidError::InvalidLength));
    assert_eq!(new_v0("Usr", 0, "0123456789abcdef"), Err(TnidError::InvalidCharacter));
    // the name is looked at first
    assert_eq!(new_v0("Usr", 0, ""), Err(TnidError::InvalidCharacter));
    for random_hex in ["", "0123", "0123456789abcde", "0123456789abcdef0", "0123456789abcdeg", "0123456789abcde ", "-123456789abcdef", "0x23456789abcdef", "+++++++++++++++1", "0123456789abcde+"] {
        assert_eq!(new_v0("usr", 0, random_hex), Err(TnidError::InvalidRandom), "{random_hex:?}");
    }
}

#[test]
fn new_v0_reads_the_random_number_in_base_16() {
    assert_eq!(new_v0("usr", 1_700_000_000_000, "0123456789ABCDEF").unwrap(), "usr.BMbwfF-3YGLT8ewrj");
    assert_eq!(new_v0("a", 0, "0000000000000000").unwrap(), "a.-----------------");
    assert_eq!(new_v0("a0", 1_750_118_400_000, "000000000000002a").unwrap(), "a0.Bix_w-----------e");
    // a plus sign may lead, and counts as one of the 16 characters
    assert_eq!(new_v0("a0", 1_750_118_400_000, "+00000000000002a").unwrap(), "a0.Bix_w-----------e");
    // bits above the 57th are dropped
    assert_eq!(new_v0("a", 0, "fe00000000000000").unwrap(), "a.-----------------");
}

#[test]
fn new_v1_from_text() {
    let id = new_v1("usr", "0123456789abcdef0123456789abcdef").unwrap();
    assert_eq!(id, "usr.KbXPjTx3YGLT8ewrj");
    assert_eq!(get_variant(&id).unwrap(), "v1");
    assert_eq!(get_name(&id).unwrap(), "usr");
    assert_eq!(to_uuid_string(&id).unwrap(), "00000567-89ab-8def-9123-456789abcdef");
    assert_eq!(new_v1("zzzz", "ffffffffffffffffffffffffffffffff").unwrap(), "zzzz.zzzzzzxzzzzzzzzzz");
    // a plus sign may lead, and counts as one of the 32 characters
    assert_eq!(new_v1("a", "+0000000000000000000000000000001").unwrap(), "a.------0---------0");
}

#[test]
fn new_v1_failures() {
    assert_eq!(new_v1("", "0123456789abcdef0123456789abcdef"), Err(TnidError::InvalidLength));
    assert_eq!(new_v1("a-b", "0123456789abcdef0123456789abcdef"), Err(TnidError::InvalidCharacter));
    for random_hex in ["", "0123456789abcdef", "0123456789abcdef0123456789abcde", "0123456789abcdef0123456789abcdef0", "0123456789abcdef0123456789abcdeg"] {
        assert_eq!(new_v1("usr", random_hex), Err(TnidError::InvalidRandom), "{random_hex:?}");
    }
}

#[test]
fn reserved_variants_have_their_labels() {
    assert_eq!(get_variant("usr.KbXPjTy3YGLT8ewrj").unwrap(), "v2");
    assert_eq!(get_variant("usr.KbXPjTz3YGLT8ewrj").unwrap(), "v3");
    assert_eq!(to_uuid_string("usr.KbXPjTy3YGLT8ewrj").unwrap(), "00000567-89ab-8def-a123-456789abcdef");
    assert_eq!(to_uuid_string("usr.KbXPjTz3YGLT8ewrj").unwrap(), "00000567-89ab-8def-b123-456789abcdef");
}

#[test]
fn names_of_every_length_are_read_from_the_text() {
    for name in ["a", "ab", "usr", "user"] {
        let id = new_v0(name, 1_700_000_000_000, "0123456789abcdef").unwrap();
        assert_eq!(get_name(&id).unwrap(), name);
        assert_eq!(id.len(), name.len() + 18);
    }
}

#[test]
fn transform_failures_from_text() {
    let v0 = new_v0("usr", 1_700_000_000_000, "0123456789abcdef").unwrap();
    let v1 = new_v1("usr", "0123456789abcdef0123456789abcdef").unwrap();
    assert_eq!(encrypt_v0_to_v1(&v1, KEY), Err(TnidError::WrongVariant));
    assert_eq!(decrypt_v1_to_v0(&v0, KEY), Err(TnidError::WrongVariant));
    assert_eq!(encrypt_v0_to_v1("usr.KbXPjTy3YGLT8ewrj", KEY), Err(TnidError::WrongVariant));
    assert_eq!(decrypt_v1_to_v0("usr.KbXPjTz3YGLT8ewrj", KEY), Err(TnidError::WrongVariant));
    for key in ["", "0001", "000102030405060708090a0b0c0d0e0", "000102030405060708090a0b0c0d0e0f00", "000102030405060708090a0b0c0d0e0z"] {
        assert_eq!(encrypt_v0_to_v1(&v0, key), Err(TnidError::InvalidKeyLength));
        assert_eq!(decrypt_v1_to_v0(&v1, key), Err(TnidError::InvalidKeyLength));
        // the key is looked at before the variant
        assert_eq!(encrypt_v0_to_v1(&v1, key), Err(TnidError::InvalidKeyLength));
    }
    // the identifier is looked at before the key
    assert_eq!(encrypt_v0_to_v1("usr", ""), Err(TnidError::MalformedString));
}

#[test]
fn decrypting_under_another_key_from_text() {
    let id = new_v0("usr", 1_700_000_000_000, "0123456789abcdef").unwrap();
    let sealed = encrypt_v0_to_v1(&id, KEY).unwrap();
    let other = decrypt_v1_to_v0(&sealed, "0102030405060708090a0b0c0d0e0f10").unwrap();
    assert_ne!(other, id);
    assert_eq!(other, "usr.jI-EUkw7_GN1za9ga");
    assert_eq!(get_variant(&other).unwrap(), "v0");
}
