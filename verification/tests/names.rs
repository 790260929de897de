use tnid_codec::{is_valid_name, Name, TnidError};

#[test]
fn names_of_one_to_four_allowed_characters_are_valid() {
    for candidate in ["a", "z", "0", "4", "ab", "usr", "user", "test", "id0", "z4a0", "0000"] {
        assert!(is_valid_name(candidate), "{candidate}");
        let name = Name::validate(candidate).expect("valid name");
        assert_eq!(name.text(), candidate);
    }
}

#[test]
fn scenario_empty_too_long_and_two_letter_names() {
    assert!(!is_valid_name(""));
    assert!(!is_valid_name("toolong"));
    assert!(is_valid_name("ab"));
}

#[test]
fn names_of_wrong_length_fail_with_invalid_length() {
    for candidate in ["", "abcde", "toolong", "ABCDE", "a b c", "\u{e9}\u{e9}\u{e9}\u{e9}\u{e9}"] {
        assert_eq!(Name::validate(candidate), Err(TnidError::InvalidLength), "{candidate:?}");
        assert!(!is_valid_name(candidate));
    }
}

#[test]
fn names_with_a_character_outside_the_alphabet_fail_with_invalid_character() {
    for candidate in [
        "User", "id5", "a-b", "9", "a.b", "ab_", " ", "ab c", "caf\u{e9}", "\u{e9}", "\u{e9}\u{e9}\u{e9}",
        "A", "Z", "5", "{", "`", "/", "a+", "\0",
    ] {
        assert_eq!(Name::validate(candidate), Err(TnidError::InvalidCharacter), "{candidate:?}");
        assert!(!is_valid_name(candidate));
    }
}

#[test]
fn length_is_counted_in_characters() {
    // three characters, six bytes
    assert_eq!(Name::validate("\u{e9}\u{e9}\u{e9}"), Err(TnidError::InvalidCharacter));
    // four characters, one of them of two bytes
    assert_eq!(Name::validate("caf\u{e9}"), Err(TnidError::InvalidCharacter));
}

#[test]
fn name_codes_are_five_bits_a_character() {
    assert_eq!(Name::validate("0").unwrap().code(), 1 << 15);
    assert_eq!(Name::validate("z").unwrap().code(), 31 << 15);
    assert_eq!(Name::validate("a").unwrap().code(), 6 << 15);
    assert_eq!(Name::validate("test").unwrap().code(), 0xcab19);
    assert_eq!(Name::validate("usr").unwrap().code(), 0xd62e0);
    assert_eq!(Name::validate("zzzz").unwrap().code(), 0xfffff);
}

#[test]
fn names_come_back_from_their_codes() {
    assert_eq!(Name::from_code(0xcab19).map(|n| n.text()), Some("test".to_string()));
    assert_eq!(Name::from_code(0xd62e0).map(|n| n.text()), Some("usr".to_string()));
    assert_eq!(Name::from_code(6 << 15).map(|n| n.text()), Some("a".to_string()));
    assert_eq!(Name::from_code(Name::validate("z4a0").unwrap().code()).unwrap().text(), "z4a0");
}

#[test]
fn codes_that_spell_no_name_are_refused() {
    // empty first place
    assert_eq!(Name::from_code(0), None);
    assert_eq!(Name::from_code(0x07fff), None);
    // a filled place after an empty one
    assert_eq!(Name::from_code((6 << 15) | 6), None);
    assert_eq!(Name::from_code((6 << 15) | (6 << 5)), None);
    assert_eq!(Name::from_code((6 << 15) | (6 << 10) | 6), None);
    // more than 20 bits
    assert_eq!(Name::from_code(0x1cab19), None);
    assert_eq!(Name::from_code(u32::MAX), None);
}

#[test]
fn every_code_of_a_name_spells_that_name() {
    let alphabet = "01234abcdefghijklmnopqrstuvwxyz";
    for a in alphabet.chars() {
        for b in alphabet.chars() {
            let candidate = format!("{a}{b}");
            let name = Name::validate(&candidate).unwrap();
            assert_eq!(Name::from_code(name.code()).unwrap(), name);
            assert_eq!(name.text(), candidate);
        }
    }
}

#[test]
fn names_agree_with_the_tnid_crate() {
    let samples = [
        "", "a", "ab", "usr", "user", "users", "User", "id5", "a-b", "caf\u{e9}", "0", "4", "5", "z",
        "{", "test", "toolong", "a b", "\u{e9}\u{e9}", "+", ".", "a.", "zzzz", "zzzzz",
    ];
    for candidate in samples {
        assert_eq!(
            is_valid_name(candidate),
            tnid::NameStr::new(candidate).is_ok(),
            "{candidate:?}"
        );
    }
}

#[test]
fn error_messages_differ_by_kind() {
    let kinds = [
        TnidError::InvalidLength,
        TnidError::InvalidCharacter,
        TnidError::MalformedString,
        TnidError::MalformedUuid,
        TnidError::UnknownVariant,
        TnidError::WrongVariant,
        TnidError::InvalidKeyLength,
        TnidError::InvalidRandom,
    ];
    for (i, a) in kinds.iter().enumerate() {
        assert!(!a.message().is_empty());
        for b in kinds.iter().skip(i + 1) {
            assert_ne!(a.message(), b.message());
        }
    }
    assert_eq!(TnidError::InvalidLength.message(), "name must be 1 to 4 characters long");
}
