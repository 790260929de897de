//! TNID: typed, named identifiers whose 128-bit payload is a UUID of
//! version 8.
//!
//! An identifier holds a name of one to four characters and a payload, whose
//! tag gives the variant. It is written in two ways: in its native form, such
//! as `user.Br2flcNDfF6LYICnT`, which holds the name, and in UUID form, which
//! holds the payload alone. The types of the crate ([`Name`], [`Variant`],
//! [`Tnid`], [`Key`]) work on values; the functions of this module do the
//! same work from text to text, for callers that hold identifiers as strings.

pub mod cipher;
pub mod digits;
pub mod error;
pub mod layout;
pub mod name;
pub mod native_text;
mod strings;
pub mod tnid;
pub mod uuid_text;
pub mod variant;

pub use cipher::Key;
pub use digits::Case;
pub use error::TnidError;
pub use layout::{decode, encode_v0, encode_v1, Fields};
pub use name::Name;
pub use tnid::Tnid;
pub use variant::Variant;

use cipher::{is_key_hex, key_hex_bytes, sealed, unsealed};
use digits::{is_radix16, radix16_number, read_radix16, text_in_case};
use layout::{
    compose, is_payload, is_tnid, lemma_compose_parts, name_field, payload_of, v0_payload,
    v1_payload, variant_of,
};
use name::{code_name, is_name, lemma_code_name_round_trip, name_code};
use native_text::{
    is_tnid_text, lemma_tnid_text_canonical, lemma_tnid_text_round_trip, tnid_number, tnid_text,
};
use tnid::{lemma_named_uuid_round_trip, named_uuid_outcome};
use uuid_text::{is_uuid_text, uuid_number, uuid_text};
use vstd::prelude::*;

verus! {

/// Whether `r` is the outcome `expected`, a text being taken by its
/// characters.
pub open spec fn is_outcome(r: Result<String, TnidError>, expected: Result<Seq<char>, TnidError>)
    -> bool {
    match r {
        Ok(text) => expected == Ok::<Seq<char>, TnidError>(text@),
        Err(e) => expected == Err::<Seq<char>, TnidError>(e),
    }
}

/// The failure of a candidate that is no name.
pub open spec fn name_fault(name: Seq<char>) -> TnidError {
    if name.len() == 0 || name.len() > 4 {
        TnidError::InvalidLength
    } else {
        TnidError::InvalidCharacter
    }
}

/// What `parse_uuid` makes of a name and a text.
pub open spec fn parse_uuid_outcome(name: Seq<char>, uuid_str: Seq<char>) -> Result<
    Seq<char>,
    TnidError,
> {
    if !is_name(name) {
        Err(name_fault(name))
    } else {
        match named_uuid_outcome(name, uuid_str) {
            Ok(bits) => Ok(tnid_text(bits)),
            Err(e) => Err(e),
        }
    }
}

/// What `new_v0` makes of its inputs.
pub open spec fn new_v0_outcome(name: Seq<char>, timestamp_ms: u64, random_hex: Seq<char>)
    -> Result<Seq<char>, TnidError> {
    if !is_name(name) {
        Err(name_fault(name))
    } else if !(random_hex.len() == 16 && is_radix16(random_hex)) {
        Err(TnidError::InvalidRandom)
    } else {
        Ok(
            tnid_text(
                compose(
                    name_code(name),
                    v0_payload(timestamp_ms, radix16_number(random_hex) as u64),
                ),
            ),
        )
    }
}

/// What `new_v1` makes of its inputs.
pub open spec fn new_v1_outcome(name: Seq<char>, random_hex: Seq<char>) -> Result<
    Seq<char>,
    TnidError,
> {
    if !is_name(name) {
        Err(name_fault(name))
    } else if !(random_hex.len() == 32 && is_radix16(random_hex)) {
        Err(TnidError::InvalidRandom)
    } else {
        Ok(tnid_text(compose(name_code(name), v1_payload(radix16_number(random_hex)))))
    }
}

/// What `encrypt_v0_to_v1` makes of its inputs.
pub open spec fn encrypt_outcome(tnid_str: Seq<char>, key_hex: Seq<char>) -> Result<
    Seq<char>,
    TnidError,
> {
    if !is_tnid_text(tnid_str) {
        Err(TnidError::MalformedString)
    } else if !is_key_hex(key_hex) {
        Err(TnidError::InvalidKeyLength)
    } else if variant_of(tnid_number(tnid_str)) != Variant::V0 {
        Err(TnidError::WrongVariant)
    } else {
        Ok(tnid_text(sealed(tnid_number(tnid_str), key_hex_bytes(key_hex))))
    }
}

/// What `decrypt_v1_to_v0` makes of its inputs.
pub open spec fn decrypt_outcome(tnid_str: Seq<char>, key_hex: Seq<char>) -> Result<
    Seq<char>,
    TnidError,
> {
    if !is_tnid_text(tnid_str) {
        Err(TnidError::MalformedString)
    } else if !is_key_hex(key_hex) {
        Err(TnidError::InvalidKeyLength)
    } else if variant_of(tnid_number(tnid_str)) != Variant::V1 {
        Err(TnidError::WrongVariant)
    } else {
        Ok(tnid_text(unsealed(tnid_number(tnid_str), key_hex_bytes(key_hex))))
    }
}

/// Reading the UUID form of an identifier, written in either case, under
/// the name of the identifier gives its native form.
pub proof fn lemma_parse_uuid_round_trip(bits: u128, case: Case)
    requires
        is_tnid(bits),
    ensures
        parse_uuid_outcome(code_name(name_field(bits)), uuid_text(payload_of(bits), case))
            == Ok::<Seq<char>, TnidError>(tnid_text(bits)),
{
    lemma_code_name_round_trip(name_field(bits));
    lemma_compose_parts(bits);
    lemma_named_uuid_round_trip(code_name(name_field(bits)), payload_of(bits), case);
}

/// Checks that a text is the native form of an identifier, and returns it.
///
/// Fails with `MalformedString` where it is not.
pub fn parse(tnid_str: &str) -> (r: Result<String, TnidError>)
    ensures
        match r {
            Ok(text) => is_tnid_text(tnid_str@) && text@ == tnid_str@,
            Err(e) => !is_tnid_text(tnid_str@) && e == TnidError::MalformedString,
        },
{
    let id = Tnid::parse_tnid_string(tnid_str)?;
    proof {
        lemma_tnid_text_canonical(tnid_str@);
    }
    Ok(id.to_tnid_string())
}

/// Reads a payload in UUID form, in either letter case, gives it the name
/// `name`, and writes the identifier in its native form. Every bit that the
/// text spells is kept: the UUID form of the result is the text in lower
/// case.
///
/// Fails with `InvalidLength` or `InvalidCharacter` where `name` is no name;
/// with `MalformedUuid` where it is and the text is not 32 hexadecimal digits
/// in hyphenated groups of 8, 4, 4, 4 and 12; with `UnknownVariant` where the
/// value that the text spells is no payload: where it does not carry the
/// marks, or one of its 20 highest bits is set.
pub fn parse_uuid(name: &str, uuid_str: &str) -> (r: Result<String, TnidError>)
    ensures
        is_outcome(r, parse_uuid_outcome(name@, uuid_str@)),
        r matches Ok(text) ==> {
            &&& is_tnid_text(text@)
            &&& text@.subrange(0, text@.len() - 18) == name@
            &&& payload_of(tnid_number(text@)) == uuid_number(uuid_str@)
            &&& uuid_text(payload_of(tnid_number(text@)), Case::Lower) == text_in_case(
                uuid_str@,
                Case::Lower,
            )
        },
{
    let name = Name::validate(name)?;
    let id = Tnid::parse_uuid_string(name, uuid_str)?;
    let text = id.to_tnid_string();
    proof {
        lemma_tnid_text_canonical(text@);
    }
    Ok(text)
}

/// Makes a time-ordered identifier and writes it in its native form.
///
/// `name` is the name; `timestamp_ms` counts milliseconds since the Unix
/// epoch, and its low 43 bits are kept; `random_hex` writes the random number
/// in base 16 with exactly 16 characters, of which the low 57 bits are kept.
///
/// Fails with `InvalidLength` or `InvalidCharacter` where `name` is no name,
/// and with `InvalidRandom` where it is and `random_hex` is no such writing.
pub fn new_v0(name: &str, timestamp_ms: u64, random_hex: &str) -> (r: Result<String, TnidError>)
    ensures
        is_outcome(r, new_v0_outcome(name@, timestamp_ms, random_hex@)),
        r matches Ok(text) ==> {
            &&& is_tnid_text(text@)
            &&& text@.subrange(0, text@.len() - 18) == name@
            &&& variant_of(tnid_number(text@)) == Variant::V0
            &&& payload_of(tnid_number(text@)) == v0_payload(
                timestamp_ms,
                radix16_number(random_hex@) as u64,
            )
        },
{
    let name = Name::validate(name)?;
    let random: u64 = match read_radix16(random_hex, 16) {
        Some(random) => random as u64,
        None => {
            return Err(TnidError::InvalidRandom);
        },
    };
    let text = Tnid::new_v0(name, timestamp_ms, random).to_tnid_string();
    proof {
        lemma_tnid_text_canonical(text@);
    }
    Ok(text)
}

/// Makes a high-entropy identifier and writes it in its native form.
///
/// `name` is the name; `random_hex` writes the random number in base 16 with
/// exactly 32 characters, of which the bits in the places of the field bits
/// are kept.
///
/// Fails with `InvalidLength` or `InvalidCharacter` where `name` is no name,
/// and with `InvalidRandom` where it is and `random_hex` is no such writing.
pub fn new_v1(name: &str, random_hex: &str) -> (r: Result<String, TnidError>)
    ensures
        is_outcome(r, new_v1_outcome(name@, random_hex@)),
        r matches Ok(text) ==> {
            &&& is_tnid_text(text@)
            &&& text@.subrange(0, text@.len() - 18) == name@
            &&& variant_of(tnid_number(text@)) == Variant::V1
            &&& payload_of(tnid_number(text@)) == v1_payload(radix16_number(random_hex@))
        },
{
    let name = Name::validate(name)?;
    let random: u128 = match read_radix16(random_hex, 32) {
        Some(random) => random,
        None => {
            return Err(TnidError::InvalidRandom);
        },
    };
    let text = Tnid::new_v1(name, random).to_tnid_string();
    proof {
        lemma_tnid_text_canonical(text@);
    }
    Ok(text)
}

/// Writes the payload of an identifier, given in its native form, in UUID
/// form and lower case. The name is not written: identifiers of one payload
/// have one UUID form, whatever their names.
///
/// Fails with `MalformedString` where the text is not the native form of an
/// identifier.
pub fn to_uuid_string(tnid_str: &str) -> (r: Result<String, TnidError>)
    ensures
        match r {
            Ok(text) => {
                &&& is_tnid_text(tnid_str@)
                &&& text@ == uuid_text(payload_of(tnid_number(tnid_str@)), Case::Lower)
                &&& is_uuid_text(text@)
                &&& uuid_number(text@) == payload_of(tnid_number(tnid_str@))
                &&& is_payload(uuid_number(text@))
                &&& tnid_text(
                    compose(name_field(tnid_number(tnid_str@)), uuid_number(text@)),
                ) == tnid_str@
            },
            Err(e) => !is_tnid_text(tnid_str@) && e == TnidError::MalformedString,
        },
{
    let id = Tnid::parse_tnid_string(tnid_str)?;
    proof {
        lemma_tnid_text_canonical(tnid_str@);
    }
    Ok(id.to_uuid_string(Case::Lower))
}

/// The label of the variant of an identifier given in its native form: `v0`,
/// `v1`, `v2` or `v3`.
///
/// Fails with `MalformedString` where the text is not the native form of an
/// identifier.
pub fn get_variant(tnid_str: &str) -> (r: Result<String, TnidError>)
    ensures
        match r {
            Ok(text) => is_tnid_text(tnid_str@) && text@ == variant_of(
                tnid_number(tnid_str@),
            ).label_text(),
            Err(e) => !is_tnid_text(tnid_str@) && e == TnidError::MalformedString,
        },
{
    let id = Tnid::parse_tnid_string(tnid_str)?;
    Ok(String::from_str(id.variant().label()))
}

/// The name of an identifier given in its native form: the part of the text
/// before the dot.
///
/// Fails with `MalformedString` where the text is not the native form of an
/// identifier.
pub fn get_name(tnid_str: &str) -> (r: Result<String, TnidError>)
    ensures
        match r {
            Ok(text) => {
                &&& is_tnid_text(tnid_str@)
                &&& text@ == tnid_str@.subrange(0, tnid_str@.len() - 18)
                &&& is_name(text@)
                &&& name_code(text@) == name_field(tnid_number(tnid_str@))
            },
            Err(e) => !is_tnid_text(tnid_str@) && e == TnidError::MalformedString,
        },
{
    let id = Tnid::parse_tnid_string(tnid_str)?;
    proof {
        lemma_tnid_text_canonical(tnid_str@);
    }
    Ok(id.name().text())
}

/// Enciphers a time-ordered identifier, given in its native form, under the
/// key that `key_hex` writes with 32 hexadecimal digits, and writes the
/// high-entropy identifier that results in its native form.
///
/// Fails with `MalformedString` where `tnid_str` is not the native form of
/// an identifier; with `InvalidKeyLength` where it is and `key_hex` writes no
/// key; with `WrongVariant` where both are well and the identifier is not of
/// variant V0.
pub fn encrypt_v0_to_v1(tnid_str: &str, key_hex: &str) -> (r: Result<String, TnidError>)
    ensures
        is_outcome(r, encrypt_outcome(tnid_str@, key_hex@)),
        r matches Ok(text) ==> {
            let out = sealed(tnid_number(tnid_str@), key_hex_bytes(key_hex@));
            &&& is_tnid(out)
            &&& variant_of(out) == Variant::V1
            &&& name_field(out) == name_field(tnid_number(tnid_str@))
            &&& is_tnid_text(text@)
            &&& tnid_number(text@) == out
        },
{
    let id = Tnid::parse_tnid_string(tnid_str)?;
    let key = Key::from_hex(key_hex)?;
    let out = id.encrypt_v0_to_v1(&key)?;
    Ok(out.to_tnid_string())
}

/// Deciphers a high-entropy identifier, given in its native form, under the
/// key that `key_hex` writes with 32 hexadecimal digits, and writes the
/// time-ordered identifier that results in its native form. Where the input
/// is what `encrypt_v0_to_v1` made of an identifier under the same key, the
/// result is that identifier; under another key it is some other
/// time-ordered identifier, and no failure.
///
/// Fails with `MalformedString` where `tnid_str` is not the native form of
/// an identifier; with `InvalidKeyLength` where it is and `key_hex` writes no
/// key; with `WrongVariant` where both are well and the identifier is not of
/// variant V1.
pub fn decrypt_v1_to_v0(tnid_str: &str, key_hex: &str) -> (r: Result<String, TnidError>)
    ensures
        is_outcome(r, decrypt_outcome(tnid_str@, key_hex@)),
        r matches Ok(text) ==> {
            let out = unsealed(tnid_number(tnid_str@), key_hex_bytes(key_hex@));
            &&& is_tnid(out)
            &&& variant_of(out) == Variant::V0
            &&& name_field(out) == name_field(tnid_number(tnid_str@))
            &&& is_tnid_text(text@)
            &&& tnid_number(text@) == out
        },
        forall|source: Seq<char>|
            #![trigger tnid_number(source)]
            {
                let out = sealed(tnid_number(source), key_hex_bytes(key_hex@));
                &&& encrypt_outcome(source, key_hex@) == Ok::<Seq<char>, TnidError>(tnid_str@)
                &&& is_tnid(out)
                &&& variant_of(out) == Variant::V1
            } ==> r is Ok && r.unwrap()@ == source,
{
    let id = Tnid::parse_tnid_string(tnid_str);
    proof {
        assert forall|source: Seq<char>|
            #![trigger tnid_number(source)]
            {
                let out = sealed(tnid_number(source), key_hex_bytes(key_hex@));
                &&& encrypt_outcome(source, key_hex@) == Ok::<Seq<char>, TnidError>(tnid_str@)
                &&& is_tnid(out)
                &&& variant_of(out) == Variant::V1
            } implies is_tnid_text(tnid_str@) && tnid_number(tnid_str@) == sealed(
            tnid_number(source),
            key_hex_bytes(key_hex@),
        ) && is_tnid(tnid_number(source)) && tnid_text(tnid_number(source)) == source by {
            lemma_tnid_text_round_trip(sealed(tnid_number(source), key_hex_bytes(key_hex@)));
            lemma_tnid_text_canonical(source);
        }
    }
    let id = id?;
    let key = Key::from_hex(key_hex)?;
    let out = id.decrypt_v1_to_v0(&key)?;
    Ok(out.to_tnid_string())
}

/// Whether a text is a name: one to four characters, each of them a digit
/// from `0` to `4` or a lower-case letter from `a` to `z`.
pub fn is_valid_name(name: &str) -> (valid: bool)
    ensures
        valid == is_name(name@),
{
    Name::validate(name).is_ok()
}

} // verus!
