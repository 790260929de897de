//! The identifier: a name and a payload, whose tag gives the variant.
//!
//! An identifier is held as its packed value, the payload with the code of
//! the name in the 20 bits that the payload leaves empty. The native form
//! writes name and payload; the UUID form writes the payload alone, which is
//! a UUID of version 8, so that reading it back takes a name from the caller.

use vstd::prelude::*;
use crate::cipher::{seal, sealed, unseal, unsealed, Key};
use crate::digits::Case;
use crate::error::TnidError;
use crate::digits::text_in_case;
use crate::layout::{
    compose, decoded, encode_v0, encode_v1, fields_of, has_marks, is_payload, is_tnid,
    lemma_compose, lemma_compose_parts, name_field, payload_of, v0_payload, v1_payload,
    variant_of, Fields, FIELD_MASK, MARKS, MARKS_MASK, PAYLOAD_MASK, RANDOM_MAX, TAG_MASK,
    TIMESTAMP_MAX,
};
use crate::name::{
    code_name, code_slot, is_name, lemma_code_name_round_trip, lemma_name_code_round_trip,
    name_code, Name,
};
use crate::native_text::{
    format_tnid, is_tnid_text, lemma_tnid_text_round_trip, read_tnid, tnid_number, tnid_text,
};
use crate::uuid_text::{
    format_uuid, is_uuid_text, lemma_uuid_text_canonical, lemma_uuid_text_round_trip, read_uuid,
    uuid_number, uuid_text,
};
use crate::variant::Variant;

verus! {

/// Why a 128-bit value is not the packed value of an identifier.
pub open spec fn value_fault(bits: u128) -> TnidError {
    if !has_marks(bits) {
        TnidError::UnknownVariant
    } else if code_slot(name_field(bits), 0) == 0 {
        TnidError::InvalidLength
    } else {
        TnidError::InvalidCharacter
    }
}

/// What reading a UUID form under a given name comes to: where the text
/// spells a payload, the packed value of the name and that payload.
pub open spec fn named_uuid_outcome(name: Seq<char>, text: Seq<char>) -> Result<u128, TnidError> {
    if !is_uuid_text(text) {
        Err(TnidError::MalformedUuid)
    } else if !is_payload(uuid_number(text)) {
        Err(TnidError::UnknownVariant)
    } else {
        Ok(compose(name_code(name), uuid_number(text)))
    }
}

/// The packed value with the name and the marks of `bits`, the tag of
/// `variant`, and the field bits of `fields`.
pub open spec fn refielded(bits: u128, variant: Variant, fields: u128) -> u128 {
    (bits & !(FIELD_MASK | TAG_MASK)) | (variant.tag() << 60) | (fields & FIELD_MASK)
}

/// An identifier.
#[derive(Clone, Copy, Debug, PartialEq, Eq, Structural)]
pub struct Tnid {
    bits: u128,
}

impl View for Tnid {
    type V = u128;

    /// The packed value of the identifier.
    closed spec fn view(&self) -> u128 {
        self.bits
    }
}

impl Tnid {
    #[verifier::type_invariant]
    spec fn well_formed(self) -> bool {
        is_tnid(self.bits)
    }

    /// Makes a time-ordered identifier of a name, a timestamp in
    /// milliseconds since the Unix epoch, and a random number. Of the
    /// timestamp the low 43 bits are kept, of the random number the low 57.
    pub fn new_v0(name: Name, timestamp_ms: u64, random: u64) -> (id: Tnid)
        ensures
            id@ == compose(name_code(name@), v0_payload(timestamp_ms, random)),
            is_tnid(id@),
            code_name(name_field(id@)) == name@,
            payload_of(id@) == v0_payload(timestamp_ms, random),
            variant_of(id@) == Variant::V0,
            decoded(payload_of(id@)) == Ok::<(Variant, Fields), TnidError>(
                (
                    Variant::V0,
                    Fields::TimeOrdered {
                        timestamp_ms: timestamp_ms & TIMESTAMP_MAX,
                        random: random & RANDOM_MAX,
                    },
                ),
            ),
    {
        let code: u32 = name.code();
        let payload: u128 = encode_v0(timestamp_ms, random);
        proof {
            lemma_compose(code, payload);
            lemma_name_code_round_trip(name@);
        }
        Tnid { bits: ((code as u128) << 108) | (payload & PAYLOAD_MASK) }
    }

    /// Makes a high-entropy identifier of a name and a random number. The
    /// bits of the random number in the places of the field bits are kept.
    pub fn new_v1(name: Name, random: u128) -> (id: Tnid)
        ensures
            id@ == compose(name_code(name@), v1_payload(random)),
            is_tnid(id@),
            code_name(name_field(id@)) == name@,
            payload_of(id@) == v1_payload(random),
            variant_of(id@) == Variant::V1,
            decoded(payload_of(id@)) == Ok::<(Variant, Fields), TnidError>(
                (Variant::V1, Fields::HighEntropy { entropy: random & FIELD_MASK }),
            ),
    {
        let code: u32 = name.code();
        let payload: u128 = encode_v1(random);
        proof {
            lemma_compose(code, payload);
            lemma_name_code_round_trip(name@);
        }
        Tnid { bits: ((code as u128) << 108) | (payload & PAYLOAD_MASK) }
    }

    /// Makes an identifier of a name and a payload, and keeps every bit of
    /// the payload.
    ///
    /// Fails with `UnknownVariant` unless `payload` is a payload: unless it
    /// carries the marks and its 20 highest bits are zero.
    pub fn from_parts(name: Name, payload: u128) -> (r: Result<Tnid, TnidError>)
        ensures
            match r {
                Ok(id) => {
                    &&& is_payload(payload)
                    &&& id@ == compose(name_code(name@), payload)
                    &&& is_tnid(id@)
                    &&& code_name(name_field(id@)) == name@
                    &&& payload_of(id@) == payload
                    &&& variant_of(id@) == variant_of(payload)
                },
                Err(e) => !is_payload(payload) && e == TnidError::UnknownVariant,
            },
    {
        if payload & MARKS_MASK != MARKS || payload & !PAYLOAD_MASK != 0 {
            return Err(TnidError::UnknownVariant);
        }
        let code: u32 = name.code();
        proof {
            lemma_compose(code, payload);
            lemma_name_code_round_trip(name@);
        }
        Ok(Tnid { bits: ((code as u128) << 108) | (payload & PAYLOAD_MASK) })
    }

    /// Takes a packed value for an identifier: a payload with the code of a
    /// name in its 20 highest bits.
    ///
    /// Fails with `UnknownVariant` unless the value carries the marks; with
    /// `InvalidLength` where it does and the first place of its name field is
    /// empty; with `InvalidCharacter` where a filled place of the name field
    /// follows an empty one.
    pub fn from_packed(bits: u128) -> (r: Result<Tnid, TnidError>)
        ensures
            match r {
                Ok(id) => is_tnid(bits) && id@ == bits,
                Err(e) => !is_tnid(bits) && e == value_fault(bits),
            },
    {
        if bits & MARKS_MASK != MARKS {
            return Err(TnidError::UnknownVariant);
        }
        let code: u32 = (bits >> 108) as u32;
        match Name::from_code(code) {
            Some(_) => Ok(Tnid { bits }),
            None => {
                proof {
                    lemma_compose_parts(bits);
                }
                if (code >> 15) & 31 == 0 {
                    Err(TnidError::InvalidLength)
                } else {
                    Err(TnidError::InvalidCharacter)
                }
            },
        }
    }

    /// The packed value of the identifier: its payload with the code of its
    /// name in the 20 highest bits. It is not what the UUID form writes.
    pub fn packed(&self) -> (bits: u128)
        ensures
            bits == self@,
            is_tnid(self@),
            bits == compose(name_field(self@), payload_of(self@)),
    {
        proof {
            use_type_invariant(self);
            lemma_compose_parts(self.bits);
        }
        self.bits
    }

    /// The name of the identifier.
    pub fn name(&self) -> (name: Name)
        ensures
            name@ == code_name(name_field(self@)),
            name_code(name@) == name_field(self@),
            compose(name_code(name@), payload_of(self@)) == self@,
    {
        proof {
            use_type_invariant(self);
            lemma_code_name_round_trip(name_field(self.bits));
            lemma_compose_parts(self.bits);
        }
        Name::of_name_code((self.bits >> 108) as u32)
    }

    /// The variant of the identifier.
    pub fn variant(&self) -> (variant: Variant)
        ensures
            variant == variant_of(self@),
    {
        let tag: u128 = (self.bits >> 60) & 3;
        if tag == 0 {
            Variant::V0
        } else if tag == 1 {
            Variant::V1
        } else if tag == 2 {
            Variant::V2
        } else {
            Variant::V3
        }
    }

    /// The payload of the identifier.
    pub fn payload(&self) -> (payload: u128)
        ensures
            payload == payload_of(self@),
            is_payload(payload),
            compose(name_field(self@), payload) == self@,
            decoded(payload) == Ok::<(Variant, Fields), TnidError>(
                (variant_of(self@), fields_of(self@)),
            ),
    {
        proof {
            use_type_invariant(self);
            lemma_compose_parts(self.bits);
        }
        self.bits & PAYLOAD_MASK
    }

    /// Writes the identifier in its native form, which reads back as this
    /// identifier.
    pub fn to_tnid_string(&self) -> (text: String)
        ensures
            text@ == tnid_text(self@),
            is_tnid_text(text@),
            tnid_number(text@) == self@,
    {
        proof {
            use_type_invariant(self);
            lemma_tnid_text_round_trip(self.bits);
        }
        format_tnid(self.bits)
    }

    /// Reads an identifier in its native form.
    ///
    /// Fails with `MalformedString` unless the text is a name, a dot and 17
    /// digits of the six-bit alphabet.
    pub fn parse_tnid_string(text: &str) -> (r: Result<Tnid, TnidError>)
        ensures
            match r {
                Ok(id) => is_tnid_text(text@) && id@ == tnid_number(text@),
                Err(e) => !is_tnid_text(text@) && e == TnidError::MalformedString,
            },
    {
        match read_tnid(text) {
            Some(bits) => Ok(Tnid { bits }),
            None => Err(TnidError::MalformedString),
        }
    }

    /// Writes the payload of the identifier in UUID form, in the given
    /// letter case. The name is not written: identifiers of one payload have
    /// one UUID form, whatever their names. In either case the text reads
    /// back as the payload.
    pub fn to_uuid_string(&self, case: Case) -> (text: String)
        ensures
            text@ == uuid_text(payload_of(self@), case),
            is_uuid_text(text@),
            uuid_number(text@) == payload_of(self@),
            is_payload(payload_of(self@)),
            compose(name_field(self@), payload_of(self@)) == self@,
    {
        proof {
            use_type_invariant(self);
            lemma_compose_parts(self.bits);
            lemma_uuid_text_round_trip(payload_of(self.bits), case);
        }
        format_uuid(self.bits & PAYLOAD_MASK, case)
    }

    /// Reads a payload in UUID form, in either letter case, and gives it the
    /// name supplied. Every bit that the text spells is kept: the UUID form
    /// of the result is the text, in the letter case asked for.
    ///
    /// Fails with `MalformedUuid` unless the text is 32 hexadecimal digits in
    /// hyphenated groups of 8, 4, 4, 4 and 12, and with `UnknownVariant`
    /// where it is and the value it spells is no payload: where it does not
    /// carry the marks, or one of its 20 highest bits is set.
    pub fn parse_uuid_string(name: Name, text: &str) -> (r: Result<Tnid, TnidError>)
        ensures
            match r {
                Ok(id) => {
                    &&& named_uuid_outcome(name@, text@) == Ok::<u128, TnidError>(id@)
                    &&& is_tnid(id@)
                    &&& code_name(name_field(id@)) == name@
                    &&& payload_of(id@) == uuid_number(text@)
                    &&& variant_of(id@) == variant_of(uuid_number(text@))
                    &&& uuid_text(payload_of(id@), Case::Lower) == text_in_case(
                        text@,
                        Case::Lower,
                    )
                    &&& uuid_text(payload_of(id@), Case::Upper) == text_in_case(
                        text@,
                        Case::Upper,
                    )
                },
                Err(e) => named_uuid_outcome(name@, text@) == Err::<u128, TnidError>(e),
            },
    {
        match read_uuid(text) {
            Some(spelled) => {
                proof {
                    lemma_uuid_text_canonical(text@, Case::Lower);
                    lemma_uuid_text_canonical(text@, Case::Upper);
                }
                Tnid::from_parts(name, spelled)
            },
            None => Err(TnidError::MalformedUuid),
        }
    }

    /// The identifier with the name of this one, the given variant, and the
    /// field bits of `fields`; the other bits of `fields` are not read.
    pub fn with_fields(&self, variant: Variant, fields: u128) -> (id: Tnid)
        ensures
            id@ == refielded(self@, variant, fields),
            is_tnid(id@),
            name_field(id@) == name_field(self@),
            variant_of(id@) == variant,
            id@ & FIELD_MASK == fields & FIELD_MASK,
    {
        let tag: u128 = match variant {
            Variant::V0 => 0,
            Variant::V1 => 1,
            Variant::V2 => 2,
            Variant::V3 => 3,
        };
        let ghost bits = self.bits;
        proof {
            use_type_invariant(self);
            assert({
                let v = (bits & !(FIELD_MASK | TAG_MASK)) | (tag << 60) | (fields & FIELD_MASK);
                &&& v & MARKS_MASK == bits & MARKS_MASK
                &&& (v >> 108) as u32 == (bits >> 108) as u32
                &&& (v >> 60) & 3 == tag
                &&& v & FIELD_MASK == fields & FIELD_MASK
            }) by (bit_vector)
                requires
                    tag <= 3,
            ;
        }
        Tnid { bits: (self.bits & !(FIELD_MASK | TAG_MASK)) | (tag << 60) | (fields & FIELD_MASK) }
    }

    /// Turns a time-ordered identifier into a high-entropy one of the same
    /// name, whose field bits are those of this one enciphered under `key`.
    ///
    /// Fails with `WrongVariant` unless this identifier is of variant V0.
    pub fn encrypt_v0_to_v1(&self, key: &Key) -> (r: Result<Tnid, TnidError>)
        ensures
            match r {
                Ok(id) => {
                    &&& variant_of(self@) == Variant::V0
                    &&& id@ == sealed(self@, key@)
                    &&& is_tnid(id@)
                    &&& variant_of(id@) == Variant::V1
                    &&& name_field(id@) == name_field(self@)
                },
                Err(e) => variant_of(self@) != Variant::V0 && e == TnidError::WrongVariant,
            },
    {
        proof {
            use_type_invariant(self);
        }
        match self.variant() {
            Variant::V0 => {},
            _ => {
                return Err(TnidError::WrongVariant);
            },
        }
        match seal(self.bits, key.as_bytes()) {
            Some(out) => {
                let id = self.with_fields(Variant::V1, out);
                proof {
                    lemma_refielded_same(self.bits, Variant::V1, out);
                }
                Ok(id)
            },
            // no identifier of variant V0 is refused
            None => Err(TnidError::WrongVariant),
        }
    }

    /// Turns a high-entropy identifier into a time-ordered one of the same
    /// name, whose field bits are those of this one deciphered under `key`.
    /// Under the key that made this identifier of a time-ordered one, the
    /// result is that one; under another key it is some other time-ordered
    /// identifier, and no failure.
    ///
    /// Fails with `WrongVariant` unless this identifier is of variant V1.
    pub fn decrypt_v1_to_v0(&self, key: &Key) -> (r: Result<Tnid, TnidError>)
        ensures
            match r {
                Ok(id) => {
                    &&& variant_of(self@) == Variant::V1
                    &&& id@ == unsealed(self@, key@)
                    &&& is_tnid(id@)
                    &&& variant_of(id@) == Variant::V0
                    &&& name_field(id@) == name_field(self@)
                },
                Err(e) => variant_of(self@) != Variant::V1 && e == TnidError::WrongVariant,
            },
            forall|source: u128|
                is_tnid(source) && variant_of(source) == Variant::V0 && #[trigger] sealed(
                    source,
                    key@,
                ) == self@ && variant_of(self@) == Variant::V1 ==> r is Ok && r.unwrap()@
                    == source,
    {
        proof {
            use_type_invariant(self);
        }
        match self.variant() {
            Variant::V1 => {},
            _ => {
                return Err(TnidError::WrongVariant);
            },
        }
        match unseal(self.bits, key.as_bytes()) {
            Some(out) => {
                let id = self.with_fields(Variant::V0, out);
                proof {
                    lemma_refielded_same(self.bits, Variant::V0, out);
                }
                Ok(id)
            },
            // no identifier of variant V1 is refused
            None => Err(TnidError::WrongVariant),
        }
    }
}

/// A value that already has the name and the marks of `bits` and the tag of
/// `variant` is what `refielded` makes of its field bits.
pub proof fn lemma_refielded_same(bits: u128, variant: Variant, fields: u128)
    requires
        has_marks(bits),
        has_marks(fields),
        name_field(fields) == name_field(bits),
        variant_of(fields) == variant,
    ensures
        refielded(bits, variant, fields) == fields,
{
    let tag = variant.tag();
    assert((fields >> 60) & 3 <= 3) by (bit_vector);
    assert((bits & !(FIELD_MASK | TAG_MASK)) | (tag << 60) | (fields & FIELD_MASK) == fields)
        by (bit_vector)
        requires
            bits & MARKS_MASK == MARKS,
            fields & MARKS_MASK == MARKS,
            (fields >> 108) as u32 == (bits >> 108) as u32,
            (fields >> 60) & 3 == tag,
    ;
}

/// Reading the UUID form of a payload, written in either case, under any
/// name gives the identifier of that name and that payload; read under its
/// own name, the UUID form of an identifier gives the identifier back.
pub proof fn lemma_named_uuid_round_trip(name: Seq<char>, payload: u128, case: Case)
    requires
        is_name(name),
        is_payload(payload),
    ensures
        named_uuid_outcome(name, uuid_text(payload, case)) == Ok::<u128, TnidError>(
            compose(name_code(name), payload),
        ),
        is_tnid(compose(name_code(name), payload)),
        code_name(name_field(compose(name_code(name), payload))) == name,
        payload_of(compose(name_code(name), payload)) == payload,
        decoded(payload_of(compose(name_code(name), payload))) == decoded(payload),
        forall|bits: u128|
            is_tnid(bits) && name == code_name(name_field(bits)) && payload == #[trigger] payload_of(
                bits,
            ) ==> compose(name_code(name), payload) == bits,
{
    lemma_uuid_text_round_trip(payload, case);
    lemma_name_code_round_trip(name);
    lemma_compose(name_code(name), payload);
    assert forall|bits: u128|
        is_tnid(bits) && name == code_name(name_field(bits)) && payload == #[trigger] payload_of(
            bits,
        ) implies compose(name_code(name), payload) == bits by {
        lemma_code_name_round_trip(name_field(bits));
        lemma_compose_parts(bits);
    }
}

} // verus!
