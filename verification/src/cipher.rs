//! Keys, and the keyed transform between time-ordered and high-entropy
//! identifiers.
//!
//! The transform is the format-preserving cipher FF1 over AES-128, as the
//! `tnid` crate applies it to the packed value of an identifier: the 100
//! field bits, read as 25 hexadecimal digits, are enciphered under the key
//! with an empty tweak; the name and the marks stay, and the tag changes from
//! V0 to V1 or back. It is a bijection of the field bits and carries no check
//! of integrity: under a wrong key the way back still gives a time-ordered
//! identifier, only another one.

use vstd::prelude::*;
use crate::digits::{all_hex, hex_value, is_hex_digit, read_hex_digit};
use crate::error::TnidError;
use crate::layout::{has_marks, is_tnid, name_field, variant_of};
use crate::variant::Variant;

verus! {

/// The packed value of the identifier that `DynamicTnid::encrypt_v0_to_v1`
/// of the `tnid` crate returns for the time-ordered identifier of packed
/// value `bits` and the key made of the 16 bytes `key`.
pub uninterp spec fn sealed(bits: u128, key: Seq<u8>) -> u128;

/// The packed value of the identifier that `DynamicTnid::decrypt_v1_to_v0`
/// of the `tnid` crate returns for the high-entropy identifier of packed
/// value `bits` and the key made of the 16 bytes `key`.
pub uninterp spec fn unsealed(bits: u128, key: Seq<u8>) -> u128;

/// Calls `DynamicTnid::encrypt_v0_to_v1` on the time-ordered identifier of
/// packed value `bits`, with `EncryptionKey::new(key)`. Trusted, as the source of
/// the `tnid` crate shows it: for such an identifier the call succeeds; the
/// result has the name and the marks of the input and the tag of V1; its
/// field bits are a function of the input and the key alone.
#[verifier::external_body]
pub(crate) fn seal(bits: u128, key: &[u8; 16]) -> (r: Option<u128>)
    requires
        is_tnid(bits),
        variant_of(bits) == Variant::V0,
    ensures
        r == Some(sealed(bits, key@)),
        r is Some && name_field(r.unwrap()) == name_field(bits),
        r is Some && has_marks(r.unwrap()),
        r is Some && variant_of(r.unwrap()) == Variant::V1,
{
    let id = tnid::DynamicTnid::from_u128(bits).ok()?;
    let key = tnid::encryption::EncryptionKey::new(*key);
    match id.encrypt_v0_to_v1(&key) {
        Ok(out) => Some(out.as_u128()),
        Err(_) => None,
    }
}

/// Calls `DynamicTnid::decrypt_v1_to_v0` on the high-entropy identifier of
/// packed value `bits`, with `EncryptionKey::new(key)`. Trusted, as the source of
/// the `tnid` crate shows it: for such an identifier the call succeeds,
/// whatever the key; the result has the name and the marks of the input and
/// the tag of V0; its field bits are a function of the input and the key
/// alone; and it undoes `encrypt_v0_to_v1` under the same key, so where the
/// input is what that call made of a time-ordered identifier, the result is
/// that identifier.
#[verifier::external_body]
pub(crate) fn unseal(bits: u128, key: &[u8; 16]) -> (r: Option<u128>)
    requires
        is_tnid(bits),
        variant_of(bits) == Variant::V1,
    ensures
        r == Some(unsealed(bits, key@)),
        r is Some && name_field(r.unwrap()) == name_field(bits),
        r is Some && has_marks(r.unwrap()),
        r is Some && variant_of(r.unwrap()) == Variant::V0,
        forall|source: u128|
            is_tnid(source) && variant_of(source) == Variant::V0 && #[trigger] sealed(source, key@)
                == bits ==> r == Some(source),
{
    let id = tnid::DynamicTnid::from_u128(bits).ok()?;
    let key = tnid::encryption::EncryptionKey::new(*key);
    match id.decrypt_v1_to_v0(&key) {
        Ok(out) => Some(out.as_u128()),
        Err(_) => None,
    }
}

/// Whether `s` writes a key: 32 hexadecimal digits, of either case.
pub open spec fn is_key_hex(s: Seq<char>) -> bool {
    s.len() == 32 && all_hex(s)
}

/// The 16 bytes that 32 hexadecimal digits write, two digits a byte, the
/// higher digit first.
pub open spec fn key_hex_bytes(s: Seq<char>) -> Seq<u8> {
    Seq::new(16, |i: int| (hex_value(s[2 * i]) * 16 + hex_value(s[2 * i + 1])) as u8)
}

/// A key of 128 bits.
#[derive(Clone, Copy)]
pub struct Key {
    bytes: [u8; 16],
}

impl View for Key {
    type V = Seq<u8>;

    /// The 16 bytes of the key.
    closed spec fn view(&self) -> Seq<u8> {
        self.bytes@
    }
}

impl Key {
    /// Makes a key of raw bytes.
    ///
    /// Fails with `InvalidKeyLength` unless there are exactly 16 of them.
    pub fn from_bytes(bytes: &[u8]) -> (r: Result<Key, TnidError>)
        ensures
            match r {
                Ok(key) => bytes@.len() == 16 && key@ == bytes@,
                Err(e) => bytes@.len() != 16 && e == TnidError::InvalidKeyLength,
            },
    {
        if bytes.len() != 16 {
            return Err(TnidError::InvalidKeyLength);
        }
        let mut copy: [u8; 16] = [0u8; 16];
        let mut i: usize = 0;
        while i < 16
            invariant
                i <= 16,
                bytes@.len() == 16,
                forall|j: int| 0 <= j < i ==> copy@[j] == bytes@[j],
            decreases 16 - i,
        {
            copy[i] = bytes[i];
            i = i + 1;
        }
        assert(copy@ =~= bytes@);
        Ok(Key { bytes: copy })
    }

    /// Makes a key of its hexadecimal writing.
    ///
    /// Fails with `InvalidKeyLength` unless the text is exactly 32
    /// hexadecimal digits.
    pub fn from_hex(text: &str) -> (r: Result<Key, TnidError>)
        ensures
            match r {
                Ok(key) => is_key_hex(text@) && key@ == key_hex_bytes(text@),
                Err(e) => !is_key_hex(text@) && e == TnidError::InvalidKeyLength,
            },
    {
        let len: usize = text.unicode_len();
        if len != 32 {
            return Err(TnidError::InvalidKeyLength);
        }
        let mut bytes: [u8; 16] = [0u8; 16];
        let mut i: usize = 0;
        while i < 16
            invariant
                i <= 16,
                text@.len() == 32,
                forall|j: int| 0 <= j < 2 * i ==> is_hex_digit(#[trigger] text@[j]),
                forall|j: int| 0 <= j < i ==> bytes@[j] == #[trigger] key_hex_bytes(text@)[j],
            decreases 16 - i,
        {
            let high = read_hex_digit(text.get_char(2 * i));
            let low = read_hex_digit(text.get_char(2 * i + 1));
            match (high, low) {
                (Some(h), Some(l)) => {
                    bytes[i] = h * 16 + l;
                },
                _ => {
                    assert(!is_hex_digit(text@[2 * i as int]) || !is_hex_digit(
                        text@[2 * i + 1],
                    ));
                    return Err(TnidError::InvalidKeyLength);
                },
            }
            i = i + 1;
        }
        assert(bytes@ =~= key_hex_bytes(text@));
        Ok(Key { bytes })
    }

    /// The 16 bytes of the key.
    pub fn as_bytes(&self) -> (bytes: &[u8; 16])
        ensures
            bytes@ == self@,
    {
        &self.bytes
    }
}

} // verus!
