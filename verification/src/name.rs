//! Names: the one to four characters that say what kind of thing an
//! identifier stands for.
//!
//! A name is written with the digits `0` to `4` and the lower-case letters
//! `a` to `z`. Each character has a five-bit code (`0`-`4` are 1 to 5, `a`-`z`
//! are 6 to 31), so that codes order as the characters do; code 0 fills the
//! places that a name shorter than four characters leaves empty. The four
//! codes, first character highest, make the 20-bit code of the name.

use vstd::prelude::*;
use crate::error::TnidError;
use crate::strings::push_char;

verus! {

/// Whether `c` may stand in a name.
pub open spec fn is_name_char(c: char) -> bool {
    ('0' <= c && c <= '4') || ('a' <= c && c <= 'z')
}

/// Whether `s` is a name: one to four characters, each of them allowed.
pub open spec fn is_name(s: Seq<char>) -> bool {
    &&& 1 <= s.len() <= 4
    &&& forall|i: int| 0 <= i < s.len() ==> is_name_char(#[trigger] s[i])
}

/// The five-bit code of a name character.
pub open spec fn symbol_code(c: char) -> u32 {
    if c <= '4' {
        (c as u32 - 47) as u32
    } else {
        (c as u32 - 91) as u32
    }
}

/// The name character with five-bit code `v`, for `v` from 1 to 31.
pub open spec fn code_symbol(v: u32) -> char {
    if v <= 5 {
        ((v + 47) as u8) as char
    } else {
        ((v + 91) as u8) as char
    }
}

/// The code in place `i` of `s`: that of its character there, or 0 past its end.
pub open spec fn slot(s: Seq<char>, i: int) -> u32 {
    if 0 <= i < s.len() {
        symbol_code(s[i])
    } else {
        0
    }
}

/// The 20-bit code of a name.
pub open spec fn name_code(s: Seq<char>) -> u32 {
    pack(slot(s, 0), slot(s, 1), slot(s, 2), slot(s, 3))
}

/// Four five-bit codes side by side, the first one highest.
pub open spec fn pack(s0: u32, s1: u32, s2: u32, s3: u32) -> u32 {
    (s0 << 15) | (s1 << 10) | (s2 << 5) | s3
}

/// The five-bit code in place `i` (0 to 3) of a 20-bit code.
pub open spec fn code_slot(code: u32, i: int) -> u32 {
    if i == 0 {
        (code >> 15) & 31
    } else if i == 1 {
        (code >> 10) & 31
    } else if i == 2 {
        (code >> 5) & 31
    } else {
        code & 31
    }
}

/// How many places of a 20-bit code are filled before the first empty one.
pub open spec fn code_len(code: u32) -> nat {
    if code_slot(code, 0) == 0 {
        0
    } else if code_slot(code, 1) == 0 {
        1
    } else if code_slot(code, 2) == 0 {
        2
    } else if code_slot(code, 3) == 0 {
        3
    } else {
        4
    }
}

/// Whether `code` is the code of a name: it fits in 20 bits, its first place
/// is filled, and no filled place follows an empty one.
pub open spec fn is_name_code(code: u32) -> bool {
    &&& code < 0x10_0000
    &&& code_slot(code, 0) != 0
    &&& code_slot(code, 1) == 0 ==> code_slot(code, 2) == 0
    &&& code_slot(code, 2) == 0 ==> code_slot(code, 3) == 0
}

/// The characters that a 20-bit code spells.
pub open spec fn code_name(code: u32) -> Seq<char> {
    Seq::new(code_len(code), |i: int| code_symbol(code_slot(code, i)))
}

/// Packing four codes and taking the places apart gives the codes back.
pub proof fn lemma_pack_slots(s0: u32, s1: u32, s2: u32, s3: u32)
    requires
        s0 <= 31,
        s1 <= 31,
        s2 <= 31,
        s3 <= 31,
    ensures
        pack(s0, s1, s2, s3) < 0x10_0000,
        code_slot(pack(s0, s1, s2, s3), 0) == s0,
        code_slot(pack(s0, s1, s2, s3), 1) == s1,
        code_slot(pack(s0, s1, s2, s3), 2) == s2,
        code_slot(pack(s0, s1, s2, s3), 3) == s3,
{
    assert({
        let code = (s0 << 15) | (s1 << 10) | (s2 << 5) | s3;
        &&& code < 0x10_0000
        &&& (code >> 15) & 31 == s0
        &&& (code >> 10) & 31 == s1
        &&& (code >> 5) & 31 == s2
        &&& code & 31 == s3
    }) by (bit_vector)
        requires
            s0 <= 31,
            s1 <= 31,
            s2 <= 31,
            s3 <= 31,
    ;
}

/// Taking the places of a 20-bit code apart and packing them gives the code
/// back.
pub proof fn lemma_slots_pack(code: u32)
    requires
        code < 0x10_0000,
    ensures
        pack(code_slot(code, 0), code_slot(code, 1), code_slot(code, 2), code_slot(code, 3))
            == code,
        forall|i: int| 0 <= i < 4 ==> #[trigger] code_slot(code, i) <= 31,
{
    assert({
        &&& ((((code >> 15) & 31) << 15) | (((code >> 10) & 31) << 10) | (((code >> 5) & 31) << 5)
            | (code & 31)) == code
        &&& (code >> 15) & 31 <= 31
        &&& (code >> 10) & 31 <= 31
        &&& (code >> 5) & 31 <= 31
        &&& code & 31 <= 31
    }) by (bit_vector)
        requires
            code < 0x10_0000,
    ;
}

/// Coding a name and spelling the code gives the name back.
pub proof fn lemma_name_code_round_trip(s: Seq<char>)
    requires
        is_name(s),
    ensures
        is_name_code(name_code(s)),
        code_name(name_code(s)) == s,
{
    let code = name_code(s);
    assert forall|i: int| 0 <= i < s.len() implies 1 <= #[trigger] slot(s, i) <= 31 by {
        assert(is_name_char(s[i]));
    }
    lemma_pack_slots(slot(s, 0), slot(s, 1), slot(s, 2), slot(s, 3));
    assert(forall|i: int| 0 <= i < 4 ==> code_slot(code, i) == #[trigger] slot(s, i));
    assert forall|i: int| 0 <= i < s.len() implies code_symbol(code_slot(code, i)) == s[i] by {
        assert(is_name_char(s[i]));
        assert(code_slot(code, i) == slot(s, i));
    }
    assert(code_len(code) == s.len());
    assert(code_name(code) =~= s);
}

/// Spelling the code of a name and coding the characters gives the code back.
pub proof fn lemma_code_name_round_trip(code: u32)
    requires
        is_name_code(code),
    ensures
        is_name(code_name(code)),
        name_code(code_name(code)) == code,
{
    let s = code_name(code);
    lemma_slots_pack(code);
    assert forall|i: int| 0 <= i < s.len() implies is_name_char(#[trigger] s[i]) && slot(s, i)
        == code_slot(code, i) by {
        assert(1 <= code_slot(code, i) <= 31);
    }
    assert(forall|i: int| s.len() <= i < 4 ==> slot(s, i) == 0 && code_slot(code, i) == 0);
    assert(slot(s, 0) == code_slot(code, 0));
    assert(slot(s, 1) == code_slot(code, 1));
    assert(slot(s, 2) == code_slot(code, 2));
    assert(slot(s, 3) == code_slot(code, 3));
}

/// A validated name.
#[derive(Clone, Copy, Debug, PartialEq, Eq, Structural)]
pub struct Name {
    code: u32,
}

impl View for Name {
    type V = Seq<char>;

    /// The characters of the name.
    closed spec fn view(&self) -> Seq<char> {
        code_name(self.code)
    }
}

/// Whether `c` may stand in a name.
fn allowed(c: char) -> (r: bool)
    ensures
        r == is_name_char(c),
{
    ('0' <= c && c <= '4') || ('a' <= c && c <= 'z')
}

/// Reads place `i` of a candidate of `len` characters: its code, 0 past the
/// end, or nothing where the character there is not allowed.
fn read_slot(candidate: &str, len: usize, i: usize) -> (r: Option<u32>)
    requires
        len == candidate@.len(),
    ensures
        r == if i < len && !is_name_char(candidate@[i as int]) {
            None
        } else {
            Some(slot(candidate@, i as int))
        },
{
    if i < len {
        let c: char = candidate.get_char(i);
        if !allowed(c) {
            None
        } else if c <= '4' {
            Some(c as u32 - 47)
        } else {
            Some(c as u32 - 91)
        }
    } else {
        Some(0)
    }
}

impl Name {
    #[verifier::type_invariant]
    spec fn well_formed(self) -> bool {
        is_name_code(self.code)
    }

    /// Checks a candidate and makes a name of it.
    ///
    /// Fails with `InvalidLength` when the candidate is empty or longer than
    /// four characters, and with `InvalidCharacter` when its length is
    /// acceptable and one of its characters is not.
    pub fn validate(candidate: &str) -> (r: Result<Name, TnidError>)
        ensures
            match r {
                Ok(name) => is_name(candidate@) && name@ == candidate@,
                Err(e) => !is_name(candidate@) && e == if candidate@.len() == 0 || candidate@.len()
                    > 4 {
                    TnidError::InvalidLength
                } else {
                    TnidError::InvalidCharacter
                },
            },
    {
        let len: usize = candidate.unicode_len();
        if len == 0 || len > 4 {
            return Err(TnidError::InvalidLength);
        }
        let (s0, s1, s2, s3) = match (
            read_slot(candidate, len, 0),
            read_slot(candidate, len, 1),
            read_slot(candidate, len, 2),
            read_slot(candidate, len, 3),
        ) {
            (Some(s0), Some(s1), Some(s2), Some(s3)) => (s0, s1, s2, s3),
            _ => {
                return Err(TnidError::InvalidCharacter);
            },
        };
        proof {
            assert(is_name(candidate@));
            assert forall|i: int| 0 <= i < 4 implies #[trigger] slot(candidate@, i) <= 31 by {
                if i < candidate@.len() {
                    assert(is_name_char(candidate@[i]));
                }
            }
            lemma_name_code_round_trip(candidate@);
        }
        let code: u32 = (s0 << 15) | (s1 << 10) | (s2 << 5) | s3;
        Ok(Name { code })
    }

    /// The 20-bit code of the name.
    pub fn code(&self) -> (code: u32)
        ensures
            code == name_code(self@),
            is_name_code(code),
            is_name(self@),
    {
        proof {
            use_type_invariant(self);
            lemma_code_name_round_trip(self.code);
        }
        self.code
    }

    /// The name that the code of a name spells.
    pub(crate) fn of_name_code(code: u32) -> (name: Name)
        requires
            is_name_code(code),
        ensures
            name@ == code_name(code),
    {
        Name { code }
    }

    /// The name that a 20-bit code spells, where it spells one.
    pub fn from_code(code: u32) -> (r: Option<Name>)
        ensures
            match r {
                Some(name) => is_name_code(code) && name@ == code_name(code),
                None => !is_name_code(code),
            },
    {
        if code >= 0x10_0000 {
            return None;
        }
        let s0: u32 = (code >> 15) & 31;
        let s1: u32 = (code >> 10) & 31;
        let s2: u32 = (code >> 5) & 31;
        let s3: u32 = code & 31;
        if s0 == 0 || (s1 == 0 && s2 != 0) || (s2 == 0 && s3 != 0) {
            None
        } else {
            Some(Name { code })
        }
    }

    /// The characters of the name as a string.
    pub fn text(&self) -> (text: String)
        ensures
            text@ == self@,
            is_name(self@),
    {
        proof {
            use_type_invariant(self);
            lemma_code_name_round_trip(self.code);
        }
        let mut text = String::new();
        append_code_name(&mut text, self.code);
        text
    }
}

/// The character with five-bit code `v`.
fn symbol(v: u32) -> (c: char)
    requires
        1 <= v <= 31,
    ensures
        c == code_symbol(v),
{
    if v <= 5 {
        ((v + 47) as u8) as char
    } else {
        ((v + 91) as u8) as char
    }
}

/// Adds the characters that `code` spells to the end of `text`.
pub(crate) fn append_code_name(text: &mut String, code: u32)
    requires
        is_name_code(code),
    ensures
        final(text)@ == old(text)@ + code_name(code),
{
    let s0: u32 = (code >> 15) & 31;
    let s1: u32 = (code >> 10) & 31;
    let s2: u32 = (code >> 5) & 31;
    let s3: u32 = code & 31;
    proof {
        lemma_slots_pack(code);
        assert(code_slot(code, 0) <= 31 && code_slot(code, 1) <= 31 && code_slot(code, 2) <= 31
            && code_slot(code, 3) <= 31);
    }
    push_char(text, symbol(s0));
    if s1 != 0 {
        push_char(text, symbol(s1));
        if s2 != 0 {
            push_char(text, symbol(s2));
            if s3 != 0 {
                push_char(text, symbol(s3));
            }
        }
    }
    assert(final(text)@ =~= old(text)@ + code_name(code));
}

} // verus!
