//! The four kinds of identifier.

use vstd::prelude::*;

verus! {

/// How the payload of an identifier was made.
#[derive(Clone, Copy, Debug, PartialEq, Eq, Structural)]
pub enum Variant {
    /// Time-ordered: a millisecond timestamp, then random bits.
    V0,
    /// High-entropy: random bits only.
    V1,
    /// Reserved.
    V2,
    /// Reserved.
    V3,
}

impl Variant {
    /// The two-bit tag that stands for the variant inside a payload.
    pub open spec fn tag(self) -> u128 {
        match self {
            Variant::V0 => 0,
            Variant::V1 => 1,
            Variant::V2 => 2,
            Variant::V3 => 3,
        }
    }

    /// The variant that a two-bit tag stands for.
    pub open spec fn of_tag(tag: u128) -> Variant {
        if tag == 0 {
            Variant::V0
        } else if tag == 1 {
            Variant::V1
        } else if tag == 2 {
            Variant::V2
        } else {
            Variant::V3
        }
    }

    /// The label of the variant: `v0`, `v1`, `v2` or `v3`.
    pub open spec fn label_text(self) -> Seq<char> {
        match self {
            Variant::V0 => seq!['v', '0'],
            Variant::V1 => seq!['v', '1'],
            Variant::V2 => seq!['v', '2'],
            Variant::V3 => seq!['v', '3'],
        }
    }

    /// The label of the variant as text.
    pub fn label(&self) -> (text: &'static str)
        ensures
            text@ == self.label_text(),
    {
        proof {
            reveal_strlit("v0");
            reveal_strlit("v1");
            reveal_strlit("v2");
            reveal_strlit("v3");
        }
        let text = match self {
            Variant::V0 => "v0",
            Variant::V1 => "v1",
            Variant::V2 => "v2",
            Variant::V3 => "v3",
        };
        assert(text@ =~= self.label_text());
        text
    }
}

} // verus!
