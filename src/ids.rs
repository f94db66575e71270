//! Topic identifiers: exactly 16 raw bytes on the wire, no length framing.
use vstd::prelude::*;

use crate::integers::fixed_at;
use crate::{Codec, Decode, Encode, Offset, Size};

verus! {

/// A 16-byte identifier.
#[derive(Debug, Clone, Copy)]
pub struct UUID(pub [u8; 16]);

/// Lower-case hexadecimal digit of `n` (`n < 16`).
pub open spec fn hex_digit(n: nat) -> char {
    if n < 10 {
        (n + 48) as char
    } else {
        (n + 87) as char
    }
}

/// Two lower-case hexadecimal digits per byte, high nibble first.
pub open spec fn hex_of(b: Seq<u8>) -> Seq<char>
    decreases b.len(),
{
    if b.len() == 0 {
        Seq::empty()
    } else {
        hex_of(b.drop_last()) + seq![hex_digit(b.last() as nat / 16), hex_digit(b.last() as nat % 16)]
    }
}

/// The hyphenated 8-4-4-4-12 text form of 16 bytes.
pub open spec fn hyphenated_text(b: Seq<u8>) -> Seq<char> {
    hex_of(b.subrange(0, 4)) + seq!['-'] + hex_of(b.subrange(4, 6)) + seq!['-'] + hex_of(
        b.subrange(6, 8),
    ) + seq!['-'] + hex_of(b.subrange(8, 10)) + seq!['-'] + hex_of(b.subrange(10, 16))
}

/// Relies on `uuid::Uuid::from_bytes` and the `Display` of `uuid::Uuid`, which
/// writes the bytes in order as lower-case hex, hyphenated 8-4-4-4-12.
#[verifier::external_body]
fn uuid_text(b: [u8; 16]) -> (r: String)
    ensures
        r@ == hyphenated_text(b@),
{
    ::uuid::Uuid::from_bytes(b).to_string()
}

impl UUID {
    /// The all-zero identifier.
    pub fn zero() -> (r: Self)
        ensures
            r.0@ == Seq::new(16, |i: int| 0u8),
    {
        let r = UUID([0u8; 16]);
        assert(r.0@ =~= Seq::new(16, |i: int| 0u8));
        r
    }

    /// Hyphenated lower-case text form, e.g. `00000000-0000-4000-8000-000000000091`.
    pub fn to_string(&self) -> (r: String)
        ensures
            r@ == hyphenated_text(self.0@),
    {
        uuid_text(self.0)
    }

    /// Whether both identifiers hold the same bytes.
    pub fn same_as(&self, other: &UUID) -> (r: bool)
        ensures
            r == (self.0@ == other.0@),
    {
        let mut i: usize = 0;
        while i < 16
            invariant
                i <= 16,
                forall|j: int| 0 <= j < i ==> self.0@[j] == other.0@[j],
            decreases 16 - i,
        {
            if self.0[i] != other.0[i] {
                return false;
            }
            i = i + 1;
        }
        assert(self.0@ =~= other.0@);
        true
    }
}

impl Encode for UUID {
    open spec fn wf(&self) -> bool {
        true
    }

    open spec fn spec_encode(&self) -> Seq<u8> {
        self.0@
    }

    fn encode(&self) -> (r: Vec<u8>) {
        vstd::slice::slice_to_vec(vstd::array::array_as_slice(&self.0))
    }
}

impl Decode for UUID {
    type Model = Seq<u8>;

    open spec fn model(&self) -> Seq<u8> {
        self.0@
    }

    open spec fn spec_decode(s: Seq<u8>, pos: int) -> Option<(Seq<u8>, int)> {
        if fixed_at(s, pos, 16) {
            Some((s.subrange(pos, pos + 16), pos + 16))
        } else {
            None
        }
    }

    fn decode(bytes: &[u8], offset: &mut usize) -> (r: Option<Self>) {
        let len = bytes.len();
        if *offset > len || 16 > len - *offset {
            return None;
        }
        let start = *offset;
        let mut a = [0u8; 16];
        let mut i: usize = 0;
        while i < 16
            invariant
                i <= 16,
                start + 16 <= bytes@.len(),
                forall|j: int| 0 <= j < i ==> a@[j] == bytes@[start + j],
            decreases 16 - i,
        {
            a[i] = bytes[start + i];
            i = i + 1;
        }
        assert(a@ =~= bytes@.subrange(start as int, start + 16));
        *offset = start + 16;
        Some(UUID(a))
    }
}

impl Codec for UUID {
    proof fn lemma_round_trip(&self, s: Seq<u8>, pos: int) {
    }
}

impl Size for UUID {
    fn size_in_bytes(&self) -> (r: usize) {
        16
    }
}

impl Offset for UUID {
    open spec fn spec_size(&self) -> nat {
        16
    }

    fn size(&self) -> (r: usize) {
        16
    }
}

} // verus!
