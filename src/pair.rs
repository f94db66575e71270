//! Sequential composition: a pair is its first part followed by its second.
//! Every record-like type is encoded as its fields in declared order, which is
//! the left-nested tuple of those fields.
use vstd::prelude::*;

use crate::{lemma_prefix_at_cat, Codec, Decode, Encode, Size};

verus! {

/// `v` followed by `w`.
pub fn cat(v: Vec<u8>, w: Vec<u8>) -> (r: Vec<u8>)
    ensures
        r@ == v@ + w@,
{
    let mut v = v;
    let mut w = w;
    v.append(&mut w);
    v
}

impl<A: Encode, B: Encode> Encode for (A, B) {
    open spec fn wf(&self) -> bool {
        self.0.wf() && self.1.wf()
    }

    open spec fn spec_encode(&self) -> Seq<u8> {
        self.0.spec_encode() + self.1.spec_encode()
    }

    fn encode(&self) -> (r: Vec<u8>) {
        cat(self.0.encode(), self.1.encode())
    }
}

impl<A: Decode, B: Decode> Decode for (A, B) {
    type Model = (A::Model, B::Model);

    open spec fn model(&self) -> (A::Model, B::Model) {
        (self.0.model(), self.1.model())
    }

    open spec fn spec_decode(s: Seq<u8>, pos: int) -> Option<((A::Model, B::Model), int)> {
        match A::spec_decode(s, pos) {
            Some((a, p)) => match B::spec_decode(s, p) {
                Some((b, q)) => Some(((a, b), q)),
                None => None,
            },
            None => None,
        }
    }

    fn decode(bytes: &[u8], offset: &mut usize) -> (r: Option<Self>) {
        match A::decode(bytes, offset) {
            Some(a) => match B::decode(bytes, offset) {
                Some(b) => Some((a, b)),
                None => None,
            },
            None => None,
        }
    }
}

impl<A: Codec, B: Codec> Codec for (A, B) {
    proof fn lemma_round_trip(&self, s: Seq<u8>, pos: int) {
        lemma_prefix_at_cat(s, pos, self.0.spec_encode(), self.1.spec_encode());
        self.0.lemma_round_trip(s, pos);
        self.1.lemma_round_trip(s, pos + self.0.spec_encode().len());
    }
}

impl<A: Size, B: Size> Size for (A, B) {
    fn size_in_bytes(&self) -> (r: usize) {
        self.0.size_in_bytes().saturating_add(self.1.size_in_bytes())
    }
}

} // verus!
