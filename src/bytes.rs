//! Opaque byte blobs: compact length prefix (length + 1), then the raw bytes.
use vstd::prelude::*;

use crate::integers::fixed_at;
use crate::pair::cat;
use crate::varint::{
    decode_unsigned_varint, lemma_uvarint_decode_round_trip, lemma_uvarint_len, uvarint_bytes,
    uvarint_decode, uvarint_len, uvarint_width,
};
use crate::varint::UVarint;
use crate::{lemma_prefix_at_cat, prefix_at, Codec, Decode, Encode, Offset, Size};

verus! {

/// A blob and its length prefix.
#[derive(Debug)]
pub struct ByteBuf(pub Vec<u8>, pub UVarint);

impl ByteBuf {
    /// The empty blob.
    pub fn empty() -> (r: Self)
        ensures
            r.0@ == Seq::<u8>::empty(),
            r.wf(),
    {
        ByteBuf(Vec::new(), UVarint(1, 1))
    }

    /// Wraps raw bytes (a log segment read whole) as a blob.
    pub fn from_raw(data: Vec<u8>) -> (r: Self)
        requires
            data@.len() < u64::MAX,
        ensures
            r.0@ == data@,
            r.wf(),
    {
        let n = data.len() as u64;
        let w = uvarint_width(n + 1);
        ByteBuf(data, UVarint::new(n, w))
    }
}

impl Encode for ByteBuf {
    open spec fn wf(&self) -> bool {
        &&& self.1.0 == self.0@.len() + 1
        &&& self.1.wf()
    }

    open spec fn spec_encode(&self) -> Seq<u8> {
        uvarint_bytes(self.1.0 as nat) + self.0@
    }

    fn encode(&self) -> (r: Vec<u8>) {
        cat(self.1.encode(), vstd::slice::slice_to_vec(self.0.as_slice()))
    }
}

impl Decode for ByteBuf {
    type Model = Seq<u8>;

    open spec fn model(&self) -> Seq<u8> {
        self.0@
    }

    /// A prefix of 0 marks an absent blob and reads as empty.
    open spec fn spec_decode(s: Seq<u8>, pos: int) -> Option<(Seq<u8>, int)> {
        match uvarint_decode(s, pos) {
            Some((n, p)) => if n == 0 {
                Some((Seq::empty(), p))
            } else if fixed_at(s, p, n - 1) {
                Some((s.subrange(p, p + n - 1), p + n - 1))
            } else {
                None
            },
            None => None,
        }
    }

    fn decode(bytes: &[u8], offset: &mut usize) -> (r: Option<Self>) {
        match decode_unsigned_varint(bytes, offset) {
            Some((n, w)) => {
                if n == 0 {
                    return Some(ByteBuf(Vec::new(), UVarint(n, w)));
                }
                let len = bytes.len();
                if *offset > len || n - 1 > (len - *offset) as u64 {
                    return None;
                }
                let start = *offset;
                let end = start + (n - 1) as usize;
                let data = vstd::slice::slice_to_vec(vstd::slice::slice_subrange(bytes, start, end));
                *offset = end;
                Some(ByteBuf(data, UVarint(n, w)))
            },
            None => None,
        }
    }
}

impl Codec for ByteBuf {
    proof fn lemma_round_trip(&self, s: Seq<u8>, pos: int) {
        lemma_prefix_at_cat(s, pos, uvarint_bytes(self.1.0 as nat), self.0@);
        lemma_uvarint_decode_round_trip(s, pos, self.1.0);
    }
}

impl Size for ByteBuf {
    fn size_in_bytes(&self) -> (r: usize) {
        proof {
            lemma_uvarint_len(self.1.0 as nat);
        }
        self.1.1.saturating_add(self.0.len())
    }
}

impl Offset for ByteBuf {
    open spec fn spec_size(&self) -> nat {
        (self.1.1 + self.0@.len()) as nat
    }

    fn size(&self) -> (r: usize) {
        self.1.1 + self.0.len()
    }
}

} // verus!
