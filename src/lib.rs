//! Server-side codec and request handling for a subset of the Kafka wire
//! protocol, together with the on-disk log-segment format it reads from.
//!
//! Every wire type implements [`Encode`] / [`Decode`]: the byte image of a value
//! is `spec_encode`, and decoding is specified by `spec_decode`, a parser over
//! the whole input and a start position that yields the decoded value's model
//! and the position just past it.
use vstd::prelude::*;

pub mod integers;
pub mod varint;
pub mod pair;
pub mod strings;
pub mod array;
pub mod bytes;
pub mod ids;
pub mod log;
pub mod metadata;
pub mod protocol;
pub mod handlers;

verus! {

/// `e` occurs in `s` starting at `pos`.
pub open spec fn prefix_at(s: Seq<u8>, pos: int, e: Seq<u8>) -> bool {
    &&& 0 <= pos
    &&& pos + e.len() <= s.len()
    &&& s.subrange(pos, pos + e.len()) == e
}

/// An occurrence of `x + y` is an occurrence of `x` followed by one of `y`.
pub proof fn lemma_prefix_at_cat(s: Seq<u8>, pos: int, x: Seq<u8>, y: Seq<u8>)
    requires
        prefix_at(s, pos, x + y),
    ensures
        prefix_at(s, pos, x),
        prefix_at(s, pos + x.len(), y),
{
    assert(s.subrange(pos, pos + x.len()) =~= (x + y).subrange(0, x.len() as int));
    assert((x + y).subrange(0, x.len() as int) =~= x);
    assert(s.subrange(pos + x.len(), pos + x.len() + y.len()) =~= (x + y).subrange(
        x.len() as int,
        (x + y).len() as int,
    ));
    assert((x + y).subrange(x.len() as int, (x + y).len() as int) =~= y);
}

/// Serialisation to the wire.
pub trait Encode {
    /// The values that have a wire image (lengths fit their prefixes, and so on).
    spec fn wf(&self) -> bool;

    /// The exact bytes this value occupies on the wire.
    spec fn spec_encode(&self) -> Seq<u8>;

    fn encode(&self) -> (r: Vec<u8>)
        requires
            self.wf(),
        ensures
            r@ == self.spec_encode(),
    ;
}

/// Deserialisation from the wire.
pub trait Decode: Sized {
    /// What a decoded value is, independent of its Rust representation.
    type Model;

    spec fn model(&self) -> Self::Model;

    /// Parses `s` from `pos`: the model of the value found there and the
    /// position just past it, or `None` where the input is truncated or malformed.
    spec fn spec_decode(s: Seq<u8>, pos: int) -> Option<(Self::Model, int)>;

    /// Decodes one value at `*offset` and advances `*offset` past it.
    /// `None` is a hard failure: the input must not be decoded further.
    fn decode(bytes: &[u8], offset: &mut usize) -> (r: Option<Self>)
        ensures
            match Self::spec_decode(bytes@, *old(offset) as int) {
                Some((m, p)) => r is Some && r->0.model() == m && *final(offset) as int == p,
                None => r is None,
            },
    ;
}

/// Types whose decoder reads back exactly what the encoder writes.
pub trait Codec: Encode + Decode {
    /// Decoding the encoding of a well-formed value, wherever it stands in a
    /// larger input, gives that value back and stops right after it.
    proof fn lemma_round_trip(&self, s: Seq<u8>, pos: int)
        requires
            self.wf(),
            prefix_at(s, pos, self.spec_encode()),
        ensures
            Self::spec_decode(s, pos) == Some((self.model(), pos + self.spec_encode().len())),
    ;
}

/// Decoding the encoding of any well-formed value of a wire type, followed by
/// any further bytes, gives that value back and consumes exactly its encoding.
pub proof fn law_decode_encode<T: Codec>(v: T, rest: Seq<u8>)
    requires
        v.wf(),
    ensures
        T::spec_decode(v.spec_encode() + rest, 0) == Some(
            (v.model(), v.spec_encode().len() as int),
        ),
{
    let s = v.spec_encode() + rest;
    assert(s.subrange(0, v.spec_encode().len() as int) =~= v.spec_encode());
    v.lemma_round_trip(s, 0);
}

/// `n`, or `usize::MAX` where `n` does not fit.
pub open spec fn capped(n: nat) -> nat {
    if n <= usize::MAX {
        n
    } else {
        usize::MAX as nat
    }
}

/// The number of bytes of a value's encoding, computed without encoding it.
/// A length beyond `usize::MAX` is reported as `usize::MAX`.
pub trait Size: Encode {
    fn size_in_bytes(&self) -> (r: usize)
        requires
            self.wf(),
        ensures
            r as nat == capped(self.spec_encode().len()),
    ;
}

/// Count-like measure of a value: the element count of an array, the byte
/// length of the encoding otherwise.
pub trait Offset {
    spec fn spec_size(&self) -> nat;

    fn size(&self) -> (r: usize)
        requires
            self.spec_size() <= usize::MAX,
        ensures
            r == self.spec_size(),
    ;
}

} // verus!
