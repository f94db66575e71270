//! Arrays. Three count conventions share one element layout (the elements'
//! encodings back to back):
//! - [`CVec`]: unsigned varint holding count + 1; 0 (absent) and 1 both read as empty.
//! - [`CSignedVec`]: signed varint holding the count; zero or negative reads as empty.
//! - `Vec<T>`: big-endian `i32` count; -1 (null) and 0 read as empty.
use vstd::prelude::*;

use crate::integers::{be_at, fixed_at, signed_i32};
use crate::pair::cat;
use crate::varint::{
    decode_signed_varint, decode_unsigned_varint, encode_signed_varint, encode_unsigned_varint,
    lemma_uvarint_decode_round_trip, lemma_uvarint_len, signed_varint_bytes_wide, uvarint_bytes,
    uvarint_decode, uvarint_width, varint_decode, zigzag, zigzag_count,
};
use crate::{capped, lemma_prefix_at_cat, prefix_at, Codec, Decode, Encode, Offset, Size};

verus! {

/// The elements' encodings, back to back.
pub open spec fn seq_encode<T: Encode>(v: Seq<T>) -> Seq<u8>
    decreases v.len(),
{
    if v.len() == 0 {
        Seq::empty()
    } else {
        seq_encode(v.drop_last()) + v.last().spec_encode()
    }
}

pub open spec fn all_wf<T: Encode>(v: Seq<T>) -> bool {
    forall|i: int| 0 <= i < v.len() ==> #[trigger] v[i].wf()
}

pub open spec fn models<T: Decode>(v: Seq<T>) -> Seq<T::Model> {
    v.map_values(|x: T| x.model())
}

/// `n` elements read one after the other from `pos`.
pub open spec fn seq_decode<T: Decode>(s: Seq<u8>, pos: int, n: nat) -> Option<(Seq<T::Model>, int)>
    decreases n,
{
    if n == 0 {
        Some((Seq::empty(), pos))
    } else {
        match seq_decode::<T>(s, pos, (n - 1) as nat) {
            Some((ms, p)) => match T::spec_decode(s, p) {
                Some((m, q)) => Some((ms.push(m), q)),
                None => None,
            },
            None => None,
        }
    }
}

pub proof fn lemma_seq_round_trip<T: Codec>(v: Seq<T>, s: Seq<u8>, pos: int)
    requires
        all_wf(v),
        prefix_at(s, pos, seq_encode(v)),
    ensures
        seq_decode::<T>(s, pos, v.len()) == Some((models(v), pos + seq_encode(v).len())),
    decreases v.len(),
{
    if v.len() > 0 {
        let init = v.drop_last();
        lemma_prefix_at_cat(s, pos, seq_encode(init), v.last().spec_encode());
        assert(all_wf(init)) by {
            assert forall|i: int| 0 <= i < init.len() implies #[trigger] init[i].wf() by {
                assert(init[i] == v[i]);
            }
        }
        lemma_seq_round_trip(init, s, pos);
        assert(v.last().wf()) by {
            assert(v[v.len() - 1].wf());
        }
        v.last().lemma_round_trip(s, pos + seq_encode(init).len());
        assert(models(init).push(v.last().model()) =~= models(v));
    } else {
        assert(models(v) =~= Seq::<T::Model>::empty());
    }
}

/// The elements' encodings, read from the front.
pub proof fn lemma_seq_encode_first<T: Encode>(v: Seq<T>)
    requires
        v.len() > 0,
    ensures
        seq_encode(v) == v[0].spec_encode() + seq_encode(v.drop_first()),
    decreases v.len(),
{
    if v.len() == 1 {
        assert(v.drop_last() =~= Seq::<T>::empty());
        assert(v.drop_first() =~= Seq::<T>::empty());
        assert(seq_encode(v) =~= v[0].spec_encode() + seq_encode(v.drop_first()));
    } else {
        let init = v.drop_last();
        lemma_seq_encode_first(init);
        assert(v.drop_first().drop_last() =~= init.drop_first());
        assert(init[0] == v[0]);
        assert(v.drop_first().last() == v.last());
        assert(seq_encode(v) =~= v[0].spec_encode() + seq_encode(v.drop_first()));
    }
}

pub fn encode_elems<T: Encode>(v: &Vec<T>) -> (r: Vec<u8>)
    requires
        all_wf(v@),
    ensures
        r@ == seq_encode(v@),
{
    let mut out: Vec<u8> = Vec::new();
    let mut i: usize = 0;
    assert(v@.subrange(0, 0) =~= Seq::<T>::empty());
    while i < v.len()
        invariant
            i <= v@.len(),
            all_wf(v@),
            out@ == seq_encode(v@.subrange(0, i as int)),
        decreases v@.len() - i,
    {
        assert(v@[i as int].wf());
        let e = v[i].encode();
        out = cat(out, e);
        assert(v@.subrange(0, i + 1).drop_last() =~= v@.subrange(0, i as int));
        i = i + 1;
    }
    assert(v@.subrange(0, i as int) =~= v@);
    out
}

pub fn size_elems<T: Size>(v: &Vec<T>) -> (r: usize)
    requires
        all_wf(v@),
    ensures
        r as nat == capped(seq_encode(v@).len()),
{
    let mut total: usize = 0;
    let mut i: usize = 0;
    assert(v@.subrange(0, 0) =~= Seq::<T>::empty());
    while i < v.len()
        invariant
            i <= v@.len(),
            all_wf(v@),
            total as nat == capped(seq_encode(v@.subrange(0, i as int)).len()),
        decreases v@.len() - i,
    {
        assert(v@.subrange(0, i + 1).drop_last() =~= v@.subrange(0, i as int));
        assert(v@[i as int].wf());
        total = total.saturating_add(v[i].size_in_bytes());
        i = i + 1;
    }
    assert(v@.subrange(0, i as int) =~= v@);
    total
}

fn decode_elems<T: Decode>(bytes: &[u8], offset: &mut usize, n: u64) -> (r: Option<Vec<T>>)
    ensures
        match seq_decode::<T>(bytes@, *old(offset) as int, n as nat) {
            Some((ms, p)) => r is Some && models(r->0@) == ms && *final(offset) as int == p,
            None => r is None,
        },
{
    let mut out: Vec<T> = Vec::new();
    let mut i: u64 = 0;
    assert(models(out@) =~= Seq::<T::Model>::empty());
    while i < n
        invariant
            i <= n,
            seq_decode::<T>(bytes@, *old(offset) as int, i as nat) == Some(
                (models(out@), *offset as int),
            ),
        decreases n - i,
    {
        match T::decode(bytes, offset) {
            Some(x) => {
                let ghost before = out@;
                out.push(x);
                assert(models(out@) =~= models(before).push(x.model()));
            },
            None => {
                proof {
                    lemma_seq_decode_none::<T>(bytes@, *old(offset) as int, (i + 1) as nat, n as nat);
                }
                return None;
            },
        }
        i = i + 1;
    }
    Some(out)
}

/// Once a prefix of the elements fails to decode, so do all longer runs.
proof fn lemma_seq_decode_none<T: Decode>(s: Seq<u8>, pos: int, i: nat, n: nat)
    requires
        i <= n,
        seq_decode::<T>(s, pos, i) is None,
    ensures
        seq_decode::<T>(s, pos, n) is None,
    decreases n - i,
{
    if i < n {
        lemma_seq_decode_none::<T>(s, pos, i + 1, n);
    }
}

// ------------------------------------------------------------------ CVec

/// Compact array: unsigned varint count + 1, then the elements.
#[derive(Debug)]
pub struct CVec<T> {
    pub data: Vec<T>,
}

impl<T> From<Vec<T>> for CVec<T> {
    fn from(vec: Vec<T>) -> (r: CVec<T>) {
        CVec { data: vec }
    }
}

impl<T> vstd::std_specs::convert::FromSpecImpl<Vec<T>> for CVec<T> {
    open spec fn obeys_from_spec() -> bool {
        true
    }

    open spec fn from_spec(v: Vec<T>) -> CVec<T> {
        CVec { data: v }
    }
}

impl<T: Encode> Encode for CVec<T> {
    open spec fn wf(&self) -> bool {
        all_wf(self.data@) && self.data@.len() < u64::MAX
    }

    /// An empty array is written as the absent marker 0.
    open spec fn spec_encode(&self) -> Seq<u8> {
        if self.data@.len() == 0 {
            seq![0u8]
        } else {
            uvarint_bytes(self.data@.len() + 1) + seq_encode(self.data@)
        }
    }

    fn encode(&self) -> (r: Vec<u8>) {
        if self.data.len() == 0 {
            return vec![0];
        }
        cat(encode_unsigned_varint(self.data.len() as u64 + 1), encode_elems(&self.data))
    }
}

impl<T: Decode> Decode for CVec<T> {
    type Model = Seq<T::Model>;

    open spec fn model(&self) -> Seq<T::Model> {
        models(self.data@)
    }

    open spec fn spec_decode(s: Seq<u8>, pos: int) -> Option<(Seq<T::Model>, int)> {
        match uvarint_decode(s, pos) {
            Some((n, p)) => if n == 0 {
                Some((Seq::empty(), p))
            } else {
                seq_decode::<T>(s, p, (n - 1) as nat)
            },
            None => None,
        }
    }

    fn decode(bytes: &[u8], offset: &mut usize) -> (r: Option<Self>) {
        match decode_unsigned_varint(bytes, offset) {
            Some((n, _)) => {
                if n == 0 {
                    let data: Vec<T> = Vec::new();
                    assert(models(data@) =~= Seq::<T::Model>::empty());
                    return Some(CVec { data });
                }
                match decode_elems(bytes, offset, n - 1) {
                    Some(data) => Some(CVec { data }),
                    None => None,
                }
            },
            None => None,
        }
    }
}

impl<T: Codec> Codec for CVec<T> {
    proof fn lemma_round_trip(&self, s: Seq<u8>, pos: int) {
        let len = self.data@.len();
        if len == 0 {
            assert(s.subrange(pos, pos + 1)[0] == s[pos]);
            assert(uvarint_bytes(0) == seq![0u8]);
            lemma_uvarint_decode_round_trip(s, pos, 0);
            assert(models(self.data@) =~= Seq::<T::Model>::empty());
        } else {
            lemma_prefix_at_cat(s, pos, uvarint_bytes(len + 1), seq_encode(self.data@));
            lemma_uvarint_decode_round_trip(s, pos, (len + 1) as u64);
            lemma_seq_round_trip(self.data@, s, pos + uvarint_bytes(len + 1).len());
        }
    }
}

impl<T: Size> Size for CVec<T> {
    fn size_in_bytes(&self) -> (r: usize) {
        let n = self.data.len();
        if n == 0 {
            return 1;
        }
        proof {
            lemma_uvarint_len((n + 1) as nat);
        }
        uvarint_width(n as u64 + 1).saturating_add(size_elems(&self.data))
    }
}

impl<T> Offset for CVec<T> {
    open spec fn spec_size(&self) -> nat {
        self.data@.len()
    }

    fn size(&self) -> (r: usize) {
        self.data.len()
    }
}

// ------------------------------------------------------------------ CSignedVec

/// Signed compact array: signed varint count (no bias), then the elements.
#[derive(Debug)]
pub struct CSignedVec<T> {
    pub data: Vec<T>,
}

impl<T: Encode> Encode for CSignedVec<T> {
    open spec fn wf(&self) -> bool {
        all_wf(self.data@) && self.data@.len() <= i64::MAX
    }

    open spec fn spec_encode(&self) -> Seq<u8> {
        uvarint_bytes(zigzag(self.data@.len() as int)) + seq_encode(self.data@)
    }

    fn encode(&self) -> (r: Vec<u8>) {
        cat(encode_signed_varint(self.data.len() as i64), encode_elems(&self.data))
    }
}

impl<T: Decode> Decode for CSignedVec<T> {
    type Model = Seq<T::Model>;

    open spec fn model(&self) -> Seq<T::Model> {
        models(self.data@)
    }

    open spec fn spec_decode(s: Seq<u8>, pos: int) -> Option<(Seq<T::Model>, int)> {
        match varint_decode(s, pos) {
            Some((n, p)) => if n <= 0 {
                Some((Seq::empty(), p))
            } else {
                seq_decode::<T>(s, p, n as nat)
            },
            None => None,
        }
    }

    fn decode(bytes: &[u8], offset: &mut usize) -> (r: Option<Self>) {
        match decode_signed_varint(bytes, offset) {
            Some((n, _)) => {
                if n <= 0 {
                    let data: Vec<T> = Vec::new();
                    assert(models(data@) =~= Seq::<T::Model>::empty());
                    return Some(CSignedVec { data });
                }
                match decode_elems(bytes, offset, n as u64) {
                    Some(data) => Some(CSignedVec { data }),
                    None => None,
                }
            },
            None => None,
        }
    }
}

impl<T: Codec> Codec for CSignedVec<T> {
    proof fn lemma_round_trip(&self, s: Seq<u8>, pos: int) {
        let len = self.data@.len();
        let z = zigzag(len as int);
        lemma_prefix_at_cat(s, pos, uvarint_bytes(z), seq_encode(self.data@));
        lemma_uvarint_decode_round_trip(s, pos, z as u64);
        lemma_seq_round_trip(self.data@, s, pos + uvarint_bytes(z).len());
        if len == 0 {
            assert(models(self.data@) =~= Seq::<T::Model>::empty());
        }
    }
}

impl<T: Size> Size for CSignedVec<T> {
    fn size_in_bytes(&self) -> (r: usize) {
        proof {
            lemma_uvarint_len(zigzag_count(self.data@.len()));
        }
        signed_varint_bytes_wide(self.data.len()).saturating_add(size_elems(&self.data))
    }
}

impl<T> Offset for CSignedVec<T> {
    open spec fn spec_size(&self) -> nat {
        self.data@.len()
    }

    fn size(&self) -> (r: usize) {
        self.data.len()
    }
}

// ------------------------------------------------------------------ Vec

/// Legacy array: big-endian `i32` count, then the elements. An empty array is
/// written as the null count -1.
impl<T: Encode> Encode for Vec<T> {
    open spec fn wf(&self) -> bool {
        all_wf(self@) && self@.len() <= i32::MAX
    }

    open spec fn spec_encode(&self) -> Seq<u8> {
        if self@.len() == 0 {
            (-1i32).spec_encode()
        } else {
            (self@.len() as i32).spec_encode() + seq_encode(self@)
        }
    }

    fn encode(&self) -> (r: Vec<u8>) {
        if self.len() == 0 {
            return (-1i32).encode();
        }
        cat((self.len() as i32).encode(), encode_elems(self))
    }
}

impl<T: Decode> Decode for Vec<T> {
    type Model = Seq<T::Model>;

    open spec fn model(&self) -> Seq<T::Model> {
        models(self@)
    }

    open spec fn spec_decode(s: Seq<u8>, pos: int) -> Option<(Seq<T::Model>, int)> {
        if fixed_at(s, pos, 4) {
            let n = signed_i32(be_at(s, pos, 4));
            if n <= 0 {
                Some((Seq::empty(), pos + 4))
            } else {
                seq_decode::<T>(s, pos + 4, n as nat)
            }
        } else {
            None
        }
    }

    fn decode(bytes: &[u8], offset: &mut usize) -> (r: Option<Self>) {
        match i32::decode(bytes, offset) {
            Some(n) => {
                if n <= 0 {
                    let data: Vec<T> = Vec::new();
                    assert(models(data@) =~= Seq::<T::Model>::empty());
                    return Some(data);
                }
                decode_elems(bytes, offset, n as u64)
            },
            None => None,
        }
    }
}

impl<T: Codec> Codec for Vec<T> {
    proof fn lemma_round_trip(&self, s: Seq<u8>, pos: int) {
        let len = self@.len();
        if len == 0 {
            (-1i32).lemma_round_trip(s, pos);
            assert(models(self@) =~= Seq::<T::Model>::empty());
        } else {
            let n = len as i32;
            lemma_prefix_at_cat(s, pos, n.spec_encode(), seq_encode(self@));
            n.lemma_round_trip(s, pos);
            lemma_seq_round_trip(self@, s, pos + 4);
        }
    }
}

impl<T: Size> Size for Vec<T> {
    fn size_in_bytes(&self) -> (r: usize) {
        proof {
            crate::integers::lemma_i32_width(-1i32);
            crate::integers::lemma_i32_width(self@.len() as i32);
        }
        if self.len() == 0 {
            return 4;
        }
        4usize.saturating_add(size_elems(self))
    }
}

impl<T> Offset for Vec<T> {
    open spec fn spec_size(&self) -> nat {
        self@.len()
    }

    fn size(&self) -> (r: usize) {
        self.len()
    }
}

} // verus!
