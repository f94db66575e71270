//! Strings: the legacy form (two-byte length) and the compact form (unsigned
//! varint holding length + 1). Both carry raw UTF-8 bytes.
use vstd::prelude::*;
use vstd::utf8::{decode_utf8, encode_utf8, valid_utf8};

use crate::integers::{be_at, be_bytes, fixed_at, signed_i16};
use crate::varint::{
    decode_signed_varint, encode_signed_varint, varint_decode, zigzag,
    encode_unsigned_varint, lemma_uvarint_decode_round_trip, lemma_uvarint_len, uvarint_bytes,
    uvarint_decode, uvarint_len, decode_unsigned_varint,
};
use crate::{lemma_prefix_at_cat, prefix_at, Codec, Decode, Encode, Offset, Size};

verus! {

broadcast use {vstd::utf8::encode_utf8_valid_utf8, vstd::utf8::encode_utf8_decode_utf8, vstd::utf8::decode_utf8_encode_utf8};

/// Relies on `String::from_utf8`: it accepts exactly the valid UTF-8 byte
/// strings, and the string it returns holds the characters they encode.
#[verifier::external_body]
fn string_from_utf8(b: Vec<u8>) -> (r: Option<String>)
    ensures
        match r {
            Some(s) => valid_utf8(b@) && s@ == decode_utf8(b@),
            None => !valid_utf8(b@),
        },
{
    String::from_utf8(b).ok()
}

/// The UTF-8 bytes of `s`.
pub open spec fn utf8_of(s: Seq<char>) -> Seq<u8> {
    encode_utf8(s)
}

/// Byte length of the UTF-8 form of `s`.
pub fn utf8_len(s: &String) -> (r: usize)
    ensures
        r == utf8_of(s@).len(),
{
    string_bytes(s).len()
}

fn string_bytes(s: &String) -> (r: Vec<u8>)
    ensures
        r@ == utf8_of(s@),
{
    vstd::slice::slice_to_vec(s.as_str().as_bytes())
}

/// `n` bytes at `pos` that form valid UTF-8: the characters they encode.
pub open spec fn utf8_at(s: Seq<u8>, pos: int, n: int) -> Option<(Seq<char>, int)> {
    if 0 <= n && fixed_at(s, pos, n) && valid_utf8(s.subrange(pos, pos + n)) {
        Some((decode_utf8(s.subrange(pos, pos + n)), pos + n))
    } else {
        None
    }
}

/// Reads `n` bytes at `*offset` as UTF-8 text and advances past them.
fn read_utf8(bytes: &[u8], offset: &mut usize, n: usize) -> (r: Option<String>)
    ensures
        match utf8_at(bytes@, *old(offset) as int, n as int) {
            Some((c, p)) => r is Some && r->0@ == c && *final(offset) as int == p,
            None => r is None,
        },
{
    let len = bytes.len();
    if *offset > len || n > len - *offset {
        return None;
    }
    let start = *offset;
    let raw = vstd::slice::slice_to_vec(vstd::slice::slice_subrange(bytes, start, start + n));
    match string_from_utf8(raw) {
        Some(s) => {
            *offset = start + n;
            Some(s)
        },
        None => None,
    }
}

proof fn lemma_utf8_round_trip(s: Seq<u8>, pos: int, c: Seq<char>)
    requires
        prefix_at(s, pos, utf8_of(c)),
    ensures
        utf8_at(s, pos, utf8_of(c).len() as int) == Some((c, pos + utf8_of(c).len())),
{
}

// ------------------------------------------------------------------ String

/// Legacy string: a big-endian `i16` byte length, then the bytes.
impl Encode for String {
    open spec fn wf(&self) -> bool {
        utf8_of(self@).len() <= 0x7FFF
    }

    open spec fn spec_encode(&self) -> Seq<u8> {
        be_bytes(utf8_of(self@).len(), 2) + utf8_of(self@)
    }

    fn encode(&self) -> (r: Vec<u8>) {
        let b = string_bytes(self);
        proof {
            reveal_with_fuel(crate::integers::pow256, 3);
            crate::integers::lemma_be_round_trip(b@.len(), 2);
        }
        let n = b.len() as i16;
        crate::pair::cat(n.encode(), b)
    }
}

impl Decode for String {
    type Model = Seq<char>;

    open spec fn model(&self) -> Seq<char> {
        self@
    }

    open spec fn spec_decode(s: Seq<u8>, pos: int) -> Option<(Seq<char>, int)> {
        if fixed_at(s, pos, 2) {
            utf8_at(s, pos + 2, signed_i16(be_at(s, pos, 2)) as int)
        } else {
            None
        }
    }

    fn decode(bytes: &[u8], offset: &mut usize) -> (r: Option<Self>) {
        match i16::decode(bytes, offset) {
            Some(n) => if n < 0 {
                None
            } else {
                read_utf8(bytes, offset, n as usize)
            },
            None => None,
        }
    }
}

impl Codec for String {
    proof fn lemma_round_trip(&self, s: Seq<u8>, pos: int) {
        let b = utf8_of(self@);
        let n = b.len() as i16;
        reveal_with_fuel(crate::integers::pow256, 3);
        crate::integers::lemma_be_round_trip(b.len(), 2);
        lemma_prefix_at_cat(s, pos, be_bytes(b.len(), 2), b);
        n.lemma_round_trip(s, pos);
        lemma_utf8_round_trip(s, pos + 2, self@);
    }
}

impl Size for String {
    fn size_in_bytes(&self) -> (r: usize) {
        proof {
            reveal_with_fuel(crate::integers::pow256, 3);
            crate::integers::lemma_be_round_trip(utf8_of(self@).len(), 2);
        }
        self.as_str().len().saturating_add(2)
    }
}

impl Offset for String {
    open spec fn spec_size(&self) -> nat {
        utf8_of(self@).len() + 2
    }

    fn size(&self) -> (r: usize) {
        self.as_str().len() + 2
    }
}

// ------------------------------------------------------------------ CString

/// Compact string: an unsigned varint holding the byte length plus one, then
/// the bytes. The second field is the width of that prefix.
#[derive(Debug, PartialEq)]
pub struct CString(pub String, pub usize);

impl CString {
    /// A compact string holding `s`, with the width of its prefix computed.
    pub fn from_string(s: String) -> (r: Self)
        requires
            utf8_of(s@).len() < usize::MAX,
        ensures
            r.0@ == s@,
            r.wf(),
    {
        let n = utf8_len(&s);
        let w = crate::varint::unsigned_varint_bytes_wide(n + 1);
        CString(s, w)
    }
}

impl Encode for CString {
    open spec fn wf(&self) -> bool {
        &&& utf8_of(self.0@).len() < usize::MAX
        &&& self.1 == uvarint_len(utf8_of(self.0@).len() + 1)
    }

    open spec fn spec_encode(&self) -> Seq<u8> {
        uvarint_bytes(utf8_of(self.0@).len() + 1) + utf8_of(self.0@)
    }

    fn encode(&self) -> (r: Vec<u8>) {
        let b = string_bytes(&self.0);
        let n = b.len() as u64 + 1;
        crate::pair::cat(encode_unsigned_varint(n), b)
    }
}

impl Decode for CString {
    /// The characters, and the width of the length prefix as read.
    type Model = (Seq<char>, usize);

    open spec fn model(&self) -> (Seq<char>, usize) {
        (self.0@, self.1)
    }

    open spec fn spec_decode(s: Seq<u8>, pos: int) -> Option<((Seq<char>, usize), int)> {
        match uvarint_decode(s, pos) {
            Some((n, p)) => if n == 0 {
                None
            } else {
                match utf8_at(s, p, n - 1) {
                    Some((c, q)) => Some(((c, (p - pos) as usize), q)),
                    None => None,
                }
            },
            None => None,
        }
    }

    fn decode(bytes: &[u8], offset: &mut usize) -> (r: Option<Self>) {
        match decode_unsigned_varint(bytes, offset) {
            Some((n, w)) => if n == 0 || n - 1 > bytes.len() as u64 {
                None
            } else {
                match read_utf8(bytes, offset, (n - 1) as usize) {
                    Some(s) => Some(CString(s, w)),
                    None => None,
                }
            },
            None => None,
        }
    }
}

impl Codec for CString {
    proof fn lemma_round_trip(&self, s: Seq<u8>, pos: int) {
        let b = utf8_of(self.0@);
        let n = (b.len() + 1) as u64;
        lemma_prefix_at_cat(s, pos, uvarint_bytes(n as nat), b);
        lemma_uvarint_decode_round_trip(s, pos, n);
        lemma_uvarint_len(n as nat);
        lemma_utf8_round_trip(s, pos + uvarint_bytes(n as nat).len(), self.0@);
    }
}

impl Size for CString {
    fn size_in_bytes(&self) -> (r: usize) {
        proof {
            lemma_uvarint_len(utf8_of(self.0@).len() + 1);
        }
        let n = self.0.as_str().len();
        assert(n == utf8_of(self.0@).len());
        assert(self.spec_encode().len() == self.1 + n);
        self.1.saturating_add(n)
    }
}

impl Offset for CString {
    open spec fn spec_size(&self) -> nat {
        (self.1 + utf8_of(self.0@).len()) as nat
    }

    fn size(&self) -> (r: usize) {
        self.1 + self.0.as_str().len()
    }
}

// ------------------------------------------------------------------ CSignedString

/// Record-level string: a signed varint byte length (no bias), then the
/// bytes. A negative length marks an absent value and reads as empty.
#[derive(Debug, PartialEq)]
pub struct CSignedString(pub String);

impl Encode for CSignedString {
    open spec fn wf(&self) -> bool {
        utf8_of(self.0@).len() <= i64::MAX && utf8_of(self.0@).len() <= usize::MAX
    }

    open spec fn spec_encode(&self) -> Seq<u8> {
        uvarint_bytes(zigzag(utf8_of(self.0@).len() as int)) + utf8_of(self.0@)
    }

    fn encode(&self) -> (r: Vec<u8>) {
        let b = string_bytes(&self.0);
        crate::pair::cat(encode_signed_varint(b.len() as i64), b)
    }
}

impl Decode for CSignedString {
    type Model = Seq<char>;

    open spec fn model(&self) -> Seq<char> {
        self.0@
    }

    open spec fn spec_decode(s: Seq<u8>, pos: int) -> Option<(Seq<char>, int)> {
        match varint_decode(s, pos) {
            Some((n, p)) => if n < 0 {
                Some((Seq::empty(), p))
            } else {
                utf8_at(s, p, n as int)
            },
            None => None,
        }
    }

    fn decode(bytes: &[u8], offset: &mut usize) -> (r: Option<Self>) {
        match decode_signed_varint(bytes, offset) {
            Some((n, _)) => {
                if n < 0 {
                    return Some(CSignedString(String::new()));
                }
                if n as u64 > bytes.len() as u64 {
                    return None;
                }
                match read_utf8(bytes, offset, n as usize) {
                    Some(v) => Some(CSignedString(v)),
                    None => None,
                }
            },
            None => None,
        }
    }
}

impl Codec for CSignedString {
    proof fn lemma_round_trip(&self, s: Seq<u8>, pos: int) {
        let b = utf8_of(self.0@);
        let z = zigzag(b.len() as int);
        lemma_prefix_at_cat(s, pos, uvarint_bytes(z), b);
        lemma_uvarint_decode_round_trip(s, pos, z as u64);
        lemma_utf8_round_trip(s, pos + uvarint_bytes(z).len(), self.0@);
    }
}

impl Size for CSignedString {
    fn size_in_bytes(&self) -> (r: usize) {
        let n = self.0.as_str().len();
        proof {
            lemma_uvarint_len(zigzag(n as int));
        }
        let w = crate::varint::signed_varint_bytes_wide(n);
        assert(w == uvarint_bytes(zigzag(n as int)).len());
        assert(self.spec_encode().len() == w + n);
        w.saturating_add(n)
    }
}

} // verus!
