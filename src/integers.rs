//! Fixed-width integers: big-endian, natural width.
use vstd::prelude::*;

use crate::{prefix_at, Codec, Decode, Encode, Offset, Size};

verus! {

pub open spec fn pow256(w: nat) -> nat
    decreases w,
{
    if w == 0 {
        1
    } else {
        256 * pow256((w - 1) as nat)
    }
}

/// The `w` low-order bytes of `n`, most significant first.
pub open spec fn be_bytes(n: nat, w: nat) -> Seq<u8>
    decreases w,
{
    if w == 0 {
        Seq::empty()
    } else {
        be_bytes(n / 256, (w - 1) as nat).push((n % 256) as u8)
    }
}

/// The number that a big-endian byte string denotes.
pub open spec fn be_value(s: Seq<u8>) -> nat
    decreases s.len(),
{
    if s.len() == 0 {
        0
    } else {
        (be_value(s.drop_last()) * 256 + s.last()) as nat
    }
}

pub proof fn lemma_be_value_bound(s: Seq<u8>)
    ensures
        be_value(s) < pow256(s.len()),
    decreases s.len(),
{
    if s.len() > 0 {
        lemma_be_value_bound(s.drop_last());
    }
}

pub proof fn lemma_be_round_trip(n: nat, w: nat)
    requires
        n < pow256(w),
    ensures
        be_bytes(n, w).len() == w,
        be_value(be_bytes(n, w)) == n,
    decreases w,
{
    if w > 0 {
        lemma_be_round_trip(n / 256, (w - 1) as nat);
        assert(be_bytes(n, w).drop_last() =~= be_bytes(n / 256, (w - 1) as nat));
    }
}

proof fn lemma_pow256_values()
    ensures
        pow256(1) == 0x100,
        pow256(2) == 0x1_0000,
        pow256(4) == 0x1_0000_0000,
        pow256(8) == 0x1_0000_0000_0000_0000,
{
    reveal_with_fuel(pow256, 9);
}

/// Appends the `w` low-order bytes of `n`, most significant first.
fn push_be(out: &mut Vec<u8>, n: u64, w: usize)
    ensures
        final(out)@ == old(out)@ + be_bytes(n as nat, w as nat),
    decreases w,
{
    if w == 0 {
        assert(old(out)@ + be_bytes(n as nat, 0) =~= old(out)@);
    } else {
        push_be(out, n / 256, w - 1);
        out.push((n % 256) as u8);
        assert(final(out)@ =~= old(out)@ + be_bytes(n as nat, w as nat));
    }
}

/// Reads `w` bytes at `pos` as a big-endian number.
fn read_be(bytes: &[u8], pos: usize, w: usize) -> (r: u64)
    requires
        w <= 8,
        pos + w <= bytes@.len(),
    ensures
        r == be_value(bytes@.subrange(pos as int, pos + w)),
{
    let len = bytes.len();
    let mut acc: u64 = 0;
    let mut i: usize = 0;
    proof {
        reveal_with_fuel(pow256, 9);
        assert(bytes@.subrange(pos as int, pos as int) =~= Seq::<u8>::empty());
    }
    while i < w
        invariant
            i <= w,
            w <= 8,
            pos + w <= bytes@.len(),
            len == bytes@.len(),
            acc == be_value(bytes@.subrange(pos as int, pos + i)),
            pow256(8) == 0x1_0000_0000_0000_0000,
        decreases w - i,
    {
        proof {
            lemma_be_value_bound(bytes@.subrange(pos as int, pos + i));
            lemma_pow256_mono(i as nat, 7);
            assert(bytes@.subrange(pos as int, pos + i + 1).drop_last() =~= bytes@.subrange(
                pos as int,
                pos + i,
            ));
        }
        acc = acc * 256 + bytes[pos + i] as u64;
        i = i + 1;
    }
    acc
}

proof fn lemma_pow256_mono(a: nat, b: nat)
    requires
        a <= b,
    ensures
        pow256(a) <= pow256(b),
    decreases b,
{
    if a < b {
        lemma_pow256_mono(a, (b - 1) as nat);
    }
}

/// Shared decoder rule: `w` bytes must be available at `pos`.
pub open spec fn fixed_at(s: Seq<u8>, pos: int, w: int) -> bool {
    0 <= pos && pos + w <= s.len()
}

pub open spec fn be_at(s: Seq<u8>, pos: int, w: int) -> nat {
    be_value(s.subrange(pos, pos + w))
}

proof fn lemma_fixed_round_trip(s: Seq<u8>, pos: int, n: nat, w: nat)
    requires
        n < pow256(w),
        prefix_at(s, pos, be_bytes(n, w)),
    ensures
        be_bytes(n, w).len() == w,
        fixed_at(s, pos, w as int),
        be_at(s, pos, w as int) == n,
{
    lemma_be_round_trip(n, w);
}

// ------------------------------------------------------------------ u8

impl Encode for u8 {
    open spec fn wf(&self) -> bool {
        true
    }

    open spec fn spec_encode(&self) -> Seq<u8> {
        seq![*self]
    }

    fn encode(&self) -> (r: Vec<u8>) {
        vec![*self]
    }
}

impl Decode for u8 {
    type Model = u8;

    open spec fn model(&self) -> u8 {
        *self
    }

    open spec fn spec_decode(s: Seq<u8>, pos: int) -> Option<(u8, int)> {
        if fixed_at(s, pos, 1) {
            Some((s[pos], pos + 1))
        } else {
            None
        }
    }

    fn decode(bytes: &[u8], offset: &mut usize) -> (r: Option<u8>) {
        if *offset < bytes.len() {
            let b = bytes[*offset];
            *offset = *offset + 1;
            Some(b)
        } else {
            None
        }
    }
}

impl Codec for u8 {
    proof fn lemma_round_trip(&self, s: Seq<u8>, pos: int) {
        assert(s.subrange(pos, pos + 1)[0] == s[pos]);
    }
}

impl Size for u8 {
    fn size_in_bytes(&self) -> (r: usize) {
        1
    }
}

impl Offset for u8 {
    open spec fn spec_size(&self) -> nat {
        1
    }

    fn size(&self) -> (r: usize) {
        1
    }
}

// ------------------------------------------------------------------ i8

pub open spec fn unsigned_i8(x: i8) -> nat {
    if x >= 0 {
        x as nat
    } else {
        (x + 0x100) as nat
    }
}

impl Encode for i8 {
    open spec fn wf(&self) -> bool {
        true
    }

    open spec fn spec_encode(&self) -> Seq<u8> {
        seq![unsigned_i8(*self) as u8]
    }

    fn encode(&self) -> (r: Vec<u8>) {
        let u: u8 = if *self >= 0 {
            *self as u8
        } else {
            (*self as i16 + 0x100) as u8
        };
        vec![u]
    }
}

impl Decode for i8 {
    type Model = i8;

    open spec fn model(&self) -> i8 {
        *self
    }

    open spec fn spec_decode(s: Seq<u8>, pos: int) -> Option<(i8, int)> {
        if fixed_at(s, pos, 1) {
            let u = s[pos];
            Some((if u < 0x80 { u as i8 } else { (u - 0x100) as i8 }, pos + 1))
        } else {
            None
        }
    }

    fn decode(bytes: &[u8], offset: &mut usize) -> (r: Option<i8>) {
        if *offset < bytes.len() {
            let u = bytes[*offset];
            *offset = *offset + 1;
            Some(
                if u < 0x80 {
                    u as i8
                } else {
                    (u as i16 - 0x100) as i8
                },
            )
        } else {
            None
        }
    }
}

impl Codec for i8 {
    proof fn lemma_round_trip(&self, s: Seq<u8>, pos: int) {
        assert(s.subrange(pos, pos + 1)[0] == s[pos]);
    }
}

impl Size for i8 {
    fn size_in_bytes(&self) -> (r: usize) {
        1
    }
}

impl Offset for i8 {
    open spec fn spec_size(&self) -> nat {
        1
    }

    fn size(&self) -> (r: usize) {
        1
    }
}

// ------------------------------------------------------------------ i16

pub open spec fn unsigned_i16(x: i16) -> nat {
    if x >= 0 {
        x as nat
    } else {
        (x + 0x1_0000) as nat
    }
}

pub open spec fn signed_i16(u: nat) -> i16 {
    if u < 0x8000 {
        u as i16
    } else {
        (u - 0x1_0000) as i16
    }
}

impl Encode for i16 {
    open spec fn wf(&self) -> bool {
        true
    }

    open spec fn spec_encode(&self) -> Seq<u8> {
        be_bytes(unsigned_i16(*self), 2)
    }

    fn encode(&self) -> (r: Vec<u8>) {
        let u: u64 = if *self >= 0 {
            *self as u64
        } else {
            (*self as i64 + 0x1_0000) as u64
        };
        let mut v: Vec<u8> = Vec::new();
        push_be(&mut v, u, 2);
        assert(v@ =~= be_bytes(unsigned_i16(*self), 2));
        v
    }
}

impl Decode for i16 {
    type Model = i16;

    open spec fn model(&self) -> i16 {
        *self
    }

    open spec fn spec_decode(s: Seq<u8>, pos: int) -> Option<(i16, int)> {
        if fixed_at(s, pos, 2) {
            Some((signed_i16(be_at(s, pos, 2)), pos + 2))
        } else {
            None
        }
    }

    fn decode(bytes: &[u8], offset: &mut usize) -> (r: Option<i16>) {
        if bytes.len() >= 2 && *offset <= bytes.len() - 2 {
            let u = read_be(bytes, *offset, 2);
            proof {
                lemma_be_value_bound(bytes@.subrange(*offset as int, *offset + 2));
                lemma_pow256_values();
            }
            *offset = *offset + 2;
            Some(
                if u < 0x8000 {
                    u as i16
                } else {
                    (u as i64 - 0x1_0000) as i16
                },
            )
        } else {
            None
        }
    }
}

impl Codec for i16 {
    proof fn lemma_round_trip(&self, s: Seq<u8>, pos: int) {
        lemma_pow256_values();
        lemma_fixed_round_trip(s, pos, unsigned_i16(*self), 2);
    }
}

impl Size for i16 {
    fn size_in_bytes(&self) -> (r: usize) {
        proof {
            lemma_pow256_values();
            lemma_be_round_trip(unsigned_i16(*self), 2);
        }
        2
    }
}

impl Offset for i16 {
    open spec fn spec_size(&self) -> nat {
        2
    }

    fn size(&self) -> (r: usize) {
        2
    }
}

// ------------------------------------------------------------------ i32

pub open spec fn unsigned_i32(x: i32) -> nat {
    if x >= 0 {
        x as nat
    } else {
        (x + 0x1_0000_0000) as nat
    }
}

pub open spec fn signed_i32(u: nat) -> i32 {
    if u < 0x8000_0000 {
        u as i32
    } else {
        (u - 0x1_0000_0000) as i32
    }
}

pub proof fn lemma_i64_width(x: i64)
    ensures
        x.spec_encode().len() == 8,
{
    lemma_pow256_values();
    lemma_be_round_trip(unsigned_i64(x), 8);
}

pub proof fn lemma_i32_width(x: i32)
    ensures
        x.spec_encode().len() == 4,
{
    lemma_pow256_values();
    lemma_be_round_trip(unsigned_i32(x), 4);
}

impl Encode for i32 {
    open spec fn wf(&self) -> bool {
        true
    }

    open spec fn spec_encode(&self) -> Seq<u8> {
        be_bytes(unsigned_i32(*self), 4)
    }

    fn encode(&self) -> (r: Vec<u8>) {
        let u: u64 = if *self >= 0 {
            *self as u64
        } else {
            (*self as i64 + 0x1_0000_0000) as u64
        };
        let mut v: Vec<u8> = Vec::new();
        push_be(&mut v, u, 4);
        assert(v@ =~= be_bytes(unsigned_i32(*self), 4));
        v
    }
}

impl Decode for i32 {
    type Model = i32;

    open spec fn model(&self) -> i32 {
        *self
    }

    open spec fn spec_decode(s: Seq<u8>, pos: int) -> Option<(i32, int)> {
        if fixed_at(s, pos, 4) {
            Some((signed_i32(be_at(s, pos, 4)), pos + 4))
        } else {
            None
        }
    }

    fn decode(bytes: &[u8], offset: &mut usize) -> (r: Option<i32>) {
        if bytes.len() >= 4 && *offset <= bytes.len() - 4 {
            let u = read_be(bytes, *offset, 4);
            proof {
                lemma_be_value_bound(bytes@.subrange(*offset as int, *offset + 4));
                lemma_pow256_values();
            }
            *offset = *offset + 4;
            Some(
                if u < 0x8000_0000 {
                    u as i32
                } else {
                    (u as i64 - 0x1_0000_0000) as i32
                },
            )
        } else {
            None
        }
    }
}

impl Codec for i32 {
    proof fn lemma_round_trip(&self, s: Seq<u8>, pos: int) {
        lemma_pow256_values();
        lemma_fixed_round_trip(s, pos, unsigned_i32(*self), 4);
    }
}

impl Size for i32 {
    fn size_in_bytes(&self) -> (r: usize) {
        proof {
            lemma_pow256_values();
            lemma_be_round_trip(unsigned_i32(*self), 4);
        }
        4
    }
}

impl Offset for i32 {
    open spec fn spec_size(&self) -> nat {
        4
    }

    fn size(&self) -> (r: usize) {
        4
    }
}

// ------------------------------------------------------------------ u32

impl Encode for u32 {
    open spec fn wf(&self) -> bool {
        true
    }

    open spec fn spec_encode(&self) -> Seq<u8> {
        be_bytes(*self as nat, 4)
    }

    fn encode(&self) -> (r: Vec<u8>) {
        let mut v: Vec<u8> = Vec::new();
        push_be(&mut v, *self as u64, 4);
        assert(v@ =~= be_bytes(*self as nat, 4));
        v
    }
}

impl Decode for u32 {
    type Model = u32;

    open spec fn model(&self) -> u32 {
        *self
    }

    open spec fn spec_decode(s: Seq<u8>, pos: int) -> Option<(u32, int)> {
        if fixed_at(s, pos, 4) {
            Some((be_at(s, pos, 4) as u32, pos + 4))
        } else {
            None
        }
    }

    fn decode(bytes: &[u8], offset: &mut usize) -> (r: Option<u32>) {
        if bytes.len() >= 4 && *offset <= bytes.len() - 4 {
            let u = read_be(bytes, *offset, 4);
            proof {
                lemma_be_value_bound(bytes@.subrange(*offset as int, *offset + 4));
                lemma_pow256_values();
            }
            *offset = *offset + 4;
            Some(u as u32)
        } else {
            None
        }
    }
}

impl Codec for u32 {
    proof fn lemma_round_trip(&self, s: Seq<u8>, pos: int) {
        lemma_pow256_values();
        lemma_fixed_round_trip(s, pos, *self as nat, 4);
    }
}

impl Size for u32 {
    fn size_in_bytes(&self) -> (r: usize) {
        proof {
            lemma_pow256_values();
            lemma_be_round_trip(*self as nat, 4);
        }
        4
    }
}

// ------------------------------------------------------------------ i64

pub open spec fn unsigned_i64(x: i64) -> nat {
    if x >= 0 {
        x as nat
    } else {
        (x + 0x1_0000_0000_0000_0000) as nat
    }
}

pub open spec fn signed_i64(u: nat) -> i64 {
    if u < 0x8000_0000_0000_0000 {
        u as i64
    } else {
        (u - 0x1_0000_0000_0000_0000) as i64
    }
}

impl Encode for i64 {
    open spec fn wf(&self) -> bool {
        true
    }

    open spec fn spec_encode(&self) -> Seq<u8> {
        be_bytes(unsigned_i64(*self), 8)
    }

    fn encode(&self) -> (r: Vec<u8>) {
        let u: u64 = if *self >= 0 {
            *self as u64
        } else {
            ((*self + 0x7FFF_FFFF_FFFF_FFFF + 1) as u64) + 0x8000_0000_0000_0000
        };
        let mut v: Vec<u8> = Vec::new();
        push_be(&mut v, u, 8);
        assert(v@ =~= be_bytes(unsigned_i64(*self), 8));
        v
    }
}

impl Decode for i64 {
    type Model = i64;

    open spec fn model(&self) -> i64 {
        *self
    }

    open spec fn spec_decode(s: Seq<u8>, pos: int) -> Option<(i64, int)> {
        if fixed_at(s, pos, 8) {
            Some((signed_i64(be_at(s, pos, 8)), pos + 8))
        } else {
            None
        }
    }

    fn decode(bytes: &[u8], offset: &mut usize) -> (r: Option<i64>) {
        if bytes.len() >= 8 && *offset <= bytes.len() - 8 {
            let u = read_be(bytes, *offset, 8);
            proof {
                lemma_be_value_bound(bytes@.subrange(*offset as int, *offset + 8));
                lemma_pow256_values();
            }
            *offset = *offset + 8;
            Some(
                if u < 0x8000_0000_0000_0000 {
                    u as i64
                } else {
                    ((u - 0x8000_0000_0000_0000) as i64) - 0x7FFF_FFFF_FFFF_FFFF - 1
                },
            )
        } else {
            None
        }
    }
}

impl Codec for i64 {
    proof fn lemma_round_trip(&self, s: Seq<u8>, pos: int) {
        lemma_pow256_values();
        lemma_fixed_round_trip(s, pos, unsigned_i64(*self), 8);
    }
}

impl Size for i64 {
    fn size_in_bytes(&self) -> (r: usize) {
        proof {
            lemma_pow256_values();
            lemma_be_round_trip(unsigned_i64(*self), 8);
        }
        8
    }
}

impl Offset for i64 {
    open spec fn spec_size(&self) -> nat {
        8
    }

    fn size(&self) -> (r: usize) {
        8
    }
}

} // verus!
