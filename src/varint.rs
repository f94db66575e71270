//! LEB128 varints: seven payload bits per byte, low group first, top bit set on
//! every byte but the last. The signed form maps through zigzag first.
use vstd::prelude::*;

use crate::{prefix_at, Codec, Decode, Encode, Offset, Size};

verus! {

/// Longest accepted encoding: ten groups of seven bits cover 64 bits.
pub const MAX_VARINT_BYTES: usize = 10;

/// The canonical (shortest) LEB128 image of `n`.
pub open spec fn uvarint_bytes(n: nat) -> Seq<u8>
    decreases n,
{
    if n < 128 {
        seq![n as u8]
    } else {
        seq![(n % 128 + 128) as u8] + uvarint_bytes(n / 128)
    }
}

pub open spec fn uvarint_len(n: nat) -> nat
    decreases n,
{
    if n < 128 {
        1
    } else {
        1 + uvarint_len(n / 128)
    }
}

pub open spec fn pow128(k: nat) -> nat
    decreases k,
{
    if k == 0 {
        1
    } else {
        128 * pow128((k - 1) as nat)
    }
}

/// Reads groups from `pos`, `k` groups having been read before it: the value of
/// the remaining groups and the position after the last one.
pub open spec fn uvarint_parse(s: Seq<u8>, pos: int, k: nat) -> Option<(nat, int)>
    decreases MAX_VARINT_BYTES - k,
{
    if pos < 0 || pos >= s.len() || k >= MAX_VARINT_BYTES {
        None
    } else if s[pos] < 128 {
        Some((s[pos] as nat, pos + 1))
    } else {
        match uvarint_parse(s, pos + 1, k + 1) {
            Some((v, p)) => Some(((s[pos] - 128 + 128 * v) as nat, p)),
            None => None,
        }
    }
}

/// An unsigned varint at `pos`: at most ten bytes, and a value that fits 64 bits.
pub open spec fn uvarint_decode(s: Seq<u8>, pos: int) -> Option<(u64, int)> {
    match uvarint_parse(s, pos, 0) {
        Some((v, p)) => if v <= u64::MAX {
            Some((v as u64, p))
        } else {
            None
        },
        None => None,
    }
}

pub open spec fn zigzag(v: int) -> nat {
    if v >= 0 {
        (2 * v) as nat
    } else {
        (-2 * v - 1) as nat
    }
}

pub open spec fn unzigzag(z: nat) -> int {
    if z % 2 == 0 {
        (z / 2) as int
    } else {
        -((z / 2) as int) - 1
    }
}

/// A signed varint at `pos`: an unsigned varint read back through zigzag.
pub open spec fn varint_decode(s: Seq<u8>, pos: int) -> Option<(i64, int)> {
    match uvarint_decode(s, pos) {
        Some((z, p)) => Some((unzigzag(z as nat) as i64, p)),
        None => None,
    }
}

/// The zigzag image of a count, as a two's-complement shift of a 64-bit word.
pub open spec fn zigzag_count(v: nat) -> nat {
    if v < 0x8000_0000_0000_0000 {
        2 * v
    } else {
        (2 * v - 0x1_0000_0000_0000_0000 + 1) as nat
    }
}

pub proof fn lemma_uvarint_len(n: nat)
    ensures
        uvarint_bytes(n).len() == uvarint_len(n),
        1 <= uvarint_len(n) <= MAX_VARINT_BYTES || n >= 0x1_0000_0000_0000_0000,
    decreases n,
{
    if n >= 128 {
        lemma_uvarint_len(n / 128);
    }
    if n < 0x1_0000_0000_0000_0000 {
        lemma_pow128_values();
        lemma_uvarint_len_bound(n, 10);
    }
}

proof fn lemma_pow128_values()
    ensures
        pow128(9) == 0x8000_0000_0000_0000,
        pow128(10) == 0x40_0000_0000_0000_0000,
{
    reveal_with_fuel(pow128, 11);
}

proof fn lemma_uvarint_len_bound(n: nat, k: nat)
    requires
        n < pow128(k),
        k >= 1,
    ensures
        uvarint_len(n) <= k,
    decreases k,
{
    reveal_with_fuel(pow128, 2);
    if n >= 128 {
        lemma_uvarint_len_bound(n / 128, (k - 1) as nat);
    }
}

/// The canonical image of `n` is read back as `n`, wherever it stands.
pub proof fn lemma_uvarint_round_trip(s: Seq<u8>, pos: int, n: nat, k: nat)
    requires
        k < MAX_VARINT_BYTES,
        n < pow128((MAX_VARINT_BYTES - k) as nat),
        prefix_at(s, pos, uvarint_bytes(n)),
    ensures
        uvarint_parse(s, pos, k) == Some((n, pos + uvarint_bytes(n).len())),
    decreases n,
{
    reveal_with_fuel(pow128, 2);
    assert(s.subrange(pos, pos + uvarint_bytes(n).len())[0] == s[pos]);
    if n >= 128 {
        let rest = uvarint_bytes(n / 128);
        assert(uvarint_bytes(n) == seq![(n % 128 + 128) as u8] + rest);
        crate::lemma_prefix_at_cat(s, pos, seq![(n % 128 + 128) as u8], rest);
        assert((MAX_VARINT_BYTES - k) as nat == 1 + (MAX_VARINT_BYTES - (k + 1)) as nat);
        if k + 1 >= MAX_VARINT_BYTES {
            assert(pow128(0) == 1);
        }
        lemma_uvarint_round_trip(s, pos + 1, n / 128, k + 1);
    }
}

pub proof fn lemma_uvarint_decode_round_trip(s: Seq<u8>, pos: int, n: u64)
    requires
        prefix_at(s, pos, uvarint_bytes(n as nat)),
    ensures
        uvarint_decode(s, pos) == Some((n, pos + uvarint_bytes(n as nat).len())),
{
    lemma_pow128_values();
    lemma_uvarint_round_trip(s, pos, n as nat, 0);
}

/// Encodes `value` as an unsigned varint.
pub fn encode_unsigned_varint(value: u64) -> (r: Vec<u8>)
    ensures
        r@ == uvarint_bytes(value as nat),
{
    let mut result: Vec<u8> = Vec::new();
    let mut v = value;
    while v >= 128
        invariant
            result@ + uvarint_bytes(v as nat) == uvarint_bytes(value as nat),
        decreases v,
    {
        proof {
            assert(result@.push((v % 128 + 128) as u8) + uvarint_bytes((v / 128) as nat)
                =~= result@ + uvarint_bytes(v as nat));
        }
        result.push((v % 128 + 128) as u8);
        v = v / 128;
    }
    result.push(v as u8);
    assert(result@ =~= uvarint_bytes(value as nat));
    result
}

/// Encodes `value` as a signed (zigzag) varint.
pub fn encode_signed_varint(value: i64) -> (r: Vec<u8>)
    ensures
        r@ == uvarint_bytes(zigzag(value as int)),
{
    encode_unsigned_varint(zigzag_of(value))
}

fn zigzag_of(value: i64) -> (r: u64)
    ensures
        r as nat == zigzag(value as int),
{
    if value >= 0 {
        (value as u64) * 2
    } else {
        ((-(value + 1)) as u64) * 2 + 1
    }
}

/// Same encoding as [`encode_unsigned_varint`]: `value` is taken to be already
/// zigzag-mapped.
pub fn encode_zigzag(value: u64) -> (r: Vec<u8>)
    ensures
        r@ == uvarint_bytes(value as nat),
{
    encode_unsigned_varint(value)
}

/// Decodes an unsigned varint at `*offset`; gives the value and the number of
/// bytes read, and advances `*offset` past it.
pub fn decode_unsigned_varint(data: &[u8], offset: &mut usize) -> (r: Option<(u64, usize)>)
    ensures
        match uvarint_decode(data@, *old(offset) as int) {
            Some((v, p)) => r == Some((v, (p - *old(offset)) as usize)) && *final(offset) as int
                == p,
            None => r is None,
        },
{
    let len = data.len();
    let start = *offset;
    let mut i: usize = start;
    let mut k: usize = 0;
    let mut acc: u128 = 0;
    let mut pw: u128 = 1;
    proof {
        reveal_with_fuel(pow128, 1);
    }
    while i < len && k < MAX_VARINT_BYTES
        invariant
            len == data@.len(),
            i == start + k,
            k <= MAX_VARINT_BYTES,
            pw == pow128(k as nat),
            acc < pw,
            start == *old(offset),
            *offset == *old(offset),
            uvarint_parse(data@, start as int, 0) == match uvarint_parse(data@, i as int, k as nat) {
                Some((v, p)) => Some(((acc + pw * v) as nat, p)),
                None => None,
            },
        decreases MAX_VARINT_BYTES - k,
    {
        let b = data[i];
        proof {
            lemma_pow128_values();
            lemma_pow128_mono(k as nat, 9);
        }
        if b < 128 {
            proof {
                assert(acc + (b as u128) * pw < pw * 128) by (nonlinear_arith)
                    requires
                        acc < pw,
                        b < 128,
                ;
                assert(pw * 128 <= 0x40_0000_0000_0000_0000) by (nonlinear_arith)
                    requires
                        pw <= 0x8000_0000_0000_0000,
                ;
                assert(uvarint_parse(data@, i as int, k as nat) == Some(((b as nat), i + 1)));
                assert((b as u128) * pw == pw * (b as u128)) by (nonlinear_arith);
            }
            let value = acc + (b as u128) * pw;
            if value > u64::MAX as u128 {
                return None;
            }
            *offset = i + 1;
            return Some((value as u64, k + 1));
        }
        proof {
            let low = (b - 128) as nat;
            assert(acc + ((b - 128) as u128) * pw < pw * 128) by (nonlinear_arith)
                requires
                    acc < pw,
                    low < 128,
                    low == (b - 128) as u128,
            ;
            assert(pw * 128 <= 0x40_0000_0000_0000_0000) by (nonlinear_arith)
                requires
                    pw <= 0x8000_0000_0000_0000,
            ;
            match uvarint_parse(data@, i + 1, (k + 1) as nat) {
                Some((v, p)) => {
                    assert(acc + pw * (low + 128 * v) == (acc + pw * low) + (pw * 128) * v)
                        by (nonlinear_arith);
                },
                None => {},
            }
        }
        acc = acc + ((b - 128) as u128) * pw;
        pw = pw * 128;
        i = i + 1;
        k = k + 1;
    }
    None
}

proof fn lemma_pow128_mono(a: nat, b: nat)
    requires
        a <= b,
    ensures
        pow128(a) <= pow128(b),
    decreases b,
{
    if a < b {
        lemma_pow128_mono(a, (b - 1) as nat);
    }
}

/// Decodes a signed (zigzag) varint at `*offset`; gives the value and the
/// number of bytes read, and advances `*offset` past it.
pub fn decode_signed_varint(data: &[u8], offset: &mut usize) -> (r: Option<(i64, usize)>)
    ensures
        match varint_decode(data@, *old(offset) as int) {
            Some((v, p)) => r == Some((v, (p - *old(offset)) as usize)) && *final(offset) as int
                == p,
            None => r is None,
        },
{
    match decode_unsigned_varint(data, offset) {
        Some((z, n)) => {
            let v: i64 = if z % 2 == 0 {
                (z / 2) as i64
            } else {
                -((z / 2) as i64) - 1
            };
            Some((v, n))
        },
        None => None,
    }
}

/// Decodes an unsigned varint at the start of `data`: its value and width.
pub fn decode_varint(data: &[u8]) -> (r: Option<(u64, usize)>)
    ensures
        match uvarint_decode(data@, 0) {
            Some((v, p)) => r == Some((v, p as usize)),
            None => r is None,
        },
{
    let mut offset: usize = 0;
    decode_unsigned_varint(data, &mut offset)
}

pub fn uvarint_width(value: u64) -> (r: usize)
    ensures
        r == uvarint_len(value as nat),
        1 <= r <= MAX_VARINT_BYTES,
{
    proof {
        lemma_pow128_values();
        lemma_uvarint_len_bound(value as nat, 10);
        lemma_uvarint_len(value as nat);
    }
    let mut n: usize = 1;
    let mut t = value;
    while t >= 128
        invariant
            n + uvarint_len(t as nat) == 1 + uvarint_len(value as nat),
            uvarint_len(value as nat) <= MAX_VARINT_BYTES,
            1 <= n,
        decreases t,
    {
        n = n + 1;
        t = t / 128;
    }
    n
}

/// Width of the unsigned varint image of `value`.
pub fn unsigned_varint_bytes_wide(value: usize) -> (r: usize)
    ensures
        r == uvarint_len(value as nat),
{
    uvarint_width(value as u64)
}

/// Width of the signed varint image of the count `value`.
pub fn signed_varint_bytes_wide(value: usize) -> (r: usize)
    ensures
        r == uvarint_len(zigzag_count(value as nat)),
{
    let v = value as u64;
    let z: u64 = if v < 0x8000_0000_0000_0000 {
        v * 2
    } else {
        (v - 0x8000_0000_0000_0000) * 2 + 1
    };
    uvarint_width(z)
}

// ------------------------------------------------------------------ UVarint

/// An unsigned varint: its value on the wire and the number of bytes it
/// takes there.
#[derive(Debug)]
pub struct UVarint(pub u64, pub usize);

impl UVarint {
    /// The compact-convention prefix for a logical `value`: the wire holds
    /// `value + 1`, in `bytes_wide` bytes.
    pub fn new(value: u64, bytes_wide: usize) -> (r: Self)
        requires
            value < u64::MAX,
        ensures
            r.0 == value + 1,
            r.1 == bytes_wide,
    {
        Self(value + 1, bytes_wide)
    }
}

impl Encode for UVarint {
    open spec fn wf(&self) -> bool {
        self.1 == uvarint_len(self.0 as nat)
    }

    open spec fn spec_encode(&self) -> Seq<u8> {
        uvarint_bytes(self.0 as nat)
    }

    fn encode(&self) -> (r: Vec<u8>) {
        encode_unsigned_varint(self.0)
    }
}

impl Decode for UVarint {
    type Model = u64;

    open spec fn model(&self) -> u64 {
        self.0
    }

    open spec fn spec_decode(s: Seq<u8>, pos: int) -> Option<(u64, int)> {
        uvarint_decode(s, pos)
    }

    fn decode(bytes: &[u8], offset: &mut usize) -> (r: Option<Self>) {
        match decode_unsigned_varint(bytes, offset) {
            Some((v, n)) => Some(UVarint(v, n)),
            None => None,
        }
    }
}

impl Codec for UVarint {
    proof fn lemma_round_trip(&self, s: Seq<u8>, pos: int) {
        lemma_uvarint_decode_round_trip(s, pos, self.0);
    }
}

impl Size for UVarint {
    fn size_in_bytes(&self) -> (r: usize) {
        proof {
            lemma_uvarint_len(self.0 as nat);
        }
        self.1
    }
}

impl Offset for UVarint {
    open spec fn spec_size(&self) -> nat {
        self.1 as nat
    }

    fn size(&self) -> (r: usize) {
        self.1
    }
}

// ------------------------------------------------------------------ Varint

/// A signed (zigzag) varint.
#[derive(Debug)]
pub struct Varint(pub i64);

impl Varint {
    /// Width of this value's encoding.
    pub fn get_size(&self) -> (r: usize)
        ensures
            r == uvarint_len(zigzag(self.0 as int)),
            r == self.spec_encode().len(),
    {
        proof {
            lemma_uvarint_len(zigzag(self.0 as int));
        }
        uvarint_width(zigzag_of(self.0))
    }

    /// The compact-convention count for a logical `value`: `value + 1`.
    pub fn new(value: i64) -> (r: Self)
        requires
            value < i64::MAX,
        ensures
            r.0 == value + 1,
    {
        Self(value + 1)
    }
}

impl Encode for Varint {
    open spec fn wf(&self) -> bool {
        true
    }

    open spec fn spec_encode(&self) -> Seq<u8> {
        uvarint_bytes(zigzag(self.0 as int))
    }

    fn encode(&self) -> (r: Vec<u8>) {
        encode_signed_varint(self.0)
    }
}

impl Decode for Varint {
    type Model = i64;

    open spec fn model(&self) -> i64 {
        self.0
    }

    open spec fn spec_decode(s: Seq<u8>, pos: int) -> Option<(i64, int)> {
        varint_decode(s, pos)
    }

    fn decode(bytes: &[u8], offset: &mut usize) -> (r: Option<Self>) {
        match decode_signed_varint(bytes, offset) {
            Some((v, _)) => Some(Varint(v)),
            None => None,
        }
    }
}

impl Codec for Varint {
    proof fn lemma_round_trip(&self, s: Seq<u8>, pos: int) {
        let z = zigzag(self.0 as int);
        assert(z <= u64::MAX);
        lemma_uvarint_decode_round_trip(s, pos, z as u64);
    }
}

impl Size for Varint {
    fn size_in_bytes(&self) -> (r: usize) {
        self.get_size()
    }
}

impl Offset for Varint {
    open spec fn spec_size(&self) -> nat {
        uvarint_len(zigzag(self.0 as int))
    }

    fn size(&self) -> (r: usize) {
        self.get_size()
    }
}

} // verus!
