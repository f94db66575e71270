//! The on-disk log-segment format: record batches, each a fixed header and a
//! counted sequence of records, whose values are dispatched on a type byte.
use vstd::prelude::*;

use crate::array::{
    all_wf, encode_elems, lemma_seq_encode_first, models, seq_encode, size_elems, CSignedVec, CVec,
};
use crate::bytes::ByteBuf;
use crate::ids::UUID;
use crate::integers::{be_at, fixed_at, signed_i32, unsigned_i32};
use crate::pair::cat;
use crate::strings::{CSignedString, CString};
use crate::varint::{UVarint, Varint};
use crate::{lemma_prefix_at_cat, prefix_at, Codec, Decode, Encode, Size};

verus! {

/// Frame type of a [`FeatureLevelRecord`].
pub const FEATURE_LEVEL_TYPE: u8 = 12;

/// Frame type of a [`TopicRecord`].
pub const TOPIC_TYPE: u8 = 2;

/// Frame type of a [`PartitionRecord`].
pub const PARTITION_TYPE: u8 = 3;

/// A record value of a type this library does not read. Nothing after its type
/// and version bytes is consumed.
#[derive(Debug)]
pub struct UnknownRecord {}

impl Encode for UnknownRecord {
    open spec fn wf(&self) -> bool {
        true
    }

    open spec fn spec_encode(&self) -> Seq<u8> {
        Seq::empty()
    }

    fn encode(&self) -> (r: Vec<u8>) {
        Vec::new()
    }
}

impl Decode for UnknownRecord {
    type Model = ();

    open spec fn model(&self) -> () {
        ()
    }

    open spec fn spec_decode(s: Seq<u8>, pos: int) -> Option<((), int)> {
        Some(((), pos))
    }

    fn decode(bytes: &[u8], offset: &mut usize) -> (r: Option<Self>) {
        Some(UnknownRecord {})
    }
}

impl Codec for UnknownRecord {
    proof fn lemma_round_trip(&self, s: Seq<u8>, pos: int) {
    }
}

impl Size for UnknownRecord {
    fn size_in_bytes(&self) -> (r: usize) {
        0
    }
}

/// The value of a metadata record, by frame type.
#[derive(Debug)]
pub enum RecordValue {
    Topic(TopicRecord),
    FeatureLevel(FeatureLevelRecord),
    Partition(PartitionRecord),
    Unknown(UnknownRecord),
}

/// What a [`RecordValue`] holds.
pub ghost enum RecordValueModel {
    Topic(<TopicRecord as Decode>::Model),
    FeatureLevel(<FeatureLevelRecord as Decode>::Model),
    Partition(<PartitionRecord as Decode>::Model),
    Unknown,
}

impl RecordValue {
    pub open spec fn model(&self) -> RecordValueModel {
        match self {
            RecordValue::Topic(t) => RecordValueModel::Topic(t.model()),
            RecordValue::FeatureLevel(f) => RecordValueModel::FeatureLevel(f.model()),
            RecordValue::Partition(p) => RecordValueModel::Partition(p.model()),
            RecordValue::Unknown(_) => RecordValueModel::Unknown,
        }
    }

    /// The frame type that announces this kind of value.
    pub open spec fn frame_type_fits(&self, t: u8) -> bool {
        match self {
            RecordValue::Topic(_) => t == TOPIC_TYPE,
            RecordValue::FeatureLevel(_) => t == FEATURE_LEVEL_TYPE,
            RecordValue::Partition(_) => t == PARTITION_TYPE,
            RecordValue::Unknown(_) => t != TOPIC_TYPE && t != FEATURE_LEVEL_TYPE && t
                != PARTITION_TYPE,
        }
    }
}

impl Encode for RecordValue {
    open spec fn wf(&self) -> bool {
        match self {
            RecordValue::Topic(t) => t.wf(),
            RecordValue::FeatureLevel(f) => f.wf(),
            RecordValue::Partition(p) => p.wf(),
            RecordValue::Unknown(u) => u.wf(),
        }
    }

    open spec fn spec_encode(&self) -> Seq<u8> {
        match self {
            RecordValue::Topic(t) => t.spec_encode(),
            RecordValue::FeatureLevel(f) => f.spec_encode(),
            RecordValue::Partition(p) => p.spec_encode(),
            RecordValue::Unknown(u) => u.spec_encode(),
        }
    }

    fn encode(&self) -> (r: Vec<u8>) {
        match self {
            RecordValue::Topic(t) => t.encode(),
            RecordValue::FeatureLevel(f) => f.encode(),
            RecordValue::Partition(p) => p.encode(),
            RecordValue::Unknown(u) => u.encode(),
        }
    }
}

impl Size for RecordValue {
    fn size_in_bytes(&self) -> (r: usize) {
        match self {
            RecordValue::Topic(t) => t.size_in_bytes(),
            RecordValue::FeatureLevel(f) => f.size_in_bytes(),
            RecordValue::Partition(p) => p.size_in_bytes(),
            RecordValue::Unknown(u) => u.size_in_bytes(),
        }
    }
}

/// A record value with its frame type and version bytes.
#[derive(Debug)]
pub struct GenericRecord {
    pub frame_type: u8,
    pub version: u8,
    pub r_record: RecordValue,
}

impl Encode for GenericRecord {
    open spec fn wf(&self) -> bool {
        self.r_record.wf() && self.r_record.frame_type_fits(self.frame_type)
    }

    open spec fn spec_encode(&self) -> Seq<u8> {
        seq![self.frame_type, self.version] + self.r_record.spec_encode()
    }

    fn encode(&self) -> (r: Vec<u8>) {
        let head = vec![self.frame_type, self.version];
        assert(head@ =~= seq![self.frame_type, self.version]);
        cat(head, self.r_record.encode())
    }
}

impl Decode for GenericRecord {
    /// Frame type, version, and the value.
    type Model = (u8, u8, RecordValueModel);

    open spec fn model(&self) -> (u8, u8, RecordValueModel) {
        (self.frame_type, self.version, self.r_record.model())
    }

    open spec fn spec_decode(s: Seq<u8>, pos: int) -> Option<((u8, u8, RecordValueModel), int)> {
        if fixed_at(s, pos, 2) {
            let t = s[pos];
            let v = s[pos + 1];
            let p = pos + 2;
            if t == FEATURE_LEVEL_TYPE {
                match FeatureLevelRecord::spec_decode(s, p) {
                    Some((m, q)) => Some(((t, v, RecordValueModel::FeatureLevel(m)), q)),
                    None => None,
                }
            } else if t == TOPIC_TYPE {
                match TopicRecord::spec_decode(s, p) {
                    Some((m, q)) => Some(((t, v, RecordValueModel::Topic(m)), q)),
                    None => None,
                }
            } else if t == PARTITION_TYPE {
                match PartitionRecord::spec_decode(s, p) {
                    Some((m, q)) => Some(((t, v, RecordValueModel::Partition(m)), q)),
                    None => None,
                }
            } else {
                Some(((t, v, RecordValueModel::Unknown), p))
            }
        } else {
            None
        }
    }

    fn decode(bytes: &[u8], offset: &mut usize) -> (r: Option<Self>) {
        let len = bytes.len();
        if *offset > len || 2 > len - *offset {
            return None;
        }
        let t = bytes[*offset];
        let v = bytes[*offset + 1];
        *offset = *offset + 2;
        let r_record = if t == FEATURE_LEVEL_TYPE {
            match FeatureLevelRecord::decode(bytes, offset) {
                Some(f) => RecordValue::FeatureLevel(f),
                None => {
                    return None;
                },
            }
        } else if t == TOPIC_TYPE {
            match TopicRecord::decode(bytes, offset) {
                Some(x) => RecordValue::Topic(x),
                None => {
                    return None;
                },
            }
        } else if t == PARTITION_TYPE {
            match PartitionRecord::decode(bytes, offset) {
                Some(p) => RecordValue::Partition(p),
                None => {
                    return None;
                },
            }
        } else {
            RecordValue::Unknown(UnknownRecord {})
        };
        Some(GenericRecord { frame_type: t, version: v, r_record })
    }
}

impl Codec for GenericRecord {
    proof fn lemma_round_trip(&self, s: Seq<u8>, pos: int) {
        let head = seq![self.frame_type, self.version];
        lemma_prefix_at_cat(s, pos, head, self.r_record.spec_encode());
        assert(s[pos] == s.subrange(pos, pos + 2)[0]);
        assert(s[pos + 1] == s.subrange(pos, pos + 2)[1]);
        match &self.r_record {
            RecordValue::Topic(x) => x.lemma_round_trip(s, pos + 2),
            RecordValue::FeatureLevel(x) => x.lemma_round_trip(s, pos + 2),
            RecordValue::Partition(x) => x.lemma_round_trip(s, pos + 2),
            RecordValue::Unknown(x) => x.lemma_round_trip(s, pos + 2),
        }
    }
}

impl Size for GenericRecord {
    fn size_in_bytes(&self) -> (r: usize) {
        2usize.saturating_add(self.r_record.size_in_bytes())
    }
}

// ------------------------------------------------------------------ checksums

/// The CRC-32C (Castagnoli) checksum of `data`.
pub uninterp spec fn crc32c_of(data: Seq<u8>) -> u32;

/// Relies on `crc32c::crc32c`: the CRC-32C checksum of the bytes, which depends
/// on the bytes alone.
#[verifier::external_body]
fn crc32c_checksum(data: &[u8]) -> (r: u32)
    ensures
        r == crc32c_of(data@),
{
    crc32c::crc32c(data)
}

/// Offset of `attributes` within a batch: the checksum covers the batch from
/// there to its end.
pub const CRC_START: usize = 21;

/// Offset of `batch_length` within a batch; the length counts the bytes after it.
pub const BATCH_LENGTH_OFFSET: usize = 8;

/// Bounds of the checksummed part of the batch at `start`, as its
/// `batch_length` field gives them.
pub open spec fn crc_region(s: Seq<u8>, start: int) -> Option<(int, int)> {
    if fixed_at(s, start + BATCH_LENGTH_OFFSET, 4) {
        let end = start + 12 + signed_i32(be_at(s, start + BATCH_LENGTH_OFFSET, 4));
        if start + CRC_START <= end <= s.len() {
            Some((start + CRC_START, end))
        } else {
            None
        }
    } else {
        None
    }
}

/// The CRC-32C of the batch at `start` of a segment, computed over its bytes
/// from `attributes` to its end. `None` where the segment holds no such batch.
pub fn calculate_crc(segment: &[u8], start: usize) -> (r: Option<u32>)
    ensures
        match crc_region(segment@, start as int) {
            Some((a, b)) => r == Some(crc32c_of(segment@.subrange(a, b))),
            None => r is None,
        },
{
    let len = segment.len();
    if start > len || len - start < BATCH_LENGTH_OFFSET + 4 {
        return None;
    }
    let mut offset = start + BATCH_LENGTH_OFFSET;
    let n = match i32::decode(segment, &mut offset) {
        Some(n) => n,
        None => {
            return None;
        },
    };
    if n < 0 || (n as usize) + 12 < CRC_START || (n as usize) + 12 > len - start {
        return None;
    }
    let end = start + 12 + n as usize;
    let region = vstd::slice::slice_subrange(segment, start + CRC_START, end);
    Some(crc32c_checksum(region))
}

/// Whether a stored `crc` field (read as a signed integer) equals the
/// checksum `computed`.
pub fn crc_matches(stored: i32, computed: u32) -> (r: bool)
    ensures
        r == (unsigned_i32(stored) == computed as nat),
{
    let u: u64 = if stored >= 0 {
        stored as u64
    } else {
        (stored as i64 + 0x1_0000_0000) as u64
    };
    u == computed as u64
}

// ------------------------------------------------------------------ segments

/// Batches read one after the other from `pos` to the end of `s`. Every batch
/// must take at least one byte.
pub open spec fn log_decode(s: Seq<u8>, pos: int) -> Option<Seq<<RecordBatch as Decode>::Model>>
    decreases s.len() - pos,
{
    if pos >= s.len() {
        Some(Seq::empty())
    } else {
        match RecordBatch::spec_decode(s, pos) {
            Some((b, p)) => if pos < p <= s.len() {
                match log_decode(s, p) {
                    Some(rest) => Some(seq![b] + rest),
                    None => None,
                }
            } else {
                None
            },
            None => None,
        }
    }
}

/// Decodes batches from `start` up to the end of the input.
fn decode_batches(bytes: &[u8], start: usize) -> (r: Option<Vec<RecordBatch>>)
    ensures
        match log_decode(bytes@, start as int) {
            Some(ms) => r is Some && models(r->0@) == ms,
            None => r is None,
        },
{
    let len = bytes.len();
    let mut offset: usize = start;
    let mut out: Vec<RecordBatch> = Vec::new();
    assert(models(out@) =~= Seq::<<RecordBatch as Decode>::Model>::empty());
    assert(Seq::<<RecordBatch as Decode>::Model>::empty() + log_decode(bytes@, start as int)->0
        =~= log_decode(bytes@, start as int)->0);
    if offset >= len {
        return Some(out);
    }
    while offset < len
        invariant
            len == bytes@.len(),
            start < len,
            offset <= len,
            log_decode(bytes@, start as int) == match log_decode(bytes@, offset as int) {
                Some(rest) => Some(models(out@) + rest),
                None => None,
            },
        decreases len - offset,
    {
        let here = offset;
        match RecordBatch::decode(bytes, &mut offset) {
            Some(b) => {
                if offset <= here || offset > len {
                    return None;
                }
                let ghost before = out@;
                proof {
                    match log_decode(bytes@, offset as int) {
                        Some(rest) => {
                            assert(models(before.push(b)) + rest =~= models(before) + (seq![
                                b.model(),
                            ] + rest));
                        },
                        None => {},
                    }
                }
                out.push(b);
            },
            None => {
                return None;
            },
        }
    }
    assert(models(out@) + Seq::empty() =~= models(out@));
    Some(out)
}

/// Decodes a whole log segment: record batches until the end of the input.
/// A single malformed batch fails the whole segment.
pub fn decode_log_segment(bytes: &[u8]) -> (r: Option<Vec<RecordBatch>>)
    ensures
        match log_decode(bytes@, 0) {
            Some(ms) => r is Some && models(r->0@) == ms,
            None => r is None,
        },
{
    decode_batches(bytes, 0)
}

proof fn lemma_log_round_trip(v: Seq<RecordBatch>, s: Seq<u8>, pos: int)
    requires
        all_wf(v),
        prefix_at(s, pos, seq_encode(v)),
        pos + seq_encode(v).len() == s.len(),
    ensures
        log_decode(s, pos) == Some(models(v)),
    decreases v.len(),
{
    if v.len() == 0 {
        assert(models(v) =~= Seq::<<RecordBatch as Decode>::Model>::empty());
    } else {
        let first = v[0];
        let rest = v.drop_first();
        lemma_seq_encode_first(v);
        lemma_prefix_at_cat(s, pos, first.spec_encode(), seq_encode(rest));
        assert(first.wf());
        first.lemma_round_trip(s, pos);
        crate::integers::lemma_i64_width(first.base_offset);
        assert(all_wf(rest)) by {
            assert forall|i: int| 0 <= i < rest.len() implies #[trigger] rest[i].wf() by {
                assert(rest[i] == v[i + 1]);
            }
        }
        lemma_log_round_trip(rest, s, pos + first.spec_encode().len());
        assert(models(v) =~= seq![first.model()] + models(rest));
    }
}

/// Decoding the encoding of a well-formed segment gives its batches back, and
/// reads it to its end.
pub proof fn law_log_file_round_trip(f: LogFile)
    requires
        f.wf(),
    ensures
        LogFile::spec_decode(f.spec_encode(), 0) == Some((f.model(), f.spec_encode().len() as int)),
{
    let s = f.spec_encode();
    assert(s.subrange(0, s.len() as int) =~= s);
    lemma_log_round_trip(f.data@, s, 0);
}

/// A whole log segment held in memory.
#[derive(Debug)]
pub struct LogFile {
    pub data: Vec<RecordBatch>,
}

/// A segment is its batches back to back, with no count in front.
impl Encode for LogFile {
    open spec fn wf(&self) -> bool {
        all_wf(self.data@)
    }

    open spec fn spec_encode(&self) -> Seq<u8> {
        seq_encode(self.data@)
    }

    fn encode(&self) -> (r: Vec<u8>) {
        encode_elems(&self.data)
    }
}

/// Decoding reads batches up to the end of the input.
impl Decode for LogFile {
    type Model = Seq<<RecordBatch as Decode>::Model>;

    open spec fn model(&self) -> Self::Model {
        models(self.data@)
    }

    open spec fn spec_decode(s: Seq<u8>, pos: int) -> Option<(Self::Model, int)> {
        if 0 <= pos <= s.len() {
            match log_decode(s, pos) {
                Some(ms) => Some((ms, s.len() as int)),
                None => None,
            }
        } else {
            None
        }
    }

    fn decode(bytes: &[u8], offset: &mut usize) -> (r: Option<Self>) {
        let len = bytes.len();
        if *offset > len {
            return None;
        }
        match decode_batches(bytes, *offset) {
            Some(data) => {
                *offset = len;
                Some(LogFile { data })
            },
            None => None,
        }
    }
}

impl Size for LogFile {
    fn size_in_bytes(&self) -> (r: usize) {
        size_elems(&self.data)
    }
}

/// Announces a topic: its name and identifier.
#[derive(Debug)]
pub struct TopicRecord {
    pub name: CString,
    pub id: UUID,
    pub tagged_fields: u8,
}

impl TopicRecord {
    /// The fields in wire order.
    pub open spec fn parts(&self) -> ((CString, UUID), u8) {
        ((self.name, self.id), self.tagged_fields)
    }
}

impl Encode for TopicRecord {
    open spec fn wf(&self) -> bool {
        self.parts().wf()
    }

    open spec fn spec_encode(&self) -> Seq<u8> {
        self.parts().spec_encode()
    }

    fn encode(&self) -> (r: Vec<u8>) {
        let v = self.name.encode();
        let v = cat(v, self.id.encode());
        let v = cat(v, self.tagged_fields.encode());
        v
    }
}

impl Decode for TopicRecord {
    type Model = <((CString, UUID), u8) as Decode>::Model;

    open spec fn model(&self) -> Self::Model {
        self.parts().model()
    }

    open spec fn spec_decode(s: Seq<u8>, pos: int) -> Option<(Self::Model, int)> {
        <((CString, UUID), u8) as Decode>::spec_decode(s, pos)
    }

    fn decode(bytes: &[u8], offset: &mut usize) -> (r: Option<Self>) {
        match <((CString, UUID), u8) as Decode>::decode(bytes, offset) {
            Some(((name, id), tagged_fields)) => Some(TopicRecord { name, id, tagged_fields }),
            None => None,
        }
    }
}

impl Codec for TopicRecord {
    proof fn lemma_round_trip(&self, s: Seq<u8>, pos: int) {
        self.parts().lemma_round_trip(s, pos);
    }
}

impl Size for TopicRecord {
    fn size_in_bytes(&self) -> (r: usize) {
        let n = self.name.size_in_bytes();
        let n = n.saturating_add(self.id.size_in_bytes());
        let n = n.saturating_add(self.tagged_fields.size_in_bytes());
        n
    }
}

/// Sets the level of a named cluster feature.
#[derive(Debug)]
pub struct FeatureLevelRecord {
    pub name: CString,
    pub feature_level: i16,
    pub tagged_field: u8,
}

impl FeatureLevelRecord {
    /// The fields in wire order.
    pub open spec fn parts(&self) -> ((CString, i16), u8) {
        ((self.name, self.feature_level), self.tagged_field)
    }
}

impl Encode for FeatureLevelRecord {
    open spec fn wf(&self) -> bool {
        self.parts().wf()
    }

    open spec fn spec_encode(&self) -> Seq<u8> {
        self.parts().spec_encode()
    }

    fn encode(&self) -> (r: Vec<u8>) {
        let v = self.name.encode();
        let v = cat(v, self.feature_level.encode());
        let v = cat(v, self.tagged_field.encode());
        v
    }
}

impl Decode for FeatureLevelRecord {
    type Model = <((CString, i16), u8) as Decode>::Model;

    open spec fn model(&self) -> Self::Model {
        self.parts().model()
    }

    open spec fn spec_decode(s: Seq<u8>, pos: int) -> Option<(Self::Model, int)> {
        <((CString, i16), u8) as Decode>::spec_decode(s, pos)
    }

    fn decode(bytes: &[u8], offset: &mut usize) -> (r: Option<Self>) {
        match <((CString, i16), u8) as Decode>::decode(bytes, offset) {
            Some(((name, feature_level), tagged_field)) => Some(FeatureLevelRecord { name, feature_level, tagged_field }),
            None => None,
        }
    }
}

impl Codec for FeatureLevelRecord {
    proof fn lemma_round_trip(&self, s: Seq<u8>, pos: int) {
        self.parts().lemma_round_trip(s, pos);
    }
}

impl Size for FeatureLevelRecord {
    fn size_in_bytes(&self) -> (r: usize) {
        let n = self.name.size_in_bytes();
        let n = n.saturating_add(self.feature_level.size_in_bytes());
        let n = n.saturating_add(self.tagged_field.size_in_bytes());
        n
    }
}

/// Announces one partition of the topic with identifier `topic_id`.
#[derive(Debug)]
pub struct PartitionRecord {
    pub id: i32,
    pub topic_id: UUID,
    pub replicas: CVec<i32>,
    pub sync_replicas: CVec<i32>,
    pub removing_replicas: CVec<i32>,
    pub adding_replicas: CVec<i32>,
    pub leader: i32,
    pub leader_epoch: i32,
    pub partition_epoch: i32,
    pub directories: CVec<UUID>,
    pub tagged_fields: u8,
}

impl PartitionRecord {
    /// The fields in wire order.
    pub open spec fn parts(&self) -> ((((((((((i32, UUID), CVec<i32>), CVec<i32>), CVec<i32>), CVec<i32>), i32), i32), i32), CVec<UUID>), u8) {
        ((((((((((self.id, self.topic_id), self.replicas), self.sync_replicas), self.removing_replicas), self.adding_replicas), self.leader), self.leader_epoch), self.partition_epoch), self.directories), self.tagged_fields)
    }
}

impl Encode for PartitionRecord {
    open spec fn wf(&self) -> bool {
        self.parts().wf()
    }

    open spec fn spec_encode(&self) -> Seq<u8> {
        self.parts().spec_encode()
    }

    fn encode(&self) -> (r: Vec<u8>) {
        let v = self.id.encode();
        let v = cat(v, self.topic_id.encode());
        let v = cat(v, self.replicas.encode());
        let v = cat(v, self.sync_replicas.encode());
        let v = cat(v, self.removing_replicas.encode());
        let v = cat(v, self.adding_replicas.encode());
        let v = cat(v, self.leader.encode());
        let v = cat(v, self.leader_epoch.encode());
        let v = cat(v, self.partition_epoch.encode());
        let v = cat(v, self.directories.encode());
        let v = cat(v, self.tagged_fields.encode());
        v
    }
}

impl Decode for PartitionRecord {
    type Model = <((((((((((i32, UUID), CVec<i32>), CVec<i32>), CVec<i32>), CVec<i32>), i32), i32), i32), CVec<UUID>), u8) as Decode>::Model;

    open spec fn model(&self) -> Self::Model {
        self.parts().model()
    }

    open spec fn spec_decode(s: Seq<u8>, pos: int) -> Option<(Self::Model, int)> {
        <((((((((((i32, UUID), CVec<i32>), CVec<i32>), CVec<i32>), CVec<i32>), i32), i32), i32), CVec<UUID>), u8) as Decode>::spec_decode(s, pos)
    }

    fn decode(bytes: &[u8], offset: &mut usize) -> (r: Option<Self>) {
        match <((((((((((i32, UUID), CVec<i32>), CVec<i32>), CVec<i32>), CVec<i32>), i32), i32), i32), CVec<UUID>), u8) as Decode>::decode(bytes, offset) {
            Some(((((((((((id, topic_id), replicas), sync_replicas), removing_replicas), adding_replicas), leader), leader_epoch), partition_epoch), directories), tagged_fields)) => Some(PartitionRecord { id, topic_id, replicas, sync_replicas, removing_replicas, adding_replicas, leader, leader_epoch, partition_epoch, directories, tagged_fields }),
            None => None,
        }
    }
}

impl Codec for PartitionRecord {
    proof fn lemma_round_trip(&self, s: Seq<u8>, pos: int) {
        self.parts().lemma_round_trip(s, pos);
    }
}

impl Size for PartitionRecord {
    fn size_in_bytes(&self) -> (r: usize) {
        let n = self.id.size_in_bytes();
        let n = n.saturating_add(self.topic_id.size_in_bytes());
        let n = n.saturating_add(self.replicas.size_in_bytes());
        let n = n.saturating_add(self.sync_replicas.size_in_bytes());
        let n = n.saturating_add(self.removing_replicas.size_in_bytes());
        let n = n.saturating_add(self.adding_replicas.size_in_bytes());
        let n = n.saturating_add(self.leader.size_in_bytes());
        let n = n.saturating_add(self.leader_epoch.size_in_bytes());
        let n = n.saturating_add(self.partition_epoch.size_in_bytes());
        let n = n.saturating_add(self.directories.size_in_bytes());
        let n = n.saturating_add(self.tagged_fields.size_in_bytes());
        n
    }
}

/// One record of a batch. `length` is informational: every field after it
/// delimits itself.
#[derive(Debug)]
pub struct Record {
    pub length: Varint,
    pub attributes: u8,
    pub timestamp: Varint,
    pub delta_offset: Varint,
    pub key: CSignedVec<i32>,
    pub value_length: Varint,
    pub frame_version: u8,
    pub value: GenericRecord,
    pub headers_array: UVarint,
}

impl Record {
    /// The fields in wire order.
    pub open spec fn parts(&self) -> ((((((((Varint, u8), Varint), Varint), CSignedVec<i32>), Varint), u8), GenericRecord), UVarint) {
        ((((((((self.length, self.attributes), self.timestamp), self.delta_offset), self.key), self.value_length), self.frame_version), self.value), self.headers_array)
    }
}

impl Encode for Record {
    open spec fn wf(&self) -> bool {
        self.parts().wf()
    }

    open spec fn spec_encode(&self) -> Seq<u8> {
        self.parts().spec_encode()
    }

    fn encode(&self) -> (r: Vec<u8>) {
        let v = self.length.encode();
        let v = cat(v, self.attributes.encode());
        let v = cat(v, self.timestamp.encode());
        let v = cat(v, self.delta_offset.encode());
        let v = cat(v, self.key.encode());
        let v = cat(v, self.value_length.encode());
        let v = cat(v, self.frame_version.encode());
        let v = cat(v, self.value.encode());
        let v = cat(v, self.headers_array.encode());
        v
    }
}

impl Decode for Record {
    type Model = <((((((((Varint, u8), Varint), Varint), CSignedVec<i32>), Varint), u8), GenericRecord), UVarint) as Decode>::Model;

    open spec fn model(&self) -> Self::Model {
        self.parts().model()
    }

    open spec fn spec_decode(s: Seq<u8>, pos: int) -> Option<(Self::Model, int)> {
        <((((((((Varint, u8), Varint), Varint), CSignedVec<i32>), Varint), u8), GenericRecord), UVarint) as Decode>::spec_decode(s, pos)
    }

    fn decode(bytes: &[u8], offset: &mut usize) -> (r: Option<Self>) {
        match <((((((((Varint, u8), Varint), Varint), CSignedVec<i32>), Varint), u8), GenericRecord), UVarint) as Decode>::decode(bytes, offset) {
            Some(((((((((length, attributes), timestamp), delta_offset), key), value_length), frame_version), value), headers_array)) => Some(Record { length, attributes, timestamp, delta_offset, key, value_length, frame_version, value, headers_array }),
            None => None,
        }
    }
}

impl Codec for Record {
    proof fn lemma_round_trip(&self, s: Seq<u8>, pos: int) {
        self.parts().lemma_round_trip(s, pos);
    }
}

impl Size for Record {
    fn size_in_bytes(&self) -> (r: usize) {
        let n = self.length.size_in_bytes();
        let n = n.saturating_add(self.attributes.size_in_bytes());
        let n = n.saturating_add(self.timestamp.size_in_bytes());
        let n = n.saturating_add(self.delta_offset.size_in_bytes());
        let n = n.saturating_add(self.key.size_in_bytes());
        let n = n.saturating_add(self.value_length.size_in_bytes());
        let n = n.saturating_add(self.frame_version.size_in_bytes());
        let n = n.saturating_add(self.value.size_in_bytes());
        let n = n.saturating_add(self.headers_array.size_in_bytes());
        n
    }
}

/// A batch of the cluster metadata log: a fixed header, then an `i32`-counted
/// sequence of records. `crc` covers everything from `attributes` on.
#[derive(Debug)]
pub struct RecordBatch {
    pub base_offset: i64,
    pub batch_length: i32,
    pub partition_leader_epoch: i32,
    pub magic_byte: u8,
    pub crc: i32,
    pub attributes: i16,
    pub last_offset_delta: i32,
    pub base_timestamp: i64,
    pub max_timestamp: i64,
    pub producer_id: i64,
    pub producer_epoch: i16,
    pub base_sequence: i32,
    pub records: Vec<Record>,
}

impl RecordBatch {
    /// The fields in wire order.
    pub open spec fn parts(&self) -> ((((((((((((i64, i32), i32), u8), i32), i16), i32), i64), i64), i64), i16), i32), Vec<Record>) {
        ((((((((((((self.base_offset, self.batch_length), self.partition_leader_epoch), self.magic_byte), self.crc), self.attributes), self.last_offset_delta), self.base_timestamp), self.max_timestamp), self.producer_id), self.producer_epoch), self.base_sequence), self.records)
    }
}

impl Encode for RecordBatch {
    open spec fn wf(&self) -> bool {
        self.parts().wf()
    }

    open spec fn spec_encode(&self) -> Seq<u8> {
        self.parts().spec_encode()
    }

    fn encode(&self) -> (r: Vec<u8>) {
        let v = self.base_offset.encode();
        let v = cat(v, self.batch_length.encode());
        let v = cat(v, self.partition_leader_epoch.encode());
        let v = cat(v, self.magic_byte.encode());
        let v = cat(v, self.crc.encode());
        let v = cat(v, self.attributes.encode());
        let v = cat(v, self.last_offset_delta.encode());
        let v = cat(v, self.base_timestamp.encode());
        let v = cat(v, self.max_timestamp.encode());
        let v = cat(v, self.producer_id.encode());
        let v = cat(v, self.producer_epoch.encode());
        let v = cat(v, self.base_sequence.encode());
        let v = cat(v, self.records.encode());
        v
    }
}

impl Decode for RecordBatch {
    type Model = <((((((((((((i64, i32), i32), u8), i32), i16), i32), i64), i64), i64), i16), i32), Vec<Record>) as Decode>::Model;

    open spec fn model(&self) -> Self::Model {
        self.parts().model()
    }

    open spec fn spec_decode(s: Seq<u8>, pos: int) -> Option<(Self::Model, int)> {
        <((((((((((((i64, i32), i32), u8), i32), i16), i32), i64), i64), i64), i16), i32), Vec<Record>) as Decode>::spec_decode(s, pos)
    }

    fn decode(bytes: &[u8], offset: &mut usize) -> (r: Option<Self>) {
        match <((((((((((((i64, i32), i32), u8), i32), i16), i32), i64), i64), i64), i16), i32), Vec<Record>) as Decode>::decode(bytes, offset) {
            Some(((((((((((((base_offset, batch_length), partition_leader_epoch), magic_byte), crc), attributes), last_offset_delta), base_timestamp), max_timestamp), producer_id), producer_epoch), base_sequence), records)) => Some(RecordBatch { base_offset, batch_length, partition_leader_epoch, magic_byte, crc, attributes, last_offset_delta, base_timestamp, max_timestamp, producer_id, producer_epoch, base_sequence, records }),
            None => None,
        }
    }
}

impl Codec for RecordBatch {
    proof fn lemma_round_trip(&self, s: Seq<u8>, pos: int) {
        self.parts().lemma_round_trip(s, pos);
    }
}

impl Size for RecordBatch {
    fn size_in_bytes(&self) -> (r: usize) {
        let n = self.base_offset.size_in_bytes();
        let n = n.saturating_add(self.batch_length.size_in_bytes());
        let n = n.saturating_add(self.partition_leader_epoch.size_in_bytes());
        let n = n.saturating_add(self.magic_byte.size_in_bytes());
        let n = n.saturating_add(self.crc.size_in_bytes());
        let n = n.saturating_add(self.attributes.size_in_bytes());
        let n = n.saturating_add(self.last_offset_delta.size_in_bytes());
        let n = n.saturating_add(self.base_timestamp.size_in_bytes());
        let n = n.saturating_add(self.max_timestamp.size_in_bytes());
        let n = n.saturating_add(self.producer_id.size_in_bytes());
        let n = n.saturating_add(self.producer_epoch.size_in_bytes());
        let n = n.saturating_add(self.base_sequence.size_in_bytes());
        let n = n.saturating_add(self.records.size_in_bytes());
        n
    }
}

/// A record header of a partition log.
#[derive(Debug)]
pub struct TopicHeaders {
    pub header_key: CString,
    pub value: Vec<u8>,
}

impl TopicHeaders {
    /// The fields in wire order.
    pub open spec fn parts(&self) -> (CString, Vec<u8>) {
        (self.header_key, self.value)
    }
}

impl Encode for TopicHeaders {
    open spec fn wf(&self) -> bool {
        self.parts().wf()
    }

    open spec fn spec_encode(&self) -> Seq<u8> {
        self.parts().spec_encode()
    }

    fn encode(&self) -> (r: Vec<u8>) {
        let v = self.header_key.encode();
        let v = cat(v, self.value.encode());
        v
    }
}

impl Decode for TopicHeaders {
    type Model = <(CString, Vec<u8>) as Decode>::Model;

    open spec fn model(&self) -> Self::Model {
        self.parts().model()
    }

    open spec fn spec_decode(s: Seq<u8>, pos: int) -> Option<(Self::Model, int)> {
        <(CString, Vec<u8>) as Decode>::spec_decode(s, pos)
    }

    fn decode(bytes: &[u8], offset: &mut usize) -> (r: Option<Self>) {
        match <(CString, Vec<u8>) as Decode>::decode(bytes, offset) {
            Some((header_key, value)) => Some(TopicHeaders { header_key, value }),
            None => None,
        }
    }
}

impl Codec for TopicHeaders {
    proof fn lemma_round_trip(&self, s: Seq<u8>, pos: int) {
        self.parts().lemma_round_trip(s, pos);
    }
}

impl Size for TopicHeaders {
    fn size_in_bytes(&self) -> (r: usize) {
        let n = self.header_key.size_in_bytes();
        let n = n.saturating_add(self.value.size_in_bytes());
        n
    }
}

/// One record of a partition log, with an opaque text value.
#[derive(Debug)]
pub struct TopicRecordDisk {
    pub length: Varint,
    pub attributes: u8,
    pub timestamp: Varint,
    pub delta_offset: Varint,
    pub key: CSignedVec<i32>,
    pub value: CSignedString,
    pub headers_array: CSignedVec<TopicHeaders>,
}

impl TopicRecordDisk {
    /// The fields in wire order.
    pub open spec fn parts(&self) -> ((((((Varint, u8), Varint), Varint), CSignedVec<i32>), CSignedString), CSignedVec<TopicHeaders>) {
        ((((((self.length, self.attributes), self.timestamp), self.delta_offset), self.key), self.value), self.headers_array)
    }
}

impl Encode for TopicRecordDisk {
    open spec fn wf(&self) -> bool {
        self.parts().wf()
    }

    open spec fn spec_encode(&self) -> Seq<u8> {
        self.parts().spec_encode()
    }

    fn encode(&self) -> (r: Vec<u8>) {
        let v = self.length.encode();
        let v = cat(v, self.attributes.encode());
        let v = cat(v, self.timestamp.encode());
        let v = cat(v, self.delta_offset.encode());
        let v = cat(v, self.key.encode());
        let v = cat(v, self.value.encode());
        let v = cat(v, self.headers_array.encode());
        v
    }
}

impl Decode for TopicRecordDisk {
    type Model = <((((((Varint, u8), Varint), Varint), CSignedVec<i32>), CSignedString), CSignedVec<TopicHeaders>) as Decode>::Model;

    open spec fn model(&self) -> Self::Model {
        self.parts().model()
    }

    open spec fn spec_decode(s: Seq<u8>, pos: int) -> Option<(Self::Model, int)> {
        <((((((Varint, u8), Varint), Varint), CSignedVec<i32>), CSignedString), CSignedVec<TopicHeaders>) as Decode>::spec_decode(s, pos)
    }

    fn decode(bytes: &[u8], offset: &mut usize) -> (r: Option<Self>) {
        match <((((((Varint, u8), Varint), Varint), CSignedVec<i32>), CSignedString), CSignedVec<TopicHeaders>) as Decode>::decode(bytes, offset) {
            Some(((((((length, attributes), timestamp), delta_offset), key), value), headers_array)) => Some(TopicRecordDisk { length, attributes, timestamp, delta_offset, key, value, headers_array }),
            None => None,
        }
    }
}

impl Codec for TopicRecordDisk {
    proof fn lemma_round_trip(&self, s: Seq<u8>, pos: int) {
        self.parts().lemma_round_trip(s, pos);
    }
}

impl Size for TopicRecordDisk {
    fn size_in_bytes(&self) -> (r: usize) {
        let n = self.length.size_in_bytes();
        let n = n.saturating_add(self.attributes.size_in_bytes());
        let n = n.saturating_add(self.timestamp.size_in_bytes());
        let n = n.saturating_add(self.delta_offset.size_in_bytes());
        let n = n.saturating_add(self.key.size_in_bytes());
        let n = n.saturating_add(self.value.size_in_bytes());
        let n = n.saturating_add(self.headers_array.size_in_bytes());
        n
    }
}

/// A batch of a partition log, its records decoded.
#[derive(Debug)]
pub struct TopicRecordBatch {
    pub base_offset: i64,
    pub batch_length: i32,
    pub partition_leader_epoch: i32,
    pub magic_byte: u8,
    pub crc: u32,
    pub attributes: i16,
    pub last_offset_delta: i32,
    pub base_timestamp: i64,
    pub max_timestamp: i64,
    pub producer_id: i64,
    pub producer_epoch: i16,
    pub base_sequence: i32,
    pub records: Vec<TopicRecordDisk>,
}

impl TopicRecordBatch {
    /// The fields in wire order.
    pub open spec fn parts(&self) -> ((((((((((((i64, i32), i32), u8), u32), i16), i32), i64), i64), i64), i16), i32), Vec<TopicRecordDisk>) {
        ((((((((((((self.base_offset, self.batch_length), self.partition_leader_epoch), self.magic_byte), self.crc), self.attributes), self.last_offset_delta), self.base_timestamp), self.max_timestamp), self.producer_id), self.producer_epoch), self.base_sequence), self.records)
    }
}

impl Encode for TopicRecordBatch {
    open spec fn wf(&self) -> bool {
        self.parts().wf()
    }

    open spec fn spec_encode(&self) -> Seq<u8> {
        self.parts().spec_encode()
    }

    fn encode(&self) -> (r: Vec<u8>) {
        let v = self.base_offset.encode();
        let v = cat(v, self.batch_length.encode());
        let v = cat(v, self.partition_leader_epoch.encode());
        let v = cat(v, self.magic_byte.encode());
        let v = cat(v, self.crc.encode());
        let v = cat(v, self.attributes.encode());
        let v = cat(v, self.last_offset_delta.encode());
        let v = cat(v, self.base_timestamp.encode());
        let v = cat(v, self.max_timestamp.encode());
        let v = cat(v, self.producer_id.encode());
        let v = cat(v, self.producer_epoch.encode());
        let v = cat(v, self.base_sequence.encode());
        let v = cat(v, self.records.encode());
        v
    }
}

impl Decode for TopicRecordBatch {
    type Model = <((((((((((((i64, i32), i32), u8), u32), i16), i32), i64), i64), i64), i16), i32), Vec<TopicRecordDisk>) as Decode>::Model;

    open spec fn model(&self) -> Self::Model {
        self.parts().model()
    }

    open spec fn spec_decode(s: Seq<u8>, pos: int) -> Option<(Self::Model, int)> {
        <((((((((((((i64, i32), i32), u8), u32), i16), i32), i64), i64), i64), i16), i32), Vec<TopicRecordDisk>) as Decode>::spec_decode(s, pos)
    }

    fn decode(bytes: &[u8], offset: &mut usize) -> (r: Option<Self>) {
        match <((((((((((((i64, i32), i32), u8), u32), i16), i32), i64), i64), i64), i16), i32), Vec<TopicRecordDisk>) as Decode>::decode(bytes, offset) {
            Some(((((((((((((base_offset, batch_length), partition_leader_epoch), magic_byte), crc), attributes), last_offset_delta), base_timestamp), max_timestamp), producer_id), producer_epoch), base_sequence), records)) => Some(TopicRecordBatch { base_offset, batch_length, partition_leader_epoch, magic_byte, crc, attributes, last_offset_delta, base_timestamp, max_timestamp, producer_id, producer_epoch, base_sequence, records }),
            None => None,
        }
    }
}

impl Codec for TopicRecordBatch {
    proof fn lemma_round_trip(&self, s: Seq<u8>, pos: int) {
        self.parts().lemma_round_trip(s, pos);
    }
}

impl Size for TopicRecordBatch {
    fn size_in_bytes(&self) -> (r: usize) {
        let n = self.base_offset.size_in_bytes();
        let n = n.saturating_add(self.batch_length.size_in_bytes());
        let n = n.saturating_add(self.partition_leader_epoch.size_in_bytes());
        let n = n.saturating_add(self.magic_byte.size_in_bytes());
        let n = n.saturating_add(self.crc.size_in_bytes());
        let n = n.saturating_add(self.attributes.size_in_bytes());
        let n = n.saturating_add(self.last_offset_delta.size_in_bytes());
        let n = n.saturating_add(self.base_timestamp.size_in_bytes());
        let n = n.saturating_add(self.max_timestamp.size_in_bytes());
        let n = n.saturating_add(self.producer_id.size_in_bytes());
        let n = n.saturating_add(self.producer_epoch.size_in_bytes());
        let n = n.saturating_add(self.base_sequence.size_in_bytes());
        let n = n.saturating_add(self.records.size_in_bytes());
        n
    }
}

/// A batch whose records are kept as one opaque blob.
#[derive(Debug)]
pub struct MessageData {
    pub base_offset: i64,
    pub batch_length: i32,
    pub partition_leader_epoch: i32,
    pub magic_byte: u8,
    pub crc: i32,
    pub attributes: i16,
    pub last_offset_delta: i32,
    pub base_timestamp: i64,
    pub max_timestamp: i64,
    pub producer_id: i64,
    pub producer_epoch: i16,
    pub base_sequence: i32,
    pub message: ByteBuf,
}

impl MessageData {
    /// The fields in wire order.
    pub open spec fn parts(&self) -> ((((((((((((i64, i32), i32), u8), i32), i16), i32), i64), i64), i64), i16), i32), ByteBuf) {
        ((((((((((((self.base_offset, self.batch_length), self.partition_leader_epoch), self.magic_byte), self.crc), self.attributes), self.last_offset_delta), self.base_timestamp), self.max_timestamp), self.producer_id), self.producer_epoch), self.base_sequence), self.message)
    }
}

impl Encode for MessageData {
    open spec fn wf(&self) -> bool {
        self.parts().wf()
    }

    open spec fn spec_encode(&self) -> Seq<u8> {
        self.parts().spec_encode()
    }

    fn encode(&self) -> (r: Vec<u8>) {
        let v = self.base_offset.encode();
        let v = cat(v, self.batch_length.encode());
        let v = cat(v, self.partition_leader_epoch.encode());
        let v = cat(v, self.magic_byte.encode());
        let v = cat(v, self.crc.encode());
        let v = cat(v, self.attributes.encode());
        let v = cat(v, self.last_offset_delta.encode());
        let v = cat(v, self.base_timestamp.encode());
        let v = cat(v, self.max_timestamp.encode());
        let v = cat(v, self.producer_id.encode());
        let v = cat(v, self.producer_epoch.encode());
        let v = cat(v, self.base_sequence.encode());
        let v = cat(v, self.message.encode());
        v
    }
}

impl Decode for MessageData {
    type Model = <((((((((((((i64, i32), i32), u8), i32), i16), i32), i64), i64), i64), i16), i32), ByteBuf) as Decode>::Model;

    open spec fn model(&self) -> Self::Model {
        self.parts().model()
    }

    open spec fn spec_decode(s: Seq<u8>, pos: int) -> Option<(Self::Model, int)> {
        <((((((((((((i64, i32), i32), u8), i32), i16), i32), i64), i64), i64), i16), i32), ByteBuf) as Decode>::spec_decode(s, pos)
    }

    fn decode(bytes: &[u8], offset: &mut usize) -> (r: Option<Self>) {
        match <((((((((((((i64, i32), i32), u8), i32), i16), i32), i64), i64), i64), i16), i32), ByteBuf) as Decode>::decode(bytes, offset) {
            Some(((((((((((((base_offset, batch_length), partition_leader_epoch), magic_byte), crc), attributes), last_offset_delta), base_timestamp), max_timestamp), producer_id), producer_epoch), base_sequence), message)) => Some(MessageData { base_offset, batch_length, partition_leader_epoch, magic_byte, crc, attributes, last_offset_delta, base_timestamp, max_timestamp, producer_id, producer_epoch, base_sequence, message }),
            None => None,
        }
    }
}

impl Codec for MessageData {
    proof fn lemma_round_trip(&self, s: Seq<u8>, pos: int) {
        self.parts().lemma_round_trip(s, pos);
    }
}

impl Size for MessageData {
    fn size_in_bytes(&self) -> (r: usize) {
        let n = self.base_offset.size_in_bytes();
        let n = n.saturating_add(self.batch_length.size_in_bytes());
        let n = n.saturating_add(self.partition_leader_epoch.size_in_bytes());
        let n = n.saturating_add(self.magic_byte.size_in_bytes());
        let n = n.saturating_add(self.crc.size_in_bytes());
        let n = n.saturating_add(self.attributes.size_in_bytes());
        let n = n.saturating_add(self.last_offset_delta.size_in_bytes());
        let n = n.saturating_add(self.base_timestamp.size_in_bytes());
        let n = n.saturating_add(self.max_timestamp.size_in_bytes());
        let n = n.saturating_add(self.producer_id.size_in_bytes());
        let n = n.saturating_add(self.producer_epoch.size_in_bytes());
        let n = n.saturating_add(self.base_sequence.size_in_bytes());
        let n = n.saturating_add(self.message.size_in_bytes());
        n
    }
}
} // verus!
