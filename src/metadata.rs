//! The metadata index: the topics that the cluster metadata log announces,
//! each with its partitions, keyed by name.
use vstd::prelude::*;

use crate::array::CVec;
use crate::ids::UUID;
use crate::log::{PartitionRecord, Record, RecordBatch, RecordValue, TopicRecord};
use crate::pair::cat;
use crate::strings::{utf8_of, CString};
use crate::{Codec, Decode, Encode, Size};

verus! {

/// One partition of a described topic.
#[derive(Debug)]
pub struct PartitionResponse {
    pub error_code: i16,
    pub partition_idx: i32,
    pub leader_id: i32,
    pub leader_epoch: i32,
    pub replica_nodes: CVec<i32>,
    pub in_sync_replicas: CVec<i32>,
    pub eligible_leader_replicas: CVec<i32>,
    pub last_known_elr: CVec<i32>,
    pub offline_replica: CVec<i32>,
    pub tag_buffer: u8,
}

impl PartitionResponse {
    /// The fields in wire order.
    pub open spec fn parts(&self) -> (((((((((i16, i32), i32), i32), CVec<i32>), CVec<i32>), CVec<i32>), CVec<i32>), CVec<i32>), u8) {
        (((((((((self.error_code, self.partition_idx), self.leader_id), self.leader_epoch), self.replica_nodes), self.in_sync_replicas), self.eligible_leader_replicas), self.last_known_elr), self.offline_replica), self.tag_buffer)
    }
}

impl Encode for PartitionResponse {
    open spec fn wf(&self) -> bool {
        self.parts().wf()
    }

    open spec fn spec_encode(&self) -> Seq<u8> {
        self.parts().spec_encode()
    }

    fn encode(&self) -> (r: Vec<u8>) {
        let v = self.error_code.encode();
        let v = cat(v, self.partition_idx.encode());
        let v = cat(v, self.leader_id.encode());
        let v = cat(v, self.leader_epoch.encode());
        let v = cat(v, self.replica_nodes.encode());
        let v = cat(v, self.in_sync_replicas.encode());
        let v = cat(v, self.eligible_leader_replicas.encode());
        let v = cat(v, self.last_known_elr.encode());
        let v = cat(v, self.offline_replica.encode());
        let v = cat(v, self.tag_buffer.encode());
        v
    }
}

impl Decode for PartitionResponse {
    type Model = <(((((((((i16, i32), i32), i32), CVec<i32>), CVec<i32>), CVec<i32>), CVec<i32>), CVec<i32>), u8) as Decode>::Model;

    open spec fn model(&self) -> Self::Model {
        self.parts().model()
    }

    open spec fn spec_decode(s: Seq<u8>, pos: int) -> Option<(Self::Model, int)> {
        <(((((((((i16, i32), i32), i32), CVec<i32>), CVec<i32>), CVec<i32>), CVec<i32>), CVec<i32>), u8) as Decode>::spec_decode(s, pos)
    }

    fn decode(bytes: &[u8], offset: &mut usize) -> (r: Option<Self>) {
        match <(((((((((i16, i32), i32), i32), CVec<i32>), CVec<i32>), CVec<i32>), CVec<i32>), CVec<i32>), u8) as Decode>::decode(bytes, offset) {
            Some((((((((((error_code, partition_idx), leader_id), leader_epoch), replica_nodes), in_sync_replicas), eligible_leader_replicas), last_known_elr), offline_replica), tag_buffer)) => Some(PartitionResponse { error_code, partition_idx, leader_id, leader_epoch, replica_nodes, in_sync_replicas, eligible_leader_replicas, last_known_elr, offline_replica, tag_buffer }),
            None => None,
        }
    }
}

impl Codec for PartitionResponse {
    proof fn lemma_round_trip(&self, s: Seq<u8>, pos: int) {
        self.parts().lemma_round_trip(s, pos);
    }
}

impl Size for PartitionResponse {
    fn size_in_bytes(&self) -> (r: usize) {
        let n = self.error_code.size_in_bytes();
        let n = n.saturating_add(self.partition_idx.size_in_bytes());
        let n = n.saturating_add(self.leader_id.size_in_bytes());
        let n = n.saturating_add(self.leader_epoch.size_in_bytes());
        let n = n.saturating_add(self.replica_nodes.size_in_bytes());
        let n = n.saturating_add(self.in_sync_replicas.size_in_bytes());
        let n = n.saturating_add(self.eligible_leader_replicas.size_in_bytes());
        let n = n.saturating_add(self.last_known_elr.size_in_bytes());
        let n = n.saturating_add(self.offline_replica.size_in_bytes());
        let n = n.saturating_add(self.tag_buffer.size_in_bytes());
        n
    }
}

/// What the metadata index holds for a topic, as sent in a DescribeTopicPartitions answer.
#[derive(Debug)]
pub struct TopicResponse {
    pub error_code: i16,
    pub name: CString,
    pub id: UUID,
    pub is_internal: u8,
    pub partitions_array: CVec<PartitionResponse>,
    pub authorized_ops: i32,
    pub tag_buffer: u8,
}

impl TopicResponse {
    /// The fields in wire order.
    pub open spec fn parts(&self) -> ((((((i16, CString), UUID), u8), CVec<PartitionResponse>), i32), u8) {
        ((((((self.error_code, self.name), self.id), self.is_internal), self.partitions_array), self.authorized_ops), self.tag_buffer)
    }
}

impl Encode for TopicResponse {
    open spec fn wf(&self) -> bool {
        self.parts().wf()
    }

    open spec fn spec_encode(&self) -> Seq<u8> {
        self.parts().spec_encode()
    }

    fn encode(&self) -> (r: Vec<u8>) {
        let v = self.error_code.encode();
        let v = cat(v, self.name.encode());
        let v = cat(v, self.id.encode());
        let v = cat(v, self.is_internal.encode());
        let v = cat(v, self.partitions_array.encode());
        let v = cat(v, self.authorized_ops.encode());
        let v = cat(v, self.tag_buffer.encode());
        v
    }
}

impl Decode for TopicResponse {
    type Model = <((((((i16, CString), UUID), u8), CVec<PartitionResponse>), i32), u8) as Decode>::Model;

    open spec fn model(&self) -> Self::Model {
        self.parts().model()
    }

    open spec fn spec_decode(s: Seq<u8>, pos: int) -> Option<(Self::Model, int)> {
        <((((((i16, CString), UUID), u8), CVec<PartitionResponse>), i32), u8) as Decode>::spec_decode(s, pos)
    }

    fn decode(bytes: &[u8], offset: &mut usize) -> (r: Option<Self>) {
        match <((((((i16, CString), UUID), u8), CVec<PartitionResponse>), i32), u8) as Decode>::decode(bytes, offset) {
            Some(((((((error_code, name), id), is_internal), partitions_array), authorized_ops), tag_buffer)) => Some(TopicResponse { error_code, name, id, is_internal, partitions_array, authorized_ops, tag_buffer }),
            None => None,
        }
    }
}

impl Codec for TopicResponse {
    proof fn lemma_round_trip(&self, s: Seq<u8>, pos: int) {
        self.parts().lemma_round_trip(s, pos);
    }
}

impl Size for TopicResponse {
    fn size_in_bytes(&self) -> (r: usize) {
        let n = self.error_code.size_in_bytes();
        let n = n.saturating_add(self.name.size_in_bytes());
        let n = n.saturating_add(self.id.size_in_bytes());
        let n = n.saturating_add(self.is_internal.size_in_bytes());
        let n = n.saturating_add(self.partitions_array.size_in_bytes());
        let n = n.saturating_add(self.authorized_ops.size_in_bytes());
        let n = n.saturating_add(self.tag_buffer.size_in_bytes());
        n
    }
}
// ------------------------------------------------------------------ index

/// Capability mask reported for every topic.
pub const AUTHORIZED_OPS: i32 = 0x00000df8;

/// Error code of a topic name that the index does not hold.
pub const UNKNOWN_TOPIC_OR_PARTITION: i16 = 3;

/// The values of records `rs`, in order.
pub open spec fn record_values(rs: Seq<Record>) -> Seq<RecordValue> {
    rs.map_values(|r: Record| r.value.r_record)
}

/// The values of all records of a log, batch after batch.
pub open spec fn log_values(bs: Seq<RecordBatch>) -> Seq<RecordValue>
    decreases bs.len(),
{
    if bs.len() == 0 {
        Seq::empty()
    } else {
        record_values(bs[0].records@) + log_values(bs.drop_first())
    }
}

pub open spec fn is_topic_with_id(v: RecordValue, id: Seq<u8>) -> bool {
    match v {
        RecordValue::Topic(t) => t.id.0@ == id,
        _ => false,
    }
}

/// The Partition records of topic `id`, in log order.
pub open spec fn partitions_of(vals: Seq<RecordValue>, id: Seq<u8>) -> Seq<PartitionRecord>
    decreases vals.len(),
{
    if vals.len() == 0 {
        Seq::empty()
    } else {
        let rest = partitions_of(vals.drop_last(), id);
        match vals.last() {
            RecordValue::Partition(p) => if p.topic_id.0@ == id {
                rest.push(p)
            } else {
                rest
            },
            _ => rest,
        }
    }
}

/// Whether the value at `k` is a Topic record that the index keeps: the last
/// one with its id, of a topic that has partitions.
pub open spec fn kept_at(vals: Seq<RecordValue>, k: int) -> bool {
    match vals[k] {
        RecordValue::Topic(t) => {
            &&& forall|j: int| k < j < vals.len() ==> !is_topic_with_id(#[trigger] vals[j], t.id.0@)
            &&& partitions_of(vals, t.id.0@).len() > 0
        },
        _ => false,
    }
}

/// The Topic records that the index keeps, among the first `n` values.
pub open spec fn kept_topics(vals: Seq<RecordValue>, n: nat) -> Seq<TopicRecord>
    decreases n,
{
    if n == 0 {
        Seq::empty()
    } else {
        let rest = kept_topics(vals, (n - 1) as nat);
        if kept_at(vals, n - 1) {
            match vals[n - 1] {
                RecordValue::Topic(t) => rest.push(t),
                _ => rest,
            }
        } else {
            rest
        }
    }
}

/// `e` describes partition record `p`, renumbered `idx` within its topic.
pub open spec fn partition_entry(e: PartitionResponse, p: PartitionRecord, idx: int) -> bool {
    &&& e.error_code == 0
    &&& e.partition_idx == idx
    &&& e.leader_id == p.leader
    &&& e.leader_epoch == p.leader_epoch
    &&& e.wf()
    &&& p.replicas.data@.len() < u64::MAX ==> e.replica_nodes.data@ == p.replicas.data@
    &&& p.sync_replicas.data@.len() < u64::MAX ==> e.in_sync_replicas.data@ == p.sync_replicas.data@
    &&& e.eligible_leader_replicas.data@.len() == 0
    &&& e.last_known_elr.data@.len() == 0
    &&& e.offline_replica.data@.len() == 0
    &&& e.tag_buffer == 0
}

/// `e` describes topic record `t` with partitions `ps`.
pub open spec fn topic_entry(e: TopicResponse, t: TopicRecord, ps: Seq<PartitionRecord>) -> bool {
    &&& e.wf()
    &&& e.error_code == 0
    &&& utf8_of(t.name.0@).len() < usize::MAX ==> e.name.0@ == t.name.0@
    &&& e.id.0@ == t.id.0@
    &&& e.is_internal == 0
    &&& e.partitions_array.data@.len() == ps.len()
    &&& forall|q: int|
        0 <= q < ps.len() ==> partition_entry(#[trigger] e.partitions_array.data@[q], ps[q], q)
    &&& e.authorized_ops == AUTHORIZED_OPS
    &&& e.tag_buffer == t.tagged_fields
}

/// The index built from the values `vals` of a log: one entry per kept
/// Topic record, in log order.
pub open spec fn is_index_of(r: Seq<TopicResponse>, vals: Seq<RecordValue>) -> bool {
    let kept = kept_topics(vals, vals.len());
    &&& r.len() == kept.len()
    &&& forall|k: int|
        0 <= k < r.len() ==> topic_entry(#[trigger] r[k], kept[k], partitions_of(vals, kept[k].id.0@))
}

/// A copy of `v`, cut short only where it could not be encoded.
fn copy_i32s(v: &CVec<i32>) -> (r: CVec<i32>)
    ensures
        r.wf(),
        v.data@.len() < u64::MAX ==> r.data@ == v.data@,
{
    let mut out: Vec<i32> = Vec::new();
    let mut i: usize = 0;
    while i < v.data.len() && (i as u64) < 0xFFFF_FFFF_FFFF_FFFE
        invariant
            i <= v.data@.len(),
            i < u64::MAX,
            out@ == v.data@.subrange(0, i as int),
        decreases v.data@.len() - i,
    {
        out.push(v.data[i]);
        i = i + 1;
        assert(out@ =~= v.data@.subrange(0, i as int));
    }
    proof {
        if v.data@.len() < u64::MAX {
            assert(v.data@.subrange(0, i as int) =~= v.data@);
        }
    }
    CVec { data: out }
}

/// `c` with its length prefix width recomputed. Only a string too long to
/// encode is replaced, by the empty one.
pub fn canonical_name(c: &CString) -> (r: CString)
    ensures
        r.wf(),
        utf8_of(c.0@).len() < usize::MAX ==> r.0@ == c.0@,
{
    let n = crate::strings::utf8_len(&c.0);
    if n < usize::MAX {
        CString::from_string(c.0.clone())
    } else {
        CString::from_string(String::new())
    }
}

fn empty_i32s() -> (r: CVec<i32>)
    ensures
        r.data@.len() == 0,
{
    CVec { data: Vec::new() }
}

/// Moves the values of all records out of a decoded log, in log order.
pub fn flatten_log(batches: Vec<RecordBatch>) -> (r: Vec<RecordValue>)
    ensures
        r@ == log_values(batches@),
{
    let ghost all = batches@;
    let mut bs = batches;
    let mut out: Vec<RecordValue> = Vec::new();
    assert(out@ + log_values(bs@) =~= log_values(all));
    while bs.len() > 0
        invariant
            out@ + log_values(bs@) == log_values(all),
        decreases bs@.len(),
    {
        let ghost bs0 = bs@;
        let b = bs.remove(0);
        assert(bs@ =~= bs0.drop_first());
        let mut rs = b.records;
        assert(out@ + record_values(rs@) + log_values(bs@) =~= log_values(all));
        while rs.len() > 0
            invariant
                out@ + record_values(rs@) + log_values(bs@) == log_values(all),
            decreases rs@.len(),
        {
            let ghost rs0 = rs@;
            let rec = rs.remove(0);
            assert(rs@ =~= rs0.drop_first());
            let ghost out0 = out@;
            out.push(rec.value.r_record);
            assert(out@ + record_values(rs@) =~= out0 + record_values(rs0));
        }
        assert(out@ + record_values(rs@) =~= out@);
    }
    assert(out@ + log_values(bs@) =~= out@);
    out
}

/// Whether a Topic record with identifier `id` stands after position `k`.
fn has_later_topic(vals: &Vec<RecordValue>, k: usize, id: &UUID) -> (r: bool)
    requires
        k < vals@.len(),
    ensures
        r == exists|j: int| k < j < vals@.len() && is_topic_with_id(#[trigger] vals@[j], id.0@),
{
    let n = vals.len();
    let mut j: usize = k + 1;
    while j < n
        invariant
            n == vals@.len(),
            k < j <= vals@.len(),
            forall|i: int| k < i < j ==> !is_topic_with_id(#[trigger] vals@[i], id.0@),
        decreases vals@.len() - j,
    {
        match &vals[j] {
            RecordValue::Topic(t) => {
                if t.id.same_as(id) {
                    return true;
                }
            },
            _ => {},
        }
        j = j + 1;
    }
    false
}

/// The partitions of topic `id`, renumbered from zero in log order.
fn partition_responses(vals: &Vec<RecordValue>, id: &UUID) -> (r: Vec<PartitionResponse>)
    requires
        vals@.len() <= i32::MAX,
    ensures
        r@.len() == partitions_of(vals@, id.0@).len(),
        r@.len() <= vals@.len(),
        forall|q: int|
            0 <= q < r@.len() ==> partition_entry(#[trigger] r@[q], partitions_of(vals@, id.0@)[q], q),
{
    let mut out: Vec<PartitionResponse> = Vec::new();
    let mut k: usize = 0;
    assert(vals@.subrange(0, 0) =~= Seq::<RecordValue>::empty());
    while k < vals.len()
        invariant
            k <= vals@.len() <= i32::MAX,
            out@.len() <= k,
            out@.len() == partitions_of(vals@.subrange(0, k as int), id.0@).len(),
            forall|q: int|
                0 <= q < out@.len() ==> partition_entry(
                    #[trigger] out@[q],
                    partitions_of(vals@.subrange(0, k as int), id.0@)[q],
                    q,
                ),
        decreases vals@.len() - k,
    {
        assert(vals@.subrange(0, k + 1).drop_last() =~= vals@.subrange(0, k as int));
        match &vals[k] {
            RecordValue::Partition(p) => {
                if p.topic_id.same_as(id) {
                    let e = PartitionResponse {
                        error_code: 0,
                        partition_idx: out.len() as i32,
                        leader_id: p.leader,
                        leader_epoch: p.leader_epoch,
                        replica_nodes: copy_i32s(&p.replicas),
                        in_sync_replicas: copy_i32s(&p.sync_replicas),
                        eligible_leader_replicas: empty_i32s(),
                        last_known_elr: empty_i32s(),
                        offline_replica: empty_i32s(),
                        tag_buffer: 0,
                    };
                    out.push(e);
                }
            },
            _ => {},
        }
        k = k + 1;
    }
    assert(vals@.subrange(0, k as int) =~= vals@);
    out
}

/// Builds the index from the record values of the cluster metadata log.
pub fn build_index(vals: &Vec<RecordValue>) -> (r: Vec<TopicResponse>)
    requires
        vals@.len() <= i32::MAX,
    ensures
        is_index_of(r@, vals@),
        forall|k: int| 0 <= k < r@.len() ==> (#[trigger] r@[k]).wf(),
{
    let mut out: Vec<TopicResponse> = Vec::new();
    let mut k: usize = 0;
    while k < vals.len()
        invariant
            k <= vals@.len() <= i32::MAX,
            is_index_of_upto(out@, vals@, k as nat),
        decreases vals@.len() - k,
    {
        match &vals[k] {
            RecordValue::Topic(t) => {
                let later = has_later_topic(vals, k, &t.id);
                let parts = partition_responses(vals, &t.id);
                if !later && parts.len() > 0 {
                    assert(crate::array::all_wf(parts@)) by {
                        assert forall|q: int| 0 <= q < parts@.len() implies #[trigger] parts@[q].wf() by {
                            assert(partition_entry(parts@[q], partitions_of(vals@, t.id.0@)[q], q));
                        }
                    }
                    let e = TopicResponse {
                        error_code: 0,
                        name: canonical_name(&t.name),
                        id: t.id,
                        is_internal: 0,
                        partitions_array: CVec { data: parts },
                        authorized_ops: AUTHORIZED_OPS,
                        tag_buffer: t.tagged_fields,
                    };
                    out.push(e);
                }
            },
            _ => {},
        }
        k = k + 1;
    }
    out
}

/// `r` is the index built from the first `n` values of `vals`.
pub open spec fn is_index_of_upto(r: Seq<TopicResponse>, vals: Seq<RecordValue>, n: nat) -> bool {
    let kept = kept_topics(vals, n);
    &&& r.len() == kept.len()
    &&& forall|k: int|
        0 <= k < r.len() ==> topic_entry(#[trigger] r[k], kept[k], partitions_of(vals, kept[k].id.0@))
}

/// The metadata index of a decoded cluster metadata log. A log of more than
/// `i32::MAX` records has no index (partitions could not be numbered).
pub fn get_topics(batches: Vec<RecordBatch>) -> (r: Vec<TopicResponse>)
    ensures
        log_values(batches@).len() <= i32::MAX ==> is_index_of(r@, log_values(batches@)),
        log_values(batches@).len() > i32::MAX ==> r@.len() == 0,
        forall|k: int| 0 <= k < r@.len() ==> (#[trigger] r@[k]).wf(),
{
    let vals = flatten_log(batches);
    if vals.len() > 0x7FFF_FFFF {
        return Vec::new();
    }
    build_index(&vals)
}

/// Position of the first entry named `name`.
pub fn find_by_name(index: &Vec<TopicResponse>, name: &String) -> (r: Option<usize>)
    ensures
        match r {
            Some(k) => k < index@.len() && index@[k as int].name.0@ == name@ && forall|j: int|
                0 <= j < k ==> (#[trigger] index@[j]).name.0@ != name@,
            None => forall|j: int| 0 <= j < index@.len() ==> (#[trigger] index@[j]).name.0@ != name@,
        },
{
    let mut k: usize = 0;
    while k < index.len()
        invariant
            k <= index@.len(),
            forall|j: int| 0 <= j < k ==> (#[trigger] index@[j]).name.0@ != name@,
        decreases index@.len() - k,
    {
        if index[k].name.0 == *name {
            return Some(k);
        }
        k = k + 1;
    }
    None
}

/// Position of the first entry with identifier `id`.
pub fn find_by_id(index: &Vec<TopicResponse>, id: &UUID) -> (r: Option<usize>)
    ensures
        match r {
            Some(k) => k < index@.len() && index@[k as int].id.0@ == id.0@ && forall|j: int|
                0 <= j < k ==> (#[trigger] index@[j]).id.0@ != id.0@,
            None => forall|j: int| 0 <= j < index@.len() ==> (#[trigger] index@[j]).id.0@ != id.0@,
        },
{
    let mut k: usize = 0;
    while k < index.len()
        invariant
            k <= index@.len(),
            forall|j: int| 0 <= j < k ==> (#[trigger] index@[j]).id.0@ != id.0@,
        decreases index@.len() - k,
    {
        if index[k].id.same_as(id) {
            return Some(k);
        }
        k = k + 1;
    }
    None
}

} // verus!
