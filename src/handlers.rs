//! Dispatch on the API key of a request frame, and the three handlers.
//!
//! Handlers are pure: what they need from outside (the supported-version table,
//! the metadata index, the partition segments) is handed to them. Each answer
//! carries its own length, patched in after it is built; an answer too long for
//! a frame is not produced.
use vstd::prelude::*;

use crate::array::CVec;
use crate::bytes::ByteBuf;
use crate::ids::UUID;
use crate::integers::lemma_i32_width;
use crate::metadata::{
    canonical_name, find_by_id, find_by_name, PartitionResponse, TopicResponse, AUTHORIZED_OPS,
    UNKNOWN_TOPIC_OR_PARTITION,
};
use crate::protocol::{
    ApiVersionsRequest, ApiVersionsResponse, BaseResponse, BaseResponseV1,
    DescribePartitionsRequest, DescribePartitionsResponse, FetchPartitionsResponse, FetchRequest,
    FetchResponse, FetchTopicResponse, SupportedVersionsKey, TopicFetch,
};
use crate::strings::{utf8_of, CString};
use crate::{Decode, Encode, Size};

verus! {

/// API key of Fetch.
pub const API_FETCH: i16 = 1;

/// API key of ApiVersions.
pub const API_VERSIONS: i16 = 18;

/// API key of DescribeTopicPartitions.
pub const API_DESCRIBE_TOPIC_PARTITIONS: i16 = 75;

/// Error code of an ApiVersions request whose version is not served.
pub const UNSUPPORTED_VERSION: i16 = 35;

/// Error code of a fetched topic id that the index does not hold.
pub const UNKNOWN_TOPIC_ID: i16 = 100;

/// Longest answer whose size field, which leaves out its own four bytes, fits an `i32`.
pub const MAX_RESPONSE_LEN: usize = 0x8000_0003;

/// A decoded request, by API.
pub enum Handler {
    ApiVersions(ApiVersionsRequest),
    DescribeTopicPartitions(DescribePartitionsRequest),
    Fetch(FetchRequest),
}

/// The API key of a request frame: the big-endian `i16` after the size field.
pub fn request_api_key(frame: &[u8]) -> (r: Option<i16>)
    ensures
        match i16::spec_decode(frame@, 4) {
            Some((k, _)) => r == Some(k),
            None => r is None,
        },
{
    let mut offset: usize = 4;
    i16::decode(frame, &mut offset)
}

/// Decodes `request` as a request of API `key`. `None` for a key that is not
/// served, and for a frame that does not decode.
pub fn get_handler(key: i16, request: &[u8]) -> (r: Option<Handler>)
    ensures
        key == API_FETCH ==> match FetchRequest::spec_decode(request@, 0) {
            Some((m, _)) => r matches Some(Handler::Fetch(x)) && x.model() == m,
            None => r is None,
        },
        key == API_VERSIONS ==> match ApiVersionsRequest::spec_decode(request@, 0) {
            Some((m, _)) => r matches Some(Handler::ApiVersions(x)) && x.model() == m,
            None => r is None,
        },
        key == API_DESCRIBE_TOPIC_PARTITIONS ==> match DescribePartitionsRequest::spec_decode(
            request@,
            0,
        ) {
            Some((m, _)) => r matches Some(Handler::DescribeTopicPartitions(x)) && x.model() == m,
            None => r is None,
        },
        key != API_FETCH && key != API_VERSIONS && key != API_DESCRIBE_TOPIC_PARTITIONS ==> r is None,
{
    let mut offset: usize = 0;
    if key == API_FETCH {
        match FetchRequest::decode(request, &mut offset) {
            Some(x) => Some(Handler::Fetch(x)),
            None => None,
        }
    } else if key == API_VERSIONS {
        match ApiVersionsRequest::decode(request, &mut offset) {
            Some(x) => Some(Handler::ApiVersions(x)),
            None => None,
        }
    } else if key == API_DESCRIBE_TOPIC_PARTITIONS {
        match DescribePartitionsRequest::decode(request, &mut offset) {
            Some(x) => Some(Handler::DescribeTopicPartitions(x)),
            None => None,
        }
    } else {
        None
    }
}

/// A well-formed answer that fits a frame.
pub open spec fn frames(len: nat) -> bool {
    len <= MAX_RESPONSE_LEN
}

// ------------------------------------------------------------------ ApiVersions

/// Some entry of `table` serves `version` of `key`.
pub open spec fn version_supported(table: Seq<SupportedVersionsKey>, key: i16, version: i16) -> bool {
    exists|i: int|
        0 <= i < table.len() && (#[trigger] table[i]).key == key && table[i].min <= version
            && version <= table[i].max
}

/// Whether `table` serves `version` of API `key`.
pub fn is_version_supported(table: &Vec<SupportedVersionsKey>, key: i16, version: i16) -> (r: bool)
    ensures
        r == version_supported(table@, key, version),
{
    let mut i: usize = 0;
    while i < table.len()
        invariant
            i <= table@.len(),
            forall|j: int|
                0 <= j < i ==> !((#[trigger] table@[j]).key == key && table@[j].min <= version
                    && version <= table@[j].max),
        decreases table@.len() - i,
    {
        let e = table[i];
        if e.key == key && e.min <= version && version <= e.max {
            return true;
        }
        i = i + 1;
    }
    false
}

/// `resp` answers `req` from `table`, its size field aside.
pub open spec fn answers_api_versions(
    resp: ApiVersionsResponse,
    req: ApiVersionsRequest,
    table: Seq<SupportedVersionsKey>,
) -> bool {
    &&& resp.base.correlation_id == req.base.correlation_id
    &&& resp.error_code == if version_supported(table, req.base.api_key, req.base.api_versions) {
        0
    } else {
        UNSUPPORTED_VERSION
    }
    &&& resp.api_keys.data@ == table
    &&& resp.throttle_time_ms == 0
}

impl ApiVersionsRequest {
    /// Answers with the whole `table`, and error code 35 where the requested
    /// version of the requested key is not served.
    pub fn handle_request(&self, table: &Vec<SupportedVersionsKey>) -> (r: Option<
        ApiVersionsResponse,
    >)
        ensures
            match r {
                Some(resp) => {
                    &&& answers_api_versions(resp, *self, table@)
                    &&& resp.wf()
                    &&& resp.base.size == resp.spec_encode().len() - 4
                },
                None => exists|resp: ApiVersionsResponse|
                    answers_api_versions(resp, *self, table@) && !(resp.wf() && frames(
                        resp.spec_encode().len(),
                    )),
            },
    {
        let supported = is_version_supported(table, self.base.api_key, self.base.api_versions);
        let mut keys: Vec<SupportedVersionsKey> = Vec::new();
        let mut i: usize = 0;
        while i < table.len()
            invariant
                i <= table@.len(),
                keys@ == table@.subrange(0, i as int),
            decreases table@.len() - i,
        {
            keys.push(table[i]);
            i = i + 1;
            assert(keys@ =~= table@.subrange(0, i as int));
        }
        assert(table@.subrange(0, i as int) =~= table@);
        let mut resp = ApiVersionsResponse {
            base: BaseResponse { size: 0, correlation_id: self.base.correlation_id },
            error_code: if supported {
                0
            } else {
                UNSUPPORTED_VERSION
            },
            api_keys: CVec { data: keys },
            throttle_time_ms: 0,
        };
        assert(answers_api_versions(resp, *self, table@));
        if keys_len_unframeable(resp.api_keys.data.len()) {
            assert(answers_api_versions(resp, *self, table@) && !(resp.wf() && frames(
                resp.spec_encode().len(),
            )));
            return None;
        }
        let n = resp.size_in_bytes();
        if n > MAX_RESPONSE_LEN {
            assert(answers_api_versions(resp, *self, table@) && !(resp.wf() && frames(
                resp.spec_encode().len(),
            )));
            return None;
        }
        proof {
            lemma_i32_width(resp.base.size);
        }
        let ghost before = resp;
        resp.base.size = (n - 4) as i32;
        proof {
            lemma_i32_width(resp.base.size);
            assert(resp.spec_encode().len() == before.spec_encode().len());
        }
        Some(resp)
    }
}

/// Whether an array of `n` elements cannot carry a compact count.
fn keys_len_unframeable(n: usize) -> (r: bool)
    ensures
        r == (n as nat >= u64::MAX),
{
    n as u64 == 0xFFFF_FFFF_FFFF_FFFF
}

// ------------------------------------------------------------------ DescribeTopicPartitions

/// `a` and `b` hold the same partition description.
pub open spec fn same_partition(a: PartitionResponse, b: PartitionResponse) -> bool {
    &&& a.error_code == b.error_code
    &&& a.partition_idx == b.partition_idx
    &&& a.leader_id == b.leader_id
    &&& a.leader_epoch == b.leader_epoch
    &&& a.replica_nodes.data@ == b.replica_nodes.data@
    &&& a.in_sync_replicas.data@ == b.in_sync_replicas.data@
    &&& a.eligible_leader_replicas.data@ == b.eligible_leader_replicas.data@
    &&& a.last_known_elr.data@ == b.last_known_elr.data@
    &&& a.offline_replica.data@ == b.offline_replica.data@
    &&& a.tag_buffer == b.tag_buffer
}

/// `a` and `b` hold the same topic description.
pub open spec fn same_topic(a: TopicResponse, b: TopicResponse) -> bool {
    &&& a.error_code == b.error_code
    &&& a.name.0@ == b.name.0@
    &&& a.name.1 == b.name.1
    &&& a.id.0@ == b.id.0@
    &&& a.is_internal == b.is_internal
    &&& a.partitions_array.data@.len() == b.partitions_array.data@.len()
    &&& forall|q: int|
        0 <= q < a.partitions_array.data@.len() ==> same_partition(
            #[trigger] a.partitions_array.data@[q],
            b.partitions_array.data@[q],
        )
    &&& a.authorized_ops == b.authorized_ops
    &&& a.tag_buffer == b.tag_buffer
}

/// The placeholder answer for a topic name that the index does not hold.
pub open spec fn is_unknown_topic(e: TopicResponse, name: CString) -> bool {
    &&& e.wf()
    &&& e.error_code == UNKNOWN_TOPIC_OR_PARTITION
    &&& utf8_of(name.0@).len() < usize::MAX ==> e.name.0@ == name.0@
    &&& e.id.0@ == Seq::new(16, |i: int| 0u8)
    &&& e.is_internal == 0
    &&& e.partitions_array.data@.len() == 0
    &&& e.authorized_ops == AUTHORIZED_OPS
    &&& e.tag_buffer == 0
}

fn copy_ids(v: &CVec<i32>) -> (r: CVec<i32>)
    ensures
        r.data@ == v.data@,
{
    let mut out: Vec<i32> = Vec::new();
    let mut i: usize = 0;
    while i < v.data.len()
        invariant
            i <= v.data@.len(),
            out@ == v.data@.subrange(0, i as int),
        decreases v.data@.len() - i,
    {
        out.push(v.data[i]);
        i = i + 1;
        assert(out@ =~= v.data@.subrange(0, i as int));
    }
    assert(v.data@.subrange(0, i as int) =~= v.data@);
    CVec { data: out }
}

fn copy_partition(p: &PartitionResponse) -> (r: PartitionResponse)
    ensures
        same_partition(r, *p),
        p.wf() ==> r.wf(),
{
    PartitionResponse {
        error_code: p.error_code,
        partition_idx: p.partition_idx,
        leader_id: p.leader_id,
        leader_epoch: p.leader_epoch,
        replica_nodes: copy_ids(&p.replica_nodes),
        in_sync_replicas: copy_ids(&p.in_sync_replicas),
        eligible_leader_replicas: copy_ids(&p.eligible_leader_replicas),
        last_known_elr: copy_ids(&p.last_known_elr),
        offline_replica: copy_ids(&p.offline_replica),
        tag_buffer: p.tag_buffer,
    }
}

fn copy_topic(t: &TopicResponse) -> (r: TopicResponse)
    ensures
        same_topic(r, *t),
        t.wf() ==> r.wf(),
{
    let src = &t.partitions_array.data;
    let mut parts: Vec<PartitionResponse> = Vec::new();
    let mut i: usize = 0;
    while i < src.len()
        invariant
            i <= src@.len(),
            src == &t.partitions_array.data,
            parts@.len() == i,
            forall|q: int| 0 <= q < i ==> same_partition(#[trigger] parts@[q], src@[q]),
            t.wf() ==> forall|q: int| 0 <= q < i ==> (#[trigger] parts@[q]).wf(),
        decreases src@.len() - i,
    {
        proof {
            if t.wf() {
                assert(src@[i as int].wf());
            }
        }
        parts.push(copy_partition(&src[i]));
        i = i + 1;
    }
    TopicResponse {
        error_code: t.error_code,
        name: CString(t.name.0.clone(), t.name.1),
        id: t.id,
        is_internal: t.is_internal,
        partitions_array: CVec { data: parts },
        authorized_ops: t.authorized_ops,
        tag_buffer: t.tag_buffer,
    }
}

impl TopicResponse {
    /// The placeholder for a topic name that the index does not hold.
    pub fn unknown_topic(name: &CString) -> (r: Self)
        ensures
            is_unknown_topic(r, *name),
    {
        TopicResponse {
            error_code: UNKNOWN_TOPIC_OR_PARTITION,
            name: canonical_name(name),
            id: UUID::zero(),
            is_internal: 0,
            partitions_array: CVec { data: Vec::new() },
            authorized_ops: AUTHORIZED_OPS,
            tag_buffer: 0,
        }
    }
}

/// `e` answers for the topic named `name`: the first entry of `index` with
/// that name, or the placeholder where there is none.
pub open spec fn describes_topic(e: TopicResponse, name: CString, index: Seq<TopicResponse>) -> bool {
    ||| exists|m: int|
        0 <= m < index.len() && (#[trigger] index[m]).name.0@ == name.0@ && (forall|j: int|
            0 <= j < m ==> (#[trigger] index[j]).name.0@ != name.0@) && same_topic(e, index[m])
    ||| (forall|j: int| 0 <= j < index.len() ==> (#[trigger] index[j]).name.0@ != name.0@)
        && is_unknown_topic(e, name)
}

/// `resp` answers `req` from `index`, its size field aside.
pub open spec fn answers_describe(
    resp: DescribePartitionsResponse,
    req: DescribePartitionsRequest,
    index: Seq<TopicResponse>,
) -> bool {
    &&& resp.basev1.base.correlation_id == req.basev2.correlation_id
    &&& resp.basev1.tag_buffer == 0
    &&& resp.throttle == 0
    &&& resp.next_cursor == 0xff
    &&& resp.tag_buffer == 0
    &&& resp.topics_array.data@.len() == req.topics_array.data@.len()
    &&& forall|k: int|
        0 <= k < req.topics_array.data@.len() ==> describes_topic(
            #[trigger] resp.topics_array.data@[k],
            req.topics_array.data@[k].name,
            index,
        )
}

impl DescribePartitionsRequest {
    /// Answers each requested name, in order, with its entry of `index` or with
    /// the unknown-topic placeholder.
    pub fn handle_request(&self, index: &Vec<TopicResponse>) -> (r: Option<
        DescribePartitionsResponse,
    >)
        requires
            forall|k: int| 0 <= k < index@.len() ==> (#[trigger] index@[k]).wf(),
        ensures
            match r {
                Some(resp) => {
                    &&& answers_describe(resp, *self, index@)
                    &&& resp.wf()
                    &&& resp.basev1.base.size == resp.spec_encode().len() - 4
                },
                None => self.topics_array.data@.len() >= u64::MAX || exists|
                    resp: DescribePartitionsResponse,
                |
                    answers_describe(resp, *self, index@) && !frames(resp.spec_encode().len()),
            },
    {
        let req = &self.topics_array.data;
        if keys_len_unframeable(req.len()) {
            return None;
        }
        let mut topics: Vec<TopicResponse> = Vec::new();
        let mut k: usize = 0;
        while k < req.len()
            invariant
                k <= req@.len(),
                req == &self.topics_array.data,
                forall|j: int| 0 <= j < index@.len() ==> (#[trigger] index@[j]).wf(),
                topics@.len() == k,
                forall|j: int|
                    0 <= j < k ==> describes_topic(#[trigger] topics@[j], req@[j].name, index@),
                forall|j: int| 0 <= j < k ==> (#[trigger] topics@[j]).wf(),
            decreases req@.len() - k,
        {
            let name = &req[k].name;
            let e = match find_by_name(index, &name.0) {
                Some(m) => {
                    let c = copy_topic(&index[m]);
                    assert(index@[m as int].wf());
                    c
                },
                None => TopicResponse::unknown_topic(name),
            };
            topics.push(e);
            k = k + 1;
        }
        let mut resp = DescribePartitionsResponse {
            basev1: BaseResponseV1 {
                base: BaseResponse { size: 0, correlation_id: self.basev2.correlation_id },
                tag_buffer: 0,
            },
            throttle: 0,
            topics_array: CVec { data: topics },
            next_cursor: 0xff,
            tag_buffer: 0,
        };
        assert(answers_describe(resp, *self, index@));
        assert(crate::array::all_wf(resp.topics_array.data@));
        let n = resp.size_in_bytes();
        if n > MAX_RESPONSE_LEN {
            assert(answers_describe(resp, *self, index@) && !frames(resp.spec_encode().len()));
            return None;
        }
        proof {
            lemma_i32_width(resp.basev1.base.size);
        }
        let ghost before = resp;
        resp.basev1.base.size = (n - 4) as i32;
        proof {
            lemma_i32_width(resp.basev1.base.size);
            assert(resp.spec_encode().len() == before.spec_encode().len());
        }
        Some(resp)
    }
}

// ------------------------------------------------------------------ Fetch

/// One answer entry of a Fetch: a partition of a topic the index holds
/// (`topic` is its name), or a topic id it does not hold (`topic` is `None`).
#[derive(Debug)]
pub struct FetchTarget {
    pub topic_id: UUID,
    pub topic: Option<String>,
    pub partition: i32,
}

/// What a [`FetchTarget`] holds.
pub open spec fn target_model(t: FetchTarget) -> (Seq<u8>, Option<Seq<char>>, i32) {
    (
        t.topic_id.0@,
        match t.topic {
            Some(s) => Some(s@),
            None => None,
        },
        t.partition,
    )
}

/// Position of the first entry of `index` with identifier `id`.
pub open spec fn first_with_id(index: Seq<TopicResponse>, id: Seq<u8>) -> Option<int>
    decreases index.len(),
{
    if index.len() == 0 {
        None
    } else {
        match first_with_id(index.drop_last(), id) {
            Some(m) => Some(m),
            None => if index.last().id.0@ == id {
                Some(index.len() - 1)
            } else {
                None
            },
        }
    }
}

/// The entries that requested topic `t` gets: one per requested partition of
/// a topic the index holds, else a single one for the unknown id.
pub open spec fn topic_targets(t: TopicFetch, index: Seq<TopicResponse>) -> Seq<
    (Seq<u8>, Option<Seq<char>>, i32),
> {
    match first_with_id(index, t.topic_id.0@) {
        Some(m) => Seq::new(
            t.partitions.data@.len(),
            |q: int| (t.topic_id.0@, Some(index[m].name.0@), t.partitions.data@[q].partition),
        ),
        None => seq![(t.topic_id.0@, None, 0i32)],
    }
}

/// The entries of a whole Fetch, topic after topic.
pub open spec fn fetch_plan(ts: Seq<TopicFetch>, index: Seq<TopicResponse>) -> Seq<
    (Seq<u8>, Option<Seq<char>>, i32),
>
    decreases ts.len(),
{
    if ts.len() == 0 {
        Seq::empty()
    } else {
        fetch_plan(ts.drop_last(), index) + topic_targets(ts.last(), index)
    }
}

proof fn lemma_first_with_id(index: Seq<TopicResponse>, id: Seq<u8>, m: Option<int>)
    requires
        match m {
            Some(k) => 0 <= k < index.len() && index[k].id.0@ == id && forall|j: int|
                0 <= j < k ==> (#[trigger] index[j]).id.0@ != id,
            None => forall|j: int| 0 <= j < index.len() ==> (#[trigger] index[j]).id.0@ != id,
        },
    ensures
        first_with_id(index, id) == m,
    decreases index.len(),
{
    if index.len() > 0 {
        let init = index.drop_last();
        match m {
            Some(k) => {
                if k < index.len() - 1 {
                    lemma_first_with_id(init, id, Some(k));
                } else {
                    lemma_first_with_id(init, id, None);
                }
            },
            None => {
                lemma_first_with_id(init, id, None);
            },
        }
    }
}

/// The entries to answer `topics` with, in order.
pub fn plan_fetch(topics: &Vec<TopicFetch>, index: &Vec<TopicResponse>) -> (r: Vec<FetchTarget>)
    ensures
        r@.map_values(|t: FetchTarget| target_model(t)) == fetch_plan(topics@, index@),
{
    let mut out: Vec<FetchTarget> = Vec::new();
    let mut i: usize = 0;
    assert(out@.map_values(|t: FetchTarget| target_model(t)) =~= fetch_plan(
        topics@.subrange(0, 0),
        index@,
    ));
    while i < topics.len()
        invariant
            i <= topics@.len(),
            out@.map_values(|t: FetchTarget| target_model(t)) == fetch_plan(
                topics@.subrange(0, i as int),
                index@,
            ),
        decreases topics@.len() - i,
    {
        let t = &topics[i];
        let ghost done = out@.map_values(|t: FetchTarget| target_model(t));
        let found = find_by_id(index, &t.topic_id);
        proof {
            lemma_first_with_id(index@, t.topic_id.0@, match found {
                Some(m) => Some(m as int),
                None => None,
            });
            assert(topics@.subrange(0, i + 1).drop_last() =~= topics@.subrange(0, i as int));
        }
        match found {
            Some(m) => {
                let parts = &t.partitions.data;
                let mut q: usize = 0;
                while q < parts.len()
                    invariant
                        q <= parts@.len(),
                        parts == &t.partitions.data,
                        found == Some(m),
                        m < index@.len(),
                        first_with_id(index@, t.topic_id.0@) == Some(m as int),
                        out@.map_values(|t: FetchTarget| target_model(t)) == done + topic_targets(
                            *t,
                            index@,
                        ).subrange(0, q as int),
                    decreases parts@.len() - q,
                {
                    let ghost before = out@;
                    out.push(
                        FetchTarget {
                            topic_id: t.topic_id,
                            topic: Some(index[m].name.0.clone()),
                            partition: parts[q].partition,
                        },
                    );
                    proof {
                        assert(target_model(out@[out@.len() - 1]) == topic_targets(*t, index@)[q as int]);
                        assert(out@.map_values(|t: FetchTarget| target_model(t)) =~= before.map_values(
                            |t: FetchTarget| target_model(t),
                        ).push(topic_targets(*t, index@)[q as int]));
                    }
                    q = q + 1;
                    assert(out@.map_values(|t: FetchTarget| target_model(t)) =~= done
                        + topic_targets(*t, index@).subrange(0, q as int));
                }
                assert(topic_targets(*t, index@).subrange(0, q as int) =~= topic_targets(
                    *t,
                    index@,
                ));
            },
            None => {
                out.push(FetchTarget { topic_id: t.topic_id, topic: None, partition: 0 });
                assert(out@.map_values(|t: FetchTarget| target_model(t)) =~= done + topic_targets(
                    *t,
                    index@,
                ));
            },
        }
        i = i + 1;
    }
    assert(topics@.subrange(0, i as int) =~= topics@);
    out
}

/// `p` answers a partition of a topic id the index does not hold.
pub open spec fn is_unknown_partition(p: FetchPartitionsResponse) -> bool {
    &&& p.wf()
    &&& p.partition_idx == 0
    &&& p.error_code == UNKNOWN_TOPIC_ID
    &&& p.high_watermark == 0
    &&& p.last_stable_offset == 0
    &&& p.log_start_offset == 0
    &&& p.aborted_transactions.data@.len() == 0
    &&& p.preferred_read_replica == 0
    &&& p.records.0@.len() == 0
    &&& p.tagged_field == 0
}

/// `p` answers a partition of a known topic whose segment holds `records`.
pub open spec fn is_known_partition(p: FetchPartitionsResponse, records: Seq<u8>) -> bool {
    &&& p.wf()
    &&& p.partition_idx == 0
    &&& p.error_code == 0
    &&& p.high_watermark == 0
    &&& p.last_stable_offset == 0
    &&& p.log_start_offset == 0
    &&& p.aborted_transactions.data@.len() == 0
    &&& p.preferred_read_replica == -1
    &&& p.records.0@ == records
    &&& p.tagged_field == 0
}

impl FetchPartitionsResponse {
    /// The answer for a partition of a topic id the index does not hold.
    pub fn unknown_topic() -> (r: Self)
        ensures
            is_unknown_partition(r),
    {
        FetchPartitionsResponse {
            partition_idx: 0,
            error_code: UNKNOWN_TOPIC_ID,
            high_watermark: 0,
            last_stable_offset: 0,
            log_start_offset: 0,
            aborted_transactions: CVec { data: Vec::new() },
            preferred_read_replica: 0,
            records: ByteBuf::empty(),
            tagged_field: 0,
        }
    }

    /// The answer for a partition of a known topic whose segment holds `records`.
    pub fn known_topic(records: Vec<u8>) -> (r: Self)
        requires
            records@.len() < u64::MAX,
        ensures
            is_known_partition(r, records@),
    {
        FetchPartitionsResponse {
            partition_idx: 0,
            error_code: 0,
            high_watermark: 0,
            last_stable_offset: 0,
            log_start_offset: 0,
            aborted_transactions: CVec { data: Vec::new() },
            preferred_read_replica: -1,
            records: ByteBuf::from_raw(records),
            tagged_field: 0,
        }
    }
}

impl FetchTopicResponse {
    /// The answer for a topic id the index does not hold.
    pub fn unknown_topic(topic_id: UUID) -> (r: Self)
        ensures
            r.topic_id.0@ == topic_id.0@,
            r.partitions.data@.len() == 1,
            is_unknown_partition(r.partitions.data@[0]),
            r.tagged_field == 0,
            r.wf(),
    {
        let p = FetchPartitionsResponse::unknown_topic();
        let data = vec![p];
        FetchTopicResponse { topic_id, partitions: CVec { data }, tagged_field: 0 }
    }

    /// The answer for one partition of a known topic whose segment holds `records`.
    pub fn known_topic(topic_id: UUID, records: Vec<u8>) -> (r: Self)
        requires
            records@.len() < u64::MAX,
        ensures
            r.topic_id.0@ == topic_id.0@,
            r.partitions.data@.len() == 1,
            is_known_partition(r.partitions.data@[0], records@),
            r.tagged_field == 0,
            r.wf(),
    {
        let p = FetchPartitionsResponse::known_topic(records);
        let data = vec![p];
        FetchTopicResponse { topic_id, partitions: CVec { data }, tagged_field: 0 }
    }
}

/// The segment handed in for entry `k`: absent or too long reads as empty.
pub open spec fn segment_for(segments: Seq<Vec<u8>>, k: int) -> Seq<u8> {
    if k < segments.len() && segments[k]@.len() < u64::MAX {
        segments[k]@
    } else {
        Seq::empty()
    }
}

/// `e` answers planned entry `t`, whose partition segment is `seg`.
pub open spec fn answers_target(
    e: FetchTopicResponse,
    t: (Seq<u8>, Option<Seq<char>>, i32),
    seg: Seq<u8>,
) -> bool {
    &&& e.wf()
    &&& e.topic_id.0@ == t.0
    &&& e.tagged_field == 0
    &&& e.partitions.data@.len() == 1
    &&& match t.1 {
        Some(_) => is_known_partition(e.partitions.data@[0], seg),
        None => is_unknown_partition(e.partitions.data@[0]),
    }
}

/// `resp` carries one answer per planned entry, its header and size aside.
pub open spec fn answers_fetch(
    resp: FetchResponse,
    correlation_id: i32,
    session_id: i32,
    plan: Seq<(Seq<u8>, Option<Seq<char>>, i32)>,
    segments: Seq<Vec<u8>>,
) -> bool {
    &&& resp.basev1.base.correlation_id == correlation_id
    &&& resp.basev1.tag_buffer == 0
    &&& resp.throttle_time == 0
    &&& resp.error_code == 0
    &&& resp.session_id == session_id
    &&& resp.tagged_field == 0
    &&& resp.responses.data@.len() == plan.len()
    &&& forall|k: int|
        0 <= k < plan.len() ==> answers_target(
            #[trigger] resp.responses.data@[k],
            plan[k],
            segment_for(segments, k),
        )
}

impl FetchResponse {
    /// Answers the planned entries in order; entry `k` of a known topic carries
    /// `segments[k]`, the bytes of its partition segment.
    pub fn get_topics(
        correlation_id: i32,
        session_id: i32,
        plan: &Vec<FetchTarget>,
        segments: &Vec<Vec<u8>>,
    ) -> (r: Self)
        ensures
            answers_fetch(
                r,
                correlation_id,
                session_id,
                plan@.map_values(|t: FetchTarget| target_model(t)),
                segments@,
            ),
            r.basev1.base.size == 0,
    {
        let ghost pm = plan@.map_values(|t: FetchTarget| target_model(t));
        let mut out: Vec<FetchTopicResponse> = Vec::new();
        let mut k: usize = 0;
        while k < plan.len()
            invariant
                k <= plan@.len(),
                pm == plan@.map_values(|t: FetchTarget| target_model(t)),
                out@.len() == k,
                forall|j: int|
                    0 <= j < k ==> answers_target(
                        #[trigger] out@[j],
                        pm[j],
                        segment_for(segments@, j),
                    ),
            decreases plan@.len() - k,
        {
            let t = &plan[k];
            let e = match &t.topic {
                Some(_) => {
                    let seg: Vec<u8> = if k < segments.len() && !keys_len_unframeable(
                        segments[k].len(),
                    ) {
                        vstd::slice::slice_to_vec(segments[k].as_slice())
                    } else {
                        Vec::new()
                    };
                    FetchTopicResponse::known_topic(t.topic_id, seg)
                },
                None => FetchTopicResponse::unknown_topic(t.topic_id),
            };
            out.push(e);
            k = k + 1;
        }
        FetchResponse {
            basev1: BaseResponseV1 {
                base: BaseResponse { size: 0, correlation_id },
                tag_buffer: 0,
            },
            throttle_time: 0,
            error_code: 0,
            session_id,
            responses: CVec { data: out },
            tagged_field: 0,
        }
    }
}

impl FetchRequest {
    /// The entries this request is answered with, given `index`. A caller reads
    /// the segment of each entry with a topic name, then calls
    /// [`FetchRequest::handle_request`].
    pub fn plan(&self, index: &Vec<TopicResponse>) -> (r: Vec<FetchTarget>)
        ensures
            r@.map_values(|t: FetchTarget| target_model(t)) == fetch_plan(
                self.topics.data@,
                index@,
            ),
    {
        plan_fetch(&self.topics.data, index)
    }

    /// Answers this request from `index`, entry `k` of a known topic carrying
    /// `segments[k]`.
    pub fn handle_request(&self, index: &Vec<TopicResponse>, segments: &Vec<Vec<u8>>) -> (r:
        Option<FetchResponse>)
        ensures
            match r {
                Some(resp) => {
                    &&& answers_fetch(
                        resp,
                        self.basev2.correlation_id,
                        self.session_id,
                        fetch_plan(self.topics.data@, index@),
                        segments@,
                    )
                    &&& resp.wf()
                    &&& resp.basev1.base.size == resp.spec_encode().len() - 4
                },
                None => fetch_plan(self.topics.data@, index@).len() >= u64::MAX || exists|
                    resp: FetchResponse,
                |
                    answers_fetch(
                        resp,
                        self.basev2.correlation_id,
                        self.session_id,
                        fetch_plan(self.topics.data@, index@),
                        segments@,
                    ) && !frames(resp.spec_encode().len()),
            },
    {
        let plan = self.plan(index);
        let mut resp = FetchResponse::get_topics(
            self.basev2.correlation_id,
            self.session_id,
            &plan,
            segments,
        );
        if keys_len_unframeable(resp.responses.data.len()) {
            return None;
        }
        assert(crate::array::all_wf(resp.responses.data@));
        let n = resp.size_in_bytes();
        if n > MAX_RESPONSE_LEN {
            return None;
        }
        proof {
            lemma_i32_width(resp.basev1.base.size);
        }
        let ghost before = resp;
        resp.basev1.base.size = (n - 4) as i32;
        proof {
            lemma_i32_width(resp.basev1.base.size);
            assert(resp.spec_encode().len() == before.spec_encode().len());
        }
        Some(resp)
    }
}

} // verus!
