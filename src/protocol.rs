//! Request and response messages of the three served APIs. Each is its fields
//! in declared order.
use vstd::prelude::*;

use crate::array::CVec;
use crate::bytes::ByteBuf;
use crate::ids::UUID;
use crate::metadata::TopicResponse;
use crate::pair::cat;
use crate::strings::CString;
use crate::{Codec, Decode, Encode, Size};

verus! {

/// Request header v0 preceded by the frame size.
#[derive(Debug)]
pub struct BaseRequest {
    pub size: i32,
    pub api_key: i16,
    pub api_versions: i16,
    pub correlation_id: i32,
}

impl BaseRequest {
    /// The fields in wire order.
    pub open spec fn parts(&self) -> (((i32, i16), i16), i32) {
        (((self.size, self.api_key), self.api_versions), self.correlation_id)
    }
}

impl Encode for BaseRequest {
    open spec fn wf(&self) -> bool {
        self.parts().wf()
    }

    open spec fn spec_encode(&self) -> Seq<u8> {
        self.parts().spec_encode()
    }

    fn encode(&self) -> (r: Vec<u8>) {
        let v = self.size.encode();
        let v = cat(v, self.api_key.encode());
        let v = cat(v, self.api_versions.encode());
        let v = cat(v, self.correlation_id.encode());
        v
    }
}

impl Decode for BaseRequest {
    type Model = <(((i32, i16), i16), i32) as Decode>::Model;

    open spec fn model(&self) -> Self::Model {
        self.parts().model()
    }

    open spec fn spec_decode(s: Seq<u8>, pos: int) -> Option<(Self::Model, int)> {
        <(((i32, i16), i16), i32) as Decode>::spec_decode(s, pos)
    }

    fn decode(bytes: &[u8], offset: &mut usize) -> (r: Option<Self>) {
        match <(((i32, i16), i16), i32) as Decode>::decode(bytes, offset) {
            Some((((size, api_key), api_versions), correlation_id)) => Some(BaseRequest { size, api_key, api_versions, correlation_id }),
            None => None,
        }
    }
}

impl Codec for BaseRequest {
    proof fn lemma_round_trip(&self, s: Seq<u8>, pos: int) {
        self.parts().lemma_round_trip(s, pos);
    }
}

impl Size for BaseRequest {
    fn size_in_bytes(&self) -> (r: usize) {
        let n = self.size.size_in_bytes();
        let n = n.saturating_add(self.api_key.size_in_bytes());
        let n = n.saturating_add(self.api_versions.size_in_bytes());
        let n = n.saturating_add(self.correlation_id.size_in_bytes());
        n
    }
}

/// Request header v2 preceded by the frame size.
#[derive(Debug)]
pub struct BaseRequestV2 {
    pub size: i32,
    pub api_key: i16,
    pub api_versions: i16,
    pub correlation_id: i32,
    pub client_id: String,
    pub tag_buffer: u8,
}

impl BaseRequestV2 {
    /// The fields in wire order.
    pub open spec fn parts(&self) -> (((((i32, i16), i16), i32), String), u8) {
        (((((self.size, self.api_key), self.api_versions), self.correlation_id), self.client_id), self.tag_buffer)
    }
}

impl Encode for BaseRequestV2 {
    open spec fn wf(&self) -> bool {
        self.parts().wf()
    }

    open spec fn spec_encode(&self) -> Seq<u8> {
        self.parts().spec_encode()
    }

    fn encode(&self) -> (r: Vec<u8>) {
        let v = self.size.encode();
        let v = cat(v, self.api_key.encode());
        let v = cat(v, self.api_versions.encode());
        let v = cat(v, self.correlation_id.encode());
        let v = cat(v, self.client_id.encode());
        let v = cat(v, self.tag_buffer.encode());
        v
    }
}

impl Decode for BaseRequestV2 {
    type Model = <(((((i32, i16), i16), i32), String), u8) as Decode>::Model;

    open spec fn model(&self) -> Self::Model {
        self.parts().model()
    }

    open spec fn spec_decode(s: Seq<u8>, pos: int) -> Option<(Self::Model, int)> {
        <(((((i32, i16), i16), i32), String), u8) as Decode>::spec_decode(s, pos)
    }

    fn decode(bytes: &[u8], offset: &mut usize) -> (r: Option<Self>) {
        match <(((((i32, i16), i16), i32), String), u8) as Decode>::decode(bytes, offset) {
            Some((((((size, api_key), api_versions), correlation_id), client_id), tag_buffer)) => Some(BaseRequestV2 { size, api_key, api_versions, correlation_id, client_id, tag_buffer }),
            None => None,
        }
    }
}

impl Codec for BaseRequestV2 {
    proof fn lemma_round_trip(&self, s: Seq<u8>, pos: int) {
        self.parts().lemma_round_trip(s, pos);
    }
}

impl Size for BaseRequestV2 {
    fn size_in_bytes(&self) -> (r: usize) {
        let n = self.size.size_in_bytes();
        let n = n.saturating_add(self.api_key.size_in_bytes());
        let n = n.saturating_add(self.api_versions.size_in_bytes());
        let n = n.saturating_add(self.correlation_id.size_in_bytes());
        let n = n.saturating_add(self.client_id.size_in_bytes());
        let n = n.saturating_add(self.tag_buffer.size_in_bytes());
        n
    }
}

/// Response header v0 preceded by the frame size.
#[derive(Debug)]
pub struct BaseResponse {
    pub size: i32,
    pub correlation_id: i32,
}

impl BaseResponse {
    /// The fields in wire order.
    pub open spec fn parts(&self) -> (i32, i32) {
        (self.size, self.correlation_id)
    }
}

impl Encode for BaseResponse {
    open spec fn wf(&self) -> bool {
        self.parts().wf()
    }

    open spec fn spec_encode(&self) -> Seq<u8> {
        self.parts().spec_encode()
    }

    fn encode(&self) -> (r: Vec<u8>) {
        let v = self.size.encode();
        let v = cat(v, self.correlation_id.encode());
        v
    }
}

impl Decode for BaseResponse {
    type Model = <(i32, i32) as Decode>::Model;

    open spec fn model(&self) -> Self::Model {
        self.parts().model()
    }

    open spec fn spec_decode(s: Seq<u8>, pos: int) -> Option<(Self::Model, int)> {
        <(i32, i32) as Decode>::spec_decode(s, pos)
    }

    fn decode(bytes: &[u8], offset: &mut usize) -> (r: Option<Self>) {
        match <(i32, i32) as Decode>::decode(bytes, offset) {
            Some((size, correlation_id)) => Some(BaseResponse { size, correlation_id }),
            None => None,
        }
    }
}

impl Codec for BaseResponse {
    proof fn lemma_round_trip(&self, s: Seq<u8>, pos: int) {
        self.parts().lemma_round_trip(s, pos);
    }
}

impl Size for BaseResponse {
    fn size_in_bytes(&self) -> (r: usize) {
        let n = self.size.size_in_bytes();
        let n = n.saturating_add(self.correlation_id.size_in_bytes());
        n
    }
}

/// Response header v1 preceded by the frame size.
#[derive(Debug)]
pub struct BaseResponseV1 {
    pub base: BaseResponse,
    pub tag_buffer: u8,
}

impl BaseResponseV1 {
    /// The fields in wire order.
    pub open spec fn parts(&self) -> (BaseResponse, u8) {
        (self.base, self.tag_buffer)
    }
}

impl Encode for BaseResponseV1 {
    open spec fn wf(&self) -> bool {
        self.parts().wf()
    }

    open spec fn spec_encode(&self) -> Seq<u8> {
        self.parts().spec_encode()
    }

    fn encode(&self) -> (r: Vec<u8>) {
        let v = self.base.encode();
        let v = cat(v, self.tag_buffer.encode());
        v
    }
}

impl Decode for BaseResponseV1 {
    type Model = <(BaseResponse, u8) as Decode>::Model;

    open spec fn model(&self) -> Self::Model {
        self.parts().model()
    }

    open spec fn spec_decode(s: Seq<u8>, pos: int) -> Option<(Self::Model, int)> {
        <(BaseResponse, u8) as Decode>::spec_decode(s, pos)
    }

    fn decode(bytes: &[u8], offset: &mut usize) -> (r: Option<Self>) {
        match <(BaseResponse, u8) as Decode>::decode(bytes, offset) {
            Some((base, tag_buffer)) => Some(BaseResponseV1 { base, tag_buffer }),
            None => None,
        }
    }
}

impl Codec for BaseResponseV1 {
    proof fn lemma_round_trip(&self, s: Seq<u8>, pos: int) {
        self.parts().lemma_round_trip(s, pos);
    }
}

impl Size for BaseResponseV1 {
    fn size_in_bytes(&self) -> (r: usize) {
        let n = self.base.size_in_bytes();
        let n = n.saturating_add(self.tag_buffer.size_in_bytes());
        n
    }
}

/// The minimal frame sent back when a request cannot be served.
#[derive(Debug)]
pub struct ErrorResponse {
    pub code: i16,
}

impl ErrorResponse {
    /// The fields in wire order.
    pub open spec fn parts(&self) -> i16 {
        self.code
    }
}

impl Encode for ErrorResponse {
    open spec fn wf(&self) -> bool {
        self.parts().wf()
    }

    open spec fn spec_encode(&self) -> Seq<u8> {
        self.parts().spec_encode()
    }

    fn encode(&self) -> (r: Vec<u8>) {
        self.code.encode()
    }
}

impl Decode for ErrorResponse {
    type Model = <i16 as Decode>::Model;

    open spec fn model(&self) -> Self::Model {
        self.parts().model()
    }

    open spec fn spec_decode(s: Seq<u8>, pos: int) -> Option<(Self::Model, int)> {
        <i16 as Decode>::spec_decode(s, pos)
    }

    fn decode(bytes: &[u8], offset: &mut usize) -> (r: Option<Self>) {
        match <i16 as Decode>::decode(bytes, offset) {
            Some(code) => Some(ErrorResponse { code }),
            None => None,
        }
    }
}

impl Codec for ErrorResponse {
    proof fn lemma_round_trip(&self, s: Seq<u8>, pos: int) {
        self.parts().lemma_round_trip(s, pos);
    }
}

impl Size for ErrorResponse {
    fn size_in_bytes(&self) -> (r: usize) {
        self.code.size_in_bytes()
    }
}

/// An ApiVersions request: the header alone.
#[derive(Debug)]
pub struct ApiVersionsRequest {
    pub base: BaseRequest,
}

impl ApiVersionsRequest {
    /// The fields in wire order.
    pub open spec fn parts(&self) -> BaseRequest {
        self.base
    }
}

impl Encode for ApiVersionsRequest {
    open spec fn wf(&self) -> bool {
        self.parts().wf()
    }

    open spec fn spec_encode(&self) -> Seq<u8> {
        self.parts().spec_encode()
    }

    fn encode(&self) -> (r: Vec<u8>) {
        self.base.encode()
    }
}

impl Decode for ApiVersionsRequest {
    type Model = <BaseRequest as Decode>::Model;

    open spec fn model(&self) -> Self::Model {
        self.parts().model()
    }

    open spec fn spec_decode(s: Seq<u8>, pos: int) -> Option<(Self::Model, int)> {
        <BaseRequest as Decode>::spec_decode(s, pos)
    }

    fn decode(bytes: &[u8], offset: &mut usize) -> (r: Option<Self>) {
        match <BaseRequest as Decode>::decode(bytes, offset) {
            Some(base) => Some(ApiVersionsRequest { base }),
            None => None,
        }
    }
}

impl Codec for ApiVersionsRequest {
    proof fn lemma_round_trip(&self, s: Seq<u8>, pos: int) {
        self.parts().lemma_round_trip(s, pos);
    }
}

impl Size for ApiVersionsRequest {
    fn size_in_bytes(&self) -> (r: usize) {
        self.base.size_in_bytes()
    }
}

/// One API key and the range of versions served for it.
#[derive(Debug, Clone, Copy)]
pub struct SupportedVersionsKey {
    pub key: i16,
    pub min: i16,
    pub max: i16,
    pub tagged_fields: u8,
}

impl SupportedVersionsKey {
    /// The fields in wire order.
    pub open spec fn parts(&self) -> (((i16, i16), i16), u8) {
        (((self.key, self.min), self.max), self.tagged_fields)
    }
}

impl Encode for SupportedVersionsKey {
    open spec fn wf(&self) -> bool {
        self.parts().wf()
    }

    open spec fn spec_encode(&self) -> Seq<u8> {
        self.parts().spec_encode()
    }

    fn encode(&self) -> (r: Vec<u8>) {
        let v = self.key.encode();
        let v = cat(v, self.min.encode());
        let v = cat(v, self.max.encode());
        let v = cat(v, self.tagged_fields.encode());
        v
    }
}

impl Decode for SupportedVersionsKey {
    type Model = <(((i16, i16), i16), u8) as Decode>::Model;

    open spec fn model(&self) -> Self::Model {
        self.parts().model()
    }

    open spec fn spec_decode(s: Seq<u8>, pos: int) -> Option<(Self::Model, int)> {
        <(((i16, i16), i16), u8) as Decode>::spec_decode(s, pos)
    }

    fn decode(bytes: &[u8], offset: &mut usize) -> (r: Option<Self>) {
        match <(((i16, i16), i16), u8) as Decode>::decode(bytes, offset) {
            Some((((key, min), max), tagged_fields)) => Some(SupportedVersionsKey { key, min, max, tagged_fields }),
            None => None,
        }
    }
}

impl Codec for SupportedVersionsKey {
    proof fn lemma_round_trip(&self, s: Seq<u8>, pos: int) {
        self.parts().lemma_round_trip(s, pos);
    }
}

impl Size for SupportedVersionsKey {
    fn size_in_bytes(&self) -> (r: usize) {
        let n = self.key.size_in_bytes();
        let n = n.saturating_add(self.min.size_in_bytes());
        let n = n.saturating_add(self.max.size_in_bytes());
        let n = n.saturating_add(self.tagged_fields.size_in_bytes());
        n
    }
}

/// Answer to an ApiVersions request.
#[derive(Debug)]
pub struct ApiVersionsResponse {
    pub base: BaseResponse,
    pub error_code: i16,
    pub api_keys: CVec<SupportedVersionsKey>,
    pub throttle_time_ms: i32,
}

impl ApiVersionsResponse {
    /// The fields in wire order.
    pub open spec fn parts(&self) -> (((BaseResponse, i16), CVec<SupportedVersionsKey>), i32) {
        (((self.base, self.error_code), self.api_keys), self.throttle_time_ms)
    }
}

impl Encode for ApiVersionsResponse {
    open spec fn wf(&self) -> bool {
        self.parts().wf()
    }

    open spec fn spec_encode(&self) -> Seq<u8> {
        self.parts().spec_encode()
    }

    fn encode(&self) -> (r: Vec<u8>) {
        let v = self.base.encode();
        let v = cat(v, self.error_code.encode());
        let v = cat(v, self.api_keys.encode());
        let v = cat(v, self.throttle_time_ms.encode());
        v
    }
}

impl Decode for ApiVersionsResponse {
    type Model = <(((BaseResponse, i16), CVec<SupportedVersionsKey>), i32) as Decode>::Model;

    open spec fn model(&self) -> Self::Model {
        self.parts().model()
    }

    open spec fn spec_decode(s: Seq<u8>, pos: int) -> Option<(Self::Model, int)> {
        <(((BaseResponse, i16), CVec<SupportedVersionsKey>), i32) as Decode>::spec_decode(s, pos)
    }

    fn decode(bytes: &[u8], offset: &mut usize) -> (r: Option<Self>) {
        match <(((BaseResponse, i16), CVec<SupportedVersionsKey>), i32) as Decode>::decode(bytes, offset) {
            Some((((base, error_code), api_keys), throttle_time_ms)) => Some(ApiVersionsResponse { base, error_code, api_keys, throttle_time_ms }),
            None => None,
        }
    }
}

impl Codec for ApiVersionsResponse {
    proof fn lemma_round_trip(&self, s: Seq<u8>, pos: int) {
        self.parts().lemma_round_trip(s, pos);
    }
}

impl Size for ApiVersionsResponse {
    fn size_in_bytes(&self) -> (r: usize) {
        let n = self.base.size_in_bytes();
        let n = n.saturating_add(self.error_code.size_in_bytes());
        let n = n.saturating_add(self.api_keys.size_in_bytes());
        let n = n.saturating_add(self.throttle_time_ms.size_in_bytes());
        n
    }
}

/// One topic named in a DescribeTopicPartitions request.
#[derive(Debug)]
pub struct TopicsRequest {
    pub name: CString,
    pub tag_buffer: u8,
}

impl TopicsRequest {
    /// The fields in wire order.
    pub open spec fn parts(&self) -> (CString, u8) {
        (self.name, self.tag_buffer)
    }
}

impl Encode for TopicsRequest {
    open spec fn wf(&self) -> bool {
        self.parts().wf()
    }

    open spec fn spec_encode(&self) -> Seq<u8> {
        self.parts().spec_encode()
    }

    fn encode(&self) -> (r: Vec<u8>) {
        let v = self.name.encode();
        let v = cat(v, self.tag_buffer.encode());
        v
    }
}

impl Decode for TopicsRequest {
    type Model = <(CString, u8) as Decode>::Model;

    open spec fn model(&self) -> Self::Model {
        self.parts().model()
    }

    open spec fn spec_decode(s: Seq<u8>, pos: int) -> Option<(Self::Model, int)> {
        <(CString, u8) as Decode>::spec_decode(s, pos)
    }

    fn decode(bytes: &[u8], offset: &mut usize) -> (r: Option<Self>) {
        match <(CString, u8) as Decode>::decode(bytes, offset) {
            Some((name, tag_buffer)) => Some(TopicsRequest { name, tag_buffer }),
            None => None,
        }
    }
}

impl Codec for TopicsRequest {
    proof fn lemma_round_trip(&self, s: Seq<u8>, pos: int) {
        self.parts().lemma_round_trip(s, pos);
    }
}

impl Size for TopicsRequest {
    fn size_in_bytes(&self) -> (r: usize) {
        let n = self.name.size_in_bytes();
        let n = n.saturating_add(self.tag_buffer.size_in_bytes());
        n
    }
}

/// A DescribeTopicPartitions request.
#[derive(Debug)]
pub struct DescribePartitionsRequest {
    pub basev2: BaseRequestV2,
    pub topics_array: CVec<TopicsRequest>,
    pub response_partition_limit: i32,
    pub cursor: u8,
    pub tag_buffer: u8,
}

impl DescribePartitionsRequest {
    /// The fields in wire order.
    pub open spec fn parts(&self) -> ((((BaseRequestV2, CVec<TopicsRequest>), i32), u8), u8) {
        ((((self.basev2, self.topics_array), self.response_partition_limit), self.cursor), self.tag_buffer)
    }
}

impl Encode for DescribePartitionsRequest {
    open spec fn wf(&self) -> bool {
        self.parts().wf()
    }

    open spec fn spec_encode(&self) -> Seq<u8> {
        self.parts().spec_encode()
    }

    fn encode(&self) -> (r: Vec<u8>) {
        let v = self.basev2.encode();
        let v = cat(v, self.topics_array.encode());
        let v = cat(v, self.response_partition_limit.encode());
        let v = cat(v, self.cursor.encode());
        let v = cat(v, self.tag_buffer.encode());
        v
    }
}

impl Decode for DescribePartitionsRequest {
    type Model = <((((BaseRequestV2, CVec<TopicsRequest>), i32), u8), u8) as Decode>::Model;

    open spec fn model(&self) -> Self::Model {
        self.parts().model()
    }

    open spec fn spec_decode(s: Seq<u8>, pos: int) -> Option<(Self::Model, int)> {
        <((((BaseRequestV2, CVec<TopicsRequest>), i32), u8), u8) as Decode>::spec_decode(s, pos)
    }

    fn decode(bytes: &[u8], offset: &mut usize) -> (r: Option<Self>) {
        match <((((BaseRequestV2, CVec<TopicsRequest>), i32), u8), u8) as Decode>::decode(bytes, offset) {
            Some(((((basev2, topics_array), response_partition_limit), cursor), tag_buffer)) => Some(DescribePartitionsRequest { basev2, topics_array, response_partition_limit, cursor, tag_buffer }),
            None => None,
        }
    }
}

impl Codec for DescribePartitionsRequest {
    proof fn lemma_round_trip(&self, s: Seq<u8>, pos: int) {
        self.parts().lemma_round_trip(s, pos);
    }
}

impl Size for DescribePartitionsRequest {
    fn size_in_bytes(&self) -> (r: usize) {
        let n = self.basev2.size_in_bytes();
        let n = n.saturating_add(self.topics_array.size_in_bytes());
        let n = n.saturating_add(self.response_partition_limit.size_in_bytes());
        let n = n.saturating_add(self.cursor.size_in_bytes());
        let n = n.saturating_add(self.tag_buffer.size_in_bytes());
        n
    }
}

/// Answer to a DescribeTopicPartitions request.
#[derive(Debug)]
pub struct DescribePartitionsResponse {
    pub basev1: BaseResponseV1,
    pub throttle: i32,
    pub topics_array: CVec<TopicResponse>,
    pub next_cursor: u8,
    pub tag_buffer: u8,
}

impl DescribePartitionsResponse {
    /// The fields in wire order.
    pub open spec fn parts(&self) -> ((((BaseResponseV1, i32), CVec<TopicResponse>), u8), u8) {
        ((((self.basev1, self.throttle), self.topics_array), self.next_cursor), self.tag_buffer)
    }
}

impl Encode for DescribePartitionsResponse {
    open spec fn wf(&self) -> bool {
        self.parts().wf()
    }

    open spec fn spec_encode(&self) -> Seq<u8> {
        self.parts().spec_encode()
    }

    fn encode(&self) -> (r: Vec<u8>) {
        let v = self.basev1.encode();
        let v = cat(v, self.throttle.encode());
        let v = cat(v, self.topics_array.encode());
        let v = cat(v, self.next_cursor.encode());
        let v = cat(v, self.tag_buffer.encode());
        v
    }
}

impl Decode for DescribePartitionsResponse {
    type Model = <((((BaseResponseV1, i32), CVec<TopicResponse>), u8), u8) as Decode>::Model;

    open spec fn model(&self) -> Self::Model {
        self.parts().model()
    }

    open spec fn spec_decode(s: Seq<u8>, pos: int) -> Option<(Self::Model, int)> {
        <((((BaseResponseV1, i32), CVec<TopicResponse>), u8), u8) as Decode>::spec_decode(s, pos)
    }

    fn decode(bytes: &[u8], offset: &mut usize) -> (r: Option<Self>) {
        match <((((BaseResponseV1, i32), CVec<TopicResponse>), u8), u8) as Decode>::decode(bytes, offset) {
            Some(((((basev1, throttle), topics_array), next_cursor), tag_buffer)) => Some(DescribePartitionsResponse { basev1, throttle, topics_array, next_cursor, tag_buffer }),
            None => None,
        }
    }
}

impl Codec for DescribePartitionsResponse {
    proof fn lemma_round_trip(&self, s: Seq<u8>, pos: int) {
        self.parts().lemma_round_trip(s, pos);
    }
}

impl Size for DescribePartitionsResponse {
    fn size_in_bytes(&self) -> (r: usize) {
        let n = self.basev1.size_in_bytes();
        let n = n.saturating_add(self.throttle.size_in_bytes());
        let n = n.saturating_add(self.topics_array.size_in_bytes());
        let n = n.saturating_add(self.next_cursor.size_in_bytes());
        let n = n.saturating_add(self.tag_buffer.size_in_bytes());
        n
    }
}

/// One partition asked for in a Fetch request.
#[derive(Debug)]
pub struct FetchPartitionsRequest {
    pub partition: i32,
    pub current_leader_epoch: i32,
    pub fetch_offset: i64,
    pub log_start_offset: i64,
    pub pub_partition_max_bytes: i32,
    pub tagged_field: u8,
}

impl FetchPartitionsRequest {
    /// The fields in wire order.
    pub open spec fn parts(&self) -> (((((i32, i32), i64), i64), i32), u8) {
        (((((self.partition, self.current_leader_epoch), self.fetch_offset), self.log_start_offset), self.pub_partition_max_bytes), self.tagged_field)
    }
}

impl Encode for FetchPartitionsRequest {
    open spec fn wf(&self) -> bool {
        self.parts().wf()
    }

    open spec fn spec_encode(&self) -> Seq<u8> {
        self.parts().spec_encode()
    }

    fn encode(&self) -> (r: Vec<u8>) {
        let v = self.partition.encode();
        let v = cat(v, self.current_leader_epoch.encode());
        let v = cat(v, self.fetch_offset.encode());
        let v = cat(v, self.log_start_offset.encode());
        let v = cat(v, self.pub_partition_max_bytes.encode());
        let v = cat(v, self.tagged_field.encode());
        v
    }
}

impl Decode for FetchPartitionsRequest {
    type Model = <(((((i32, i32), i64), i64), i32), u8) as Decode>::Model;

    open spec fn model(&self) -> Self::Model {
        self.parts().model()
    }

    open spec fn spec_decode(s: Seq<u8>, pos: int) -> Option<(Self::Model, int)> {
        <(((((i32, i32), i64), i64), i32), u8) as Decode>::spec_decode(s, pos)
    }

    fn decode(bytes: &[u8], offset: &mut usize) -> (r: Option<Self>) {
        match <(((((i32, i32), i64), i64), i32), u8) as Decode>::decode(bytes, offset) {
            Some((((((partition, current_leader_epoch), fetch_offset), log_start_offset), pub_partition_max_bytes), tagged_field)) => Some(FetchPartitionsRequest { partition, current_leader_epoch, fetch_offset, log_start_offset, pub_partition_max_bytes, tagged_field }),
            None => None,
        }
    }
}

impl Codec for FetchPartitionsRequest {
    proof fn lemma_round_trip(&self, s: Seq<u8>, pos: int) {
        self.parts().lemma_round_trip(s, pos);
    }
}

impl Size for FetchPartitionsRequest {
    fn size_in_bytes(&self) -> (r: usize) {
        let n = self.partition.size_in_bytes();
        let n = n.saturating_add(self.current_leader_epoch.size_in_bytes());
        let n = n.saturating_add(self.fetch_offset.size_in_bytes());
        let n = n.saturating_add(self.log_start_offset.size_in_bytes());
        let n = n.saturating_add(self.pub_partition_max_bytes.size_in_bytes());
        let n = n.saturating_add(self.tagged_field.size_in_bytes());
        n
    }
}

/// One topic asked for in a Fetch request.
#[derive(Debug)]
pub struct TopicFetch {
    pub topic_id: UUID,
    pub partitions: CVec<FetchPartitionsRequest>,
    pub tagged_field: u8,
}

impl TopicFetch {
    /// The fields in wire order.
    pub open spec fn parts(&self) -> ((UUID, CVec<FetchPartitionsRequest>), u8) {
        ((self.topic_id, self.partitions), self.tagged_field)
    }
}

impl Encode for TopicFetch {
    open spec fn wf(&self) -> bool {
        self.parts().wf()
    }

    open spec fn spec_encode(&self) -> Seq<u8> {
        self.parts().spec_encode()
    }

    fn encode(&self) -> (r: Vec<u8>) {
        let v = self.topic_id.encode();
        let v = cat(v, self.partitions.encode());
        let v = cat(v, self.tagged_field.encode());
        v
    }
}

impl Decode for TopicFetch {
    type Model = <((UUID, CVec<FetchPartitionsRequest>), u8) as Decode>::Model;

    open spec fn model(&self) -> Self::Model {
        self.parts().model()
    }

    open spec fn spec_decode(s: Seq<u8>, pos: int) -> Option<(Self::Model, int)> {
        <((UUID, CVec<FetchPartitionsRequest>), u8) as Decode>::spec_decode(s, pos)
    }

    fn decode(bytes: &[u8], offset: &mut usize) -> (r: Option<Self>) {
        match <((UUID, CVec<FetchPartitionsRequest>), u8) as Decode>::decode(bytes, offset) {
            Some(((topic_id, partitions), tagged_field)) => Some(TopicFetch { topic_id, partitions, tagged_field }),
            None => None,
        }
    }
}

impl Codec for TopicFetch {
    proof fn lemma_round_trip(&self, s: Seq<u8>, pos: int) {
        self.parts().lemma_round_trip(s, pos);
    }
}

impl Size for TopicFetch {
    fn size_in_bytes(&self) -> (r: usize) {
        let n = self.topic_id.size_in_bytes();
        let n = n.saturating_add(self.partitions.size_in_bytes());
        let n = n.saturating_add(self.tagged_field.size_in_bytes());
        n
    }
}

/// A topic the client drops from its fetch session.
#[derive(Debug)]
pub struct ForgottenTopicsData {
    pub topic_id: UUID,
    pub partitions: i32,
    pub tagged_field: u8,
}

impl ForgottenTopicsData {
    /// The fields in wire order.
    pub open spec fn parts(&self) -> ((UUID, i32), u8) {
        ((self.topic_id, self.partitions), self.tagged_field)
    }
}

impl Encode for ForgottenTopicsData {
    open spec fn wf(&self) -> bool {
        self.parts().wf()
    }

    open spec fn spec_encode(&self) -> Seq<u8> {
        self.parts().spec_encode()
    }

    fn encode(&self) -> (r: Vec<u8>) {
        let v = self.topic_id.encode();
        let v = cat(v, self.partitions.encode());
        let v = cat(v, self.tagged_field.encode());
        v
    }
}

impl Decode for ForgottenTopicsData {
    type Model = <((UUID, i32), u8) as Decode>::Model;

    open spec fn model(&self) -> Self::Model {
        self.parts().model()
    }

    open spec fn spec_decode(s: Seq<u8>, pos: int) -> Option<(Self::Model, int)> {
        <((UUID, i32), u8) as Decode>::spec_decode(s, pos)
    }

    fn decode(bytes: &[u8], offset: &mut usize) -> (r: Option<Self>) {
        match <((UUID, i32), u8) as Decode>::decode(bytes, offset) {
            Some(((topic_id, partitions), tagged_field)) => Some(ForgottenTopicsData { topic_id, partitions, tagged_field }),
            None => None,
        }
    }
}

impl Codec for ForgottenTopicsData {
    proof fn lemma_round_trip(&self, s: Seq<u8>, pos: int) {
        self.parts().lemma_round_trip(s, pos);
    }
}

impl Size for ForgottenTopicsData {
    fn size_in_bytes(&self) -> (r: usize) {
        let n = self.topic_id.size_in_bytes();
        let n = n.saturating_add(self.partitions.size_in_bytes());
        let n = n.saturating_add(self.tagged_field.size_in_bytes());
        n
    }
}

/// A Fetch request.
#[derive(Debug)]
pub struct FetchRequest {
    pub basev2: BaseRequestV2,
    pub max_wait_ms: i32,
    pub min_bytes: i32,
    pub max_bytes: i32,
    pub isolation_level: i8,
    pub session_id: i32,
    pub session_epoch: i32,
    pub topics: CVec<TopicFetch>,
    pub forgotten_topics_data: CVec<ForgottenTopicsData>,
    pub rack_id: CString,
    pub tagged_field: u8,
}

impl FetchRequest {
    /// The fields in wire order.
    pub open spec fn parts(&self) -> ((((((((((BaseRequestV2, i32), i32), i32), i8), i32), i32), CVec<TopicFetch>), CVec<ForgottenTopicsData>), CString), u8) {
        ((((((((((self.basev2, self.max_wait_ms), self.min_bytes), self.max_bytes), self.isolation_level), self.session_id), self.session_epoch), self.topics), self.forgotten_topics_data), self.rack_id), self.tagged_field)
    }
}

impl Encode for FetchRequest {
    open spec fn wf(&self) -> bool {
        self.parts().wf()
    }

    open spec fn spec_encode(&self) -> Seq<u8> {
        self.parts().spec_encode()
    }

    fn encode(&self) -> (r: Vec<u8>) {
        let v = self.basev2.encode();
        let v = cat(v, self.max_wait_ms.encode());
        let v = cat(v, self.min_bytes.encode());
        let v = cat(v, self.max_bytes.encode());
        let v = cat(v, self.isolation_level.encode());
        let v = cat(v, self.session_id.encode());
        let v = cat(v, self.session_epoch.encode());
        let v = cat(v, self.topics.encode());
        let v = cat(v, self.forgotten_topics_data.encode());
        let v = cat(v, self.rack_id.encode());
        let v = cat(v, self.tagged_field.encode());
        v
    }
}

impl Decode for FetchRequest {
    type Model = <((((((((((BaseRequestV2, i32), i32), i32), i8), i32), i32), CVec<TopicFetch>), CVec<ForgottenTopicsData>), CString), u8) as Decode>::Model;

    open spec fn model(&self) -> Self::Model {
        self.parts().model()
    }

    open spec fn spec_decode(s: Seq<u8>, pos: int) -> Option<(Self::Model, int)> {
        <((((((((((BaseRequestV2, i32), i32), i32), i8), i32), i32), CVec<TopicFetch>), CVec<ForgottenTopicsData>), CString), u8) as Decode>::spec_decode(s, pos)
    }

    fn decode(bytes: &[u8], offset: &mut usize) -> (r: Option<Self>) {
        match <((((((((((BaseRequestV2, i32), i32), i32), i8), i32), i32), CVec<TopicFetch>), CVec<ForgottenTopicsData>), CString), u8) as Decode>::decode(bytes, offset) {
            Some(((((((((((basev2, max_wait_ms), min_bytes), max_bytes), isolation_level), session_id), session_epoch), topics), forgotten_topics_data), rack_id), tagged_field)) => Some(FetchRequest { basev2, max_wait_ms, min_bytes, max_bytes, isolation_level, session_id, session_epoch, topics, forgotten_topics_data, rack_id, tagged_field }),
            None => None,
        }
    }
}

impl Codec for FetchRequest {
    proof fn lemma_round_trip(&self, s: Seq<u8>, pos: int) {
        self.parts().lemma_round_trip(s, pos);
    }
}

impl Size for FetchRequest {
    fn size_in_bytes(&self) -> (r: usize) {
        let n = self.basev2.size_in_bytes();
        let n = n.saturating_add(self.max_wait_ms.size_in_bytes());
        let n = n.saturating_add(self.min_bytes.size_in_bytes());
        let n = n.saturating_add(self.max_bytes.size_in_bytes());
        let n = n.saturating_add(self.isolation_level.size_in_bytes());
        let n = n.saturating_add(self.session_id.size_in_bytes());
        let n = n.saturating_add(self.session_epoch.size_in_bytes());
        let n = n.saturating_add(self.topics.size_in_bytes());
        let n = n.saturating_add(self.forgotten_topics_data.size_in_bytes());
        let n = n.saturating_add(self.rack_id.size_in_bytes());
        let n = n.saturating_add(self.tagged_field.size_in_bytes());
        n
    }
}

/// An aborted transaction of a fetched partition.
#[derive(Debug)]
pub struct AbortedTransactions {
    pub producer_id: i64,
    pub first_offset: i64,
    pub tagged_field: u8,
}

impl AbortedTransactions {
    /// The fields in wire order.
    pub open spec fn parts(&self) -> ((i64, i64), u8) {
        ((self.producer_id, self.first_offset), self.tagged_field)
    }
}

impl Encode for AbortedTransactions {
    open spec fn wf(&self) -> bool {
        self.parts().wf()
    }

    open spec fn spec_encode(&self) -> Seq<u8> {
        self.parts().spec_encode()
    }

    fn encode(&self) -> (r: Vec<u8>) {
        let v = self.producer_id.encode();
        let v = cat(v, self.first_offset.encode());
        let v = cat(v, self.tagged_field.encode());
        v
    }
}

impl Decode for AbortedTransactions {
    type Model = <((i64, i64), u8) as Decode>::Model;

    open spec fn model(&self) -> Self::Model {
        self.parts().model()
    }

    open spec fn spec_decode(s: Seq<u8>, pos: int) -> Option<(Self::Model, int)> {
        <((i64, i64), u8) as Decode>::spec_decode(s, pos)
    }

    fn decode(bytes: &[u8], offset: &mut usize) -> (r: Option<Self>) {
        match <((i64, i64), u8) as Decode>::decode(bytes, offset) {
            Some(((producer_id, first_offset), tagged_field)) => Some(AbortedTransactions { producer_id, first_offset, tagged_field }),
            None => None,
        }
    }
}

impl Codec for AbortedTransactions {
    proof fn lemma_round_trip(&self, s: Seq<u8>, pos: int) {
        self.parts().lemma_round_trip(s, pos);
    }
}

impl Size for AbortedTransactions {
    fn size_in_bytes(&self) -> (r: usize) {
        let n = self.producer_id.size_in_bytes();
        let n = n.saturating_add(self.first_offset.size_in_bytes());
        let n = n.saturating_add(self.tagged_field.size_in_bytes());
        n
    }
}

/// Fetch answer for one topic.
#[derive(Debug)]
pub struct FetchTopicResponse {
    pub topic_id: UUID,
    pub partitions: CVec<FetchPartitionsResponse>,
    pub tagged_field: u8,
}

impl FetchTopicResponse {
    /// The fields in wire order.
    pub open spec fn parts(&self) -> ((UUID, CVec<FetchPartitionsResponse>), u8) {
        ((self.topic_id, self.partitions), self.tagged_field)
    }
}

impl Encode for FetchTopicResponse {
    open spec fn wf(&self) -> bool {
        self.parts().wf()
    }

    open spec fn spec_encode(&self) -> Seq<u8> {
        self.parts().spec_encode()
    }

    fn encode(&self) -> (r: Vec<u8>) {
        let v = self.topic_id.encode();
        let v = cat(v, self.partitions.encode());
        let v = cat(v, self.tagged_field.encode());
        v
    }
}

impl Decode for FetchTopicResponse {
    type Model = <((UUID, CVec<FetchPartitionsResponse>), u8) as Decode>::Model;

    open spec fn model(&self) -> Self::Model {
        self.parts().model()
    }

    open spec fn spec_decode(s: Seq<u8>, pos: int) -> Option<(Self::Model, int)> {
        <((UUID, CVec<FetchPartitionsResponse>), u8) as Decode>::spec_decode(s, pos)
    }

    fn decode(bytes: &[u8], offset: &mut usize) -> (r: Option<Self>) {
        match <((UUID, CVec<FetchPartitionsResponse>), u8) as Decode>::decode(bytes, offset) {
            Some(((topic_id, partitions), tagged_field)) => Some(FetchTopicResponse { topic_id, partitions, tagged_field }),
            None => None,
        }
    }
}

impl Codec for FetchTopicResponse {
    proof fn lemma_round_trip(&self, s: Seq<u8>, pos: int) {
        self.parts().lemma_round_trip(s, pos);
    }
}

impl Size for FetchTopicResponse {
    fn size_in_bytes(&self) -> (r: usize) {
        let n = self.topic_id.size_in_bytes();
        let n = n.saturating_add(self.partitions.size_in_bytes());
        let n = n.saturating_add(self.tagged_field.size_in_bytes());
        n
    }
}

/// Fetch answer for one partition: its records as one opaque blob.
#[derive(Debug)]
pub struct FetchPartitionsResponse {
    pub partition_idx: i32,
    pub error_code: i16,
    pub high_watermark: i64,
    pub last_stable_offset: i64,
    pub log_start_offset: i64,
    pub aborted_transactions: CVec<AbortedTransactions>,
    pub preferred_read_replica: i32,
    pub records: ByteBuf,
    pub tagged_field: u8,
}

impl FetchPartitionsResponse {
    /// The fields in wire order.
    pub open spec fn parts(&self) -> ((((((((i32, i16), i64), i64), i64), CVec<AbortedTransactions>), i32), ByteBuf), u8) {
        ((((((((self.partition_idx, self.error_code), self.high_watermark), self.last_stable_offset), self.log_start_offset), self.aborted_transactions), self.preferred_read_replica), self.records), self.tagged_field)
    }
}

impl Encode for FetchPartitionsResponse {
    open spec fn wf(&self) -> bool {
        self.parts().wf()
    }

    open spec fn spec_encode(&self) -> Seq<u8> {
        self.parts().spec_encode()
    }

    fn encode(&self) -> (r: Vec<u8>) {
        let v = self.partition_idx.encode();
        let v = cat(v, self.error_code.encode());
        let v = cat(v, self.high_watermark.encode());
        let v = cat(v, self.last_stable_offset.encode());
        let v = cat(v, self.log_start_offset.encode());
        let v = cat(v, self.aborted_transactions.encode());
        let v = cat(v, self.preferred_read_replica.encode());
        let v = cat(v, self.records.encode());
        let v = cat(v, self.tagged_field.encode());
        v
    }
}

impl Decode for FetchPartitionsResponse {
    type Model = <((((((((i32, i16), i64), i64), i64), CVec<AbortedTransactions>), i32), ByteBuf), u8) as Decode>::Model;

    open spec fn model(&self) -> Self::Model {
        self.parts().model()
    }

    open spec fn spec_decode(s: Seq<u8>, pos: int) -> Option<(Self::Model, int)> {
        <((((((((i32, i16), i64), i64), i64), CVec<AbortedTransactions>), i32), ByteBuf), u8) as Decode>::spec_decode(s, pos)
    }

    fn decode(bytes: &[u8], offset: &mut usize) -> (r: Option<Self>) {
        match <((((((((i32, i16), i64), i64), i64), CVec<AbortedTransactions>), i32), ByteBuf), u8) as Decode>::decode(bytes, offset) {
            Some(((((((((partition_idx, error_code), high_watermark), last_stable_offset), log_start_offset), aborted_transactions), preferred_read_replica), records), tagged_field)) => Some(FetchPartitionsResponse { partition_idx, error_code, high_watermark, last_stable_offset, log_start_offset, aborted_transactions, preferred_read_replica, records, tagged_field }),
            None => None,
        }
    }
}

impl Codec for FetchPartitionsResponse {
    proof fn lemma_round_trip(&self, s: Seq<u8>, pos: int) {
        self.parts().lemma_round_trip(s, pos);
    }
}

impl Size for FetchPartitionsResponse {
    fn size_in_bytes(&self) -> (r: usize) {
        let n = self.partition_idx.size_in_bytes();
        let n = n.saturating_add(self.error_code.size_in_bytes());
        let n = n.saturating_add(self.high_watermark.size_in_bytes());
        let n = n.saturating_add(self.last_stable_offset.size_in_bytes());
        let n = n.saturating_add(self.log_start_offset.size_in_bytes());
        let n = n.saturating_add(self.aborted_transactions.size_in_bytes());
        let n = n.saturating_add(self.preferred_read_replica.size_in_bytes());
        let n = n.saturating_add(self.records.size_in_bytes());
        let n = n.saturating_add(self.tagged_field.size_in_bytes());
        n
    }
}

/// Answer to a Fetch request.
#[derive(Debug)]
pub struct FetchResponse {
    pub basev1: BaseResponseV1,
    pub throttle_time: i32,
    pub error_code: i16,
    pub session_id: i32,
    pub responses: CVec<FetchTopicResponse>,
    pub tagged_field: u8,
}

impl FetchResponse {
    /// The fields in wire order.
    pub open spec fn parts(&self) -> (((((BaseResponseV1, i32), i16), i32), CVec<FetchTopicResponse>), u8) {
        (((((self.basev1, self.throttle_time), self.error_code), self.session_id), self.responses), self.tagged_field)
    }
}

impl Encode for FetchResponse {
    open spec fn wf(&self) -> bool {
        self.parts().wf()
    }

    open spec fn spec_encode(&self) -> Seq<u8> {
        self.parts().spec_encode()
    }

    fn encode(&self) -> (r: Vec<u8>) {
        let v = self.basev1.encode();
        let v = cat(v, self.throttle_time.encode());
        let v = cat(v, self.error_code.encode());
        let v = cat(v, self.session_id.encode());
        let v = cat(v, self.responses.encode());
        let v = cat(v, self.tagged_field.encode());
        v
    }
}

impl Decode for FetchResponse {
    type Model = <(((((BaseResponseV1, i32), i16), i32), CVec<FetchTopicResponse>), u8) as Decode>::Model;

    open spec fn model(&self) -> Self::Model {
        self.parts().model()
    }

    open spec fn spec_decode(s: Seq<u8>, pos: int) -> Option<(Self::Model, int)> {
        <(((((BaseResponseV1, i32), i16), i32), CVec<FetchTopicResponse>), u8) as Decode>::spec_decode(s, pos)
    }

    fn decode(bytes: &[u8], offset: &mut usize) -> (r: Option<Self>) {
        match <(((((BaseResponseV1, i32), i16), i32), CVec<FetchTopicResponse>), u8) as Decode>::decode(bytes, offset) {
            Some((((((basev1, throttle_time), error_code), session_id), responses), tagged_field)) => Some(FetchResponse { basev1, throttle_time, error_code, session_id, responses, tagged_field }),
            None => None,
        }
    }
}

impl Codec for FetchResponse {
    proof fn lemma_round_trip(&self, s: Seq<u8>, pos: int) {
        self.parts().lemma_round_trip(s, pos);
    }
}

impl Size for FetchResponse {
    fn size_in_bytes(&self) -> (r: usize) {
        let n = self.basev1.size_in_bytes();
        let n = n.saturating_add(self.throttle_time.size_in_bytes());
        let n = n.saturating_add(self.error_code.size_in_bytes());
        let n = n.saturating_add(self.session_id.size_in_bytes());
        let n = n.saturating_add(self.responses.size_in_bytes());
        let n = n.saturating_add(self.tagged_field.size_in_bytes());
        n
    }
}
} // verus!
