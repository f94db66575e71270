use codecrafters_kafka::array::CVec;
use codecrafters_kafka::handlers::{
    get_handler, is_version_supported, request_api_key, FetchTarget, Handler,
};
use codecrafters_kafka::ids::UUID;
use codecrafters_kafka::log::decode_log_segment;
use codecrafters_kafka::metadata::{get_topics, TopicResponse};
use codecrafters_kafka::protocol::{
    ApiVersionsRequest, BaseRequest, BaseRequestV2, DescribePartitionsRequest, ErrorResponse,
    FetchPartitionsRequest, FetchPartitionsResponse, FetchRequest, FetchResponse,
    FetchTopicResponse, SupportedVersionsKey, TopicFetch, TopicsRequest,
};
use codecrafters_kafka::strings::CString;
use codecrafters_kafka::{Decode, Encode, Size};

#[test]
fn test_decode_base_request_v2() {
    let test_request = vec![
        0x00, 0x00, 0x00, 0x20, 0x00, 0x4B, 0x00, 0x00, 0x00, 0x00, 0x00, 0x07, 0x00, 0x09, 0x6B,
        0x61, 0x66, 0x6B, 0x61, 0x2D, 0x63, 0x6C, 0x69, 0x00, 0x02, 0x04, 0x66, 0x6F, 0x6F, 0x00,
        0x00, 0x00, 0x00, 0x64, 0xFF, 0x00,
    ];

    let mut offset = 0;

    let base_decoded = BaseRequestV2::decode(&test_request[..], &mut offset).unwrap();

    assert_eq!(base_decoded.client_id, "kafka-cli")
}

fn metadata_log() -> Vec<u8> {
    let mut v = vec![
        0x00, 0x00, 0x00, 0x00, 0x00, 0x00, 0x00, 0x00, 0x00, 0x00, 0x00, 0x4f, 0x00, 0x00, 0x00,
        0x01, 0x02, 0xb0, 0x69, 0x45, 0x7c, 0x00, 0x00, 0x00, 0x00, 0x00, 0x00, 0x00, 0x00, 0x01,
        0x91, 0xe0, 0x5a, 0xf8, 0x18, 0x00, 0x00, 0x01, 0x91, 0xe0, 0x5a, 0xf8, 0x18, 0xff, 0xff,
        0xff, 0xff, 0xff, 0xff, 0xff, 0xff, 0xff, 0xff, 0xff, 0xff, 0xff, 0xff, 0x00, 0x00, 0x00,
        0x01, 0x3a, 0x00, 0x00, 0x00, 0x01, 0x2e, 0x01, 0x0c, 0x00, 0x11, 0x6d, 0x65, 0x74, 0x61,
        0x64, 0x61, 0x74, 0x61, 0x2e, 0x76, 0x65, 0x72, 0x73, 0x69, 0x6f, 0x6e, 0x00, 0x14, 0x00,
        0x00,
    ];
    v.extend_from_slice(&[
        0x00, 0x00, 0x00, 0x00, 0x00, 0x00, 0x00, 0x01, 0x00, 0x00, 0x00, 0xe4, 0x00, 0x00, 0x00,
        0x01, 0x02, 0x24, 0xdb, 0x12, 0xdd, 0x00, 0x00, 0x00, 0x00, 0x00, 0x02, 0x00, 0x00, 0x01,
        0x91, 0xe0, 0x5b, 0x2d, 0x15, 0x00, 0x00, 0x01, 0x91, 0xe0, 0x5b, 0x2d, 0x15, 0xff, 0xff,
        0xff, 0xff, 0xff, 0xff, 0xff, 0xff, 0xff, 0xff, 0xff, 0xff, 0xff, 0xff, 0x00, 0x00, 0x00,
        0x03, 0x3c, 0x00, 0x00, 0x00, 0x01, 0x30, 0x01, 0x02, 0x00, 0x04, 0x73, 0x61, 0x7a, 0x00,
        0x00, 0x00, 0x00, 0x00, 0x00, 0x40, 0x00, 0x80, 0x00, 0x00, 0x00, 0x00, 0x00, 0x00, 0x91,
        0x00, 0x00, 0x90, 0x01, 0x00, 0x00, 0x02, 0x01, 0x82, 0x01, 0x01, 0x03, 0x01, 0x00, 0x00,
        0x00, 0x00, 0x00, 0x00, 0x00, 0x00, 0x00, 0x00, 0x40, 0x00, 0x80, 0x00, 0x00, 0x00, 0x00,
        0x00, 0x00, 0x91, 0x02, 0x00, 0x00, 0x00, 0x01, 0x02, 0x00, 0x00, 0x00, 0x01, 0x01, 0x01,
        0x00, 0x00, 0x00, 0x01, 0x00, 0x00, 0x00, 0x00, 0x00, 0x00, 0x00, 0x00, 0x02, 0x10, 0x00,
        0x00, 0x00, 0x00, 0x00, 0x40, 0x00, 0x80, 0x00, 0x00, 0x00, 0x00, 0x00, 0x00, 0x01, 0x00,
        0x00, 0x90, 0x01, 0x00, 0x00, 0x04, 0x01, 0x82, 0x01, 0x01, 0x03, 0x01, 0x00, 0x00, 0x00,
        0x01, 0x00, 0x00, 0x00, 0x00, 0x00, 0x00, 0x40, 0x00, 0x80, 0x00, 0x00, 0x00, 0x00, 0x00,
        0x00, 0x91, 0x02, 0x00, 0x00, 0x00, 0x01, 0x02, 0x00, 0x00, 0x00, 0x01, 0x01, 0x01, 0x00,
        0x00, 0x00, 0x01, 0x00, 0x00, 0x00, 0x00, 0x00, 0x00, 0x00, 0x00, 0x02, 0x10, 0x00, 0x00,
        0x00, 0x00, 0x00, 0x40, 0x00, 0x80, 0x00, 0x00, 0x00, 0x00, 0x00, 0x00, 0x01, 0x00, 0x00,
    ]);
    v
}

fn index() -> Vec<TopicResponse> {
    get_topics(decode_log_segment(&metadata_log()).unwrap())
}

fn saz_id() -> UUID {
    UUID([0, 0, 0, 0, 0, 0, 0x40, 0, 0x80, 0, 0, 0, 0, 0, 0, 0x91])
}

fn header_v2(api_key: i16, correlation_id: i32) -> BaseRequestV2 {
    BaseRequestV2 {
        size: 0,
        api_key,
        api_versions: 0,
        correlation_id,
        client_id: "kafka-cli".to_string(),
        tag_buffer: 0,
    }
}

fn version_table() -> Vec<SupportedVersionsKey> {
    vec![
        SupportedVersionsKey { key: 1, min: 0, max: 16, tagged_fields: 0 },
        SupportedVersionsKey { key: 18, min: 0, max: 4, tagged_fields: 0 },
        SupportedVersionsKey { key: 75, min: 0, max: 0, tagged_fields: 0 },
    ]
}

fn api_versions_request(version: i16) -> ApiVersionsRequest {
    ApiVersionsRequest {
        base: BaseRequest { size: 0, api_key: 18, api_versions: version, correlation_id: 311908132 },
    }
}

#[test]
fn api_versions_in_range() {
    let table = version_table();
    let resp = api_versions_request(4).handle_request(&table).unwrap();
    assert_eq!(resp.error_code, 0);
    assert_eq!(resp.api_keys.data.len(), 3);
    assert_eq!(resp.api_keys.data[1].key, 18);
    assert_eq!(resp.base.correlation_id, 311908132);
    let bytes = resp.encode();
    assert_eq!(resp.base.size as usize, bytes.len() - 4);
    assert_eq!(&bytes[0..4], &(bytes.len() as i32 - 4).to_be_bytes());
    assert_eq!(&bytes[4..8], &311908132i32.to_be_bytes());
}

#[test]
fn api_versions_out_of_range() {
    let table = version_table();
    let resp = api_versions_request(5).handle_request(&table).unwrap();
    assert_eq!(resp.error_code, 35);
    assert_eq!(resp.api_keys.data.len(), 3);
    assert!(!is_version_supported(&table, 18, -1));
    assert!(is_version_supported(&table, 75, 0));
    assert!(!is_version_supported(&table, 2, 0));
}

#[test]
fn describe_unknown_topic() {
    let req = DescribePartitionsRequest {
        basev2: header_v2(75, 7),
        topics_array: CVec {
            data: vec![TopicsRequest { name: CString::from_string("foo".to_string()), tag_buffer: 0 }],
        },
        response_partition_limit: 100,
        cursor: 0xff,
        tag_buffer: 0,
    };
    let resp = req.handle_request(&index()).unwrap();
    assert_eq!(resp.topics_array.data.len(), 1);
    let t = &resp.topics_array.data[0];
    assert_eq!(t.error_code, 3);
    assert_eq!(t.id.0, [0u8; 16]);
    assert_eq!(t.name.0, "foo");
    assert!(t.partitions_array.data.is_empty());
    assert_eq!(t.authorized_ops, 0x00000df8);
    assert_eq!(resp.next_cursor, 0xff);
    assert_eq!(resp.basev1.base.correlation_id, 7);
    assert_eq!(resp.basev1.base.size as usize, resp.encode().len() - 4);
}

#[test]
fn describe_known_topic() {
    let req = DescribePartitionsRequest {
        basev2: header_v2(75, 9),
        topics_array: CVec {
            data: vec![
                TopicsRequest { name: CString::from_string("saz".to_string()), tag_buffer: 0 },
                TopicsRequest { name: CString::from_string("bar".to_string()), tag_buffer: 0 },
            ],
        },
        response_partition_limit: 100,
        cursor: 0xff,
        tag_buffer: 0,
    };
    let resp = req.handle_request(&index()).unwrap();
    assert_eq!(resp.topics_array.data.len(), 2);
    let t = &resp.topics_array.data[0];
    assert_eq!(t.error_code, 0);
    assert_eq!(t.name.0, "saz");
    assert_eq!(t.id.0, saz_id().0);
    assert_eq!(t.partitions_array.data.len(), 2);
    assert_eq!(t.partitions_array.data[1].partition_idx, 1);
    assert_eq!(resp.topics_array.data[1].error_code, 3);
    let bytes = resp.encode();
    assert_eq!(bytes.len(), resp.size_in_bytes());
    assert_eq!(resp.basev1.base.size as usize, bytes.len() - 4);
}

fn fetch_request(topic_id: UUID, partitions: Vec<i32>) -> FetchRequest {
    FetchRequest {
        basev2: header_v2(1, 5),
        max_wait_ms: 500,
        min_bytes: 1,
        max_bytes: 52428800,
        isolation_level: 0,
        session_id: 0,
        session_epoch: 0,
        topics: CVec {
            data: vec![TopicFetch {
                topic_id,
                partitions: CVec {
                    data: partitions
                        .into_iter()
                        .map(|p| FetchPartitionsRequest {
                            partition: p,
                            current_leader_epoch: 0,
                            fetch_offset: 0,
                            log_start_offset: 0,
                            pub_partition_max_bytes: 1048576,
                            tagged_field: 0,
                        })
                        .collect(),
                },
                tagged_field: 0,
            }],
        },
        forgotten_topics_data: CVec { data: vec![] },
        rack_id: CString::from_string(String::new()),
        tagged_field: 0,
    }
}

#[test]
fn fetch_unknown_topic_id() {
    let unknown = UUID([0x11; 16]);
    let req = fetch_request(unknown, vec![0, 1]);
    let idx = index();
    let plan = req.plan(&idx);
    assert_eq!(plan.len(), 1);
    assert!(plan[0].topic.is_none());
    let resp = req.handle_request(&idx, &vec![]).unwrap();
    assert_eq!(resp.responses.data.len(), 1);
    let t = &resp.responses.data[0];
    assert_eq!(t.topic_id.0, [0x11; 16]);
    assert_eq!(t.partitions.data.len(), 1);
    let p = &t.partitions.data[0];
    assert_eq!(p.error_code, 100);
    assert_eq!(p.high_watermark, 0);
    assert!(p.records.0.is_empty());
    assert_eq!(resp.basev1.base.size as usize, resp.encode().len() - 4);
}

#[test]
fn fetch_known_topic_carries_segment() {
    let req = fetch_request(saz_id(), vec![0, 1]);
    let idx = index();
    let plan: Vec<FetchTarget> = req.plan(&idx);
    assert_eq!(plan.len(), 2);
    assert_eq!(plan[0].topic.as_deref(), Some("saz"));
    assert_eq!(plan[1].partition, 1);
    let segments = vec![vec![1u8, 2, 3], vec![]];
    let resp = req.handle_request(&idx, &segments).unwrap();
    assert_eq!(resp.responses.data.len(), 2);
    let p0 = &resp.responses.data[0].partitions.data[0];
    assert_eq!(p0.error_code, 0);
    assert_eq!(p0.records.0, vec![1, 2, 3]);
    assert_eq!(p0.preferred_read_replica, -1);
    let p1 = &resp.responses.data[1].partitions.data[0];
    assert!(p1.records.0.is_empty());
    let bytes = resp.encode();
    assert_eq!(bytes.len(), resp.size_in_bytes());
    assert_eq!(&bytes[0..4], &(bytes.len() as i32 - 4).to_be_bytes());
}

#[test]
fn fetch_with_no_topics() {
    let resp = FetchResponse::get_topics(3, 4, &vec![], &vec![]);
    assert!(resp.responses.data.is_empty());
    assert_eq!(resp.session_id, 4);
    assert_eq!(resp.encode(), vec![0, 0, 0, 0, 0, 0, 0, 3, 0, 0, 0, 0, 0, 0, 0, 0, 0, 0, 4, 0, 0]);
    let u = FetchTopicResponse::unknown_topic(UUID::zero());
    assert_eq!(u.partitions.data[0].error_code, 100);
    let k = FetchPartitionsResponse::known_topic(vec![5]);
    assert_eq!(k.records.encode(), vec![2, 5]);
}

#[test]
fn dispatch_by_api_key() {
    let mut frame = vec![0, 0, 0, 0];
    frame.extend(header_v2(75, 7).encode());
    frame.truncate(4);
    let req = api_versions_request(4);
    let bytes = req.encode();
    assert_eq!(request_api_key(&bytes), Some(18));
    assert!(matches!(get_handler(18, &bytes), Some(Handler::ApiVersions(r)) if r.base.correlation_id == 311908132));
    assert!(get_handler(42, &bytes).is_none());
    assert!(get_handler(75, &bytes).is_none());
    assert_eq!(request_api_key(&[0, 0, 0, 0, 0]), None);
    let d = DescribePartitionsRequest {
        basev2: header_v2(75, 7),
        topics_array: CVec { data: vec![] },
        response_partition_limit: 1,
        cursor: 0xff,
        tag_buffer: 0,
    };
    assert!(matches!(get_handler(75, &d.encode()), Some(Handler::DescribeTopicPartitions(_))));
    assert!(matches!(get_handler(1, &fetch_request(saz_id(), vec![0]).encode()), Some(Handler::Fetch(_))));
    assert_eq!(ErrorResponse { code: -1 }.encode(), vec![0xFF, 0xFF]);
}
