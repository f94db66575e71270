use codecrafters_kafka::log::{
    calculate_crc, crc_matches, decode_log_segment, LogFile, RecordBatch, RecordValue,
    TopicRecordBatch,
};
use codecrafters_kafka::metadata::get_topics;
use codecrafters_kafka::strings::CString;
use codecrafters_kafka::{Decode, Encode, Size};

#[test]
fn test_record_parsing() {
    let test_case_1 = vec![
        0x00, 0x00, 0x00, 0x00, 0x00, 0x00, 0x00, 0x00, 0x00, 0x00, 0x00, 0x4f, 0x00, 0x00,
        0x00, 0x01, 0x02, 0xb0, 0x69, 0x45, 0x7c, 0x00, 0x00, 0x00, 0x00, 0x00, 0x00, 0x00,
        0x00, 0x01, 0x91, 0xe0, 0x5a, 0xf8, 0x18, 0x00, 0x00, 0x01, 0x91, 0xe0, 0x5a, 0xf8,
        0x18, 0xff, 0xff, 0xff, 0xff, 0xff, 0xff, 0xff, 0xff, 0xff, 0xff, 0xff, 0xff, 0xff,
        0xff, 0x00, 0x00, 0x00, 0x01, 0x3a, 0x00, 0x00, 0x00, 0x01, 0x2e, 0x01, 0x0c, 0x00,
        0x11, 0x6d, 0x65, 0x74, 0x61, 0x64, 0x61, 0x74, 0x61, 0x2e, 0x76, 0x65, 0x72, 0x73,
        0x69, 0x6f, 0x6e, 0x00, 0x14, 0x00, 0x00, 0x00, 0x00, 0x00, 0x00, 0x00, 0x00, 0x00,
        0x01, 0x00, 0x00, 0x00, 0xe4, 0x00, 0x00, 0x00, 0x01, 0x02, 0x24, 0xdb, 0x12, 0xdd,
        0x00, 0x00, 0x00, 0x00, 0x00, 0x02, 0x00, 0x00, 0x01, 0x91, 0xe0, 0x5b, 0x2d, 0x15,
        0x00, 0x00, 0x01, 0x91, 0xe0, 0x5b, 0x2d, 0x15, 0xff, 0xff, 0xff, 0xff, 0xff, 0xff,
        0xff, 0xff, 0xff, 0xff, 0xff, 0xff, 0xff, 0xff, 0x00, 0x00, 0x00, 0x03, 0x3c, 0x00,
        0x00, 0x00, 0x01, 0x30, 0x01, 0x02, 0x00, 0x04, 0x73, 0x61, 0x7a, 0x00, 0x00, 0x00,
        0x00, 0x00, 0x00, 0x40, 0x00, 0x80, 0x00, 0x00, 0x00, 0x00, 0x00, 0x00, 0x91, 0x00,
        0x00, 0x90, 0x01, 0x00, 0x00, 0x02, 0x01, 0x82, 0x01, 0x01, 0x03, 0x01, 0x00, 0x00,
        0x00, 0x00, 0x00, 0x00, 0x00, 0x00, 0x00, 0x00, 0x40, 0x00, 0x80, 0x00, 0x00, 0x00,
        0x00, 0x00, 0x00, 0x91, 0x02, 0x00, 0x00, 0x00, 0x01, 0x02, 0x00, 0x00, 0x00, 0x01,
        0x01, 0x01, 0x00, 0x00, 0x00, 0x01, 0x00, 0x00, 0x00, 0x00, 0x00, 0x00, 0x00, 0x00,
        0x02, 0x10, 0x00, 0x00, 0x00, 0x00, 0x00, 0x40, 0x00, 0x80, 0x00, 0x00, 0x00, 0x00,
        0x00, 0x00, 0x01, 0x00, 0x00, 0x90, 0x01, 0x00, 0x00, 0x04, 0x01, 0x82, 0x01, 0x01,
        0x03, 0x01, 0x00, 0x00, 0x00, 0x01, 0x00, 0x00, 0x00, 0x00, 0x00, 0x00, 0x40, 0x00,
        0x80, 0x00, 0x00, 0x00, 0x00, 0x00, 0x00, 0x91, 0x02, 0x00, 0x00, 0x00, 0x01, 0x02,
        0x00, 0x00, 0x00, 0x01, 0x01, 0x01, 0x00, 0x00, 0x00, 0x01, 0x00, 0x00, 0x00, 0x00,
        0x00, 0x00, 0x00, 0x00, 0x02, 0x10, 0x00, 0x00, 0x00, 0x00, 0x00, 0x40, 0x00, 0x80,
        0x00, 0x00, 0x00, 0x00, 0x00, 0x00, 0x01, 0x00, 0x00,
    ];

    let mut offset = 0;

    let decoded = RecordBatch::decode(&test_case_1[..], &mut offset).unwrap();

    assert_eq!(decoded.base_offset, 0);
    assert_eq!(decoded.batch_length, 79);
    assert_eq!(decoded.partition_leader_epoch, 1);
    assert_eq!(decoded.crc, -1335278212);
    assert_eq!(decoded.attributes, 0);
    assert_eq!(decoded.last_offset_delta, 0);
    assert_eq!(decoded.base_timestamp, 1726045943832);
    assert_eq!(decoded.max_timestamp, 1726045943832);
    assert_eq!(decoded.producer_id, -1);
    assert_eq!(decoded.producer_epoch, -1);
    assert_eq!(decoded.base_sequence, -1);
    assert_eq!(decoded.records.len(), 1);
    assert_eq!(decoded.records[0].attributes, 0);
    assert_eq!(decoded.records[0].timestamp.0, 0);
    assert_eq!(decoded.records[0].delta_offset.0, 0);
    assert_eq!(decoded.records[0].value_length.0, 23);

    match &decoded.records[0].value.r_record {
        RecordValue::FeatureLevel(value) => {
            assert_eq!(value.feature_level, 20);
            assert_eq!(value.name, CString("metadata.version".to_string(), 1))
        }
        _ => panic!("Expected Feature level to be decoded"),
    }
}

#[test]
fn topic_batch() {
    let test_case: Vec<u8> = vec![
        0, 0, 0, 0, 0, 0, 0, 0, 0, 0, 0, 82, 0, 0, 0, 0, 2, 139, 170, 135, 42, 0, 0, 0, 0, 0,
        0, 0, 0, 1, 145, 224, 91, 109, 139, 0, 0, 1, 145, 224, 91, 109, 139, 0, 0, 0, 0, 0, 0,
        0, 0, 0, 0, 0, 0, 0, 0, 0, 0, 0, 1, 64, 0, 0, 0, 1, 52, 72, 101, 108, 108, 111, 32, 82,
        101, 118, 101, 114, 115, 101, 32, 69, 110, 103, 105, 110, 101, 101, 114, 105, 110, 103,
        33, 0, 0, 0, 0, 0, 0, 0, 0, 1, 0, 0, 0, 68, 0, 0, 0, 0, 2, 100, 97, 124, 74, 0, 0, 0,
        0, 0, 0, 0, 0, 1, 145, 224, 91, 109, 139, 0, 0, 1, 145, 224, 91, 109, 139, 0, 0, 0, 0,
        0, 0, 0, 0, 0, 0, 0, 0, 0, 0, 0, 0, 0, 1, 36, 0, 0, 0, 1, 24, 72, 101, 108, 108, 111,
        32, 69, 97, 114, 116, 104, 33, 0,
    ];

    let mut offset = 0;

    let decoded = TopicRecordBatch::decode(&test_case[..], &mut offset).unwrap();

    println!("{decoded:?}");

    assert_eq!(decoded.base_offset, 0);
    assert_eq!(
        decoded.records[0].value.0,
        "Hello Reverse Engineering!".to_string()
    );
}

#[test]
fn test_topic_fetch() {
    let test_case: Vec<u8> = vec![
        0, 0, 0, 0, 0, 0, 0, 0, 0, 0, 0, 68, 0, 0, 0, 0, 2, 152, 236, 24, 211, 0, 0, 0, 0, 0,
        0, 0, 0, 1, 145, 224, 91, 109, 139, 0, 0, 1, 145, 224, 91, 109, 139, 0, 0, 0, 0, 0, 0,
        0, 0, 0, 0, 0, 0, 0, 0, 0, 0, 0, 1, 36, 0, 0, 0, 1, 24, 72, 101, 108, 108, 111, 32, 87,
        111, 114, 108, 100, 33, 0, 0, 0, 0, 0, 0, 0, 0, 1, 0, 0, 0, 82, 0, 0, 0, 0, 2, 139,
        170, 135, 42, 0, 0, 0, 0, 0, 0, 0, 0, 1, 145, 224, 91, 109, 139, 0, 0, 1, 145, 224, 91,
        109, 139, 0, 0, 0, 0, 0, 0, 0, 0, 0, 0, 0, 0, 0, 0, 0, 0, 0, 1, 64, 0, 0, 0, 1, 52, 72,
        101, 108, 108, 111, 32, 82, 101, 118, 101, 114, 115, 101, 32, 69, 110, 103, 105, 110,
        101, 101, 114, 105, 110, 103, 33, 0,
    ];

    let mut offset = 0;

    let mut data: Vec<TopicRecordBatch> = Vec::new();

    while offset < test_case.len() {
        let decoded = TopicRecordBatch::decode(&test_case[..], &mut offset).unwrap();
        data.push(decoded);
    }

    assert_eq!(data.len(), 2);
}

#[test]
fn test_batch_2() {
    let test_case_2 = vec![
        0x00, 0x00, 0x00, 0x00, 0x00, 0x00, 0x00, 0x01, 0x00, 0x00, 0x00, 0xe4, 0x00, 0x00,
        0x00, 0x01, 0x02, 0x24, 0xdb, 0x12, 0xdd, 0x00, 0x00, 0x00, 0x00, 0x00, 0x02, 0x00,
        0x00, 0x01, 0x91, 0xe0, 0x5b, 0x2d, 0x15, 0x00, 0x00, 0x01, 0x91, 0xe0, 0x5b, 0x2d,
        0x15, 0xff, 0xff, 0xff, 0xff, 0xff, 0xff, 0xff, 0xff, 0xff, 0xff, 0xff, 0xff, 0xff,
        0xff, 0x00, 0x00, 0x00, 0x03, 0x3c, 0x00, 0x00, 0x00, 0x01, 0x30, 0x01, 0x02, 0x00,
        0x04, 0x73, 0x61, 0x7a, 0x00, 0x00, 0x00, 0x00, 0x00, 0x00, 0x40, 0x00, 0x80, 0x00,
        0x00, 0x00, 0x00, 0x00, 0x00, 0x91, 0x00, 0x00, 0x90, 0x01, 0x00, 0x00, 0x02, 0x01,
        0x82, 0x01, 0x01, 0x03, 0x01, 0x00, 0x00, 0x00, 0x00, 0x00, 0x00, 0x00, 0x00, 0x00,
        0x00, 0x40, 0x00, 0x80, 0x00, 0x00, 0x00, 0x00, 0x00, 0x00, 0x91, 0x02, 0x00, 0x00,
        0x00, 0x01, 0x02, 0x00, 0x00, 0x00, 0x01, 0x01, 0x01, 0x00, 0x00, 0x00, 0x01, 0x00,
        0x00, 0x00, 0x00, 0x00, 0x00, 0x00, 0x00, 0x02, 0x10, 0x00, 0x00, 0x00, 0x00, 0x00,
        0x40, 0x00, 0x80, 0x00, 0x00, 0x00, 0x00, 0x00, 0x00, 0x01, 0x00, 0x00, 0x90, 0x01,
        0x00, 0x00, 0x04, 0x01, 0x82, 0x01, 0x01, 0x03, 0x01, 0x00, 0x00, 0x00, 0x01, 0x00,
        0x00, 0x00, 0x00, 0x00, 0x00, 0x40, 0x00, 0x80, 0x00, 0x00, 0x00, 0x00, 0x00, 0x00,
        0x91, 0x02, 0x00, 0x00, 0x00, 0x01, 0x02, 0x00, 0x00, 0x00, 0x01, 0x01, 0x01, 0x00,
        0x00, 0x00, 0x01, 0x00, 0x00, 0x00, 0x00, 0x00, 0x00, 0x00, 0x00, 0x02, 0x10, 0x00,
        0x00, 0x00, 0x00, 0x00, 0x40, 0x00, 0x80, 0x00, 0x00, 0x00, 0x00, 0x00, 0x00, 0x01,
        0x00, 0x00,
    ];

    let mut offset = 0;

    let decoded = RecordBatch::decode(&test_case_2[..], &mut offset).unwrap();

    assert_eq!(decoded.base_offset, 1);
    assert_eq!(decoded.batch_length, 228);
    assert_eq!(decoded.partition_leader_epoch, 1);
    assert_eq!(decoded.magic_byte, 2);
    assert_eq!(decoded.crc, 618336989);
    assert_eq!(decoded.attributes, 0);
    assert_eq!(decoded.last_offset_delta, 2);
    assert_eq!(decoded.base_timestamp, 1726045957397);
    assert_eq!(decoded.max_timestamp, 1726045957397);
    assert_eq!(decoded.producer_id, -1);
    assert_eq!(decoded.producer_epoch, -1);
    assert_eq!(decoded.base_sequence, -1);
    assert_eq!(decoded.records.len(), 3);
    assert_eq!(decoded.records[0].length.0, 30);
    assert_eq!(decoded.records[0].attributes, 0);
    assert_eq!(decoded.records[0].timestamp.0, 0);
    assert_eq!(decoded.records[0].delta_offset.0, 0);
    assert_eq!(decoded.records[0].key.data.len(), 0);
    match &decoded.records[0].value.r_record {
        RecordValue::Topic(record) => {
            assert_eq!(record.name.0, "saz");
            assert_eq!(
                record.id.0,
                [
                    0x00, 0x00, 0x00, 0x00, 0x00, 0x00, 0x40, 0x00, 0x80, 0x00, 0x00, 0x00,
                    0x00, 0x00, 0x00, 0x91,
                ]
            );
            assert_eq!(record.tagged_fields, 0);
        }
        _ => panic!("Expected record to be Topic"),
    }
    assert_eq!(decoded.records[0].headers_array.0, 0);

    assert_eq!(decoded.records[1].length.0, 72);
    match &decoded.records[1].value.r_record {
        RecordValue::Partition(record) => {
            assert_eq!(record.id, 0);
        }
        _ => panic!("Expected record to be Topic"),
    }
    assert_eq!(decoded.records[2].length.0, 72);
    match &decoded.records[2].value.r_record {
        RecordValue::Partition(record) => {
            assert_eq!(record.id, 1);
            assert_eq!(record.replicas.data[0], 1);
        }
        _ => panic!("Expected record to be Topic"),
    }
}

fn metadata_log() -> Vec<u8> {
    vec![
        0x00, 0x00, 0x00, 0x00, 0x00, 0x00, 0x00, 0x00, 0x00, 0x00, 0x00, 0x4f, 0x00, 0x00,
        0x00, 0x01, 0x02, 0xb0, 0x69, 0x45, 0x7c, 0x00, 0x00, 0x00, 0x00, 0x00, 0x00, 0x00,
        0x00, 0x01, 0x91, 0xe0, 0x5a, 0xf8, 0x18, 0x00, 0x00, 0x01, 0x91, 0xe0, 0x5a, 0xf8,
        0x18, 0xff, 0xff, 0xff, 0xff, 0xff, 0xff, 0xff, 0xff, 0xff, 0xff, 0xff, 0xff, 0xff,
        0xff, 0x00, 0x00, 0x00, 0x01, 0x3a, 0x00, 0x00, 0x00, 0x01, 0x2e, 0x01, 0x0c, 0x00,
        0x11, 0x6d, 0x65, 0x74, 0x61, 0x64, 0x61, 0x74, 0x61, 0x2e, 0x76, 0x65, 0x72, 0x73,
        0x69, 0x6f, 0x6e, 0x00, 0x14, 0x00, 0x00, 0x00, 0x00, 0x00, 0x00, 0x00, 0x00, 0x00,
        0x01, 0x00, 0x00, 0x00, 0xe4, 0x00, 0x00, 0x00, 0x01, 0x02, 0x24, 0xdb, 0x12, 0xdd,
        0x00, 0x00, 0x00, 0x00, 0x00, 0x02, 0x00, 0x00, 0x01, 0x91, 0xe0, 0x5b, 0x2d, 0x15,
        0x00, 0x00, 0x01, 0x91, 0xe0, 0x5b, 0x2d, 0x15, 0xff, 0xff, 0xff, 0xff, 0xff, 0xff,
        0xff, 0xff, 0xff, 0xff, 0xff, 0xff, 0xff, 0xff, 0x00, 0x00, 0x00, 0x03, 0x3c, 0x00,
        0x00, 0x00, 0x01, 0x30, 0x01, 0x02, 0x00, 0x04, 0x73, 0x61, 0x7a, 0x00, 0x00, 0x00,
        0x00, 0x00, 0x00, 0x40, 0x00, 0x80, 0x00, 0x00, 0x00, 0x00, 0x00, 0x00, 0x91, 0x00,
        0x00, 0x90, 0x01, 0x00, 0x00, 0x02, 0x01, 0x82, 0x01, 0x01, 0x03, 0x01, 0x00, 0x00,
        0x00, 0x00, 0x00, 0x00, 0x00, 0x00, 0x00, 0x00, 0x40, 0x00, 0x80, 0x00, 0x00, 0x00,
        0x00, 0x00, 0x00, 0x91, 0x02, 0x00, 0x00, 0x00, 0x01, 0x02, 0x00, 0x00, 0x00, 0x01,
        0x01, 0x01, 0x00, 0x00, 0x00, 0x01, 0x00, 0x00, 0x00, 0x00, 0x00, 0x00, 0x00, 0x00,
        0x02, 0x10, 0x00, 0x00, 0x00, 0x00, 0x00, 0x40, 0x00, 0x80, 0x00, 0x00, 0x00, 0x00,
        0x00, 0x00, 0x01, 0x00, 0x00, 0x90, 0x01, 0x00, 0x00, 0x04, 0x01, 0x82, 0x01, 0x01,
        0x03, 0x01, 0x00, 0x00, 0x00, 0x01, 0x00, 0x00, 0x00, 0x00, 0x00, 0x00, 0x40, 0x00,
        0x80, 0x00, 0x00, 0x00, 0x00, 0x00, 0x00, 0x91, 0x02, 0x00, 0x00, 0x00, 0x01, 0x02,
        0x00, 0x00, 0x00, 0x01, 0x01, 0x01, 0x00, 0x00, 0x00, 0x01, 0x00, 0x00, 0x00, 0x00,
        0x00, 0x00, 0x00, 0x00, 0x02, 0x10, 0x00, 0x00, 0x00, 0x00, 0x00, 0x40, 0x00, 0x80,
        0x00, 0x00, 0x00, 0x00, 0x00, 0x00, 0x01, 0x00, 0x00,
    ]
}

#[test]
fn whole_segment_decodes_batch_after_batch() {
    let bytes = metadata_log();
    let batches = decode_log_segment(&bytes).unwrap();
    assert_eq!(batches.len(), 2);
    assert_eq!(batches[0].base_offset, 0);
    assert_eq!(batches[1].base_offset, 1);
    assert_eq!(batches[1].records.len(), 3);
    let mut offset = 0;
    let file = LogFile::decode(&bytes, &mut offset).unwrap();
    assert_eq!(file.data.len(), 2);
    assert_eq!(offset, bytes.len());
    assert!(decode_log_segment(&[]).unwrap().is_empty());
}

#[test]
fn corrupt_segment_fails_whole() {
    let bytes = metadata_log();
    assert!(decode_log_segment(&bytes[..bytes.len() - 1]).is_none());
    assert!(decode_log_segment(&bytes[..40]).is_none());
}

#[test]
fn record_batch_encode_round_trip() {
    let bytes = metadata_log();
    let batches = decode_log_segment(&bytes).unwrap();
    for b in &batches {
        let e = b.encode();
        assert_eq!(e.len(), b.size_in_bytes());
        assert_eq!(e.len() as i32 - 12, b.batch_length);
    }
    let file = LogFile { data: batches };
    // Absent keys were written as -1 and are re-encoded as the empty count 0:
    // same length, same records.
    assert_eq!(file.encode().len(), bytes.len());
    let again = decode_log_segment(&file.encode()).unwrap();
    assert_eq!(again.len(), 2);
    assert_eq!(again[1].records[2].length.0, 72);
}

#[test]
fn metadata_index_from_log() {
    let batches = decode_log_segment(&metadata_log()).unwrap();
    let index = get_topics(batches);
    assert_eq!(index.len(), 1);
    let t = &index[0];
    assert_eq!(t.error_code, 0);
    assert_eq!(t.name.0, "saz");
    assert_eq!(t.id.to_string(), "00000000-0000-4000-8000-000000000091");
    assert_eq!(t.authorized_ops, 0x00000df8);
    assert_eq!(t.is_internal, 0);
    assert_eq!(t.partitions_array.data.len(), 2);
    for (k, p) in t.partitions_array.data.iter().enumerate() {
        assert_eq!(p.partition_idx, k as i32);
        assert_eq!(p.error_code, 0);
        assert_eq!(p.leader_id, 1);
        assert_eq!(p.replica_nodes.data, vec![1]);
        assert_eq!(p.in_sync_replicas.data, vec![1]);
    }
}

#[test]
fn metadata_index_drops_orphan_partitions() {
    let batches = decode_log_segment(&metadata_log()).unwrap();
    // Only the first batch: a feature-level record, no topic.
    let first: Vec<RecordBatch> = batches.into_iter().take(1).collect();
    assert!(get_topics(first).is_empty());
    let batches = decode_log_segment(&metadata_log()).unwrap();
    let mut second: Vec<RecordBatch> = batches.into_iter().skip(1).collect();
    // Keep the two partition records, drop the topic record.
    second[0].records.remove(0);
    assert!(get_topics(second).is_empty());
}

#[test]
fn unknown_value_type_consumes_nothing() {
    let mut offset = 0;
    let g = codecrafters_kafka::log::GenericRecord::decode(&[7, 0, 0xAA], &mut offset).unwrap();
    assert!(matches!(g.r_record, RecordValue::Unknown(_)));
    assert_eq!(g.frame_type, 7);
    assert_eq!(offset, 2);
    let name = CString::from_string("x".to_string());
    assert_eq!(name.encode(), vec![2, b'x']);
}

#[test]
fn batch_checksums_match_stored_crc() {
    let bytes = metadata_log();
    let batches = decode_log_segment(&bytes).unwrap();
    let first = calculate_crc(&bytes, 0).unwrap();
    assert!(crc_matches(batches[0].crc, first));
    let second_start = 12 + batches[0].batch_length as usize;
    let second = calculate_crc(&bytes, second_start).unwrap();
    assert!(crc_matches(batches[1].crc, second));
    assert_eq!(second, 618336989);
    let mut corrupt = bytes.clone();
    corrupt[30] ^= 1;
    assert!(!crc_matches(batches[0].crc, calculate_crc(&corrupt, 0).unwrap()));
    assert!(calculate_crc(&bytes[..20], 0).is_none());
    assert!(crc_matches(-1, u32::MAX));
    assert!(!crc_matches(-1, 0));
}

#[test]
fn compact_array_from_vec() {
    let a: codecrafters_kafka::array::CVec<i32> = vec![1, 2].into();
    assert_eq!(a.data, vec![1, 2]);
    assert_eq!(a.encode(), vec![3, 0, 0, 0, 1, 0, 0, 0, 2]);
}
