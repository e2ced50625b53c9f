use iot_ingest::api::{get_all_records, get_latest_record, STATUS_NOT_FOUND, STATUS_OK};
use iot_ingest::payload::{parse_message, parse_payload, PayloadError};
use iot_ingest::reading::{SensorData, SensorReading, Timestamp};
use iot_ingest::store::{IngestError, ReadingStore, StoreError};

const FULL: &str = r#"{"co":12,"no2":30,"temperature":24.5,"humidity":55.1,"timestamp":"2024-01-01T00:00:00Z"}"#;

fn at(seconds: i64) -> Timestamp {
    Timestamp { seconds, nanos: 0 }
}

fn reading_at(seconds: i64, co: i64) -> SensorReading {
    SensorReading { co: Some(co), no2: None, temperature: None, humidity: None, timestamp: at(seconds) }
}

#[test]
fn full_payload_keeps_every_value() {
    let r = parse_payload(FULL).unwrap();
    assert_eq!(r.co, Some(12));
    assert_eq!(r.no2, Some(30));
    assert_eq!(r.temperature, Some(24.5f64.to_bits()));
    assert_eq!(r.humidity, Some(55.1f64.to_bits()));
    assert_eq!(r.timestamp, Timestamp { seconds: 1_704_067_200, nanos: 0 });
}

#[test]
fn absent_members_read_as_null() {
    let r = parse_payload(r#"{"co":7,"timestamp":"2024-01-01T00:00:00Z"}"#).unwrap();
    assert_eq!(r.co, Some(7));
    assert_eq!(r.no2, None);
    assert_eq!(r.temperature, None);
    assert_eq!(r.humidity, None);
    let r = parse_payload(r#"{"co":null,"no2":"30","humidity":55,"timestamp":"2024-01-01T00:00:00Z"}"#).unwrap();
    assert_eq!(r.co, None);
    assert_eq!(r.no2, None);
    assert_eq!(r.humidity, Some(55.0f64.to_bits()));
}

#[test]
fn fractional_integer_member_reads_as_null() {
    let r = parse_payload(r#"{"co":12.5,"timestamp":"2024-01-01T00:00:00Z"}"#).unwrap();
    assert_eq!(r.co, None);
}

#[test]
fn offset_timestamp_is_normalised_to_utc() {
    let r = parse_payload(r#"{"timestamp":"2024-01-01T02:00:00.5+02:00"}"#).unwrap();
    assert_eq!(r.timestamp, Timestamp { seconds: 1_704_067_200, nanos: 500_000_000 });
}

#[test]
fn missing_timestamp_is_rejected() {
    assert_eq!(parse_payload(r#"{"co":12}"#), Err(PayloadError::MissingTimestamp));
    assert_eq!(parse_payload(r#"{"co":12,"timestamp":null}"#), Err(PayloadError::MissingTimestamp));
}

#[test]
fn malformed_timestamp_is_rejected() {
    assert_eq!(parse_payload(r#"{"timestamp":"yesterday"}"#), Err(PayloadError::InvalidTimestamp));
    assert_eq!(parse_payload(r#"{"timestamp":1704067200}"#), Err(PayloadError::InvalidTimestamp));
    assert_eq!(parse_payload(r#"{"timestamp":"2024-13-01T00:00:00Z"}"#), Err(PayloadError::InvalidTimestamp));
}

#[test]
fn undecodable_text_is_malformed() {
    assert_eq!(parse_payload("{\"co\":"), Err(PayloadError::Malformed));
    assert_eq!(parse_payload(""), Err(PayloadError::Malformed));
}

#[test]
fn invalid_utf8_is_decoded_lossily() {
    let mut bytes = br#"{"timestamp":"2024-01-01T00:00:00Z","co":1}"#.to_vec();
    assert!(parse_message(&bytes).is_ok());
    bytes[15] = 0xff;
    assert_eq!(parse_message(&bytes), Err(PayloadError::InvalidTimestamp));
}

#[test]
fn rejected_message_leaves_pipeline_running() {
    let mut store = ReadingStore::new();
    assert_eq!(store.ingest(br#"{"co":1,"timestamp":"bad"}"#), Err(IngestError::Rejected(PayloadError::InvalidTimestamp)));
    assert_eq!(store.ingest(b"not json"), Err(IngestError::Rejected(PayloadError::Malformed)));
    assert_eq!(store.len(), 0);
    assert_eq!(store.ingest(FULL.as_bytes()), Ok(1));
    assert_eq!(store.len(), 1);
}

#[test]
fn publish_then_latest_returns_the_row() {
    let mut store = ReadingStore::new();
    assert_eq!(store.ingest(FULL.as_bytes()), Ok(1));
    let reply = get_latest_record(&store);
    assert_eq!(reply.status, STATUS_OK);
    assert!(reply.body.success);
    let row = reply.body.data.unwrap();
    assert_eq!(row.id, 1);
    assert_eq!(row.reading, parse_payload(FULL).unwrap());
}

#[test]
fn omitted_timestamp_leaves_latest_unchanged() {
    let mut store = ReadingStore::new();
    store.ingest(FULL.as_bytes()).unwrap();
    let before = get_latest_record(&store).body.data;
    assert_eq!(
        store.ingest(br#"{"co":99,"no2":1}"#),
        Err(IngestError::Rejected(PayloadError::MissingTimestamp))
    );
    assert_eq!(store.len(), 1);
    assert_eq!(get_latest_record(&store).body.data, before);
}

#[test]
fn empty_store_latest_is_not_found() {
    let store = ReadingStore::new();
    let reply = get_latest_record(&store);
    assert_eq!(reply.status, STATUS_NOT_FOUND);
    assert!(!reply.body.success);
    assert_eq!(reply.body.data, None);
    assert_eq!(store.latest(), None);
}

#[test]
fn single_insert_is_latest() {
    let mut store = ReadingStore::new();
    let r = reading_at(100, 5);
    assert_eq!(store.insert(r), Ok(1));
    assert_eq!(store.latest(), Some(SensorData { id: 1, reading: r }));
}

#[test]
fn latest_prefers_greatest_timestamp_then_last_inserted() {
    let mut store = ReadingStore::new();
    store.insert(reading_at(300, 1)).unwrap();
    store.insert(reading_at(100, 2)).unwrap();
    store.insert(reading_at(300, 3)).unwrap();
    store.insert(reading_at(200, 4)).unwrap();
    assert_eq!(store.latest(), Some(SensorData { id: 3, reading: reading_at(300, 3) }));
}

#[test]
fn recent_is_capped_and_descending() {
    let mut store = ReadingStore::new();
    for (i, s) in [50i64, 10, 40, 20, 30].iter().enumerate() {
        assert_eq!(store.insert(reading_at(*s, i as i64)), Ok(i as u64 + 1));
    }
    let three: Vec<i64> = store.recent(3).iter().map(|d| d.reading.timestamp.seconds).collect();
    assert_eq!(three, vec![50, 40, 30]);
    let all: Vec<i64> = store.recent(10).iter().map(|d| d.reading.timestamp.seconds).collect();
    assert_eq!(all, vec![50, 40, 30, 20, 10]);
    assert!(store.recent(0).is_empty());
}

#[test]
fn recent_orders_by_nanoseconds_within_a_second() {
    let mut store = ReadingStore::new();
    let mut a = reading_at(10, 1);
    a.timestamp.nanos = 5;
    let mut b = reading_at(10, 2);
    b.timestamp.nanos = 900;
    store.insert(a).unwrap();
    store.insert(b).unwrap();
    let ids: Vec<u64> = store.recent(2).iter().map(|d| d.id).collect();
    assert_eq!(ids, vec![2, 1]);
}

#[test]
fn all_records_serves_at_most_one_hundred() {
    let mut store = ReadingStore::new();
    for i in 0..120i64 {
        store.insert(reading_at(i, i)).unwrap();
    }
    let reply = get_all_records(&store);
    assert_eq!(reply.status, STATUS_OK);
    assert_eq!(reply.body.data.len(), 100);
    assert_eq!(reply.body.data[0].reading.timestamp.seconds, 119);
    assert_eq!(reply.body.data[99].reading.timestamp.seconds, 20);
}

#[test]
fn store_outcome_records_rejection() {
    let mut store = ReadingStore::new();
    assert_eq!(
        store.store_outcome(Err(PayloadError::MissingTimestamp)),
        Err(IngestError::Rejected(PayloadError::MissingTimestamp))
    );
    assert_eq!(store.store_outcome(Ok(reading_at(1, 1))), Ok(1));
    let _ = StoreError::Backend;
}

#[test]
fn recent_puts_later_insert_first_among_equal_timestamps() {
    let mut store = ReadingStore::new();
    store.insert(reading_at(10, 1)).unwrap();
    store.insert(reading_at(20, 2)).unwrap();
    store.insert(reading_at(10, 3)).unwrap();
    store.insert(reading_at(10, 4)).unwrap();
    let ids: Vec<u64> = store.recent(3).iter().map(|d| d.id).collect();
    assert_eq!(ids, vec![2, 4, 3]);
}
