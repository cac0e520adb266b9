use countdown::persist::{fresh_temp_name, next_step, temp_name_for, write_steps, WriteStep};
use countdown::record::RecordId;
use countdown::store::RecordStore;
use countdown::timestamp::{format_time, parse_time, timestamp_from_fields, TimeError, Timestamp};
use countdown::wire::{
    decode_record, deserialize, encode_records, serialize, id_text, load_store, parse_id, DecodeError, WireRecord,
    WireTime,
};

fn ts(year: i32, ordinal: u16) -> Timestamp {
    Timestamp {
        year,
        ordinal,
        hour: 0,
        minute: 0,
        second: 0,
        nanosecond: 0,
        offset_hour: 0,
        offset_minute: 0,
        offset_second: 0,
    }
}

fn wire(id: &str, target: WireTime) -> WireRecord {
    WireRecord {
        id: id.to_string(),
        title: "T".to_string(),
        target,
        created_at: WireTime::Text("2024-01-01T00:00:00Z".to_string()),
    }
}

const ID_A: &str = "550e8400-e29b-41d4-a716-446655440000";
const ID_B: &str = "6ba7b810-9dad-11d1-80b4-00c04fd430c8";

#[test]
fn parse_time_reads_components() {
    let t = parse_time("2024-03-01T12:34:56.5+05:30").unwrap();
    assert_eq!(t.year, 2024);
    assert_eq!(t.ordinal, 61);
    assert_eq!((t.hour, t.minute, t.second), (12, 34, 56));
    assert_eq!(t.nanosecond, 500_000_000);
    assert_eq!((t.offset_hour, t.offset_minute, t.offset_second), (5, 30, 0));
    let w = parse_time("2024-03-01T00:00:00-05:30").unwrap();
    assert_eq!((w.offset_hour, w.offset_minute), (-5, -30));
}

#[test]
fn parse_time_refuses_other_text() {
    assert_eq!(parse_time("not-a-date"), Err(TimeError::BadText));
    assert_eq!(parse_time(""), Err(TimeError::BadText));
    assert_eq!(parse_time("2030-01-01"), Err(TimeError::BadText));
}

#[test]
fn format_time_writes_rfc3339() {
    assert_eq!(format_time(ts(2030, 1)).unwrap(), "2030-01-01T00:00:00Z");
    let t = parse_time("2024-03-01T12:34:56.5+05:30").unwrap();
    let text = format_time(t).unwrap();
    assert_eq!(parse_time(&text).unwrap(), t);
}

#[test]
fn format_time_refuses_what_rfc3339_cannot_hold() {
    assert_eq!(format_time(ts(10000 - 1, 1)).is_some(), true);
    assert_eq!(format_time(ts(-5, 1)), None);
    let mut t = ts(2030, 1);
    t.offset_second = 30;
    assert_eq!(format_time(t), None);
    let mut u = ts(2030, 1);
    u.offset_hour = 24;
    assert_eq!(format_time(u), None);
}

#[test]
fn structured_form_is_read() {
    let t = timestamp_from_fields(&vec![2024, 60, 12, 30, 15, 7, 1, 0, 0]).unwrap();
    assert_eq!(t.year, 2024);
    assert_eq!(t.ordinal, 60);
    assert_eq!((t.hour, t.minute, t.second, t.nanosecond), (12, 30, 15, 7));
    assert_eq!(format_time(t).unwrap(), "2024-02-29T12:30:15.000000007+01:00");
}

#[test]
fn structured_form_offset_signs_follow_hour() {
    let t = timestamp_from_fields(&vec![2024, 1, 0, 0, 0, 0, -1, 30, 15]).unwrap();
    assert_eq!((t.offset_hour, t.offset_minute, t.offset_second), (-1, -30, -15));
    let u = timestamp_from_fields(&vec![2024, 1, 0, 0, 0, 0, 0, -30, 15]).unwrap();
    assert_eq!((u.offset_hour, u.offset_minute, u.offset_second), (0, -30, -15));
}

#[test]
fn structured_form_refuses_bad_fields() {
    assert_eq!(timestamp_from_fields(&vec![2023, 366, 0, 0, 0, 0, 0, 0, 0]), Err(TimeError::BadFields));
    assert!(timestamp_from_fields(&vec![2024, 366, 0, 0, 0, 0, 0, 0, 0]).is_ok());
    assert!(timestamp_from_fields(&vec![2000, 366, 0, 0, 0, 0, 0, 0, 0]).is_ok());
    assert!(timestamp_from_fields(&vec![1900, 366, 0, 0, 0, 0, 0, 0, 0]).is_err());
    assert!(timestamp_from_fields(&vec![2024, 1, 0, 0, 0, 0, 0, 0]).is_err());
    assert!(timestamp_from_fields(&vec![2024, 1, 0, 0, 0, 0, 0, 0, 0, 0]).is_err());
    assert!(timestamp_from_fields(&vec![2024, 0, 0, 0, 0, 0, 0, 0, 0]).is_err());
    assert!(timestamp_from_fields(&vec![2024, 1, 24, 0, 0, 0, 0, 0, 0]).is_err());
    assert!(timestamp_from_fields(&vec![2024, 1, 0, 0, 0, 1_000_000_000, 0, 0, 0]).is_err());
    assert!(timestamp_from_fields(&vec![2024, 1, 0, 0, 0, 0, 26, 0, 0]).is_err());
    assert!(timestamp_from_fields(&vec![10000, 1, 0, 0, 0, 0, 0, 0, 0]).is_err());
}

#[test]
fn id_text_is_hyphenated_lower_case() {
    let id = RecordId { value: 0x550e8400_e29b_41d4_a716_446655440000 };
    assert_eq!(id_text(id), ID_A);
    assert_eq!(parse_id(ID_A), Some(id));
    assert_eq!(id_text(RecordId { value: 0 }), "00000000-0000-0000-0000-000000000000");
    assert_eq!(parse_id("xyz"), None);
}

#[test]
fn file_form_round_trip() {
    let mut store = RecordStore::new();
    store.create("A".to_string(), "2030-01-01T00:00:00Z").unwrap();
    store.create("B \"quoted\"".to_string(), "2031-07-04T08:09:10.25-04:00").unwrap();
    let ws = encode_records(&store).unwrap();
    let back = load_store(&ws).unwrap();
    let (x, y) = (store.list(), back.list());
    assert_eq!(x.len(), y.len());
    for (a, b) in x.iter().zip(y.iter()) {
        assert_eq!(a.id, b.id);
        assert_eq!(a.title, b.title);
        assert_eq!(a.target, b.target);
        assert_eq!(a.created_at, b.created_at);
    }
}

#[test]
fn encode_refuses_instant_without_text_form() {
    let mut store = RecordStore::new();
    store.insert_new(RecordId { value: 1 }, "A".to_string(), ts(-1, 1), ts(2024, 1)).unwrap();
    assert!(encode_records(&store).is_err());
}

#[test]
fn load_reads_structured_instants() {
    let ws = vec![wire(ID_A, WireTime::Fields(vec![2030, 1, 0, 0, 0, 0, 0, 0, 0]))];
    let store = load_store(&ws).unwrap();
    let all = store.list();
    assert_eq!(all[0].target, ts(2030, 1));
    let again = encode_records(&store).unwrap();
    match &again[0].target {
        WireTime::Text(s) => assert_eq!(s, "2030-01-01T00:00:00Z"),
        WireTime::Fields(_) => panic!("structured form written"),
    }
}

#[test]
fn load_refuses_bad_contents() {
    let dup = vec![
        wire(ID_A, WireTime::Text("2030-01-01T00:00:00Z".to_string())),
        wire(ID_B, WireTime::Text("2030-01-01T00:00:00Z".to_string())),
        wire(ID_A, WireTime::Text("2030-01-01T00:00:00Z".to_string())),
    ];
    assert_eq!(load_store(&dup).err(), Some(DecodeError::DuplicateId));
    let bad_id = vec![wire("nope", WireTime::Text("2030-01-01T00:00:00Z".to_string()))];
    assert_eq!(load_store(&bad_id).err(), Some(DecodeError::BadId));
    let bad_time = vec![wire(ID_A, WireTime::Text("tomorrow".to_string()))];
    assert_eq!(load_store(&bad_time).err(), Some(DecodeError::BadTimestamp));
    let bad_fields = vec![wire(ID_A, WireTime::Fields(vec![2030, 1]))];
    assert_eq!(decode_record(&bad_fields[0]).err(), Some(DecodeError::BadTimestamp));
}

#[test]
fn write_steps_rename_last() {
    assert_eq!(
        write_steps(),
        vec![
            WriteStep::CreateParentDir,
            WriteStep::CreateTemp,
            WriteStep::WriteTemp,
            WriteStep::SyncTemp,
            WriteStep::RenameTempOntoTarget,
        ]
    );
}

#[test]
fn temp_names() {
    let id = RecordId { value: 0x550e8400_e29b_41d4_a716_446655440000 };
    assert_eq!(temp_name_for(id), format!(".counters-{}.tmp", ID_A));
    let a = fresh_temp_name();
    let b = fresh_temp_name();
    assert!(a.starts_with(".counters-") && a.ends_with(".tmp"));
    assert_eq!(a.len(), ".counters-".len() + 36 + ".tmp".len());
    assert_ne!(a, b);
}

#[test]
fn instant_file_form() {
    match serialize(ts(2030, 32)) {
        Some(WireTime::Text(s)) => assert_eq!(s, "2030-02-01T00:00:00Z"),
        _ => panic!("expected text"),
    }
    assert!(serialize(ts(-1, 1)).is_none());
    let text = WireTime::Text("2030-02-01T00:00:00Z".to_string());
    assert_eq!(deserialize(&text), Ok(ts(2030, 32)));
    let fields = WireTime::Fields(vec![2030, 32, 0, 0, 0, 0, 0, 0, 0]);
    assert_eq!(deserialize(&fields), Ok(ts(2030, 32)));
    assert_eq!(deserialize(&WireTime::Text("2030".to_string())), Err(TimeError::BadText));
    assert_eq!(deserialize(&WireTime::Fields(vec![2030])), Err(TimeError::BadFields));
}

#[test]
fn next_step_follows_plan_and_stops_on_failure() {
    assert_eq!(next_step(0, true), Some(WriteStep::CreateParentDir));
    assert_eq!(next_step(3, true), Some(WriteStep::SyncTemp));
    assert_eq!(next_step(4, true), Some(WriteStep::RenameTempOntoTarget));
    assert_eq!(next_step(5, true), None);
    assert_eq!(next_step(2, false), None);
}

#[test]
fn decode_errors_in_order() {
    let both_bad = wire("nope", WireTime::Text("tomorrow".to_string()));
    assert_eq!(decode_record(&both_bad).err(), Some(DecodeError::BadId));
    let first_bad_time = vec![
        wire(ID_A, WireTime::Text("2030-01-01T00:00:00Z".to_string())),
        wire(ID_A, WireTime::Text("tomorrow".to_string())),
    ];
    assert_eq!(load_store(&first_bad_time).err(), Some(DecodeError::BadTimestamp));
    let created_bad = WireRecord {
        id: ID_B.to_string(),
        title: "T".to_string(),
        target: WireTime::Text("2030-01-01T00:00:00Z".to_string()),
        created_at: WireTime::Fields(vec![2030, 400, 0, 0, 0, 0, 0, 0, 0]),
    };
    assert_eq!(decode_record(&created_bad).err(), Some(DecodeError::BadTimestamp));
}

#[test]
fn legacy_instants_written_back_as_text() {
    let ws = vec![wire(ID_A, WireTime::Fields(vec![2024, 60, 1, 2, 3, 4, 5, 6, 0]))];
    let store = load_store(&ws).unwrap();
    let again = encode_records(&store).unwrap();
    assert!(matches!(again[0].target, WireTime::Text(_)));
    let back = load_store(&again).unwrap();
    assert_eq!(back.list()[0].target, store.list()[0].target);
}
