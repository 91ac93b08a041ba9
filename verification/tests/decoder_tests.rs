use querydesk::RawCell;
use querydesk::RawValue;
use querydesk::decode_cell;
use querydesk::format_date;
use querydesk::format_ts;

fn bare_cell(wire_type: &str, raw: RawValue) -> RawCell {
    RawCell {
        wire_type: wire_type.to_string(),
        text: None,
        raw,
        int4: None,
        int2: None,
        int8: None,
        float8: None,
        boolean: None,
        json: None,
    }
}

#[test]
fn timestamp_zero_is_postgres_epoch() {
    let cell = bare_cell("TIMESTAMP", RawValue::Bytes(vec![0u8; 8]));
    assert_eq!(decode_cell(&cell), "2000-01-01 00:00:00");
}

#[test]
fn timestamp_one_day_in_micros() {
    let micros: i64 = 86_400_000_000;
    let cell = bare_cell("TIMESTAMPTZ", RawValue::Bytes(micros.to_be_bytes().to_vec()));
    assert_eq!(decode_cell(&cell), "2000-01-02 00:00:00");
}

#[test]
fn timestamp_with_time_of_day() {
    let micros: i64 = (3600 + 2 * 60 + 3) * 1_000_000;
    let cell = bare_cell("TIMESTAMP", RawValue::Bytes(micros.to_be_bytes().to_vec()));
    assert_eq!(decode_cell(&cell), "2000-01-01 01:02:03");
}

#[test]
fn date_zero_is_postgres_epoch() {
    let cell = bare_cell("DATE", RawValue::Bytes(vec![0u8; 4]));
    assert_eq!(decode_cell(&cell), "2000-01-01");
}

#[test]
fn date_minus_one_uses_floor_division() {
    let days: i32 = -1;
    let cell = bare_cell("DATE", RawValue::Bytes(days.to_be_bytes().to_vec()));
    assert_eq!(decode_cell(&cell), "1999-12-31");
}

#[test]
fn date_leap_day() {
    let days: i32 = 59;
    let cell = bare_cell("DATE", RawValue::Bytes(days.to_be_bytes().to_vec()));
    assert_eq!(decode_cell(&cell), "2000-02-29");
}

#[test]
fn uuid_all_zero_bytes() {
    let cell = bare_cell("UUID", RawValue::Bytes(vec![0u8; 16]));
    assert_eq!(decode_cell(&cell), "00000000-0000-0000-0000-000000000000");
}

#[test]
fn uuid_hex_groups() {
    let bytes: Vec<u8> = vec![
        0x12, 0x34, 0x56, 0x78, 0x9a, 0xbc, 0xde, 0xf0, 0x01, 0x23, 0x45, 0x67, 0x89, 0xab,
        0xcd, 0xef,
    ];
    let cell = bare_cell("UUID", RawValue::Bytes(bytes));
    assert_eq!(decode_cell(&cell), "12345678-9abc-def0-0123-456789abcdef");
}

#[test]
fn bool_bytes() {
    let t = bare_cell("BOOL", RawValue::Bytes(vec![0x01]));
    assert_eq!(decode_cell(&t), "true");
    let f = bare_cell("BOOL", RawValue::Bytes(vec![0x00]));
    assert_eq!(decode_cell(&f), "false");
}

#[test]
fn money_cents() {
    let cents: i64 = 12345;
    let cell = bare_cell("MONEY", RawValue::Bytes(cents.to_be_bytes().to_vec()));
    assert_eq!(decode_cell(&cell), "$123.45");
    let neg: i64 = -50;
    let cell2 = bare_cell("MONEY", RawValue::Bytes(neg.to_be_bytes().to_vec()));
    assert_eq!(decode_cell(&cell2), "$-0.50");
    let zero: i64 = 7;
    let cell3 = bare_cell("MONEY", RawValue::Bytes(zero.to_be_bytes().to_vec()));
    assert_eq!(decode_cell(&cell3), "$0.07");
}

#[test]
fn complex_fallback_label() {
    let cell = bare_cell("GEOMETRY", RawValue::Bytes(vec![0xff, 0xfe, 0x00]));
    let shown = decode_cell(&cell);
    assert!(shown.starts_with("[Complex: "));
    assert_eq!(shown, "[Complex: GEOMETRY]");
}

#[test]
fn null_cell_is_empty_string() {
    let cell = bare_cell("TIMESTAMP", RawValue::Null);
    assert_eq!(decode_cell(&cell), "");
}

#[test]
fn native_text_wins() {
    let mut cell = bare_cell("TEXT", RawValue::Bytes(vec![0xff]));
    cell.text = Some("hello".to_string());
    assert_eq!(decode_cell(&cell), "hello");
}

#[test]
fn unknown_type_with_utf8_payload_decodes_as_text() {
    let cell = bare_cell("CITEXT", RawValue::Bytes("héllo ✓".as_bytes().to_vec()));
    assert_eq!(decode_cell(&cell), "héllo ✓");
}

#[test]
fn wrong_length_payload_falls_through_to_generic() {
    let mut cell = bare_cell("TIMESTAMP", RawValue::Bytes(vec![0u8; 3]));
    cell.int4 = Some(-7);
    assert_eq!(decode_cell(&cell), "-7");
}

#[test]
fn generic_decode_order() {
    let mut cell = bare_cell("NUM", RawValue::NoRaw);
    cell.int2 = Some(300);
    cell.int8 = Some(999);
    assert_eq!(decode_cell(&cell), "300");
    let mut cell2 = bare_cell("F", RawValue::NoRaw);
    cell2.float8 = Some("1.5".to_string());
    assert_eq!(decode_cell(&cell2), "1.5");
    let mut cell3 = bare_cell("B", RawValue::NoRaw);
    cell3.boolean = Some(true);
    assert_eq!(decode_cell(&cell3), "true");
}

#[test]
fn json_value_quotes_stripped() {
    let mut cell = bare_cell("JSONB", RawValue::NoRaw);
    cell.json = Some("\"tagged\"".to_string());
    assert_eq!(decode_cell(&cell), "tagged");
    let mut cell2 = bare_cell("JSONB", RawValue::NoRaw);
    cell2.json = Some("{\"a\":1}".to_string());
    assert_eq!(decode_cell(&cell2), "{\"a\":1}");
}

#[test]
fn format_ts_at_unix_epoch_boundaries() {
    assert_eq!(format_ts(0), "1970-01-01 00:00:00");
    assert_eq!(format_ts(946684800), "2000-01-01 00:00:00");
    assert_eq!(format_ts(-1), "1969-12-31 23:59:59");
}

#[test]
fn format_date_spans_epochs() {
    assert_eq!(format_date(0), "1970-01-01");
    assert_eq!(format_date(10957), "2000-01-01");
    assert_eq!(format_date(-719468), "0000-03-01");
}

#[test]
fn timestamp_division_truncates_toward_zero() {
    let micros: i64 = -1;
    let cell = bare_cell("TIMESTAMP", RawValue::Bytes(micros.to_be_bytes().to_vec()));
    assert_eq!(decode_cell(&cell), "2000-01-01 00:00:00");
    let micros2: i64 = -86_400_000_000;
    let cell2 = bare_cell("TIMESTAMP", RawValue::Bytes(micros2.to_be_bytes().to_vec()));
    assert_eq!(decode_cell(&cell2), "1999-12-31 00:00:00");
}

#[test]
fn int4_binary_payload_hits_utf8_fallback() {
    let mut cell = bare_cell("INT4", RawValue::Bytes(vec![0, 0, 0, 1]));
    cell.int4 = Some(1);
    assert_eq!(decode_cell(&cell), "\u{0}\u{0}\u{0}\u{1}");
}

#[test]
fn bool_array_type_is_not_recognized() {
    let cell = bare_cell("BOOL[]", RawValue::Bytes(vec![0x78]));
    assert_eq!(decode_cell(&cell), "x");
    let mut raw = bare_cell("BOOL[]", RawValue::Bytes(vec![0xff, 0x01]));
    raw.boolean = Some(true);
    assert_eq!(decode_cell(&raw), "true");
}
