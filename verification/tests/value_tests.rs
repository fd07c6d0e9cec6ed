use rsquid::value::{binary_cell_text, uuid_string, value_to_text, Backend, CellValue};

#[test]
fn null_always_wins() {
    assert_eq!(value_to_text(Backend::Postgres, "INT4", &CellValue::Null), "NULL");
    assert_eq!(value_to_text(Backend::MySql, "TEXT", &CellValue::Null), "NULL");
    assert_eq!(value_to_text(Backend::Sqlite, "NOSUCH", &CellValue::Null), "NULL");
}

#[test]
fn booleans_and_integers() {
    assert_eq!(value_to_text(Backend::Postgres, "BOOL", &CellValue::Bool(true)), "true");
    assert_eq!(value_to_text(Backend::MySql, "BOOLEAN", &CellValue::Bool(false)), "false");
    assert_eq!(value_to_text(Backend::Postgres, "INT8", &CellValue::Int(-5)), "-5");
    assert_eq!(
        value_to_text(Backend::Sqlite, "INTEGER", &CellValue::Int(i64::MIN)),
        "-9223372036854775808"
    );
    assert_eq!(
        value_to_text(Backend::MySql, "BIGINT UNSIGNED", &CellValue::UInt(u64::MAX)),
        "18446744073709551615"
    );
}

#[test]
fn mismatched_value_is_an_error_cell() {
    assert_eq!(value_to_text(Backend::Postgres, "BOOL", &CellValue::Int(1)), "err");
    assert_eq!(value_to_text(Backend::Postgres, "INT4", &CellValue::Unreadable), "err");
}

#[test]
fn floats_pass_through_and_decimals_are_canonical() {
    assert_eq!(
        value_to_text(Backend::Postgres, "FLOAT8", &CellValue::Real("3.25".to_string())),
        "3.25"
    );
    assert_eq!(
        value_to_text(Backend::MySql, "DECIMAL", &CellValue::Real("12.50".to_string())),
        "12.50"
    );
    // the canonicalizer really parses: an exponent is expanded
    assert_eq!(
        value_to_text(Backend::MySql, "NEWDECIMAL", &CellValue::Real("1e2".to_string())),
        "100"
    );
    assert_eq!(
        value_to_text(Backend::MySql, "DECIMAL", &CellValue::Real("not a number".to_string())),
        "err"
    );
}

#[test]
fn timestamps_and_dates() {
    let stamp = CellValue::Stamp {
        year: 2016,
        month: 11,
        day: 15,
        hour: 7,
        minute: 39,
        second: 24,
        nanosecond: 0,
    };
    assert_eq!(value_to_text(Backend::Postgres, "TIMESTAMP", &stamp), "2016-11-15 07:39:24");
    assert_eq!(
        value_to_text(Backend::Postgres, "TIMESTAMPTZ", &stamp),
        "2016-11-15 07:39:24 UTC"
    );
    assert_eq!(value_to_text(Backend::MySql, "DATETIME", &stamp), "2016-11-15 07:39:24");
    let day = CellValue::Day { year: 2015, month: 9, day: 5 };
    assert_eq!(value_to_text(Backend::Postgres, "DATE", &day), "2015-09-05");
    let bad = CellValue::Day { year: 2015, month: 13, day: 5 };
    assert_eq!(value_to_text(Backend::MySql, "DATE", &bad), "err");
}

#[test]
fn sqlite_datetime_falls_back_to_text() {
    let v = CellValue::Text("2024-01-01 00:00:00".to_string());
    assert_eq!(value_to_text(Backend::Sqlite, "DATETIME", &v), "2024-01-01 00:00:00");
}

#[test]
fn json_is_compacted() {
    let v = CellValue::Json("{ \"a\" : 1 , \"b\" : [ 2 ] }".to_string());
    assert_eq!(value_to_text(Backend::Postgres, "JSONB", &v), "{\"a\":1,\"b\":[2]}");
    let bad = CellValue::Json("{ not json".to_string());
    assert_eq!(value_to_text(Backend::MySql, "JSON", &bad), "err");
}

#[test]
fn binary_rule_small_payload_is_hex() {
    let v = CellValue::Bytes(vec![0xff; 10]);
    let text = value_to_text(Backend::MySql, "BLOB", &v);
    assert_eq!(text.len(), 20);
    assert_eq!(text, "ffffffffffffffffffff");
}

#[test]
fn binary_rule_large_payload_is_tagged() {
    let v = CellValue::Bytes(vec![0xff; 40]);
    assert_eq!(value_to_text(Backend::MySql, "BLOB", &v), "<BINARY 40 bytes>");
    assert_eq!(value_to_text(Backend::Postgres, "BYTEA", &v), "<BINARY 40 bytes>");
}

#[test]
fn binary_cell_text_boundary() {
    assert_eq!(binary_cell_text(&vec![0u8; 32]).len(), 64);
    assert_eq!(binary_cell_text(&vec![0u8; 33]), "<BINARY 33 bytes>");
    assert_eq!(binary_cell_text(&vec![0x0a, 0xb0]), "0ab0");
}

#[test]
fn text_bytes_decode_or_fall_back() {
    let good = CellValue::Bytes(b"hi there".to_vec());
    assert_eq!(value_to_text(Backend::MySql, "VARCHAR", &good), "hi there");
    let bad = CellValue::Bytes(vec![0xC0, 0x80]);
    assert_eq!(value_to_text(Backend::MySql, "TEXT", &bad), "c080");
    let mut big = vec![0xC0u8; 40];
    big[0] = 0xFF;
    assert_eq!(value_to_text(Backend::Sqlite, "TEXT", &CellValue::Bytes(big)), "<BINARY 40 bytes>");
}

#[test]
fn unknown_types_decode_or_tag() {
    assert_eq!(
        value_to_text(Backend::Postgres, "MONEY", &CellValue::Text("12".to_string())),
        "12"
    );
    assert_eq!(
        value_to_text(Backend::Postgres, "MONEY", &CellValue::Unreadable),
        "<MONEY>"
    );
    assert_eq!(
        value_to_text(Backend::MySql, "GEOMETRY", &CellValue::Bytes(vec![0xC0, 0x80])),
        "<GEOMETRY>"
    );
    assert_eq!(
        value_to_text(Backend::MySql, "GEOMETRY", &CellValue::Bytes(b"ok".to_vec())),
        "ok"
    );
}

#[test]
fn uuid_is_hyphenated_hex() {
    let bytes: Vec<u8> = (0u8..16).collect();
    assert_eq!(uuid_string(&bytes), "00010203-0405-0607-0809-0a0b0c0d0e0f");
    assert_eq!(
        value_to_text(Backend::Postgres, "UUID", &CellValue::Bytes((0u8..16).collect())),
        "00010203-0405-0607-0809-0a0b0c0d0e0f"
    );
    assert_eq!(
        value_to_text(Backend::Postgres, "UUID", &CellValue::Bytes(vec![1, 2, 3])),
        "err"
    );
}

#[test]
fn type_tables_differ_per_backend() {
    // BOOLEAN is a known type for MySQL and SQLite but not for Postgres
    assert_eq!(value_to_text(Backend::MySql, "BOOLEAN", &CellValue::Bool(true)), "true");
    assert_eq!(value_to_text(Backend::Sqlite, "BOOLEAN", &CellValue::Bool(true)), "true");
    assert_eq!(
        value_to_text(Backend::Postgres, "BOOLEAN", &CellValue::Bool(true)),
        "<BOOLEAN>"
    );
    // INT is MySQL's name; Postgres uses INT4
    assert_eq!(value_to_text(Backend::MySql, "INT", &CellValue::Int(7)), "7");
    assert_eq!(value_to_text(Backend::Postgres, "INT4", &CellValue::Int(7)), "7");
}
