//! Backend- and type-aware conversion of one native column value into its
//! display text.
//!
//! The conversion table is keyed by backend and reported type name, since
//! each backend names its column types differently. A SQL NULL is checked
//! before any type-specific conversion. Binary payloads become hexadecimal
//! text when they hold at most 32 bytes and a `<BINARY n bytes>` tag
//! otherwise; text read as bytes falls back to that rule when it is not
//! valid UTF-8.

use vstd::prelude::*;
use vstd::string::*;
use vstd::utf8::{decode_utf8, valid_utf8, encode_utf8};
use crate::text::{dec_digit_char, dec_digits, i64_to_string, int_text, push_char, str_eq,
    u64_to_string};
use std::str::FromStr;

verus! {

/// The supported database engines.
#[derive(Clone, Copy, Debug, PartialEq, Eq, Structural)]
pub enum Backend {
    Postgres,
    MySql,
    Sqlite,
}

/// How a column's raw value is read, decided by the backend's reported
/// type name.
#[derive(Clone, Copy, Debug, PartialEq, Eq, Structural)]
pub enum DecodeKind {
    Bool,
    Int,
    UInt,
    Float,
    Decimal,
    Timestamp,
    TimestampTz,
    TimestampOrText,
    Date,
    Uuid,
    Json,
    Text,
    Binary,
    Other,
}

/// The conversion table: which reading each backend's type names get.
pub open spec fn spec_decode_kind(b: Backend, tn: Seq<char>) -> DecodeKind {
    match b {
        Backend::Postgres => if tn == "BOOL"@ {
            DecodeKind::Bool
        } else if tn == "INT2"@ || tn == "INT4"@ || tn == "INT8"@ {
            DecodeKind::Int
        } else if tn == "FLOAT4"@ || tn == "FLOAT8"@ {
            DecodeKind::Float
        } else if tn == "NUMERIC"@ {
            DecodeKind::Decimal
        } else if tn == "TEXT"@ || tn == "VARCHAR"@ || tn == "CHAR"@ || tn == "NAME"@ {
            DecodeKind::Text
        } else if tn == "TIMESTAMP"@ {
            DecodeKind::Timestamp
        } else if tn == "TIMESTAMPTZ"@ {
            DecodeKind::TimestampTz
        } else if tn == "DATE"@ {
            DecodeKind::Date
        } else if tn == "UUID"@ {
            DecodeKind::Uuid
        } else if tn == "JSON"@ || tn == "JSONB"@ {
            DecodeKind::Json
        } else if tn == "BYTEA"@ {
            DecodeKind::Binary
        } else {
            DecodeKind::Other
        },
        Backend::MySql => if tn == "BOOLEAN"@ {
            DecodeKind::Bool
        } else if tn == "TINYINT"@ || tn == "SMALLINT"@ || tn == "INT"@ || tn == "BIGINT"@ {
            DecodeKind::Int
        } else if tn == "TINYINT UNSIGNED"@ || tn == "SMALLINT UNSIGNED"@ || tn == "INT UNSIGNED"@
            || tn == "BIGINT UNSIGNED"@ {
            DecodeKind::UInt
        } else if tn == "FLOAT"@ || tn == "DOUBLE"@ {
            DecodeKind::Float
        } else if tn == "DECIMAL"@ || tn == "NEWDECIMAL"@ {
            DecodeKind::Decimal
        } else if tn == "DATETIME"@ || tn == "TIMESTAMP"@ {
            DecodeKind::Timestamp
        } else if tn == "DATE"@ {
            DecodeKind::Date
        } else if tn == "JSON"@ {
            DecodeKind::Json
        } else if tn == "VARCHAR"@ || tn == "CHAR"@ || tn == "TEXT"@ || tn == "VAR_STRING"@ {
            DecodeKind::Text
        } else if tn == "BLOB"@ || tn == "BINARY"@ {
            DecodeKind::Binary
        } else {
            DecodeKind::Other
        },
        Backend::Sqlite => if tn == "BOOLEAN"@ {
            DecodeKind::Bool
        } else if tn == "INTEGER"@ {
            DecodeKind::Int
        } else if tn == "REAL"@ {
            DecodeKind::Float
        } else if tn == "TEXT"@ {
            DecodeKind::Text
        } else if tn == "DATETIME"@ {
            DecodeKind::TimestampOrText
        } else if tn == "BLOB"@ {
            DecodeKind::Binary
        } else {
            DecodeKind::Other
        },
    }
}

/// Looks up the reading for a backend's reported type name.
pub fn decode_kind(b: Backend, tname: &str) -> (k: DecodeKind)
    ensures
        k == spec_decode_kind(b, tname@),
{
    match b {
        Backend::Postgres => if str_eq(tname, "BOOL") {
            DecodeKind::Bool
        } else if str_eq(tname, "INT2") || str_eq(tname, "INT4") || str_eq(
            tname,
            "INT8",
        ) {
            DecodeKind::Int
        } else if str_eq(tname, "FLOAT4") || str_eq(tname, "FLOAT8") {
            DecodeKind::Float
        } else if str_eq(tname, "NUMERIC") {
            DecodeKind::Decimal
        } else if str_eq(tname, "TEXT") || str_eq(tname, "VARCHAR") || str_eq(
            tname,
            "CHAR",
        ) || str_eq(tname, "NAME") {
            DecodeKind::Text
        } else if str_eq(tname, "TIMESTAMP") {
            DecodeKind::Timestamp
        } else if str_eq(tname, "TIMESTAMPTZ") {
            DecodeKind::TimestampTz
        } else if str_eq(tname, "DATE") {
            DecodeKind::Date
        } else if str_eq(tname, "UUID") {
            DecodeKind::Uuid
        } else if str_eq(tname, "JSON") || str_eq(tname, "JSONB") {
            DecodeKind::Json
        } else if str_eq(tname, "BYTEA") {
            DecodeKind::Binary
        } else {
            DecodeKind::Other
        },
        Backend::MySql => if str_eq(tname, "BOOLEAN") {
            DecodeKind::Bool
        } else if str_eq(tname, "TINYINT") || str_eq(tname, "SMALLINT") || str_eq(
            tname,
            "INT",
        ) || str_eq(tname, "BIGINT") {
            DecodeKind::Int
        } else if str_eq(tname, "TINYINT UNSIGNED") || str_eq(tname, "SMALLINT UNSIGNED")
            || str_eq(tname, "INT UNSIGNED") || str_eq(tname, "BIGINT UNSIGNED") {
            DecodeKind::UInt
        } else if str_eq(tname, "FLOAT") || str_eq(tname, "DOUBLE") {
            DecodeKind::Float
        } else if str_eq(tname, "DECIMAL") || str_eq(tname, "NEWDECIMAL") {
            DecodeKind::Decimal
        } else if str_eq(tname, "DATETIME") || str_eq(tname, "TIMESTAMP") {
            DecodeKind::Timestamp
        } else if str_eq(tname, "DATE") {
            DecodeKind::Date
        } else if str_eq(tname, "JSON") {
            DecodeKind::Json
        } else if str_eq(tname, "VARCHAR") || str_eq(tname, "CHAR") || str_eq(
            tname,
            "TEXT",
        ) || str_eq(tname, "VAR_STRING") {
            DecodeKind::Text
        } else if str_eq(tname, "BLOB") || str_eq(tname, "BINARY") {
            DecodeKind::Binary
        } else {
            DecodeKind::Other
        },
        Backend::Sqlite => if str_eq(tname, "BOOLEAN") {
            DecodeKind::Bool
        } else if str_eq(tname, "INTEGER") {
            DecodeKind::Int
        } else if str_eq(tname, "REAL") {
            DecodeKind::Float
        } else if str_eq(tname, "TEXT") {
            DecodeKind::Text
        } else if str_eq(tname, "DATETIME") {
            DecodeKind::TimestampOrText
        } else if str_eq(tname, "BLOB") {
            DecodeKind::Binary
        } else {
            DecodeKind::Other
        },
    }
}

/// One raw column value, as handed over by the driver layer: SQL NULL, a
/// plain decoded value, the calendar fields of a date or timestamp, raw
/// bytes, or a value the driver could not decode.
#[derive(Clone, Debug)]
pub enum CellValue {
    Null,
    Bool(bool),
    Int(i64),
    UInt(u64),
    Real(String),
    Stamp { year: i32, month: u8, day: u8, hour: u8, minute: u8, second: u8, nanosecond: u32 },
    Day { year: i32, month: u8, day: u8 },
    Text(String),
    Bytes(Vec<u8>),
    Json(String),
    Unreadable,
}

/// The view of an optional string.
pub open spec fn opt_text(o: Option<String>) -> Option<Seq<char>> {
    match o {
        Some(s) => Some(s@),
        None => None,
    }
}

/// The display text of a timestamp with the given calendar fields, or
/// nothing when the fields name no valid timestamp.
pub uninterp spec fn datetime_text_of(
    y: int,
    mo: int,
    d: int,
    h: int,
    mi: int,
    s: int,
    ns: int,
) -> Option<Seq<char>>;

/// The display text of a timezone-aware timestamp held in UTC, or nothing
/// when the fields name no valid timestamp.
pub uninterp spec fn datetime_utc_text_of(
    y: int,
    mo: int,
    d: int,
    h: int,
    mi: int,
    s: int,
    ns: int,
) -> Option<Seq<char>>;

/// The display text of a calendar date, or nothing when the fields name no
/// valid date.
pub uninterp spec fn date_text_of(y: int, mo: int, d: int) -> Option<Seq<char>>;

/// The canonical decimal text of a decimal written as a string, or nothing
/// when the string is no decimal.
pub uninterp spec fn decimal_text_of(s: Seq<char>) -> Option<Seq<char>>;

/// The compact text of a JSON document, or nothing when the text is no
/// JSON.
pub uninterp spec fn json_compact_of(s: Seq<char>) -> Option<Seq<char>>;

/// Relies on chrono's `NaiveDate::from_ymd_opt`,
/// `NaiveDate::and_hms_nano_opt` and the `Display` of `NaiveDateTime`: the
/// text depends on the calendar fields alone.
#[verifier::external_body]
fn datetime_text(y: i32, mo: u8, d: u8, h: u8, mi: u8, s: u8, ns: u32) -> (r: Option<String>)
    ensures
        opt_text(r) == datetime_text_of(
            y as int,
            mo as int,
            d as int,
            h as int,
            mi as int,
            s as int,
            ns as int,
        ),
{
    let date = chrono::NaiveDate::from_ymd_opt(y, mo as u32, d as u32)?;
    let dt = date.and_hms_nano_opt(h as u32, mi as u32, s as u32, ns)?;
    Some(dt.to_string())
}

/// Relies on chrono's `NaiveDate::from_ymd_opt`,
/// `NaiveDate::and_hms_nano_opt`, `DateTime::from_naive_utc_and_offset`
/// and the `Display` of `DateTime<Utc>`: the text depends on the calendar
/// fields alone.
#[verifier::external_body]
fn datetime_utc_text(y: i32, mo: u8, d: u8, h: u8, mi: u8, s: u8, ns: u32) -> (r: Option<String>)
    ensures
        opt_text(r) == datetime_utc_text_of(
            y as int,
            mo as int,
            d as int,
            h as int,
            mi as int,
            s as int,
            ns as int,
        ),
{
    let date = chrono::NaiveDate::from_ymd_opt(y, mo as u32, d as u32)?;
    let dt = date.and_hms_nano_opt(h as u32, mi as u32, s as u32, ns)?;
    let t = chrono::DateTime::<chrono::Utc>::from_naive_utc_and_offset(dt, chrono::Utc);
    Some(t.to_string())
}

/// Relies on chrono's `NaiveDate::from_ymd_opt` and the `Display` of
/// `NaiveDate`: the text depends on the calendar fields alone.
#[verifier::external_body]
fn date_text(y: i32, mo: u8, d: u8) -> (r: Option<String>)
    ensures
        opt_text(r) == date_text_of(y as int, mo as int, d as int),
{
    let date = chrono::NaiveDate::from_ymd_opt(y, mo as u32, d as u32)?;
    Some(date.to_string())
}

/// Relies on bigdecimal's `BigDecimal::from_str` and the `Display` of
/// `BigDecimal`: the canonical text depends on the input string alone.
#[verifier::external_body]
fn decimal_text(s: &str) -> (r: Option<String>)
    ensures
        opt_text(r) == decimal_text_of(s@),
{
    match bigdecimal::BigDecimal::from_str(s) {
        Ok(d) => Some(d.to_string()),
        Err(_) => None,
    }
}

/// Relies on serde_json's `from_str::<Value>` and the `Display` of
/// `Value`, which prints compact JSON: the result depends on the input
/// string alone.
#[verifier::external_body]
fn json_compact(s: &str) -> (r: Option<String>)
    ensures
        opt_text(r) == json_compact_of(s@),
{
    match serde_json::from_str::<serde_json::Value>(s) {
        Ok(v) => Some(v.to_string()),
        Err(_) => None,
    }
}

/// Relies on `String::from_utf8`: it succeeds exactly on valid UTF-8 and
/// the returned string holds exactly the given bytes.
#[verifier::external_body]
fn bytes_to_text(b: &Vec<u8>) -> (r: Option<String>)
    ensures
        r is Some <==> valid_utf8(b@),
        r is Some ==> encode_utf8(r->0@) == b@ && r->0@ == decode_utf8(b@),
{
    String::from_utf8(b.clone()).ok()
}

/// The character for one hexadecimal digit, lowercase.
pub open spec fn hex_digit_char(n: int) -> char {
    if n < 10 {
        dec_digit_char(n)
    } else if n == 10 {
        'a'
    } else if n == 11 {
        'b'
    } else if n == 12 {
        'c'
    } else if n == 13 {
        'd'
    } else if n == 14 {
        'e'
    } else {
        'f'
    }
}

/// Two lowercase hexadecimal digits for one byte.
pub open spec fn byte_hex(b: u8) -> Seq<char> {
    seq![hex_digit_char(b as int / 16), hex_digit_char(b as int % 16)]
}

/// The lowercase hexadecimal text of a byte string, two digits per byte.
pub open spec fn hex_text(bs: Seq<u8>) -> Seq<char>
    decreases bs.len(),
{
    if bs.len() == 0 {
        Seq::empty()
    } else {
        hex_text(bs.drop_last()) + byte_hex(bs.last())
    }
}

fn hex_digit(n: u8) -> (c: char)
    requires
        n < 16,
    ensures
        c == hex_digit_char(n as int),
{
    if n == 0 {
        '0'
    } else if n == 1 {
        '1'
    } else if n == 2 {
        '2'
    } else if n == 3 {
        '3'
    } else if n == 4 {
        '4'
    } else if n == 5 {
        '5'
    } else if n == 6 {
        '6'
    } else if n == 7 {
        '7'
    } else if n == 8 {
        '8'
    } else if n == 9 {
        '9'
    } else if n == 10 {
        'a'
    } else if n == 11 {
        'b'
    } else if n == 12 {
        'c'
    } else if n == 13 {
        'd'
    } else if n == 14 {
        'e'
    } else {
        'f'
    }
}

/// Appends the hexadecimal text of `v[from..to]` to `out`.
fn push_hex(out: &mut String, v: &Vec<u8>, from: usize, to: usize)
    requires
        from <= to <= v@.len(),
    ensures
        final(out)@ == old(out)@ + hex_text(v@.subrange(from as int, to as int)),
{
    let mut i: usize = from;
    assert(v@.subrange(from as int, from as int) =~= Seq::<u8>::empty());
    while i < to
        invariant
            from <= i <= to <= v@.len(),
            out@ == old(out)@ + hex_text(v@.subrange(from as int, i as int)),
        decreases to - i,
    {
        let b = v[i];
        push_char(out, hex_digit(b / 16));
        push_char(out, hex_digit(b % 16));
        proof {
            let sub = v@.subrange(from as int, i + 1);
            assert(sub.drop_last() =~= v@.subrange(from as int, i as int));
            assert(sub.last() == v@[i as int]);
            assert(out@ =~= old(out)@ + hex_text(sub));
        }
        i += 1;
    }
}

/// Hexadecimal text for small binary payloads, a size tag for large ones.
pub open spec fn binary_text(bs: Seq<u8>) -> Seq<char> {
    if bs.len() <= 32 {
        hex_text(bs)
    } else {
        "<BINARY "@ + dec_digits(bs.len() as nat) + " bytes>"@
    }
}

/// The display text of a binary payload: its hexadecimal text when it
/// holds at most 32 bytes, else `<BINARY n bytes>`.
pub fn binary_cell_text(v: &Vec<u8>) -> (r: String)
    ensures
        r@ == binary_text(v@),
{
    if v.len() <= 32 {
        let mut out = String::new();
        push_hex(&mut out, v, 0, v.len());
        assert(v@.subrange(0, v@.len() as int) =~= v@);
        out
    } else {
        let mut out = String::new();
        out.append("<BINARY ");
        let digits = u64_to_string(v.len() as u64);
        out.append(digits.as_str());
        out.append(" bytes>");
        assert(out@ =~= binary_text(v@));
        out
    }
}

/// The canonical hyphenated text of a 16-byte unique identifier.
pub open spec fn uuid_text(bs: Seq<u8>) -> Seq<char> {
    hex_text(bs.subrange(0, 4)) + seq!['-'] + hex_text(bs.subrange(4, 6)) + seq!['-'] + hex_text(
        bs.subrange(6, 8),
    ) + seq!['-'] + hex_text(bs.subrange(8, 10)) + seq!['-'] + hex_text(bs.subrange(10, 16))
}

/// Formats a 16-byte unique identifier in its hyphenated form.
pub fn uuid_string(v: &Vec<u8>) -> (r: String)
    requires
        v@.len() == 16,
    ensures
        r@ == uuid_text(v@),
{
    let mut out = String::new();
    push_hex(&mut out, v, 0, 4);
    push_char(&mut out, '-');
    push_hex(&mut out, v, 4, 6);
    push_char(&mut out, '-');
    push_hex(&mut out, v, 6, 8);
    push_char(&mut out, '-');
    push_hex(&mut out, v, 8, 10);
    push_char(&mut out, '-');
    push_hex(&mut out, v, 10, 16);
    assert(out@ =~= uuid_text(v@));
    out
}

/// The tag shown for a type the table does not recognize and the generic
/// decode cannot read.
pub open spec fn tag_text(tn: Seq<char>) -> Seq<char> {
    seq!['<'] + tn + seq!['>']
}

/// The display text of one cell. A SQL NULL becomes `NULL` before any
/// type-specific conversion; otherwise the reading chosen by the
/// conversion table decides, with `err` for a value that does not fit its
/// column's reading.
pub open spec fn spec_value_to_text(b: Backend, tn: Seq<char>, v: CellValue) -> Seq<char> {
    match v {
        CellValue::Null => "NULL"@,
        _ => match spec_decode_kind(b, tn) {
            DecodeKind::Bool => match v {
                CellValue::Bool(x) => if x {
                    "true"@
                } else {
                    "false"@
                },
                _ => "err"@,
            },
            DecodeKind::Int => match v {
                CellValue::Int(i) => int_text(i as int),
                _ => "err"@,
            },
            DecodeKind::UInt => match v {
                CellValue::UInt(u) => dec_digits(u as nat),
                _ => "err"@,
            },
            DecodeKind::Float => match v {
                CellValue::Real(s) => s@,
                _ => "err"@,
            },
            DecodeKind::Decimal => match v {
                CellValue::Real(s) => match decimal_text_of(s@) {
                    Some(t) => t,
                    None => "err"@,
                },
                _ => "err"@,
            },
            DecodeKind::Timestamp => match v {
                CellValue::Stamp { year, month, day, hour, minute, second, nanosecond } => match
                    datetime_text_of(
                    year as int,
                    month as int,
                    day as int,
                    hour as int,
                    minute as int,
                    second as int,
                    nanosecond as int,
                ) {
                    Some(t) => t,
                    None => "err"@,
                },
                _ => "err"@,
            },
            DecodeKind::TimestampTz => match v {
                CellValue::Stamp { year, month, day, hour, minute, second, nanosecond } => match
                    datetime_utc_text_of(
                    year as int,
                    month as int,
                    day as int,
                    hour as int,
                    minute as int,
                    second as int,
                    nanosecond as int,
                ) {
                    Some(t) => t,
                    None => "err"@,
                },
                _ => "err"@,
            },
            DecodeKind::TimestampOrText => match v {
                CellValue::Stamp { year, month, day, hour, minute, second, nanosecond } => match
                    datetime_text_of(
                    year as int,
                    month as int,
                    day as int,
                    hour as int,
                    minute as int,
                    second as int,
                    nanosecond as int,
                ) {
                    Some(t) => t,
                    None => "err"@,
                },
                CellValue::Text(s) => s@,
                _ => "err"@,
            },
            DecodeKind::Date => match v {
                CellValue::Day { year, month, day } => match date_text_of(
                    year as int,
                    month as int,
                    day as int,
                ) {
                    Some(t) => t,
                    None => "err"@,
                },
                _ => "err"@,
            },
            DecodeKind::Uuid => match v {
                CellValue::Bytes(bs) => if bs@.len() == 16 {
                    uuid_text(bs@)
                } else {
                    "err"@
                },
                _ => "err"@,
            },
            DecodeKind::Json => match v {
                CellValue::Json(s) => match json_compact_of(s@) {
                    Some(t) => t,
                    None => "err"@,
                },
                _ => "err"@,
            },
            DecodeKind::Text => match v {
                CellValue::Text(s) => s@,
                CellValue::Bytes(bs) => if valid_utf8(bs@) {
                    decode_utf8(bs@)
                } else {
                    binary_text(bs@)
                },
                _ => "err"@,
            },
            DecodeKind::Binary => match v {
                CellValue::Bytes(bs) => binary_text(bs@),
                CellValue::Text(s) => s@,
                _ => "err"@,
            },
            DecodeKind::Other => match v {
                CellValue::Text(s) => s@,
                CellValue::Bytes(bs) => if valid_utf8(bs@) {
                    decode_utf8(bs@)
                } else {
                    tag_text(tn)
                },
                _ => tag_text(tn),
            },
        },
    }
}

/// A NULL cell converts to the literal text `NULL`, whatever the backend
/// and declared type: the NULL check always wins over every type-specific
/// conversion.
pub proof fn lemma_null_always_wins(b: Backend, tn: Seq<char>)
    ensures
        spec_value_to_text(b, tn, CellValue::Null) == "NULL"@,
{
}

fn err_text() -> (r: String)
    ensures
        r@ == "err"@,
{
    let r = String::new();
    let r = r.concat("err");
    assert(r@ =~= "err"@);
    r
}

/// Builds the tag `<tname>` for an unrecognized type.
fn type_tag(tname: &str) -> (r: String)
    ensures
        r@ == tag_text(tname@),
{
    let mut out = String::new();
    push_char(&mut out, '<');
    out.append(tname);
    push_char(&mut out, '>');
    assert(out@ =~= tag_text(tname@));
    out
}

/// Converts one raw column value into display text, per the conversion
/// table of its backend.
pub fn value_to_text(b: Backend, tname: &str, value: &CellValue) -> (r: String)
    ensures
        r@ == spec_value_to_text(b, tname@, *value),
{
    if let CellValue::Null = value {
        let r = String::new().concat("NULL");
        assert(r@ =~= "NULL"@);
        return r;
    }
    let kind = decode_kind(b, tname);
    match kind {
        DecodeKind::Bool => match value {
            CellValue::Bool(x) => {
                let r = String::new().concat(if *x { "true" } else { "false" });
                assert(r@ =~= spec_value_to_text(b, tname@, *value));
                r
            },
            _ => err_text(),
        },
        DecodeKind::Int => match value {
            CellValue::Int(i) => i64_to_string(*i),
            _ => err_text(),
        },
        DecodeKind::UInt => match value {
            CellValue::UInt(u) => u64_to_string(*u),
            _ => err_text(),
        },
        DecodeKind::Float => match value {
            CellValue::Real(s) => s.clone(),
            _ => err_text(),
        },
        DecodeKind::Decimal => match value {
            CellValue::Real(s) => match decimal_text(s.as_str()) {
                Some(t) => t,
                None => err_text(),
            },
            _ => err_text(),
        },
        DecodeKind::Timestamp => match value {
            CellValue::Stamp { year, month, day, hour, minute, second, nanosecond } => match
                datetime_text(*year, *month, *day, *hour, *minute, *second, *nanosecond) {
                Some(t) => t,
                None => err_text(),
            },
            _ => err_text(),
        },
        DecodeKind::TimestampTz => match value {
            CellValue::Stamp { year, month, day, hour, minute, second, nanosecond } => match
                datetime_utc_text(*year, *month, *day, *hour, *minute, *second, *nanosecond) {
                Some(t) => t,
                None => err_text(),
            },
            _ => err_text(),
        },
        DecodeKind::TimestampOrText => match value {
            CellValue::Stamp { year, month, day, hour, minute, second, nanosecond } => match
                datetime_text(*year, *month, *day, *hour, *minute, *second, *nanosecond) {
                Some(t) => t,
                None => err_text(),
            },
            CellValue::Text(s) => s.clone(),
            _ => err_text(),
        },
        DecodeKind::Date => match value {
            CellValue::Day { year, month, day } => match date_text(*year, *month, *day) {
                Some(t) => t,
                None => err_text(),
            },
            _ => err_text(),
        },
        DecodeKind::Uuid => match value {
            CellValue::Bytes(bs) => if bs.len() == 16 {
                uuid_string(bs)
            } else {
                err_text()
            },
            _ => err_text(),
        },
        DecodeKind::Json => match value {
            CellValue::Json(s) => match json_compact(s.as_str()) {
                Some(t) => t,
                None => err_text(),
            },
            _ => err_text(),
        },
        DecodeKind::Text => match value {
            CellValue::Text(s) => s.clone(),
            CellValue::Bytes(bs) => match bytes_to_text(bs) {
                Some(t) => t,
                None => binary_cell_text(bs),
            },
            _ => err_text(),
        },
        DecodeKind::Binary => match value {
            CellValue::Bytes(bs) => binary_cell_text(bs),
            CellValue::Text(s) => s.clone(),
            _ => err_text(),
        },
        DecodeKind::Other => match value {
            CellValue::Text(s) => s.clone(),
            CellValue::Bytes(bs) => match bytes_to_text(bs) {
                Some(t) => t,
                None => type_tag(tname),
            },
            _ => type_tag(tname),
        },
    }
}

} // verus!
