use prometheus_fdw::cell::{coerce, Cell, Coercion};
use prometheus_fdw::json::Json;
use prometheus_fdw::text::{int_to_text, is_float_text, parse_i64};
use prometheus_fdw::time::{parse_iso8601, secs_of_millis};

fn s(x: &str) -> String {
    x.to_string()
}

fn text(x: &str) -> Json {
    Json::Str(s(x))
}

fn num(x: &str) -> Json {
    Json::Number(s(x))
}

#[test]
fn absent_value_gives_none() {
    assert_eq!(coerce(None, &Coercion::Str), None);
    assert_eq!(coerce(None, &Coercion::JsonPassthrough), None);
}

#[test]
fn bool_coercion() {
    assert_eq!(coerce(Some(&Json::Bool(true)), &Coercion::Bool), Some(Cell::Bool(true)));
    assert_eq!(coerce(Some(&text("true")), &Coercion::Bool), None);
}

#[test]
fn int_coercion() {
    assert_eq!(coerce(Some(&num("42")), &Coercion::Int64), Some(Cell::I64(42)));
    assert_eq!(coerce(Some(&text("-17")), &Coercion::Int64), Some(Cell::I64(-17)));
    assert_eq!(coerce(Some(&text("+15551234567")), &Coercion::Int64), Some(Cell::I64(15551234567)));
    assert_eq!(coerce(Some(&num("1.5")), &Coercion::Int64), None);
    assert_eq!(coerce(Some(&text("+1 555")), &Coercion::Int64), None);
    assert_eq!(coerce(Some(&Json::Null), &Coercion::Int64), None);
}

#[test]
fn float_coercion() {
    assert_eq!(coerce(Some(&text("1.5")), &Coercion::Float64), Some(Cell::F64(s("1.5"))));
    assert_eq!(coerce(Some(&num("2e-3")), &Coercion::Float64), Some(Cell::F64(s("2e-3"))));
    assert_eq!(coerce(Some(&text("+Inf")), &Coercion::Float64), Some(Cell::F64(s("+Inf"))));
    assert_eq!(coerce(Some(&text("abc")), &Coercion::Float64), None);
    assert_eq!(coerce(Some(&Json::Bool(false)), &Coercion::Float64), None);
}

#[test]
fn string_coercion() {
    assert_eq!(coerce(Some(&text("x")), &Coercion::Str), Some(Cell::String(s("x"))));
    assert_eq!(coerce(Some(&num("1")), &Coercion::Str), None);
}

#[test]
fn epoch_millis_coercion() {
    assert_eq!(
        coerce(Some(&num("1700000000123")), &Coercion::TimestampEpochMillis),
        Some(Cell::Timestamp(1700000000))
    );
    assert_eq!(
        coerce(Some(&text("1700000000999")), &Coercion::TimestampEpochMillis),
        Some(Cell::Timestamp(1700000000))
    );
    assert_eq!(coerce(Some(&text("soon")), &Coercion::TimestampEpochMillis), None);
}

#[test]
fn iso_coercion() {
    assert_eq!(
        coerce(Some(&text("2024-01-15T10:30:00Z")), &Coercion::TimestampIso8601),
        Some(Cell::Timestamp(1705314600))
    );
    assert_eq!(coerce(Some(&num("1705314600")), &Coercion::TimestampIso8601), None);
}

#[test]
fn passthrough_coercion() {
    let v = Json::Object(vec![(s("a"), Json::Array(vec![num("1"), Json::Null]))]);
    assert_eq!(coerce(Some(&v), &Coercion::JsonPassthrough), Some(Cell::Json(v.clone())));
}

#[test]
fn first_of_array_coercion() {
    let kind = Coercion::FirstOfArrayThenField(s("phone_number"), Box::new(Coercion::Int64));
    let v = Json::Array(vec![
        Json::Object(vec![(s("phone_number"), text("5551234"))]),
        Json::Object(vec![(s("phone_number"), text("5559999"))]),
    ]);
    assert_eq!(coerce(Some(&v), &kind), Some(Cell::I64(5551234)));
    assert_eq!(coerce(Some(&Json::Array(vec![])), &kind), None);
    assert_eq!(coerce(Some(&text("5551234")), &kind), None);
}

#[test]
fn parse_i64_limits() {
    assert_eq!(parse_i64("9223372036854775807"), Some(i64::MAX));
    assert_eq!(parse_i64("-9223372036854775808"), Some(i64::MIN));
    assert_eq!(parse_i64("9223372036854775808"), None);
    assert_eq!(parse_i64("-9223372036854775809"), None);
    assert_eq!(parse_i64("99999999999999999999999"), None);
    assert_eq!(parse_i64(""), None);
    assert_eq!(parse_i64("-"), None);
    assert_eq!(parse_i64("+0"), Some(0));
    assert_eq!(parse_i64("12a"), None);
}

#[test]
fn float_text_grammar() {
    for ok in ["1", "1.", ".5", "-1.25e+10", "1E5", "inf", "-Infinity", "NaN", "+0.0"] {
        assert!(is_float_text(ok), "{}", ok);
        assert!(ok.parse::<f64>().is_ok(), "{}", ok);
    }
    for bad in ["", ".", "e5", "1e", "1e+", "--1", "1.2.3", "infin", "0x10", " 1"] {
        assert!(!is_float_text(bad), "{}", bad);
        assert!(bad.parse::<f64>().is_err(), "{}", bad);
    }
}

#[test]
fn int_text_matches_to_string() {
    for v in [0i64, 7, -7, 10, 1234567890, i64::MAX, i64::MIN] {
        assert_eq!(int_to_text(v), v.to_string());
    }
}

#[test]
fn millis_round_toward_zero() {
    assert_eq!(secs_of_millis(1500), 1);
    assert_eq!(secs_of_millis(-1500), -1);
    assert_eq!(secs_of_millis(999), 0);
    assert_eq!(secs_of_millis(i64::MIN), i64::MIN / 1000);
}

#[test]
fn iso8601_instants() {
    assert_eq!(parse_iso8601("1970-01-01T00:00:00Z"), Some(0));
    assert_eq!(parse_iso8601("1969-12-31T23:59:59Z"), Some(-1));
    assert_eq!(parse_iso8601("2024-01-15T10:30:00+01:00"), Some(1705311000));
    assert_eq!(parse_iso8601("2024-01-15T10:30:00.250-02:30"), Some(1705323600));
    assert_eq!(parse_iso8601("2024-02-29T00:00:00Z"), Some(1709164800));
    assert_eq!(parse_iso8601("2023-02-29T00:00:00Z"), None);
    assert_eq!(parse_iso8601("2024-01-15T24:00:00Z"), None);
    assert_eq!(parse_iso8601("2024-01-15T10:30:00"), None);
    assert_eq!(parse_iso8601("2024-01-15T10:30:00.Z"), None);
}
