use leaf::column::{ColumnData, TimeUnit};
use leaf::column::render_cell;
use leaf::error::TransformError;
use leaf::frac::Frac;
use leaf::text::{dec_i128, parse_frac, parse_i64, parse_u64, str_ends_with, str_strip_suffix_all,
    str_trim};
use leaf::timestamp::{parse_duration, parse_time_only, parse_timestamp, ticks_to_seconds};

#[test]
fn plain_integer_literals_parse_as_epoch_seconds() {
    assert_eq!(parse_timestamp("1704067200"), Ok(1704067200));
    assert_eq!(parse_timestamp("-60"), Ok(-60));
    assert_eq!(parse_timestamp("+5"), Ok(5));
}

#[test]
fn rfc3339_datetimes_parse_as_epoch_seconds() {
    assert_eq!(parse_timestamp("2024-01-01T00:00:00+00:00"), Ok(1704067200));
    assert_eq!(parse_timestamp("2024-01-01T01:00:00+01:00"), Ok(1704067200));
    assert_eq!(parse_timestamp("1970-01-01T00:00:00Z"), Ok(0));
}

#[test]
fn naive_datetimes_parse_as_utc_epoch_seconds() {
    assert_eq!(parse_timestamp("2024-01-01 00:00:00"), Ok(1704067200));
    assert_eq!(parse_timestamp("2024-01-01T00:00:01"), Ok(1704067201));
    assert_eq!(parse_timestamp("2024-01-01 00:00:00.750"), Ok(1704067200));
    assert_eq!(parse_timestamp("1969-12-31 23:59:59"), Ok(-1));
}

#[test]
fn time_of_day_parses_as_seconds_since_midnight() {
    assert_eq!(parse_timestamp("00:00:30"), Ok(30));
    assert_eq!(parse_timestamp("12:30"), Ok(45000));
    assert_eq!(parse_timestamp("23:59:59"), Ok(86399));
    assert_eq!(parse_timestamp("01:02:03.500"), Ok(3723));
    assert_eq!(parse_time_only("9:5"), Some(9 * 3600 + 5 * 60));
    assert_eq!(parse_time_only("24:00"), None);
    assert_eq!(parse_time_only("10:60"), None);
}

#[test]
fn blank_or_malformed_timestamps_are_parse_failures() {
    for bad in ["", "   ", "yesterday", "2024-13-01 00:00:00"] {
        match parse_timestamp(bad) {
            Err(TransformError::ParseFailure { value, formats }) => {
                assert_eq!(value, bad);
                assert!(!formats.is_empty());
            },
            other => panic!("expected a parse failure for {:?}, got {:?}", bad, other),
        }
    }
}

#[test]
fn durations_accept_seconds_and_clock_forms() {
    assert_eq!(parse_duration("90"), Some(90));
    assert_eq!(parse_duration("1:30"), Some(90));
    assert_eq!(parse_duration("01:02:03"), Some(3723));
    assert_eq!(parse_duration("10:00"), Some(600));
    assert_eq!(parse_duration(""), None);
    assert_eq!(parse_duration("1:2:3:4"), None);
    assert_eq!(parse_duration("abc"), None);
}

#[test]
fn integer_parsing_matches_the_standard_grammar() {
    assert_eq!(parse_u64("0"), Some(0));
    assert_eq!(parse_u64("18446744073709551615"), Some(u64::MAX));
    assert_eq!(parse_u64("18446744073709551616"), None);
    assert_eq!(parse_u64("12a"), None);
    assert_eq!(parse_i64("-9223372036854775808"), Some(i64::MIN));
    assert_eq!(parse_i64("9223372036854775807"), Some(i64::MAX));
    assert_eq!(parse_i64("9223372036854775808"), None);
    assert_eq!(parse_i64("--1"), None);
}

#[test]
fn decimal_literals_parse_as_exact_fractions() {
    let f = parse_frac("10.25").unwrap();
    assert_eq!((f.num, f.den), (1025, 100));
    let g = parse_frac("-0.5").unwrap();
    assert_eq!((g.num, g.den), (-5, 10));
    let h = parse_frac("42").unwrap();
    assert_eq!((h.num, h.den), (42, 1));
    assert!(parse_frac("1e5").is_none());
    assert!(parse_frac("1.2.3").is_none());
    assert!(parse_frac(".5").is_some());
}

#[test]
fn trimming_and_suffix_helpers_behave_like_std() {
    assert_eq!(str_trim("  a b \t"), "a b");
    assert_eq!(str_trim(""), "");
    assert!(str_ends_with("table.arrow", ".arrow"));
    assert!(!str_ends_with("x", ".arrow"));
    assert_eq!(str_strip_suffix_all("t.arrow.arrow", ".arrow"), "t");
    assert_eq!(str_strip_suffix_all("t.csv", ".arrow"), "t.csv");
}

#[test]
fn decimal_rendering_matches_std_formatting() {
    assert_eq!(dec_i128(0), "0");
    assert_eq!(dec_i128(-42), "-42");
    assert_eq!(dec_i128(1234567890123), "1234567890123");
}

#[test]
fn native_timestamp_cells_normalize_by_their_unit() {
    assert_eq!(ticks_to_seconds(5_500, TimeUnit::Millisecond), 5);
    assert_eq!(ticks_to_seconds(-1, TimeUnit::Millisecond), -1);
    assert_eq!(ticks_to_seconds(3_000_000_000, TimeUnit::Nanosecond), 3);
    assert_eq!(ticks_to_seconds(7, TimeUnit::Second), 7);
}

#[test]
fn cells_render_with_the_shared_stringification() {
    let ints = ColumnData::Int64(vec![Some(-42), None]);
    assert_eq!(render_cell(&ints, 0), "-42");
    assert_eq!(render_cell(&ints, 1), "");
    let bools = ColumnData::Boolean(vec![Some(true), Some(false)]);
    assert_eq!(render_cell(&bools, 0), "true");
    assert_eq!(render_cell(&bools, 1), "false");
    let times = ColumnData::Timestamp(TimeUnit::Second, vec![Some(3661)]);
    assert_eq!(render_cell(&times, 0), "01:01:01");
    let millis = ColumnData::Timestamp(TimeUnit::Millisecond, vec![Some(3_661_500)]);
    assert_eq!(render_cell(&millis, 0), "01:01:01.500");
    let fracs = ColumnData::Float64(vec![Some(Frac::new(5, 1)), Some(Frac::new(1, 2))]);
    assert_eq!(render_cell(&fracs, 0), "5");
    assert_eq!(render_cell(&fracs, 1), "0.5");
    // Equal values render alike whatever pair holds them; only a
    // denominator outside the twos and fives falls back to fraction text.
    let more = ColumnData::Float64(vec![
        Some(Frac::new(5, 10)),
        Some(Frac::new(50, 100)),
        Some(Frac::new(-41, 4)),
        Some(Frac::new(1025, 100)),
        Some(Frac::new(1, 3)),
    ]);
    assert_eq!(render_cell(&more, 0), "0.5");
    assert_eq!(render_cell(&more, 1), "0.5");
    assert_eq!(render_cell(&more, 2), "-10.25");
    assert_eq!(render_cell(&more, 3), "10.25");
    assert_eq!(render_cell(&more, 4), "1/3");
}

#[test]
fn error_kinds_carry_messages() {
    assert!(!TransformError::ColumnNotFound("x".to_string()).message().is_empty());
    assert!(!TransformError::EmptyInput.message().is_empty());
    assert!(!TransformError::ParseFailure { value: "x".to_string(), formats: vec![] }
        .message()
        .is_empty());
    assert!(!TransformError::DuplicateOutputName("x".to_string()).message().is_empty());
    assert!(!TransformError::UnsupportedType.message().is_empty());
    assert!(!TransformError::NumericOverflow.message().is_empty());
    assert!(!TransformError::IoFailure.message().is_empty());
}
