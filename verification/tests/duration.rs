use chrono::DateTime;
use chrono::Duration;
use chrono::Utc;
use rcli::cli::jwt::admits;
use rcli::cli::jwt::expiry_from;
use rcli::cli::jwt::parse_duration;
use rcli::cli::jwt::parse_exp;
use rcli::cli::jwt::parse_exp_at;
use rcli::cli::jwt::DurationError;
use rcli::cli::jwt::ExpError;
use rcli::cli::jwt::MAX_DURATION_SECONDS;
use rcli::cli::jwt::MAX_TIMESTAMP;
use rcli::cli::jwt::MIN_TIMESTAMP;

#[test]
fn test_parse_duration() {
    assert_eq!(parse_duration("1s").unwrap(), Duration::seconds(1).num_seconds());
    assert_eq!(parse_duration("1m").unwrap(), Duration::minutes(1).num_seconds());
    assert_eq!(parse_duration("1h").unwrap(), Duration::hours(1).num_seconds());
    assert_eq!(parse_duration("1d").unwrap(), Duration::days(1).num_seconds());
    assert_eq!(parse_duration("12d").unwrap(), Duration::days(12).num_seconds());
    assert!(parse_duration("1x").is_err());
    assert!(parse_duration("100x").is_err());
}

#[test]
fn parse_duration_gives_seconds() {
    assert_eq!(parse_duration("0s"), Ok(0));
    assert_eq!(parse_duration("90s"), Ok(90));
    assert_eq!(parse_duration("5m"), Ok(300));
    assert_eq!(parse_duration("2h"), Ok(7_200));
    assert_eq!(parse_duration("12d"), Ok(1_036_800));
    assert_eq!(parse_duration("+3d"), Ok(259_200));
    assert_eq!(parse_duration("007m"), Ok(420));
}

#[test]
fn parse_duration_says_why_a_text_is_none() {
    let refused = [
        ("d", DurationError::InvalidNumber),
        ("+d", DurationError::InvalidNumber),
        ("-1d", DurationError::InvalidNumber),
        ("1.5h", DurationError::InvalidNumber),
        (" 1h", DurationError::InvalidNumber),
        ("ax", DurationError::InvalidNumber),
        ("日1d", DurationError::InvalidNumber),
        ("99999999999999999999999s", DurationError::InvalidNumber),
        ("12", DurationError::InvalidUnit),
        ("1x", DurationError::InvalidUnit),
        ("100x", DurationError::InvalidUnit),
        ("1D", DurationError::InvalidUnit),
    ];
    for (text, reason) in refused {
        assert!(admits(text), "{text:?}");
        assert_eq!(parse_duration(text), Err(reason), "{text:?}");
    }
}

#[test]
fn admits_what_can_be_split_and_held() {
    for text in ["1s", "12d", "x", "1x", "+", " ", "9223372036854775s", "106751991167d"] {
        assert!(admits(text), "{text:?}");
    }
    for text in ["", "1日", "é", "1é", "9223372036854776s", "153722867280913m", "106751991168d"] {
        assert!(!admits(text), "{text:?}");
    }
    assert!(admits("9223372036854775807x"));
    assert!(!admits("9223372036854775807h"));
}

#[test]
fn admits_a_text_exactly_where_its_last_byte_can_be_split_off() {
    for text in ["", "1s", "1é", "é1", "日", "a日b", "\u{7f}", "\u{80}", "1\u{0}"] {
        let splits = !text.is_empty() && text.is_char_boundary(text.len() - 1);
        assert_eq!(admits(text), splits, "{text:?}");
    }
}

#[test]
fn parse_duration_keeps_to_the_longest_duration() {
    assert_eq!(MAX_DURATION_SECONDS, Duration::MAX.num_seconds());
    assert_eq!(parse_duration("9223372036854775s"), Ok(9_223_372_036_854_775));
    assert_eq!(parse_duration("153722867280912m"), Ok(9_223_372_036_854_720));
    assert_eq!(parse_duration("106751991167d"), Ok(9_223_372_036_828_800));
    assert!(Duration::try_seconds(9_223_372_036_854_775).is_some());
    assert!(Duration::try_seconds(9_223_372_036_854_776).is_none());
    assert!(Duration::try_minutes(153_722_867_280_912).is_some());
    assert!(Duration::try_minutes(153_722_867_280_913).is_none());
    assert!(Duration::try_days(106_751_991_167).is_some());
    assert!(Duration::try_days(106_751_991_168).is_none());
}

#[test]
fn parse_duration_reads_a_large_number_as_a_signed_one() {
    if usize::MAX as u128 == u64::MAX as u128 {
        assert_eq!(parse_duration("18446744073709551615s"), Ok(-1));
        assert_eq!(parse_duration("18446744073709551556m"), Ok(-3_600));
        assert!(!admits("9223372036854775808s"));
    }
}

#[test]
fn duration_errors_have_messages() {
    assert_eq!(DurationError::InvalidUnit.message(), "Invalid duration unit. Use d, h, m, or s.");
    assert_eq!(DurationError::InvalidNumber.message(), "Invalid duration number");
    assert_eq!(ExpError::OutOfRange.message(), "Invilid duration");
    assert_eq!(
        ExpError::Duration(DurationError::InvalidUnit).message(),
        "Invalid duration unit. Use d, h, m, or s."
    );
}

#[test]
fn the_times_that_can_be_held_are_those_of_chrono() {
    assert_eq!(MIN_TIMESTAMP, DateTime::<Utc>::MIN_UTC.timestamp());
    assert_eq!(MAX_TIMESTAMP, DateTime::<Utc>::MAX_UTC.timestamp());
    assert!(DateTime::from_timestamp(MIN_TIMESTAMP, 0).is_some());
    assert!(DateTime::from_timestamp(MIN_TIMESTAMP - 1, 0).is_none());
    assert!(DateTime::from_timestamp(MAX_TIMESTAMP, 0).is_some());
    assert!(DateTime::from_timestamp(MAX_TIMESTAMP + 1, 0).is_none());
}

#[test]
fn parse_exp_at_adds_the_duration_to_the_time() {
    assert_eq!(parse_exp_at(1_700_000_000, "1d"), Ok(1_700_086_400));
    assert_eq!(parse_exp_at(1_700_000_000, "90s"), Ok(1_700_000_090));
    assert_eq!(parse_exp_at(0, "0s"), Ok(0));
    assert_eq!(parse_exp_at(1_431_648_000, "12h"), Ok(1_431_691_200));
    assert_eq!(parse_exp_at(-86_400, "1d"), Ok(0));
}

#[test]
fn parse_exp_at_agrees_with_chrono() {
    let start = chrono::DateTime::from_timestamp(1_700_000_000, 0).unwrap();
    let end = start.checked_add_signed(Duration::days(14)).unwrap();
    assert_eq!(parse_exp_at(1_700_000_000, "14d"), Ok(end.timestamp() as usize));
}

#[test]
fn parse_exp_at_refuses_what_is_no_duration() {
    assert_eq!(parse_exp_at(0, "1x"), Err(ExpError::Duration(DurationError::InvalidUnit)));
    assert_eq!(parse_exp_at(0, "xs"), Err(ExpError::Duration(DurationError::InvalidNumber)));
}

#[test]
fn parse_exp_at_gives_an_expiry_up_to_the_last_time() {
    assert_eq!(parse_exp_at(MAX_TIMESTAMP - 60, "1m"), Ok(MAX_TIMESTAMP as usize));
    assert_eq!(parse_exp_at(MAX_TIMESTAMP - 59, "1m"), Err(ExpError::OutOfRange));
    assert_eq!(parse_exp_at(MAX_TIMESTAMP, "0s"), Ok(MAX_TIMESTAMP as usize));
    assert_eq!(parse_exp_at(MAX_TIMESTAMP + 1, "0s"), Err(ExpError::OutOfRange));
    assert_eq!(parse_exp_at(MIN_TIMESTAMP, "0s"), Ok(MIN_TIMESTAMP as usize));
    assert_eq!(parse_exp_at(MIN_TIMESTAMP - 1, "1s"), Err(ExpError::OutOfRange));
    assert_eq!(parse_exp_at(MIN_TIMESTAMP - 1, "0s"), Err(ExpError::OutOfRange));
    assert_eq!(parse_exp_at(1_700_000_000, "9223372036854775s"), Err(ExpError::OutOfRange));
    assert_eq!(parse_exp_at(1_700_000_000, "100000000000d"), Err(ExpError::OutOfRange));
    assert_eq!(parse_exp_at(i64::MAX, "1s"), Err(ExpError::OutOfRange));
    assert_eq!(parse_exp_at(i64::MIN, "1s"), Err(ExpError::OutOfRange));
}

#[test]
fn parse_exp_at_goes_back_in_time_for_a_wrapped_number() {
    if usize::MAX as u128 == u64::MAX as u128 {
        assert_eq!(parse_exp_at(1_700_000_000, "18446744073709551615s"), Ok(1_699_999_999));
        assert_eq!(
            parse_exp_at(MIN_TIMESTAMP, "18446744073709551615s"),
            Err(ExpError::OutOfRange)
        );
    }
}

#[test]
fn expiry_from_wraps_a_time_before_the_epoch() {
    assert_eq!(expiry_from(Some(42)), Ok(42));
    assert_eq!(expiry_from(Some(-1)), Ok(-1i64 as usize));
    assert_eq!(expiry_from(None), Err(ExpError::OutOfRange));
}

#[test]
fn parse_exp_counts_from_now() {
    let before = Utc::now().timestamp() as usize;
    let exp = parse_exp("100d").unwrap();
    let after = Utc::now().timestamp() as usize;
    assert!(before + 8_640_000 <= exp);
    assert!(exp <= after + 8_640_000);
    assert_eq!(parse_exp("100x"), Err(ExpError::Duration(DurationError::InvalidUnit)));
}
