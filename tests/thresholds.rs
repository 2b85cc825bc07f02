use subgraph_check::check::validate_thresholds;
use subgraph_check::error::ValidationError;
use subgraph_check::period::ValidationPeriod;
use subgraph_check::threshold::{parse_query_count_threshold, parse_query_percentage_threshold};

#[test]
fn count_accepts_non_negative_values() {
    assert_eq!(parse_query_count_threshold("0"), Ok(0));
    assert_eq!(parse_query_count_threshold("100"), Ok(100));
    assert_eq!(parse_query_count_threshold("+7"), Ok(7));
    assert_eq!(parse_query_count_threshold("-0"), Ok(0));
    assert_eq!(
        parse_query_count_threshold("9223372036854775807"),
        Ok(9223372036854775807)
    );
}

#[test]
fn count_refuses_negative_values() {
    assert_eq!(parse_query_count_threshold("-1"), Err(ValidationError::NegativeCount));
    assert_eq!(parse_query_count_threshold("-250"), Err(ValidationError::NegativeCount));
    assert_eq!(
        parse_query_count_threshold("-99999999999999999999999"),
        Err(ValidationError::NegativeCount)
    );
}

#[test]
fn count_refuses_malformed_and_oversized_text() {
    assert_eq!(parse_query_count_threshold(""), Err(ValidationError::MalformedNumber));
    assert_eq!(parse_query_count_threshold("-"), Err(ValidationError::MalformedNumber));
    assert_eq!(parse_query_count_threshold("12a"), Err(ValidationError::MalformedNumber));
    assert_eq!(parse_query_count_threshold("1.5"), Err(ValidationError::MalformedNumber));
    assert_eq!(
        parse_query_count_threshold("9223372036854775808"),
        Err(ValidationError::CountTooLarge)
    );
    assert_eq!(
        parse_query_count_threshold("99999999999999999999999"),
        Err(ValidationError::CountTooLarge)
    );
}

#[test]
fn percentage_accepts_values_in_range_unchanged() {
    let p = parse_query_percentage_threshold("0").unwrap();
    assert_eq!(p.whole(), 0);
    assert_eq!(p.fraction().as_str(), "");
    let p = parse_query_percentage_threshold("100").unwrap();
    assert_eq!(p.whole(), 100);
    let p = parse_query_percentage_threshold("50.25").unwrap();
    assert_eq!(p.whole(), 50);
    assert_eq!(p.fraction().as_str(), "25");
    let p = parse_query_percentage_threshold("100.000").unwrap();
    assert_eq!(p.whole(), 100);
    assert_eq!(p.fraction().as_str(), "000");
    let p = parse_query_percentage_threshold("-0.0").unwrap();
    assert_eq!(p.whole(), 0);
    assert_eq!(p.fraction().as_str(), "0");
    let p = parse_query_percentage_threshold("007.5").unwrap();
    assert_eq!(p.whole(), 7);
    assert_eq!(p.fraction().as_str(), "5");
    let p = parse_query_percentage_threshold(".5").unwrap();
    assert_eq!(p.whole(), 0);
    assert_eq!(p.fraction().as_str(), "5");
    let p = parse_query_percentage_threshold("5.").unwrap();
    assert_eq!(p.whole(), 5);
    assert_eq!(p.fraction().as_str(), "");
    let p = parse_query_percentage_threshold("100.").unwrap();
    assert_eq!(p.whole(), 100);
}

#[test]
fn percentage_refuses_values_out_of_range() {
    for text in ["100.01", "101", "-1", "-0.5", "-.5", "100.5", "1000000000000000000000000"] {
        assert_eq!(
            parse_query_percentage_threshold(text).err(),
            Some(ValidationError::PercentageOutOfRange),
            "{}",
            text
        );
    }
}

#[test]
fn percentage_refuses_malformed_text() {
    for text in ["", "abc", ".", "-.", "1e1", "1.2.3", "5%", "-", " 5"] {
        assert_eq!(
            parse_query_percentage_threshold(text).err(),
            Some(ValidationError::MalformedNumber),
            "{}",
            text
        );
    }
}

#[test]
fn period_reads_weeks_days_and_hours() {
    assert_eq!(ValidationPeriod::parse("24h").unwrap().hours(), 24);
    assert_eq!(ValidationPeriod::parse("1w 2d 5h").unwrap().hours(), 221);
    assert_eq!(ValidationPeriod::parse("1w2d").unwrap().hours(), 216);
    assert_eq!(ValidationPeriod::parse("  3d ").unwrap().hours(), 72);
    assert_eq!(ValidationPeriod::parse("0h").unwrap().hours(), 0);
    assert_eq!(ValidationPeriod::parse("1w\t2d\n5h").unwrap().hours(), 221);
    assert_eq!(ValidationPeriod::parse("\r\n1d\x0C").unwrap().hours(), 24);
}

#[test]
fn period_round_trips_through_hours() {
    let first = ValidationPeriod::parse("1w 2d 5h").unwrap();
    let text = first.to_text();
    assert_eq!(text, "221h");
    let second = ValidationPeriod::parse(&text).unwrap();
    assert_eq!(second.hours(), first.hours());
    assert_eq!(ValidationPeriod::parse("0h").unwrap().to_text(), "0h");
    assert_eq!(ValidationPeriod::parse("2w").unwrap().to_text(), "336h");
}

#[test]
fn period_refuses_unknown_units_and_bad_shapes() {
    for text in ["5m", "30s", "1y", "", "   ", "h", "24", "2 d", "1w x"] {
        assert_eq!(
            ValidationPeriod::parse(text).err(),
            Some(ValidationError::MalformedPeriod),
            "{}",
            text
        );
    }
}

#[test]
fn period_refuses_windows_too_long() {
    assert_eq!(
        ValidationPeriod::parse("99999999999999999999h").err(),
        Some(ValidationError::PeriodTooLong)
    );
    assert_eq!(
        ValidationPeriod::parse("18446744073709551615h 1h").err(),
        Some(ValidationError::PeriodTooLong)
    );
    assert_eq!(
        ValidationPeriod::parse("18446744073709551615h").unwrap().hours(),
        18446744073709551615
    );
}

#[test]
fn thresholds_validate_together() {
    let c = validate_thresholds(Some("100"), None, None).unwrap();
    assert_eq!(c.query_count_threshold, Some(100));
    assert!(c.query_percentage_threshold.is_none());
    assert!(c.validation_period.is_none());
    let c = validate_thresholds(None, Some("12.5"), Some("1w")).unwrap();
    assert_eq!(c.query_count_threshold, None);
    assert_eq!(c.query_percentage_threshold.as_ref().unwrap().whole(), 12);
    assert_eq!(c.validation_period.unwrap().hours(), 168);
    let c = validate_thresholds(None, None, None).unwrap();
    assert!(c.query_count_threshold.is_none());
}

#[test]
fn thresholds_report_the_first_error() {
    assert_eq!(
        validate_thresholds(Some("-3"), Some("200"), Some("5m")).err(),
        Some(ValidationError::NegativeCount)
    );
    assert_eq!(
        validate_thresholds(Some("3"), Some("200"), Some("5m")).err(),
        Some(ValidationError::PercentageOutOfRange)
    );
    assert_eq!(
        validate_thresholds(Some("3"), Some("20"), Some("5m")).err(),
        Some(ValidationError::MalformedPeriod)
    );
}

#[test]
fn percentage_round_trips_through_its_text() {
    for (text, canonical) in [("50.25", "50.25"), ("007.5", "7.5"), ("100", "100"), ("0", "0"), ("-0.0", "0.0"), (".25", "0.25"), ("5.", "5")] {
        let p = parse_query_percentage_threshold(text).unwrap();
        assert_eq!(p.to_text(), canonical);
        let q = parse_query_percentage_threshold(&p.to_text()).unwrap();
        assert_eq!(q.whole(), p.whole());
        assert_eq!(q.fraction(), p.fraction());
    }
}
