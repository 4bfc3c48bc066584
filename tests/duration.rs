use mpd_codec::duration_iso_8601::{
    deserialize, serialize, Duration, DurationFault, Iso8601, Iso8601Error,
};

fn parse_err(s: &str) -> Iso8601Error {
    Iso8601::parse_str(s).unwrap_err()
}

#[test]
fn should_parse_string_to_duration() {
    assert_eq!(
        Iso8601::parse_str("P20DT10H45M5.76S").unwrap(),
        Duration::milliseconds(1766705760)
    );
    assert_eq!(
        Iso8601::parse_str("PT10H45M5S").unwrap(),
        Duration::milliseconds(38705000)
    );
    assert_eq!(
        Iso8601::parse_str("P20W").unwrap(),
        Duration::milliseconds(12096000000)
    );
    assert_eq!(
        Iso8601::parse_str("PT43.56S").unwrap(),
        Duration::milliseconds(43560)
    );
    assert_eq!(
        Iso8601::parse_str("PT43.564S").unwrap(),
        Duration::milliseconds(43564)
    );
}

#[test]
fn should_convert_duration_to_string() {
    assert_eq!(
        Iso8601::to_string(Duration::milliseconds(1766705760)),
        "P2W6DT10H45M5.76S"
    );
    assert_eq!(
        Iso8601::to_string(Duration::milliseconds(38705000)),
        "PT10H45M5S"
    );
    assert_eq!(
        Iso8601::to_string(Duration::milliseconds(12096000000)),
        "P20W"
    );
    assert_eq!(
        Iso8601::to_string(Duration::milliseconds(43560)),
        "PT43.56S"
    );
    assert_eq!(
        Iso8601::to_string(Duration::milliseconds(43564)),
        "PT43.564S"
    );
}

#[test]
fn should_fail_to_parse_invalid_format() {
    assert_eq!(
        parse_err("20DT10H45M5.76S").to_string(),
        "Invalid ISO_8601 Duration: should start with Period indicator (P) > 20DT10H45M5.76S"
    );

    assert_eq!(
        parse_err("P20DT10TH45M5.76S").to_string(),
        "Invalid ISO_8601 Duration: should not have double Time indicator (T) > P20DT10TH45M5.76S"
    );
}

#[test]
fn should_fail_to_parse_invalide_number_in_iso8601_string() {
    assert_eq!(
        parse_err("P34..D").to_string(),
        "Invalid ISO_8601 Duration: days number invalid > P34..D"
    );
    assert_eq!(
        parse_err("P34..W").to_string(),
        "Invalid ISO_8601 Duration: weeks number invalid > P34..W"
    );
    assert_eq!(
        parse_err("PT5..76H").to_string(),
        "Invalid ISO_8601 Duration: hours number invalid > PT5..76H"
    );
    assert_eq!(
        parse_err("PT5..76M").to_string(),
        "Invalid ISO_8601 Duration: minutes number invalid > PT5..76M"
    );
    assert_eq!(
        parse_err("PT5..76S").to_string(),
        "Invalid ISO_8601 Duration: seconds number invalid > PT5..76S"
    );
}

#[test]
fn should_fail_to_parse_valid_token_in_the_wrong_zone_in_iso8601_string() {
    assert_eq!(
        parse_err("P20S").to_string(),
        "Invalid ISO_8601 Duration: S is not available in Period zone > P20S"
    );
    assert_eq!(
        parse_err("P20H").to_string(),
        "Invalid ISO_8601 Duration: H is not available in Period zone > P20H"
    );
    assert_eq!(
        parse_err("PT20Y").to_string(),
        "Invalid ISO_8601 Duration: Y is not available in Time zone > PT20Y"
    );
    assert_eq!(
        parse_err("PT20W").to_string(),
        "Invalid ISO_8601 Duration: W is not available in Time zone > PT20W"
    );
    assert_eq!(
        parse_err("PT20D").to_string(),
        "Invalid ISO_8601 Duration: D is not available in Time zone > PT20D"
    );
}

#[test]
fn should_fail_to_parse_month_and_year_not_implemented() {
    assert_eq!(
        parse_err("P20M").to_string(),
        "Not Implemented ISO_8601 Duration: Month (M) > P20M"
    );
    assert_eq!(
        parse_err("P20Y").to_string(),
        "Not Implemented ISO_8601 Duration: Year (Y) > P20Y"
    );
}

#[test]
fn should_fail_to_parse_invalid_token() {
    assert_eq!(
        parse_err("P20s").to_string(),
        "Invalid ISO_8601 Duration: s is not a token available > P20s"
    );
    assert_eq!(
        parse_err("P20X").to_string(),
        "Invalid ISO_8601 Duration: X is not a token available > P20X"
    );
    assert_eq!(
        parse_err("P20@").to_string(),
        "Invalid ISO_8601 Duration: @ is not a token available > P20@"
    );
}

#[test]
fn error_kinds_of_refused_durations() {
    assert_eq!(parse_err("20DT10H45M5.76S").kind, DurationFault::MissingLeadMarker);
    assert_eq!(parse_err("").kind, DurationFault::MissingLeadMarker);
    assert_eq!(parse_err("P20DT10TH45M5.76S").kind, DurationFault::DuplicateTimeMarker);
    assert_eq!(
        parse_err("P20S").kind,
        DurationFault::WrongZone { token: 'S', in_time_section: false }
    );
    assert_eq!(
        parse_err("PT20Y").kind,
        DurationFault::WrongZone { token: 'Y', in_time_section: true }
    );
    assert_eq!(parse_err("P20M").kind, DurationFault::UnsupportedUnit { unit: 'M' });
    assert_eq!(parse_err("P20Y").kind, DurationFault::UnsupportedUnit { unit: 'Y' });
    assert_eq!(parse_err("P20X").kind, DurationFault::UnknownToken { token: 'X' });
    assert_eq!(parse_err("PW").kind, DurationFault::NumberFormat { unit: 'W' });
    assert_eq!(parse_err("PT.S").kind, DurationFault::NumberFormat { unit: 'S' });
    assert_eq!(parse_err("P20X").input, "P20X");
}

#[test]
fn numbers_with_a_bare_point_are_read() {
    assert_eq!(Iso8601::parse_str("PT5.S").unwrap().num_milliseconds(), 5000);
    assert_eq!(Iso8601::parse_str("PT.5S").unwrap().num_milliseconds(), 500);
    assert_eq!(Iso8601::parse_str("PT0.5H").unwrap().num_milliseconds(), 1800000);
    assert_eq!(Iso8601::parse_str("P1.5D").unwrap().num_milliseconds(), 129600000);
}

#[test]
fn sub_millisecond_digits_are_dropped() {
    assert_eq!(Iso8601::parse_str("PT0.0009S").unwrap().num_milliseconds(), 0);
    assert_eq!(Iso8601::parse_str("PT1.9999S").unwrap().num_milliseconds(), 1999);
    assert_eq!(Iso8601::parse_str("PT4.35S").unwrap().num_milliseconds(), 4350);
}

#[test]
fn fractions_of_units_add_up_before_truncation() {
    assert_eq!(Iso8601::parse_str("PT0.0005S0.0005S").unwrap().num_milliseconds(), 1);
    assert_eq!(Iso8601::parse_str("PT0.9995S0.0005S").unwrap().num_milliseconds(), 1000);
    assert_eq!(Iso8601::parse_str("PT0.00000025H0.00000025H").unwrap().num_milliseconds(), 1);
    assert_eq!(Iso8601::parse_str("PT0.0004S0.0005S").unwrap().num_milliseconds(), 0);
    assert_eq!(
        Iso8601::parse_str("P0.00000001DT0.0001S").unwrap().num_milliseconds(),
        0
    );
    assert_eq!(
        Iso8601::parse_str("P0.00000001DT0.0002S").unwrap().num_milliseconds(),
        1
    );
}

#[test]
fn repeated_units_add_up() {
    assert_eq!(Iso8601::parse_str("PT1S2S").unwrap().num_milliseconds(), 3000);
    assert_eq!(Iso8601::parse_str("P1D1W").unwrap().num_milliseconds(), 86400000 + 604800000);
}

#[test]
fn empty_and_bare_marker() {
    assert_eq!(Iso8601::parse_str("P").unwrap().num_milliseconds(), 0);
    assert_eq!(Iso8601::parse_str("PT").unwrap().num_milliseconds(), 0);
    assert_eq!(Iso8601::to_string(Duration::milliseconds(0)), "P");
    assert_eq!(Iso8601::to_string(Duration::milliseconds(-5)), "P");
}

#[test]
fn huge_durations_saturate() {
    assert_eq!(
        Iso8601::parse_str("P99999999999999999999999W").unwrap().num_milliseconds(),
        i64::MAX
    );
    assert_eq!(
        Iso8601::parse_str("P15250284452W4D").unwrap().num_milliseconds(),
        i64::MAX
    );
}

#[test]
fn seconds_keep_their_leading_and_inner_zeros() {
    assert_eq!(Iso8601::to_string(Duration::milliseconds(10000)), "PT10S");
    assert_eq!(Iso8601::to_string(Duration::milliseconds(500)), "PT0.5S");
    assert_eq!(Iso8601::to_string(Duration::milliseconds(1005)), "PT1.005S");
    assert_eq!(Iso8601::to_string(Duration::milliseconds(1050)), "PT1.05S");
    assert_eq!(Iso8601::to_string(Duration::milliseconds(86400000)), "P1D");
    assert_eq!(Iso8601::to_string(Duration::milliseconds(3600000)), "PT1H");
    assert_eq!(Iso8601::to_string(Duration::milliseconds(60000)), "PT1M");
}

#[test]
fn formatted_durations_read_back() {
    for ms in [0i64, 1, 999, 1000, 43564, 38705000, 1766705760, 12096000000, i64::MAX] {
        let text = Iso8601::to_string(Duration::milliseconds(ms));
        assert_eq!(Iso8601::parse_str(&text).unwrap().num_milliseconds(), ms);
    }
}

#[test]
fn optional_duration_fields() {
    assert_eq!(deserialize("").unwrap(), None);
    assert_eq!(deserialize("PT5S").unwrap(), Some(Duration::milliseconds(5000)));
    assert!(deserialize("5S").is_err());
    assert_eq!(serialize(&None), None);
    assert_eq!(serialize(&Some(Duration::milliseconds(5000))), Some("PT5S".to_string()));
}
