use dz_publisher_runtime::duration::{parse_duration, Duration};

#[test]
fn the_units_convert_as_the_ingress_crate_spells_them() {
    assert_eq!(parse_duration("500ms"), Ok(Duration::from_millis(500)));
    assert_eq!(parse_duration("30s"), Ok(Duration::from_secs(30)));
    assert_eq!(parse_duration("2m"), Ok(Duration::from_secs(120)));
    assert_eq!(parse_duration("1h"), Ok(Duration::from_secs(3_600)));
    assert_eq!(parse_duration("250us"), Ok(Duration::from_micros(250)));
    assert_eq!(parse_duration("40ns"), Ok(Duration::from_nanos(40)));
}

#[test]
fn a_bare_number_is_refused_rather_than_guessed_at() {
    let error = parse_duration("60").expect_err("a bare number has no unit");
    assert!(error.contains("no unit"), "{error}");
}

#[test]
fn every_unit_the_error_message_offers_is_a_unit_the_parser_takes() {
    for unit in ["ns", "us", "ms", "s", "m", "h"] {
        assert!(
            parse_duration(&format!("1{unit}")).is_ok(),
            "`1{unit}` was offered by the error message and refused"
        );
    }
}

#[test]
fn what_is_not_a_duration_is_refused() {
    for raw in ["", "s", "-1s", "1.5s", "1 s", "1d", "99999999999999999999s", "18446744073709551615h"] {
        assert!(parse_duration(raw).is_err(), "{raw:?} was read as a duration");
    }
}

#[test]
fn a_written_duration_is_read_back() {
    for (raw, nanos) in [("7ns", 7u128), ("0s", 0), ("3h", 10_800_000_000_000)] {
        let read = parse_duration(raw).expect("a whole number and a unit");
        assert_eq!(read.as_nanos(), nanos);
    }
}

#[test]
fn a_duration_is_shown_as_the_standard_library_shows_it() {
    assert_eq!(Duration::from_millis(10).shown_text(), "10ms");
    assert_eq!(Duration::from_secs(5).shown_text(), "5s");
    assert_eq!(Duration::from_millis(1_500).shown_text(), "1.5s");
    assert_eq!(Duration::from_nanos(0).shown_text(), "0ns");
}

#[test]
fn a_duration_is_divided_and_clamped() {
    assert_eq!(Duration::from_secs(5).divided(3).as_nanos(), 1_666_666_666);
    assert_eq!(Duration::from_secs(u64::MAX).as_nanos_clamped(), u64::MAX);
    assert_eq!(Duration::from_secs(1).as_nanos_clamped(), 1_000_000_000);
    assert!(Duration::from_nanos(0).is_zero());
    assert_eq!(
        Duration::from_secs(1).longer_of(Duration::from_secs(2)),
        Duration::from_secs(2)
    );
}
