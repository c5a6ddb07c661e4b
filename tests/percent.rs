use molotilka::percent::{Percent, PercentError};

#[test]
fn add_saturates_at_hundred() {
    assert_eq!(Percent(60).add(Percent(30)), Percent(90));
    assert_eq!(Percent(60).add(Percent(50)), Percent(100));
    assert_eq!(Percent(100).add(Percent(100)), Percent(100));
}

#[test]
fn sub_saturates_at_zero() {
    assert_eq!(Percent(60).sub(Percent(20)), Percent(40));
    assert_eq!(Percent(10).sub(Percent(20)), Percent(0));
    assert_eq!(Percent(0).sub(Percent(100)), Percent(0));
}

#[test]
fn add_then_sub_never_exceeds_start() {
    for a in 0..=100u8 {
        for b in 0..=100u8 {
            let back = Percent(a).add(Percent(b)).sub(Percent(b));
            assert!(back.0 <= a);
            assert!(Percent(a).add(Percent(b)).0 <= 100);
        }
    }
    assert_eq!(Percent(70).add(Percent(50)).sub(Percent(50)), Percent(50));
}

#[test]
fn format_renders_value_and_sign() {
    assert_eq!(Percent(0).to_string(), "0%");
    assert_eq!(Percent(7).to_string(), "7%");
    assert_eq!(Percent(42).to_string(), "42%");
    assert_eq!(Percent(100).to_string(), "100%");
}

#[test]
fn format_then_parse_round_trips() {
    for v in 0..=100u8 {
        let text = Percent(v).to_string();
        assert_eq!(Percent::valid(&text), Ok(Percent(v)));
        if v > 0 {
            assert_eq!(Percent::strictly_positive(&text), Ok(Percent(v)));
        }
    }
}

#[test]
fn parse_accepts_with_or_without_sign() {
    assert_eq!(Percent::valid("50"), Ok(Percent(50)));
    assert_eq!(Percent::valid("50%"), Ok(Percent(50)));
    assert_eq!(Percent::valid("50%%"), Ok(Percent(50)));
    assert_eq!(Percent::valid("+7"), Ok(Percent(7)));
    assert_eq!(Percent::valid("007"), Ok(Percent(7)));
    assert_eq!(Percent::valid("0"), Ok(Percent(0)));
    assert_eq!(Percent::valid("100%"), Ok(Percent(100)));
}

#[test]
fn parse_rejects_non_numbers() {
    assert_eq!(Percent::valid(""), Err(PercentError::InvalidFormat));
    assert_eq!(Percent::valid("%"), Err(PercentError::InvalidFormat));
    assert_eq!(Percent::valid("+"), Err(PercentError::InvalidFormat));
    assert_eq!(Percent::valid("abc"), Err(PercentError::InvalidFormat));
    assert_eq!(Percent::valid("-5"), Err(PercentError::InvalidFormat));
    assert_eq!(Percent::valid("5 %"), Err(PercentError::InvalidFormat));
    assert_eq!(Percent::valid("%5"), Err(PercentError::InvalidFormat));
    assert_eq!(Percent::strictly_positive("x"), Err(PercentError::InvalidFormat));
}

#[test]
fn parse_rejects_out_of_range() {
    assert_eq!(Percent::valid("101"), Err(PercentError::OutOfRange));
    assert_eq!(Percent::valid("255"), Err(PercentError::OutOfRange));
    assert_eq!(Percent::valid("300"), Err(PercentError::OutOfRange));
    assert_eq!(Percent::valid("99999999999999999999"), Err(PercentError::OutOfRange));
    assert_eq!(Percent::strictly_positive("0"), Err(PercentError::OutOfRange));
    assert_eq!(Percent::strictly_positive("0%"), Err(PercentError::OutOfRange));
    assert_eq!(Percent::strictly_positive("101%"), Err(PercentError::OutOfRange));
    assert_eq!(Percent::strictly_positive("1"), Ok(Percent(1)));
    assert_eq!(Percent::strictly_positive("100"), Ok(Percent(100)));
}

#[test]
fn whole_number_reading() {
    assert_eq!(Percent::u8_representation("255"), Ok(255));
    assert_eq!(Percent::u8_representation("256"), Err(PercentError::OutOfRange));
    assert_eq!(Percent::u8_representation("12%"), Ok(12));
    assert_eq!(Percent::u8_representation("1.5"), Err(PercentError::InvalidFormat));
}

#[test]
fn from_whole_clamps() {
    assert_eq!(Percent::from_whole(-20), Percent(0));
    assert_eq!(Percent::from_whole(0), Percent(0));
    assert_eq!(Percent::from_whole(37), Percent(37));
    assert_eq!(Percent::from_whole(100), Percent(100));
    assert_eq!(Percent::from_whole(250), Percent(100));
    assert_eq!(Percent::from_whole(i64::MIN), Percent(0));
    assert_eq!(Percent::from_whole(i64::MAX), Percent(100));
}
