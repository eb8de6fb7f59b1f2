use displayconfig::brightness::{
    classify_brightness, validate_brightness_percent, BrightnessReading,
};
use displayconfig::error::CommandError;

#[test]
fn round_trip_every_percent() {
    // Setting any percentage and reading the fraction back yields the same
    // percentage.
    for p in 0..=100u32 {
        let milli = validate_brightness_percent(p).expect("in-range percent accepted");
        assert_eq!(milli, p * 10);
        let reading = classify_brightness(milli as i64);
        assert_eq!(reading, BrightnessReading::Percent(p));
    }
}

#[test]
fn over_range_percent_rejected() {
    assert_eq!(
        validate_brightness_percent(101),
        Err(CommandError::InvalidBrightnessRange)
    );
    assert_eq!(
        validate_brightness_percent(255),
        Err(CommandError::InvalidBrightnessRange)
    );
    assert_eq!(
        validate_brightness_percent(u32::MAX),
        Err(CommandError::InvalidBrightnessRange)
    );
}

#[test]
fn boundary_percents_accepted() {
    assert_eq!(validate_brightness_percent(0), Ok(0));
    assert_eq!(validate_brightness_percent(100), Ok(1000));
}

#[test]
fn out_of_range_reading_is_unsupported() {
    assert_eq!(classify_brightness(-1), BrightnessReading::Unsupported);
    assert_eq!(classify_brightness(1001), BrightnessReading::Unsupported);
    assert_eq!(
        classify_brightness(-1_000_000),
        BrightnessReading::Unsupported
    );
    assert_eq!(classify_brightness(i64::MAX), BrightnessReading::Unsupported);
}

#[test]
fn readings_round_to_nearest_percent() {
    assert_eq!(classify_brightness(0), BrightnessReading::Percent(0));
    assert_eq!(classify_brightness(250), BrightnessReading::Percent(25));
    assert_eq!(classify_brightness(254), BrightnessReading::Percent(25));
    assert_eq!(classify_brightness(255), BrightnessReading::Percent(26));
    assert_eq!(classify_brightness(999), BrightnessReading::Percent(100));
    assert_eq!(classify_brightness(1000), BrightnessReading::Percent(100));
}

#[test]
fn every_error_exits_one() {
    let errors = vec![
        CommandError::RequestedDisplayNotFound,
        CommandError::PersistentDisplayNotFound,
        CommandError::ModeNotFoundForDisplay,
        CommandError::ManagerUnavailable,
        CommandError::ModesUnavailableForDisplay,
        CommandError::InvalidBrightnessRange,
        CommandError::SetOperationFailed(7),
    ];
    for e in errors {
        assert_eq!(e.exit_code(), 1);
    }
}
