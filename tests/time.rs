use std::time::Duration;

use petri::time::FormattedUptime;

#[test]
fn test_format() {
    assert!(FormattedUptime::new(Duration::from_secs(0).as_secs()).is_just_now());
    assert_eq!(
        FormattedUptime::new(Duration::from_secs(0).as_secs()).to_string(),
        "0 seconds"
    );

    assert!(!FormattedUptime::new(Duration::from_secs(1).as_secs()).is_just_now());
    assert_eq!(
        FormattedUptime::new(Duration::from_secs(1).as_secs()).to_string(),
        "1 second"
    );

    assert_eq!(
        FormattedUptime::new(Duration::from_secs(6).as_secs()).to_string(),
        "6 seconds"
    );

    assert_eq!(
        FormattedUptime::new(Duration::from_secs(80).as_secs()).to_string(),
        "1 minute"
    );

    assert_eq!(
        FormattedUptime::new(Duration::from_secs(10800).as_secs()).to_string(),
        "3 hours"
    );

    assert_eq!(
        FormattedUptime::new(Duration::from_secs(604_800).as_secs()).to_string(),
        "7 days"
    );
}

#[test]
fn uptime_unit_boundaries() {
    assert_eq!(FormattedUptime::new(59).to_string(), "59 seconds");
    assert_eq!(FormattedUptime::new(60).to_string(), "1 minute");
    assert_eq!(FormattedUptime::new(3599).to_string(), "59 minutes");
    assert_eq!(FormattedUptime::new(3600).to_string(), "1 hour");
    assert_eq!(FormattedUptime::new(86399).to_string(), "23 hours");
    assert_eq!(FormattedUptime::new(86400).to_string(), "1 day");
    assert_eq!(FormattedUptime::new(u64::MAX).to_string(), "213503982334601 days");
}
