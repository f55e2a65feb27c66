use cute_rat::config::{Period, TimeUnit};

#[test]
fn test_period_to_duration_seconds() {
    let period = Period::new(1, TimeUnit::Seconds);
    let duration = period.to_duration();

    assert_eq!(duration.as_secs(), 1);
}

#[test]
fn test_period_to_duration_minutes() {
    let period = Period::new(1, TimeUnit::Minutes);
    let duration = period.to_duration();

    assert_eq!(duration.as_secs(), 60);
}

#[test]
fn test_period_to_duration_hours() {
    let period = Period::new(1, TimeUnit::Hours);
    let duration = period.to_duration();

    assert_eq!(duration.as_secs(), 60 * 60);
}

#[test]
fn test_period_to_duration_days() {
    let period = Period::new(1, TimeUnit::Days);
    let duration = period.to_duration();

    assert_eq!(duration.as_secs(), 60 * 60 * 24);
}

#[test]
fn test_period_to_duration_millis() {
    let period = Period::new(1500, TimeUnit::Milliseconds);
    let duration = period.to_duration();

    assert_eq!(duration.as_secs(), 1);
    assert_eq!(duration.subsec_millis(), 500);
}
