//! The request counter: starts at zero, counts one per recorded request, and
//! can be handed to the exposition registry.

use gateway::metrics::RequestMetric;

#[test]
fn fresh_counter_starts_at_zero() {
    let m = RequestMetric::new("fresh_counter", "a fresh counter").unwrap();
    assert_eq!(m.current(), 0);
}

#[test]
fn each_recorded_request_adds_one() {
    let mut m = RequestMetric::new("adding_counter", "counts up").unwrap();
    m.record_request();
    assert_eq!(m.current(), 1);
    m.record_request();
    m.record_request();
    assert_eq!(m.current(), 3);
}

#[test]
fn empty_name_is_refused() {
    assert!(RequestMetric::new("", "no name").is_err());
}

#[test]
fn empty_help_is_refused() {
    assert!(RequestMetric::new("fine_name", "").is_err());
}

#[test]
fn valid_names_are_accepted() {
    assert!(RequestMetric::new("ns:counter_2", "colon, underscore, digit").is_ok());
    assert!(RequestMetric::new("_leading_underscore", "ok").is_ok());
}

#[test]
fn name_with_leading_digit_is_refused() {
    assert!(RequestMetric::new("9requests", "bad first character").is_err());
}

#[test]
fn counter_can_be_exposed_once() {
    let m = RequestMetric::new("exposed_counter", "registered for scraping").unwrap();
    assert!(m.expose().is_ok());
    // The registry refuses a second collector under the same name.
    let again = RequestMetric::new("exposed_counter", "registered for scraping").unwrap();
    assert!(again.expose().is_err());
}
