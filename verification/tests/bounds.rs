//! Construction bounds: round trips inside the capacity, rejection beyond it.

use microstring::{MicroString, MilliString, NanoString};

#[test]
fn nano_round_trip_within_bound() {
    for t in ["", "a", "ab", "abc", "x1z", "\u{20AC}"] {
        let v = NanoString::new(t).expect("within bound");
        assert_eq!(v.as_str(), t);
        assert_eq!(v.as_bytes(), t.as_bytes());
        assert_eq!(v.len(), t.len());
    }
}

#[test]
fn nano_boundary() {
    assert!(NanoString::new("abc").is_some());
    assert!(NanoString::new("abcd").is_none());
    // a multi-byte character straddling the bound
    assert!(NanoString::new("\u{20AC}").is_some()); // 3 bytes
    assert!(NanoString::new("\u{1D11E}").is_none()); // 4 bytes
}

#[test]
fn micro_boundary() {
    let v = MicroString::new("1234567").expect("7 bytes fit");
    assert_eq!(v.as_str(), "1234567");
    assert!(MicroString::new("12345678").is_none());
}

#[test]
fn milli_boundary() {
    let v = MilliString::new("123456789012345").expect("15 bytes fit");
    assert_eq!(v.as_str(), "123456789012345");
    assert_eq!(v.len(), 15);
    assert!(MilliString::new("1234567890123456").is_none());
}

#[test]
fn try_from_str_reports_error() {
    let e = NanoString::try_from_str("GEEBEEPEE").unwrap_err();
    assert_eq!(e.message(), "expected a string of at most 3 bytes");
    assert!(NanoString::try_from_str("GBP").is_ok());
    let e7 = MicroString::try_from_str("12345678").unwrap_err();
    assert_eq!(e7.message(), "expected a string of at most 7 bytes");
    let e15 = MilliString::try_from_str("1234567890123456").unwrap_err();
    assert_eq!(e15.message(), "expected a string of at most 15 bytes");
}

#[test]
fn currency_scenario() {
    let gbp = NanoString::new("GBP").expect("three ASCII bytes fit");
    assert_eq!(gbp.as_str(), "GBP");
    assert!(NanoString::new("GEEBEEPEE").is_none());
    let empty = NanoString::new("").expect("empty always fits");
    assert_eq!(empty, NanoString::empty());
}

#[test]
fn never_truncates() {
    // an over-long input must fail closed, not come back shortened
    assert!(NanoString::new("abcd").is_none());
    assert!(MicroString::new("abcdefgh").is_none());
    assert!(MilliString::new("abcdefghijklmnop").is_none());
}
