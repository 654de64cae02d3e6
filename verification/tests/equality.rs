//! Equality, hashing, ordering and the default value.

use std::cmp::Ordering;
use std::collections::hash_map::DefaultHasher;
use std::hash::{Hash, Hasher};

use microstring::{MicroString, MilliString, NanoString};

fn hash_of<T: Hash>(t: &T) -> u64 {
    let mut h = DefaultHasher::new();
    t.hash(&mut h);
    h.finish()
}

#[test]
fn equal_text_means_equal_values() {
    // the same text through different constructor paths
    let a = NanoString::new("hi").unwrap();
    let b = NanoString::try_from_str("hi").unwrap();
    let c = NanoString::from_raw(2, [b'h', b'i', 0]).unwrap();
    assert_eq!(a, b);
    assert_eq!(a, c);
    assert_eq!(hash_of(&a), hash_of(&b));
    assert_eq!(hash_of(&a), hash_of(&c));
}

#[test]
fn padding_never_takes_part() {
    // a raw buffer with nonzero padding still equals the plainly built value
    let raw = NanoString::from_raw(2, [b'h', b'i', 0xFF]).unwrap();
    let plain = NanoString::new("hi").unwrap();
    assert_eq!(raw, plain);
    assert_eq!(hash_of(&raw), hash_of(&plain));
    assert_eq!(raw.as_str(), "hi");
}

#[test]
fn unequal_text_means_unequal_values() {
    let a = NanoString::new("hi").unwrap();
    let b = NanoString::new("ho").unwrap();
    let c = NanoString::new("h").unwrap();
    assert_ne!(a, b);
    assert_ne!(a, c);
}

#[test]
fn default_is_empty() {
    let d = NanoString::default();
    assert_eq!(d.len(), 0);
    assert!(d.is_empty());
    assert_eq!(d.as_str(), "");
    assert_eq!(d, NanoString::empty());
    assert_eq!(d, NanoString::new("").unwrap());
    assert_eq!(MicroString::default(), MicroString::empty());
    assert_eq!(MilliString::default(), MilliString::empty());
}

#[test]
fn ordering_matches_text_ordering() {
    let cases = [
        ("a", "b"),
        ("b", "a"),
        ("ab", "ab"),
        ("ab", "b"),
        ("a", "ab"),
        ("abc", "ab"),
        ("", "a"),
        ("", ""),
        ("\u{20AC}", "z"),
    ];
    for (t1, t2) in cases {
        let v1 = NanoString::new(t1).unwrap();
        let v2 = NanoString::new(t2).unwrap();
        assert_eq!(
            v1.partial_cmp(&v2),
            t1.partial_cmp(t2),
            "ordering of {t1:?} and {t2:?}"
        );
    }
}

#[test]
fn ordering_operators() {
    let a = NanoString::new("a").unwrap();
    let ab = NanoString::new("ab").unwrap();
    let b = NanoString::new("b").unwrap();
    assert!(a < ab);
    assert!(ab < b);
    assert!(a < b);
    assert!(b > a);
    assert!(a <= a && a >= a);
    assert_eq!(a.partial_cmp(&a), Some(Ordering::Equal));
}

#[test]
fn copy_semantics() {
    let a = NanoString::new("abc").unwrap();
    let b = a; // plain Copy, no ownership transfer
    assert_eq!(a, b);
    assert_eq!(b.as_str(), "abc");
}
