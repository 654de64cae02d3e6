//! The absence niche and the raw reconstruction boundary.

use std::mem::size_of;

use microstring::{
    MicroString, MicroStringLen, MilliString, MilliStringLen, NanoString, NanoStringLen,
};

#[test]
fn option_costs_nothing_extra() {
    // the unused discriminant values give Option a niche
    assert_eq!(size_of::<Option<NanoString>>(), size_of::<NanoString>());
    assert_eq!(size_of::<Option<MicroString>>(), size_of::<MicroString>());
    assert_eq!(size_of::<Option<MilliString>>(), size_of::<MilliString>());
}

#[test]
fn from_raw_validates_length() {
    assert!(NanoString::from_raw(0, [0; 3]).is_some());
    assert!(NanoString::from_raw(3, [b'a', b'b', b'c']).is_some());
    assert!(NanoString::from_raw(4, [b'a', b'b', b'c']).is_none());
    assert!(NanoString::from_raw(255, [0; 3]).is_none());
    assert!(MicroString::from_raw(8, [0; 7]).is_none());
    assert!(MilliString::from_raw(16, [0; 15]).is_none());
}

#[test]
fn from_raw_validates_utf8() {
    // a lone continuation byte is not valid UTF-8
    assert!(NanoString::from_raw(1, [0x80, 0, 0]).is_none());
    // a truncated two-byte encoding
    assert!(NanoString::from_raw(1, [0xC3, 0xA9, 0]).is_none());
    // the full two-byte encoding is accepted
    let v = NanoString::from_raw(2, [0xC3, 0xA9, 0]).unwrap();
    assert_eq!(v.as_str(), "\u{E9}");
    // bytes past the recorded length are not inspected for validity
    assert!(NanoString::from_raw(1, [b'a', 0x80, 0xFF]).is_some());
}

#[test]
fn length_discriminant_is_checked() {
    assert!(NanoStringLen::from_u8(3).is_some());
    assert!(NanoStringLen::from_u8(4).is_none());
    assert_eq!(NanoStringLen::from_u8(2).unwrap().as_usize(), 2);
    assert!(NanoStringLen::from_usize(3).is_some());
    assert!(NanoStringLen::from_usize(4).is_none());
    assert!(NanoStringLen::from_usize(usize::MAX).is_none());

    assert!(MicroStringLen::from_u8(7).is_some());
    assert!(MicroStringLen::from_u8(8).is_none());
    assert_eq!(MicroStringLen::from_usize(7).unwrap().as_usize(), 7);

    assert!(MilliStringLen::from_u8(15).is_some());
    assert!(MilliStringLen::from_u8(16).is_none());
    assert_eq!(MilliStringLen::from_usize(15).unwrap().as_usize(), 15);
}
