//! Positions in a video.

use std::cmp::Ordering;

use video_sync::double::Double;
use video_sync::text::{is_white, trim};
use video_sync::time::Time;

fn double(x: f64) -> Double {
    Double::from_bits(x.to_bits())
}

fn at(seconds: f64) -> Time {
    Time::from_seconds(double(seconds))
}

#[test]
fn time_keeps_its_seconds() {
    assert_eq!(at(12.75).as_seconds().to_bits(), 12.75f64.to_bits());
    assert_eq!(Time::zero().as_seconds().to_bits(), 0.0f64.to_bits());
}

#[test]
fn times_are_ordered() {
    assert_eq!(at(1.0).cmp(&at(2.0)), Ordering::Less);
    assert_eq!(at(2.0).cmp(&at(1.0)), Ordering::Greater);
    assert_eq!(at(-0.0).cmp(&at(0.0)), Ordering::Equal);
    assert!(at(1.5) == at(1.5));
    assert!(at(1.5) != at(1.25));
    assert!(at(-3.0) < at(2.0));
    assert_eq!(at(2.0).partial_cmp(&at(-3.0)), Some(Ordering::Greater));
    assert_eq!(at(0.0).partial_cmp(&at(-0.0)), Some(Ordering::Equal));
}

#[test]
fn times_are_subtracted() {
    let difference = at(10.3) - at(0.1);
    assert_eq!(difference.to_bits(), (10.3f64 - 0.1f64).to_bits());
}

#[test]
fn time_is_shown_as_a_clock() {
    assert_eq!(at(0.0).to_string(), "00:00:00");
    assert_eq!(at(59.999).to_string(), "00:00:59");
    assert_eq!(at(61.0).to_string(), "00:01:01");
    assert_eq!(at(3661.5).to_string(), "01:01:01");
    assert_eq!(at(-4.0).to_string(), "00:00:00");
    // Hours start again after sixty.
    assert_eq!(at(60.0 * 3600.0).to_string(), "00:00:00");
    assert_eq!(at(1e10).to_string(), "06:28:15");
}

#[test]
fn clock_tells_seconds_apart() {
    let mut seen = std::collections::HashSet::new();
    for total in (0..60 * 3600).step_by(7) {
        assert!(seen.insert(at(total as f64).to_string()));
    }
}

#[test]
fn white_space_is_unicode_white_space() {
    for n in 0..=0x10FFFFu32 {
        if let Some(c) = char::from_u32(n) {
            assert_eq!(is_white(c), c.is_whitespace(), "{:x}", n);
        }
    }
}

#[test]
fn text_is_trimmed() {
    for s in ["", " ", "\n", "a", " a\n", "a b", "\u{2003}\t a b \r\n", "\u{85}x", "ä "] {
        assert_eq!(trim(s), s.trim());
    }
}
