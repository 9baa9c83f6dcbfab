use database_receiver::double::Double;
use database_receiver::names::{precedes, NameMap};
use database_receiver::polling::{CatchUpConfig, CompositeCursor};
use database_receiver::progress::CheckpointState;
use database_receiver::time::{Duration, Instant};
use database_receiver::units::byte_size;

/// Scenario: single-precision values of every class are widened.
/// Guarantees: the double has the same value, with infinities and NaN recognised as no numbers.
#[test]
fn widening_keeps_the_value() {
    for value in [
        0.0f32,
        -0.0,
        1.5,
        -3.25,
        f32::MIN_POSITIVE,
        f32::from_bits(1),
        f32::from_bits(0x007f_ffff),
        f32::MAX,
        f32::INFINITY,
        f32::NEG_INFINITY,
    ] {
        let widened = Double::widen(value.to_bits());
        assert_eq!(widened.bits, f64::from(value).to_bits(), "{value}");
        assert_eq!(widened.is_finite(), value.is_finite());
    }
    assert!(f64::from_bits(Double::widen(f32::NAN.to_bits()).bits).is_nan());
    assert!(!Double::widen(f32::NAN.to_bits()).is_finite());
}

/// Scenario: names are inserted out of order and one of them twice.
/// Guarantees: entries are walked in ascending order and the last value of a name stays.
#[test]
fn names_are_kept_in_order() {
    let mut map = NameMap::new();
    map.insert("b".to_string(), 1);
    map.insert("a".to_string(), 2);
    map.insert("b".to_string(), 3);
    assert_eq!(map.len(), 2);
    assert_eq!(map.name(0), "a");
    assert_eq!(map.get("b"), Some(&3));
    assert_eq!(map.find("c"), None);
    assert_eq!(
        map.into_entries(),
        vec![("a".to_string(), 2), ("b".to_string(), 3)]
    );
    assert!(precedes("", "a"));
    assert!(precedes("ab", "b"));
    assert!(!precedes("b", "b"));
}

/// Scenario: spans are at their limits.
/// Guarantees: arithmetic saturates and conversions round down.
#[test]
fn spans_saturate() {
    let longest = Duration::new(u64::MAX, 999_999_999);
    assert_eq!(longest.saturating_add(Duration::from_secs(1)), longest);
    assert_eq!(longest.saturating_mul(3), longest);
    assert_eq!(
        Duration::from_secs(1).saturating_sub(Duration::from_secs(2)),
        Duration::zero()
    );
    assert_eq!(longest.capped_nanos(), u64::MAX);
    let span = Duration::from_millis(1_500);
    assert_eq!((span.as_secs(), span.subsec_nanos()), (1, 500_000_000));
    assert_eq!(span.half(), Duration::from_millis(750));
    assert_eq!(span.as_millis(), 1_500);
    assert!(span.min(Duration::from_secs(1)).at_most(&Duration::from_secs(1)));
    let reading = Instant { nanos: 5 };
    assert_eq!(reading.later(Duration::from_nanos(7)).nanos, 12);
    assert!(reading.at_most(&Instant { nanos: 5 }));
}

/// Scenario: sizes are written with and without a unit.
/// Guarantees: binary units scale exactly and anything else is no size.
#[test]
fn sizes_are_read_exactly() {
    assert_eq!(byte_size("10 MiB"), Some(10 * 1024 * 1024));
    assert_eq!(byte_size("8MiB"), Some(8 * 1024 * 1024));
    assert_eq!(byte_size(" 512 "), Some(512));
    assert_eq!(byte_size("7 B"), Some(7));
    assert_eq!(byte_size("3KiB"), Some(3_072));
    assert_eq!(byte_size("2 GiB"), Some(2_147_483_648));
    assert_eq!(byte_size("18446744073709551615"), Some(u64::MAX));
    for text in ["", "MiB", "-1", "1.5 MiB", "10 mib", "18446744073709551616", "17179869184 GiB"] {
        assert_eq!(byte_size(text), None, "{text}");
    }
}

/// Scenario: a checkpoint's state is copied and compared.
/// Guarantees: the copy is equal, and another revision or cursor is not.
#[test]
fn checkpoint_states_are_values() {
    let state = CheckpointState {
        revision: 3,
        cursor: CompositeCursor::new("2026-01-01".to_owned(), 7),
    };
    let copy = state.clone();
    assert_eq!(copy, state);
    assert_ne!(copy, CheckpointState { revision: 4, cursor: state.cursor.clone() });
    assert_ne!(copy.cursor, CompositeCursor::new("2026-01-01".to_owned(), 8));
}

/// Scenario: a poll catches up on a backlog.
/// Guarantees: it goes on while there is something to read and neither bound is reached.
#[test]
fn catching_up_is_bounded() {
    let bounds = CatchUpConfig { max_pages: 3, max_duration: Duration::from_secs(10) };
    assert!(bounds.goes_on(1, 2, Duration::from_secs(9)));
    assert!(!bounds.goes_on(0, 1, Duration::zero()));
    assert!(!bounds.goes_on(1, 3, Duration::zero()));
    assert!(!bounds.goes_on(1, 1, Duration::from_secs(10)));
}
