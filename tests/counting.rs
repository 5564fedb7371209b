use nixie_counter::counter::Counter;
use nixie_counter::toggle_switch::Direction;

#[test]
fn counter_starts_at_zero() {
    assert_eq!(Counter::new().value(), 0);
}

#[test]
fn counter_saturates_at_zero() {
    let mut c = Counter::new();
    assert!(!c.decrement());
    assert!(!c.apply(Direction::Down));
    assert_eq!(c.value(), 0);
}

#[test]
fn counter_saturates_at_ninety_nine() {
    let mut c = Counter::new();
    for _ in 0..150 {
        c.apply(Direction::Up);
    }
    assert_eq!(c.value(), 99);
    assert!(!c.increment());
    assert!(c.decrement());
    assert_eq!(c.value(), 98);
}

#[test]
fn counter_stays_in_range_under_mixed_steps() {
    let mut c = Counter::new();
    for i in 0..1000u32 {
        let d = if (i * 7) % 3 == 0 { Direction::Down } else { Direction::Up };
        c.apply(d);
        assert!(c.value() <= 99);
    }
}
