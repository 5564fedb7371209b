use nixie_counter::toggle_switch::{Debouncer, Edge, ToggleSwitch, DEBOUNCE_SAMPLES};

fn feed(d: &mut Debouncer, level: bool, n: usize) -> Vec<Option<Edge>> {
    (0..n).map(|_| d.sample(level)).collect()
}

#[test]
fn rising_edge_after_twelve_pressed_samples() {
    let mut d = Debouncer::new();
    let edges = feed(&mut d, true, DEBOUNCE_SAMPLES as usize);
    for e in &edges[..11] {
        assert_eq!(*e, None);
    }
    assert_eq!(edges[11], Some(Edge::Rising));
    assert!(d.is_pressed());
}

#[test]
fn rising_edge_only_once_while_held() {
    let mut d = Debouncer::new();
    feed(&mut d, true, 12);
    let later = feed(&mut d, true, 50);
    assert!(later.iter().all(|e| e.is_none()));
}

#[test]
fn dissenting_sample_restarts_the_run() {
    let mut d = Debouncer::new();
    let first = feed(&mut d, true, 11);
    assert!(first.iter().all(|e| e.is_none()));
    assert_eq!(d.sample(false), None);
    let second = feed(&mut d, true, 12);
    assert!(second[..11].iter().all(|e| e.is_none()));
    assert_eq!(second[11], Some(Edge::Rising));
}

#[test]
fn falling_edge_after_release() {
    let mut d = Debouncer::new();
    feed(&mut d, true, 12);
    let edges = feed(&mut d, false, 12);
    assert!(edges[..11].iter().all(|e| e.is_none()));
    assert_eq!(edges[11], Some(Edge::Falling));
    assert!(!d.is_pressed());
}

#[test]
fn released_from_start_gives_no_edge() {
    let mut d = Debouncer::new();
    let edges = feed(&mut d, false, 40);
    assert!(edges.iter().all(|e| e.is_none()));
}

#[test]
fn toggle_switch_samples_both_buttons() {
    let mut s = ToggleSwitch::new();
    let mut last = (None, None);
    for _ in 0..12 {
        last = s.sample(true, false);
    }
    assert_eq!(last, (Some(Edge::Rising), None));
}

#[test]
fn wait_for_press_reports_direction_once() {
    let mut s = ToggleSwitch::new();
    let mut got = Vec::new();
    for _ in 0..30 {
        if let Some(d) = s.wait_for_press(false, true) {
            got.push(d);
        }
    }
    assert_eq!(got, vec![nixie_counter::toggle_switch::Direction::Down]);
}

#[test]
fn wait_for_release_needs_debounced_release() {
    let mut s = ToggleSwitch::new();
    assert!(s.wait_for_release(false, false));
    for _ in 0..12 {
        s.sample(true, false);
    }
    for _ in 0..11 {
        assert!(!s.wait_for_release(false, false));
    }
    assert!(s.wait_for_release(false, false));
}
