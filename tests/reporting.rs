use nixie_counter::connectivity::{LedControlCommand, LinkAction, LinkEvent, LinkState};
use nixie_counter::nixie::{NixieTube, NixieTubePair, BLANK};
use nixie_counter::report::{update_succeeded, Panel, Report};
use nixie_counter::toggle_switch::Direction;

fn panel() -> Panel {
    let t = NixieTube { pin_a: false, pin_b: false, pin_c: false, pin_d: false };
    Panel::new(NixieTubePair::new(t, t))
}

fn code(t: &NixieTube) -> u8 {
    (t.pin_a as u8) | (t.pin_b as u8) << 1 | (t.pin_c as u8) << 2 | (t.pin_d as u8) << 3
}

fn make_usable(p: &mut Panel) {
    p.handle_link_event(LinkEvent::Boot);
    p.handle_link_event(LinkEvent::JoinSucceeded);
    p.handle_link_event(LinkEvent::AddressAssigned);
}

#[test]
fn becoming_usable_reports_current_count() {
    let mut p = panel();
    p.press(Direction::Up);
    p.press(Direction::Up);
    assert_eq!(p.handle_link_event(LinkEvent::Boot), (LinkAction::Join, None));
    assert_eq!(p.handle_link_event(LinkEvent::JoinSucceeded), (LinkAction::Idle, None));
    assert_eq!(
        p.handle_link_event(LinkEvent::AddressAssigned),
        (LinkAction::Idle, Some(Report { value: 2 }))
    );
    assert_eq!(p.handle_link_event(LinkEvent::AddressAssigned), (LinkAction::Idle, None));
}

#[test]
fn change_while_not_usable_sends_nothing() {
    let mut p = panel();
    assert_eq!(p.press(Direction::Up), None);
    assert_eq!(p.count(), 1);
    p.handle_link_event(LinkEvent::Boot);
    p.handle_link_event(LinkEvent::JoinSucceeded);
    assert_eq!(p.press(Direction::Up), None);
    assert_eq!(p.count(), 2);
}

#[test]
fn change_while_usable_sends_one_put_with_new_value() {
    let mut p = panel();
    make_usable(&mut p);
    assert_eq!(p.press(Direction::Up), Some(Report { value: 1 }));
    assert_eq!(p.press(Direction::Down), Some(Report { value: 0 }));
    assert_eq!(p.press(Direction::Down), None);
}

#[test]
fn panel_shows_count_after_press() {
    let mut p = panel();
    let (l, r) = p.tubes();
    assert_eq!((code(&l), code(&r)), (BLANK, BLANK));
    for _ in 0..42 {
        p.press(Direction::Up);
    }
    let (l, r) = p.tubes();
    assert_eq!((code(&l), code(&r)), (4, 2));
}

#[test]
fn tick_turns_debounced_press_into_report() {
    let mut p = panel();
    make_usable(&mut p);
    let mut reports = Vec::new();
    for _ in 0..20 {
        reports.extend(p.tick(true, false));
    }
    assert_eq!(reports, vec![Report { value: 1 }]);
    for _ in 0..20 {
        reports.extend(p.tick(false, false));
    }
    assert_eq!(reports.len(), 1);
    for _ in 0..12 {
        reports.extend(p.tick(false, true));
    }
    assert_eq!(reports, vec![Report { value: 1 }, Report { value: 0 }]);
    assert_eq!(p.count(), 0);
}

#[test]
fn payload_is_form_encoded_count() {
    assert_eq!(Report { value: 0 }.payload(), b"value=0".to_vec());
    assert_eq!(Report { value: 42 }.payload(), b"value=42".to_vec());
    assert_eq!(Report { value: 255 }.payload(), b"value=255".to_vec());
}

#[test]
fn only_no_content_counts_as_success() {
    assert!(update_succeeded(204));
    assert!(!update_succeeded(200));
    assert!(!update_succeeded(500));
}

#[test]
fn panel_indicator_follows_link() {
    let mut p = panel();
    assert_eq!(p.indicator(), LedControlCommand::TurnOff);
    make_usable(&mut p);
    assert_eq!(p.link_state(), LinkState::Connected { ip_assigned: true });
    assert_eq!(p.indicator(), LedControlCommand::TurnOn);
    p.handle_link_event(LinkEvent::LinkLost);
    assert_eq!(p.indicator(), LedControlCommand::TurnOff);
    assert_eq!(p.press(Direction::Up), None);
}
