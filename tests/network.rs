use nixie_counter::command::Unsolicited;
use nixie_counter::connectivity::{
    link_event_of, Connection, LedControlCommand, LinkAction, LinkEvent, LinkState, StatusLed,
    BLINK_MILLIS, JOIN_RETRY_MILLIS, LINK_LOSS_COOLDOWN_MILLIS,
};

fn connected() -> Connection {
    let mut c = Connection::new();
    assert_eq!(c.handle(LinkEvent::Boot), LinkAction::Join);
    assert_eq!(c.handle(LinkEvent::JoinSucceeded), LinkAction::Idle);
    assert_eq!(c.handle(LinkEvent::AddressAssigned), LinkAction::Idle);
    c
}

#[test]
fn starts_disconnected_and_joins_on_boot() {
    let mut c = Connection::new();
    assert_eq!(c.state(), LinkState::Disconnected);
    assert_eq!(c.indicator(), LedControlCommand::TurnOff);
    assert_eq!(c.handle(LinkEvent::Boot), LinkAction::Join);
    assert_eq!(c.state(), LinkState::Joining);
    assert_eq!(c.indicator(), LedControlCommand::Blink { delay_millis: BLINK_MILLIS });
}

#[test]
fn link_loss_then_rejoin_reaches_usable_again() {
    let mut c = connected();
    assert!(c.is_usable());
    assert_eq!(c.indicator(), LedControlCommand::TurnOn);
    assert_eq!(c.handle(LinkEvent::LinkLost), LinkAction::Wait { millis: LINK_LOSS_COOLDOWN_MILLIS });
    assert_eq!(c.state(), LinkState::Disconnected);
    assert_eq!(c.indicator(), LedControlCommand::TurnOff);
    assert!(!c.is_usable());
    assert_eq!(c.handle(LinkEvent::WaitElapsed), LinkAction::Join);
    assert_eq!(c.indicator(), LedControlCommand::Blink { delay_millis: BLINK_MILLIS });
    c.handle(LinkEvent::JoinSucceeded);
    assert_eq!(c.state(), LinkState::Connected { ip_assigned: false });
    assert!(!c.is_usable());
    assert_eq!(c.indicator(), LedControlCommand::TurnOn);
    c.handle(LinkEvent::AddressAssigned);
    assert_eq!(c.state(), LinkState::Connected { ip_assigned: true });
    assert!(c.is_usable());
}

#[test]
fn failed_join_is_retried_after_backoff() {
    let mut c = Connection::new();
    c.handle(LinkEvent::Boot);
    for _ in 0..5 {
        assert_eq!(c.handle(LinkEvent::JoinFailed), LinkAction::Wait { millis: JOIN_RETRY_MILLIS });
        assert_eq!(c.state(), LinkState::Joining);
        assert_eq!(c.handle(LinkEvent::WaitElapsed), LinkAction::Join);
    }
}

#[test]
fn unexpected_events_change_nothing() {
    let mut c = connected();
    assert_eq!(c.handle(LinkEvent::JoinFailed), LinkAction::Idle);
    assert_eq!(c.handle(LinkEvent::WaitElapsed), LinkAction::Idle);
    assert_eq!(c.state(), LinkState::Connected { ip_assigned: true });
}

#[test]
fn unsolicited_messages_map_to_events() {
    assert_eq!(link_event_of(Unsolicited::WifiConnected), Some(LinkEvent::JoinSucceeded));
    assert_eq!(link_event_of(Unsolicited::WifiGotIp), Some(LinkEvent::AddressAssigned));
    assert_eq!(link_event_of(Unsolicited::WifiDisconnected), Some(LinkEvent::LinkLost));
    assert_eq!(link_event_of(Unsolicited::Ready), None);
}

#[test]
fn status_led_follows_commands() {
    let mut led = StatusLed::new();
    assert!(led.command(LedControlCommand::TurnOn));
    assert!(led.period_elapsed());
    assert!(!led.command(LedControlCommand::Blink { delay_millis: 250 }));
    assert_eq!(led.blink_delay(), Some(250));
    assert!(led.period_elapsed());
    assert!(!led.period_elapsed());
    assert!(!led.command(LedControlCommand::TurnOff));
    assert_eq!(led.blink_delay(), None);
}
