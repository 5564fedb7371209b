use vstd::prelude::*;
use crate::command::Unsolicited;

verus! {

/// Wait after a failed join before the next attempt.
pub const JOIN_RETRY_MILLIS: u64 = 2000;

/// Wait after a lost link before joining again.
pub const LINK_LOSS_COOLDOWN_MILLIS: u64 = 5000;

/// Half period of the indicator's blink while joining.
pub const BLINK_MILLIS: u64 = 250;

/// Where the device stands with the network.
#[derive(Clone, Copy, Debug, PartialEq, Eq, Structural)]
pub enum LinkState {
    Disconnected,
    Joining,
    Connected { ip_assigned: bool },
}

/// What the network layer reports, or a requested wait that ran out.
#[derive(Clone, Copy, Debug, PartialEq, Eq, Structural)]
pub enum LinkEvent {
    /// The device has started.
    Boot,
    /// The join request succeeded: the radio is associated.
    JoinSucceeded,
    /// The join request failed.
    JoinFailed,
    /// An address was assigned.
    AddressAssigned,
    /// The link was lost.
    LinkLost,
    /// The wait that the last action asked for is over.
    WaitElapsed,
}

/// What the device is to do next.
#[derive(Clone, Copy, Debug, PartialEq, Eq, Structural)]
pub enum LinkAction {
    /// Nothing: wait for the next event.
    Idle,
    /// Issue a join request with the configured credentials.
    Join,
    /// Wait this long, then report `WaitElapsed`.
    Wait { millis: u64 },
}

/// What the status LED shows.
#[derive(Clone, Copy, Debug, PartialEq, Eq, Structural)]
pub enum LedControlCommand {
    TurnOn,
    TurnOff,
    Blink { delay_millis: u64 },
}

/// The transition function: next state and action for a state and an event.
pub open spec fn transition(s: LinkState, e: LinkEvent) -> (LinkState, LinkAction) {
    match (s, e) {
        (LinkState::Disconnected, LinkEvent::Boot) => (LinkState::Joining, LinkAction::Join),
        (LinkState::Disconnected, LinkEvent::WaitElapsed) => (LinkState::Joining, LinkAction::Join),
        (LinkState::Joining, LinkEvent::JoinSucceeded) => (LinkState::Connected { ip_assigned: false }, LinkAction::Idle),
        (LinkState::Joining, LinkEvent::JoinFailed) => (LinkState::Joining, LinkAction::Wait { millis: JOIN_RETRY_MILLIS }),
        (LinkState::Joining, LinkEvent::WaitElapsed) => (LinkState::Joining, LinkAction::Join),
        (LinkState::Connected { ip_assigned: false }, LinkEvent::AddressAssigned) => (
            LinkState::Connected { ip_assigned: true },
            LinkAction::Idle,
        ),
        (LinkState::Joining, LinkEvent::LinkLost) => (
            LinkState::Disconnected,
            LinkAction::Wait { millis: LINK_LOSS_COOLDOWN_MILLIS },
        ),
        (LinkState::Connected { .. }, LinkEvent::LinkLost) => (
            LinkState::Disconnected,
            LinkAction::Wait { millis: LINK_LOSS_COOLDOWN_MILLIS },
        ),
        _ => (s, LinkAction::Idle),
    }
}

/// The indicator that mirrors a state: off while disconnected, blinking
/// while joining, on once associated.
pub open spec fn indicator_of(s: LinkState) -> LedControlCommand {
    match s {
        LinkState::Disconnected => LedControlCommand::TurnOff,
        LinkState::Joining => LedControlCommand::Blink { delay_millis: BLINK_MILLIS },
        LinkState::Connected { .. } => LedControlCommand::TurnOn,
    }
}

/// Only a connected link with an address can carry reports.
pub open spec fn usable(s: LinkState) -> bool {
    s == (LinkState::Connected { ip_assigned: true })
}

/// The event that an unsolicited message of the radio module stands for.
pub open spec fn event_of(u: Unsolicited) -> Option<LinkEvent> {
    match u {
        Unsolicited::WifiConnected => Some(LinkEvent::JoinSucceeded),
        Unsolicited::WifiGotIp => Some(LinkEvent::AddressAssigned),
        Unsolicited::WifiDisconnected => Some(LinkEvent::LinkLost),
        Unsolicited::Ready => None,
    }
}

/// The connection state machine.
pub struct Connection {
    state: LinkState,
}

impl View for Connection {
    type V = LinkState;

    closed spec fn view(&self) -> LinkState {
        self.state
    }
}

impl Connection {
    /// A machine in its initial state, `Disconnected`.
    pub fn new() -> (r: Connection)
        ensures
            r@ == LinkState::Disconnected,
    {
        Connection { state: LinkState::Disconnected }
    }

    /// The current state.
    pub fn state(&self) -> (r: LinkState)
        ensures
            r == self@,
    {
        self.state
    }

    /// Take an event: move to the next state and return the action to perform.
    pub fn handle(&mut self, event: LinkEvent) -> (r: LinkAction)
        ensures
            (final(self)@, r) == transition(old(self)@, event),
        no_unwind
    {
        let (next, action) = match (self.state, event) {
            (LinkState::Disconnected, LinkEvent::Boot) => (LinkState::Joining, LinkAction::Join),
            (LinkState::Disconnected, LinkEvent::WaitElapsed) => (LinkState::Joining, LinkAction::Join),
            (LinkState::Joining, LinkEvent::JoinSucceeded) => (
                LinkState::Connected { ip_assigned: false },
                LinkAction::Idle,
            ),
            (LinkState::Joining, LinkEvent::JoinFailed) => (
                LinkState::Joining,
                LinkAction::Wait { millis: JOIN_RETRY_MILLIS },
            ),
            (LinkState::Joining, LinkEvent::WaitElapsed) => (LinkState::Joining, LinkAction::Join),
            (LinkState::Connected { ip_assigned: false }, LinkEvent::AddressAssigned) => (
                LinkState::Connected { ip_assigned: true },
                LinkAction::Idle,
            ),
            (LinkState::Joining, LinkEvent::LinkLost) => (
                LinkState::Disconnected,
                LinkAction::Wait { millis: LINK_LOSS_COOLDOWN_MILLIS },
            ),
            (LinkState::Connected { .. }, LinkEvent::LinkLost) => (
                LinkState::Disconnected,
                LinkAction::Wait { millis: LINK_LOSS_COOLDOWN_MILLIS },
            ),
            _ => (self.state, LinkAction::Idle),
        };
        self.state = next;
        action
    }

    /// The indicator command that mirrors the current state.
    pub fn indicator(&self) -> (r: LedControlCommand)
        ensures
            r == indicator_of(self@),
    {
        match self.state {
            LinkState::Disconnected => LedControlCommand::TurnOff,
            LinkState::Joining => LedControlCommand::Blink { delay_millis: BLINK_MILLIS },
            LinkState::Connected { .. } => LedControlCommand::TurnOn,
        }
    }

    /// Whether reports can be sent now.
    pub fn is_usable(&self) -> (r: bool)
        ensures
            r == usable(self@),
    {
        match self.state {
            LinkState::Connected { ip_assigned } => ip_assigned,
            _ => false,
        }
    }
}

/// The event that an unsolicited message of the radio module stands for.
pub fn link_event_of(u: Unsolicited) -> (r: Option<LinkEvent>)
    ensures
        r == event_of(u),
{
    match u {
        Unsolicited::WifiConnected => Some(LinkEvent::JoinSucceeded),
        Unsolicited::WifiGotIp => Some(LinkEvent::AddressAssigned),
        Unsolicited::WifiDisconnected => Some(LinkEvent::LinkLost),
        Unsolicited::Ready => None,
    }
}

/// The status LED: the last command it was given and whether it is lit.
pub struct StatusLed {
    mode: LedControlCommand,
    lit: bool,
}

impl View for StatusLed {
    type V = (LedControlCommand, bool);

    closed spec fn view(&self) -> (LedControlCommand, bool) {
        (self.mode, self.lit)
    }
}

/// The LED after a command: on, off, or (when told to blink) toggled at once.
pub open spec fn led_after_command(led: (LedControlCommand, bool), c: LedControlCommand) -> (LedControlCommand, bool) {
    match c {
        LedControlCommand::TurnOn => (c, true),
        LedControlCommand::TurnOff => (c, false),
        LedControlCommand::Blink { .. } => (c, !led.1),
    }
}

/// The LED after a blink period: toggled while blinking, unchanged otherwise.
pub open spec fn led_after_period(led: (LedControlCommand, bool)) -> (LedControlCommand, bool) {
    match led.0 {
        LedControlCommand::Blink { .. } => (led.0, !led.1),
        _ => led,
    }
}

impl StatusLed {
    /// A dark LED.
    pub fn new() -> (r: StatusLed)
        ensures
            r@ == (LedControlCommand::TurnOff, false),
    {
        StatusLed { mode: LedControlCommand::TurnOff, lit: false }
    }

    /// Take a command; returns whether the LED is to be lit.
    pub fn command(&mut self, c: LedControlCommand) -> (r: bool)
        ensures
            final(self)@ == led_after_command(old(self)@, c),
            r == final(self)@.1,
    {
        let lit = match c {
            LedControlCommand::TurnOn => true,
            LedControlCommand::TurnOff => false,
            LedControlCommand::Blink { .. } => !self.lit,
        };
        self.mode = c;
        self.lit = lit;
        lit
    }

    /// A blink period is over; returns whether the LED is to be lit.
    pub fn period_elapsed(&mut self) -> (r: bool)
        ensures
            final(self)@ == led_after_period(old(self)@),
            r == final(self)@.1,
    {
        if let LedControlCommand::Blink { .. } = self.mode {
            self.lit = !self.lit;
        }
        self.lit
    }

    /// The blink period, while blinking.
    pub fn blink_delay(&self) -> (r: Option<u64>)
        ensures
            r == match self@.0 {
                LedControlCommand::Blink { delay_millis } => Some(delay_millis),
                _ => None::<u64>,
            },
    {
        match self.mode {
            LedControlCommand::Blink { delay_millis } => Some(delay_millis),
            _ => None,
        }
    }
}

/// After a link loss in the usable state the machine goes to `Disconnected`
/// with the cool-down wait; when the wait is over it joins, and a successful
/// join and an address bring it back to the usable state. The indicator goes
/// on, off, blinking, on, on: each step shows the state it is in.
pub proof fn lemma_reconnect_after_loss()
    ensures
        ({
            let s0 = LinkState::Connected { ip_assigned: true };
            let (s1, a1) = transition(s0, LinkEvent::LinkLost);
            let (s2, a2) = transition(s1, LinkEvent::WaitElapsed);
            let (s3, a3) = transition(s2, LinkEvent::JoinSucceeded);
            let (s4, a4) = transition(s3, LinkEvent::AddressAssigned);
            &&& s1 == LinkState::Disconnected
            &&& a1 == (LinkAction::Wait { millis: LINK_LOSS_COOLDOWN_MILLIS })
            &&& s2 == LinkState::Joining
            &&& a2 == LinkAction::Join
            &&& s3 == (LinkState::Connected { ip_assigned: false })
            &&& s4 == s0
            &&& usable(s4)
            &&& indicator_of(s0) == LedControlCommand::TurnOn
            &&& indicator_of(s1) == LedControlCommand::TurnOff
            &&& indicator_of(s2) == (LedControlCommand::Blink { delay_millis: BLINK_MILLIS })
            &&& indicator_of(s3) == LedControlCommand::TurnOn
            &&& indicator_of(s4) == LedControlCommand::TurnOn
        }),
{
}

/// A link loss in any state leads to `Disconnected`, and a failed join is
/// retried after the backoff without leaving `Joining`.
pub proof fn lemma_loss_and_retry(s: LinkState)
    ensures
        transition(s, LinkEvent::LinkLost).0 == LinkState::Disconnected,
        transition(LinkState::Joining, LinkEvent::JoinFailed) == (
            LinkState::Joining,
            LinkAction::Wait { millis: JOIN_RETRY_MILLIS },
        ),
        transition(LinkState::Joining, LinkEvent::WaitElapsed) == (LinkState::Joining, LinkAction::Join),
{
}

} // verus!
