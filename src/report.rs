use vstd::prelude::*;
use crate::connectivity::{usable, Connection, LedControlCommand, LinkAction, LinkEvent, LinkState, transition, indicator_of};
use crate::counter::{step_count, Counter, MAX_COUNT};
use crate::nixie::{ones_code, tens_code, NixieTube, NixieTubePair};
use crate::toggle_switch::{edge_of, Direction, Edge, ToggleSwitch};

verus! {

/// The status by which the endpoint accepts an update.
pub const NO_CONTENT: u16 = 204;

/// The ASCII decimal digits of a number, without leading zeroes.
pub open spec fn decimal(v: u8) -> Seq<u8> {
    if v < 10 {
        seq![(48 + v) as u8]
    } else if v < 100 {
        seq![(48 + v / 10) as u8, (48 + v % 10) as u8]
    } else {
        seq![(48 + v / 100) as u8, (48 + (v / 10) % 10) as u8, (48 + v % 10) as u8]
    }
}

/// The form-encoded body of an update: `value=` and the count in decimal.
pub open spec fn payload_of(v: u8) -> Seq<u8> {
    seq![118u8, 97u8, 108u8, 117u8, 101u8, 61u8] + decimal(v)
}

/// A PUT of the people count to the endpoint.
#[derive(Clone, Copy, Debug, PartialEq, Eq, Structural)]
pub struct Report {
    pub value: u8,
}

impl Report {
    /// The request body: `value=` and the count in decimal.
    pub fn payload(&self) -> (r: Vec<u8>)
        ensures
            r@ == payload_of(self.value),
    {
        let v = self.value;
        let mut r: Vec<u8> = vec![118u8, 97u8, 108u8, 117u8, 101u8, 61u8];
        if v >= 100 {
            r.push(48 + v / 100);
        }
        if v >= 10 {
            r.push(48 + (v / 10) % 10);
        }
        r.push(48 + v % 10);
        proof {
            assert(r@ =~= payload_of(v));
        }
        r
    }
}

/// Whether the endpoint's answer means the update was taken.
pub fn update_succeeded(status: u16) -> (r: bool)
    ensures
        r == (status == NO_CONTENT),
{
    status == NO_CONTENT
}

/// The report that a count change calls for: one PUT of the new value when
/// the value changed and the link is usable, none otherwise.
pub open spec fn report_of(link: LinkState, before: int, after: int) -> Option<Report> {
    if usable(link) && after != before {
        Some(Report { value: after as u8 })
    } else {
        None
    }
}

pub open spec fn opt_seq(r: Option<Report>) -> Seq<Report> {
    match r {
        Some(x) => seq![x],
        None => Seq::empty(),
    }
}

/// Whether two tubes show a count.
pub open spec fn shows(t: (NixieTube, NixieTube), v: int) -> bool {
    t.0.code() == tens_code(v as u8) && t.1.code() == ones_code(v as u8)
}

/// The abstract state of the panel.
pub struct PanelView {
    pub switch: (Seq<bool>, Seq<bool>),
    pub count: int,
    pub tubes: (NixieTube, NixieTube),
    pub link: LinkState,
}

/// The count after a press, and the report it calls for.
pub open spec fn press_spec(v: PanelView, d: Direction) -> (int, Option<Report>) {
    let c = step_count(v.count, d);
    (c, report_of(v.link, v.count, c))
}

/// The counts after the up and the down button's edges of one tick.
pub open spec fn tick_counts(before: int, up: Option<Edge>, down: Option<Edge>) -> (int, int) {
    let c1 = if up == Some(Edge::Rising) { step_count(before, Direction::Up) } else { before };
    let c2 = if down == Some(Edge::Rising) { step_count(c1, Direction::Down) } else { c1 };
    (c1, c2)
}

/// The counter, its display, the buttons that drive it and the connection
/// that reports carry on.
pub struct Panel {
    switch: ToggleSwitch,
    counter: Counter,
    tubes: NixieTubePair,
    connection: Connection,
}

impl View for Panel {
    type V = PanelView;

    closed spec fn view(&self) -> PanelView {
        PanelView { switch: self.switch@, count: self.counter@, tubes: self.tubes@, link: self.connection@ }
    }
}

impl PanelView {
    /// The count is in range and the tubes show it.
    pub open spec fn wf(self) -> bool {
        &&& 0 <= self.count <= MAX_COUNT
        &&& shows(self.tubes, self.count)
    }
}

impl Panel {
    /// A panel at count 0 (both tubes dark), with unsampled buttons and a
    /// disconnected link.
    pub fn new(tubes: NixieTubePair) -> (r: Panel)
        ensures
            r@.wf(),
            r@.count == 0,
            r@.switch == (Seq::<bool>::empty(), Seq::<bool>::empty()),
            r@.link == LinkState::Disconnected,
    {
        let mut tubes = tubes;
        tubes.show(0);
        Panel { switch: ToggleSwitch::new(), counter: Counter::new(), tubes, connection: Connection::new() }
    }

    /// The count.
    pub fn count(&self) -> (r: u8)
        ensures
            r == self@.count,
            r <= MAX_COUNT,
    {
        self.counter.value()
    }

    /// The two tubes, left then right; they always show the count.
    pub fn tubes(&self) -> (r: (NixieTube, NixieTube))
        requires
            self@.wf(),
        ensures
            r == self@.tubes,
            shows(r, self@.count),
    {
        self.tubes.tubes()
    }

    /// The connection state.
    pub fn link_state(&self) -> (r: LinkState)
        ensures
            r == self@.link,
    {
        self.connection.state()
    }

    /// The indicator command that mirrors the connection state.
    pub fn indicator(&self) -> (r: LedControlCommand)
        ensures
            r == indicator_of(self@.link),
    {
        self.connection.indicator()
    }

    /// Pass an event to the connection state machine. Returns the action to
    /// perform, and a report of the current count when the link has just
    /// become usable, so the endpoint learns the count it missed.
    pub fn handle_link_event(&mut self, event: LinkEvent) -> (r: (LinkAction, Option<Report>))
        requires
            old(self)@.wf(),
        ensures
            final(self)@.wf(),
            (final(self)@.link, r.0) == transition(old(self)@.link, event),
            r.1 == if !usable(old(self)@.link) && usable(final(self)@.link) {
                Some(Report { value: old(self)@.count as u8 })
            } else {
                None
            },
            final(self)@.count == old(self)@.count,
            final(self)@.tubes == old(self)@.tubes,
            final(self)@.switch == old(self)@.switch,
    {
        let was_usable = self.connection.is_usable();
        let action = self.connection.handle(event);
        if !was_usable && self.connection.is_usable() {
            (action, Some(Report { value: self.counter.value() }))
        } else {
            (action, None)
        }
    }

    /// A debounced press: step the count, show it, and return the report
    /// that the change calls for.
    pub fn press(&mut self, d: Direction) -> (r: Option<Report>)
        requires
            old(self)@.wf(),
        ensures
            final(self)@.wf(),
            (final(self)@.count, r) == press_spec(old(self)@, d),
            final(self)@.switch == old(self)@.switch,
            final(self)@.link == old(self)@.link,
    {
        let changed = self.counter.apply(d);
        let after = self.counter.value();
        self.tubes.show(after);
        if changed && self.connection.is_usable() {
            Some(Report { value: after })
        } else {
            None
        }
    }

    /// One sampling tick: sample both buttons, and take a rising edge of the
    /// up button, then one of the down button, as presses; falling edges are
    /// ignored. Returns the reports the presses call for, in order.
    pub fn tick(&mut self, up_pressed: bool, down_pressed: bool) -> (r: Vec<Report>)
        requires
            old(self)@.wf(),
        ensures
            final(self)@.wf(),
            final(self)@.switch == (old(self)@.switch.0.push(up_pressed), old(self)@.switch.1.push(down_pressed)),
            final(self)@.link == old(self)@.link,
            ({
                let (c1, c2) = tick_counts(
                    old(self)@.count,
                    edge_of(final(self)@.switch.0),
                    edge_of(final(self)@.switch.1),
                );
                &&& final(self)@.count == c2
                &&& r@ == opt_seq(report_of(old(self)@.link, old(self)@.count, c1)) + opt_seq(
                    report_of(old(self)@.link, c1, c2),
                )
            }),
    {
        let (up, down) = self.switch.sample(up_pressed, down_pressed);
        let mut reports: Vec<Report> = Vec::new();
        if up == Some(Edge::Rising) {
            if let Some(rep) = self.press(Direction::Up) {
                reports.push(rep);
            }
        }
        if down == Some(Edge::Rising) {
            if let Some(rep) = self.press(Direction::Down) {
                reports.push(rep);
            }
        }
        reports
    }
}

/// A press while the link is not usable calls for no report; one while it
/// is usable and the count changes calls for exactly one, carrying the new count.
pub proof fn lemma_report_rule(v: PanelView, d: Direction)
    requires
        0 <= v.count <= MAX_COUNT,
    ensures
        !usable(v.link) ==> press_spec(v, d).1 is None,
        usable(v.link) && press_spec(v, d).0 != v.count ==> press_spec(v, d).1 == Some(
            Report { value: press_spec(v, d).0 as u8 },
        ),
{
}

} // verus!
