use vstd::prelude::*;

verus! {

/// Consecutive equal samples that make a level change.
pub const DEBOUNCE_SAMPLES: u8 = 12;

/// Which way the toggle switch was pushed.
#[derive(Debug, Copy, Clone, PartialEq, Eq, Structural)]
pub enum Direction {
    Up,
    Down,
}

/// A debounced level change of one button.
#[derive(Debug, Copy, Clone, PartialEq, Eq, Structural)]
pub enum Edge {
    /// The button became pressed.
    Rising,
    /// The button became released.
    Falling,
}

/// The `k`-th sample from the end (`k == 1` is the latest); before the
/// first sample a button counts as released.
pub open spec fn back(s: Seq<bool>, k: int) -> bool {
    let i = s.len() - k;
    if 0 <= i < s.len() { s[i] } else { false }
}

/// The last `n` samples all equal `v`.
pub open spec fn run_holds(s: Seq<bool>, v: bool, n: int) -> bool {
    forall|k: int| 1 <= k <= n ==> #[trigger] back(s, k) == v
}

/// A rising edge: the last `N` samples are pressed and the one before is not.
pub open spec fn rising_edge(s: Seq<bool>) -> bool {
    run_holds(s, true, DEBOUNCE_SAMPLES as int) && !back(s, DEBOUNCE_SAMPLES + 1)
}

/// A falling edge: the last `N` samples are released and the one before is pressed.
pub open spec fn falling_edge(s: Seq<bool>) -> bool {
    run_holds(s, false, DEBOUNCE_SAMPLES as int) && back(s, DEBOUNCE_SAMPLES + 1)
}

/// The edge reported after a sample sequence, if any.
pub open spec fn edge_of(s: Seq<bool>) -> Option<Edge> {
    if rising_edge(s) {
        Some(Edge::Rising)
    } else if falling_edge(s) {
        Some(Edge::Falling)
    } else {
        None
    }
}

/// The debounced level: that of the latest edge, released before any.
pub open spec fn level_of(s: Seq<bool>) -> bool
    decreases s.len(),
{
    if s.len() == 0 {
        false
    } else {
        match edge_of(s) {
            Some(Edge::Rising) => true,
            Some(Edge::Falling) => false,
            None => level_of(s.drop_last()),
        }
    }
}

spec fn run_inv(s: Seq<bool>, last: bool, run: int) -> bool {
    &&& 1 <= run <= DEBOUNCE_SAMPLES + 1
    &&& last == back(s, 1)
    &&& forall|k: int| 1 <= k <= DEBOUNCE_SAMPLES + 1 ==> (run >= k <==> #[trigger] run_holds(s, last, k))
}

proof fn lemma_back_push(s: Seq<bool>, x: bool, k: int)
    requires
        k >= 1,
    ensures
        back(s.push(x), k) == if k == 1 { x } else { back(s, k - 1) },
{
}

proof fn lemma_run_holds_push(s: Seq<bool>, x: bool, v: bool, n: int)
    requires
        n >= 1,
    ensures
        run_holds(s.push(x), v, n) == (x == v && run_holds(s, v, n - 1)),
{
    let s2 = s.push(x);
    lemma_back_push(s, x, 1);
    if run_holds(s2, v, n) {
        assert forall|k: int| 1 <= k <= n - 1 implies #[trigger] back(s, k) == v by {
            lemma_back_push(s, x, k + 1);
            assert(back(s2, k + 1) == v);
        }
    }
    if x == v && run_holds(s, v, n - 1) {
        assert forall|k: int| 1 <= k <= n implies #[trigger] back(s2, k) == v by {
            lemma_back_push(s, x, k);
            if k >= 2 {
                assert(back(s, k - 1) == v);
            }
        }
    }
}

proof fn lemma_run_holds_extend(s: Seq<bool>, v: bool, n: int)
    requires
        n >= 0,
    ensures
        run_holds(s, v, n + 1) == (run_holds(s, v, n) && back(s, n + 1) == v),
{
    if run_holds(s, v, n) && back(s, n + 1) == v {
        assert forall|k: int| 1 <= k <= n + 1 implies #[trigger] back(s, k) == v by {
            if k <= n {
                assert(back(s, k) == v);
            }
        }
    }
}

/// One sample taken by the run counter: a sample equal to the last one
/// lengthens the run (up to `N + 1`), another starts a new run of one.
spec fn next_run(last: bool, run: int, x: bool) -> (bool, int) {
    if x == last {
        (last, if run <= DEBOUNCE_SAMPLES { run + 1 } else { run })
    } else {
        (x, 1)
    }
}

proof fn lemma_step(s: Seq<bool>, last: bool, run: int, x: bool)
    requires
        run_inv(s, last, run),
    ensures
        run_inv(s.push(x), next_run(last, run, x).0, next_run(last, run, x).1),
        edge_of(s.push(x)) == if next_run(last, run, x).1 == DEBOUNCE_SAMPLES {
            Some(if next_run(last, run, x).0 { Edge::Rising } else { Edge::Falling })
        } else {
            None
        },
{
    let s2 = s.push(x);
    let (l2, r2) = next_run(last, run, x);
    let n = DEBOUNCE_SAMPLES as int;
    lemma_back_push(s, x, 1);
    assert forall|k: int| 1 <= k <= n + 1 implies (r2 >= k <==> #[trigger] run_holds(s2, l2, k)) by {
        lemma_run_holds_push(s, x, l2, k);
        if k >= 2 {
            if x == last {
                assert(run >= k - 1 <==> run_holds(s, last, k - 1));
            } else {
                assert(run_holds(s, last, 1));
                assert(back(s, 1) == last);
                assert(!run_holds(s, x, k - 1));
            }
        }
    }
    lemma_run_holds_extend(s2, l2, n);
    lemma_run_holds_extend(s2, !l2, n);
    assert(run_holds(s2, l2, n) == (r2 >= n));
    assert(run_holds(s2, l2, n + 1) == (r2 >= n + 1));
    if run_holds(s2, !l2, n) {
        assert(back(s2, 1) == !l2);
    }
}

/// A button whose raw level is sampled at a fixed period; level changes are
/// reported only after `DEBOUNCE_SAMPLES` equal samples.
pub struct Debouncer {
    last: bool,
    run: u8,
    level: bool,
    samples: Ghost<Seq<bool>>,
}

impl View for Debouncer {
    type V = Seq<bool>;

    closed spec fn view(&self) -> Seq<bool> {
        self.samples@
    }
}

impl Debouncer {
    #[verifier::type_invariant]
    spec fn inv(self) -> bool {
        &&& run_inv(self.samples@, self.last, self.run as int)
        &&& self.level == level_of(self.samples@)
    }

    /// A button that has not been sampled yet and counts as released.
    pub fn new() -> (r: Debouncer)
        ensures
            r@ == Seq::<bool>::empty(),
    {
        proof {
            let s = Seq::<bool>::empty();
            assert forall|k: int| 1 <= k <= DEBOUNCE_SAMPLES + 1 implies #[trigger] run_holds(s, false, k) by {
                assert forall|j: int| 1 <= j <= k implies #[trigger] back(s, j) == false by {}
            }
        }
        Debouncer { last: false, run: DEBOUNCE_SAMPLES + 1, level: false, samples: Ghost(Seq::empty()) }
    }

    /// Take one raw sample (`true` = pressed) and return the edge it completes.
    pub fn sample(&mut self, pressed: bool) -> (r: Option<Edge>)
        ensures
            final(self)@ == old(self)@.push(pressed),
            r == edge_of(final(self)@),
        no_unwind
    {
        proof {
            use_type_invariant(&*self);
        }
        let ghost s = self.samples@;
        let ghost s2 = s.push(pressed);
        proof {
            lemma_step(s, self.last, self.run as int, pressed);
            assert(s2.drop_last() =~= s);
        }
        let (last, run) = if pressed == self.last {
            (self.last, if self.run <= DEBOUNCE_SAMPLES { self.run + 1 } else { self.run })
        } else {
            (pressed, 1u8)
        };
        let edge = if run == DEBOUNCE_SAMPLES {
            if last { Some(Edge::Rising) } else { Some(Edge::Falling) }
        } else {
            None
        };
        let level = match edge {
            Some(Edge::Rising) => true,
            Some(Edge::Falling) => false,
            None => self.level,
        };
        *self = Debouncer { last, run, level, samples: Ghost(s2) };
        edge
    }

    /// The debounced level: `true` after a rising edge, until a falling one.
    pub fn is_pressed(&self) -> (r: bool)
        ensures
            r == level_of(self@),
    {
        proof {
            use_type_invariant(self);
        }
        self.level
    }
}

/// A sample sequence calls for a rising edge exactly when its last `N`
/// samples are pressed and the one before them (or the start) is not.
pub proof fn lemma_rising_iff(s: Seq<bool>)
    ensures
        edge_of(s) == Some(Edge::Rising) <==> (
            (forall|k: int| 1 <= k <= DEBOUNCE_SAMPLES ==> #[trigger] back(s, k))
            && !back(s, DEBOUNCE_SAMPLES + 1)
        ),
        edge_of(s) == Some(Edge::Falling) <==> (
            (forall|k: int| 1 <= k <= DEBOUNCE_SAMPLES ==> !#[trigger] back(s, k))
            && back(s, DEBOUNCE_SAMPLES + 1)
        ),
{
    if falling_edge(s) {
        assert(!back(s, 1));
    }
}

/// A rising edge is reported once per press: however long the button stays
/// pressed after the sample that completed the edge, no further rising edge comes.
pub proof fn lemma_rising_once(s: Seq<bool>, k: nat)
    requires
        edge_of(s) == Some(Edge::Rising),
        k >= 1,
    ensures
        edge_of(s + Seq::new(k, |i: int| true)) != Some(Edge::Rising),
{
    let n = DEBOUNCE_SAMPLES as int;
    let t = s + Seq::new(k, |i: int| true);
    if k < n + 1 {
        assert(back(s, n + 1 - k) == true);
        assert(t[t.len() - (n + 1)] == s[s.len() - (n + 1 - k)]);
    } else {
        assert(t[t.len() - (n + 1)] == true);
    }
}

/// The two buttons of the toggle switch.
pub struct ToggleSwitch {
    up: Debouncer,
    down: Debouncer,
}

impl View for ToggleSwitch {
    type V = (Seq<bool>, Seq<bool>);

    closed spec fn view(&self) -> (Seq<bool>, Seq<bool>) {
        (self.up@, self.down@)
    }
}

impl ToggleSwitch {
    /// A switch whose buttons have not been sampled yet.
    pub fn new() -> (r: ToggleSwitch)
        ensures
            r@ == (Seq::<bool>::empty(), Seq::<bool>::empty()),
    {
        ToggleSwitch { up: Debouncer::new(), down: Debouncer::new() }
    }

    /// Take one sample of each button; returns the edge of each, if any.
    pub fn sample(&mut self, up_pressed: bool, down_pressed: bool) -> (r: (Option<Edge>, Option<Edge>))
        ensures
            final(self)@ == (old(self)@.0.push(up_pressed), old(self)@.1.push(down_pressed)),
            r == (edge_of(final(self)@.0), edge_of(final(self)@.1)),
        no_unwind
    {
        let u = self.up.sample(up_pressed);
        let d = self.down.sample(down_pressed);
        (u, d)
    }

    /// One sampling step of waiting for a press: returns the direction whose
    /// button this sample completes a press of, up first.
    pub fn wait_for_press(&mut self, up_pressed: bool, down_pressed: bool) -> (r: Option<Direction>)
        ensures
            final(self)@ == (old(self)@.0.push(up_pressed), old(self)@.1.push(down_pressed)),
            r == if edge_of(final(self)@.0) == Some(Edge::Rising) {
                Some(Direction::Up)
            } else if edge_of(final(self)@.1) == Some(Edge::Rising) {
                Some(Direction::Down)
            } else {
                None
            },
    {
        let (u, d) = self.sample(up_pressed, down_pressed);
        if u == Some(Edge::Rising) {
            Some(Direction::Up)
        } else if d == Some(Edge::Rising) {
            Some(Direction::Down)
        } else {
            None
        }
    }

    /// One sampling step of waiting for release: returns whether both
    /// buttons are now released.
    pub fn wait_for_release(&mut self, up_pressed: bool, down_pressed: bool) -> (r: bool)
        ensures
            final(self)@ == (old(self)@.0.push(up_pressed), old(self)@.1.push(down_pressed)),
            r == (!level_of(final(self)@.0) && !level_of(final(self)@.1)),
    {
        self.sample(up_pressed, down_pressed);
        !self.up.is_pressed() && !self.down.is_pressed()
    }
}

} // verus!
