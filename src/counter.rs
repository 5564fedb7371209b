use vstd::prelude::*;
use crate::toggle_switch::Direction;

verus! {

/// The largest count that two tubes can show.
pub const MAX_COUNT: u8 = 99;

/// One saturating step: up adds one below the maximum, down takes one above zero.
pub open spec fn step_count(v: int, d: Direction) -> int {
    match d {
        Direction::Up => if v < MAX_COUNT { v + 1 } else { v },
        Direction::Down => if v > 0 { v - 1 } else { v },
    }
}

/// The count after a sequence of steps.
pub open spec fn count_after(v: int, ds: Seq<Direction>) -> int
    decreases ds.len(),
{
    if ds.len() == 0 {
        v
    } else {
        step_count(count_after(v, ds.drop_last()), ds.last())
    }
}

/// However many steps are taken, in whatever order, a count that starts in
/// `[0, 99]` stays there.
pub proof fn lemma_count_in_range(v: int, ds: Seq<Direction>)
    requires
        0 <= v <= MAX_COUNT,
    ensures
        0 <= count_after(v, ds) <= MAX_COUNT,
    decreases ds.len(),
{
    if ds.len() > 0 {
        lemma_count_in_range(v, ds.drop_last());
    }
}

/// The people count, between 0 and 99.
pub struct Counter {
    value: u8,
}

impl View for Counter {
    type V = int;

    closed spec fn view(&self) -> int {
        self.value as int
    }
}

impl Counter {
    #[verifier::type_invariant]
    spec fn inv(self) -> bool {
        self.value <= MAX_COUNT
    }

    /// A counter at 0.
    pub fn new() -> (r: Counter)
        ensures
            r@ == 0,
    {
        Counter { value: 0 }
    }

    /// The count.
    pub fn value(&self) -> (r: u8)
        ensures
            r == self@,
            r <= MAX_COUNT,
    {
        proof {
            use_type_invariant(self);
        }
        self.value
    }

    /// Take one step; returns whether the count changed.
    pub fn apply(&mut self, d: Direction) -> (changed: bool)
        ensures
            final(self)@ == step_count(old(self)@, d),
            changed == (final(self)@ != old(self)@),
        no_unwind
    {
        proof {
            use_type_invariant(&*self);
        }
        match d {
            Direction::Up => self.increment(),
            Direction::Down => self.decrement(),
        }
    }

    /// Add one, unless the count is at 99; returns whether it changed.
    pub fn increment(&mut self) -> (changed: bool)
        ensures
            final(self)@ == step_count(old(self)@, Direction::Up),
            changed == (final(self)@ != old(self)@),
        no_unwind
    {
        proof {
            use_type_invariant(&*self);
        }
        if self.value < MAX_COUNT {
            self.value = self.value + 1;
            true
        } else {
            false
        }
    }

    /// Take one away, unless the count is 0; returns whether it changed.
    pub fn decrement(&mut self) -> (changed: bool)
        ensures
            final(self)@ == step_count(old(self)@, Direction::Down),
            changed == (final(self)@ != old(self)@),
        no_unwind
    {
        proof {
            use_type_invariant(&*self);
        }
        if self.value > 0 {
            self.value = self.value - 1;
            true
        } else {
            false
        }
    }
}

} // verus!
