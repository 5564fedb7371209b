use vstd::prelude::*;

verus! {

/// The four-line code that the BCD decoder shows as a dark tube.
pub const BLANK: u8 = 0x0F;

/// One nixie tube, as the levels (`true` = high) of the four lines that feed
/// its BCD decoder; `pin_a` is the least significant bit.
#[derive(Clone, Copy, Debug, PartialEq, Eq, Structural)]
pub struct NixieTube {
    pub pin_a: bool,
    pub pin_b: bool,
    pub pin_c: bool,
    pub pin_d: bool,
}

pub open spec fn bit(b: bool, weight: int) -> int {
    if b { weight } else { 0 }
}

/// What a digit code lights: `Some(d)` for a code of 0 to 9, nothing otherwise.
pub open spec fn lit_digit(code: int) -> Option<int> {
    if 0 <= code < 10 { Some(code) } else { None }
}

/// The code that `show_digit` puts on the lines: the digit for 0 to 9, blank otherwise.
pub open spec fn digit_code(d: u8) -> int {
    if d <= 9 { d as int } else { BLANK as int }
}

/// Code of the tens tube for a value: its tens digit, or blank when that is 0.
pub open spec fn tens_code(val: u8) -> int {
    let tens = (val / 10) % 100;
    if tens > 0 { digit_code(tens) } else { BLANK as int }
}

/// Code of the ones tube for a value: its ones digit, blank only for a zero value.
pub open spec fn ones_code(val: u8) -> int {
    let tens = (val / 10) % 100;
    let ones = val % 10;
    if tens > 0 || ones > 0 { ones as int } else { BLANK as int }
}

proof fn lemma_low_nibble(d: u8)
    ensures
        d % 16 == (if d & 0x01u8 > 0 { 1u8 } else { 0u8 }) + (if d & 0x02u8 > 0 { 2u8 } else { 0u8 })
            + (if d & 0x04u8 > 0 { 4u8 } else { 0u8 }) + (if d & 0x08u8 > 0 { 8u8 } else { 0u8 }),
{
    assert(d % 16 == (if d & 0x01u8 > 0 { 1u8 } else { 0u8 }) + (if d & 0x02u8 > 0 { 2u8 } else { 0u8 })
        + (if d & 0x04u8 > 0 { 4u8 } else { 0u8 }) + (if d & 0x08u8 > 0 { 8u8 } else { 0u8 })) by (bit_vector);
}

impl NixieTube {
    /// The four-bit code on the lines.
    pub open spec fn code(self) -> int {
        bit(self.pin_a, 1) + bit(self.pin_b, 2) + bit(self.pin_c, 4) + bit(self.pin_d, 8)
    }

    /// Show the specified digit.
    ///
    /// The value must be between 0 and 9. Otherwise, the tube will be turned off.
    pub fn show_digit(&mut self, digit: u8)
        ensures
            final(self).code() == digit_code(digit),
        no_unwind
    {
        if digit > 9 {
            self.off();
            return;
        }
        proof {
            lemma_low_nibble(digit);
        }
        self.pin_a = digit & 0x01 > 0;
        self.pin_b = digit & 0x02 > 0;
        self.pin_c = digit & 0x04 > 0;
        self.pin_d = digit & 0x08 > 0;
    }

    /// Turn off the tube: all four lines high, a code outside 0 to 9.
    pub fn off(&mut self)
        ensures
            final(self).code() == BLANK,
            final(self).pin_a && final(self).pin_b && final(self).pin_c && final(self).pin_d,
        no_unwind
    {
        self.pin_a = true;
        self.pin_b = true;
        self.pin_c = true;
        self.pin_d = true;
    }
}

/// A pair of two nixie tubes: the tens on the left, the ones on the right.
pub struct NixieTubePair {
    left: NixieTube,
    right: NixieTube,
}

impl View for NixieTubePair {
    type V = (NixieTube, NixieTube);

    closed spec fn view(&self) -> (NixieTube, NixieTube) {
        (self.left, self.right)
    }
}

impl NixieTubePair {
    /// Create a new instance.
    pub fn new(left: NixieTube, right: NixieTube) -> (r: Self)
        ensures
            r@ == (left, right),
    {
        NixieTubePair { left, right }
    }

    /// Return mutable reference to the left tube.
    pub fn left(&mut self) -> (r: &mut NixieTube)
        ensures
            *r == old(self)@.0,
            final(self)@ == (*final(r), old(self)@.1),
    {
        &mut self.left
    }

    /// Return mutable reference to the right tube.
    pub fn right(&mut self) -> (r: &mut NixieTube)
        ensures
            *r == old(self)@.1,
            final(self)@ == (old(self)@.0, *final(r)),
    {
        &mut self.right
    }

    /// Show a number; leading zeroes and the number 0 are not shown.
    pub fn show(&mut self, val: u8)
        ensures
            final(self)@.0.code() == tens_code(val),
            final(self)@.1.code() == ones_code(val),
        no_unwind
    {
        let tens = (val / 10) % 100;
        let ones = val % 10;
        if tens > 0 {
            self.left.show_digit(tens);
            self.right.show_digit(ones);
        } else if ones > 0 {
            self.left.off();
            self.right.show_digit(ones);
        } else {
            self.off();
        }
    }

    /// The two tubes, left then right.
    pub fn tubes(&self) -> (r: (NixieTube, NixieTube))
        ensures
            r == self@,
    {
        (self.left, self.right)
    }

    /// Turn off both tubes.
    pub fn off(&mut self)
        ensures
            final(self)@.0.code() == BLANK,
            final(self)@.1.code() == BLANK,
        no_unwind
    {
        self.left.off();
        self.right.off();
    }
}

} // verus!
