use vstd::prelude::*;

verus! {

/// An 8-bit countdown timer. The timer knows nothing of wall-clock time:
/// whoever owns it decides when a tick has passed.
pub struct Timer {
    value: u8,
}

impl View for Timer {
    type V = u8;

    closed spec fn view(&self) -> u8 {
        self.value
    }
}

impl Timer {
    /// A timer that has already run out.
    pub fn new() -> (timer: Self)
        ensures
            timer@ == 0,
    {
        Self { value: 0 }
    }

    /// One tick: the value moves one step toward zero and stays there.
    pub fn decrement(&mut self)
        ensures
            final(self)@ == if old(self)@ == 0 { 0 } else { old(self)@ - 1 },
    {
        if self.value > 0 {
            self.value = self.value - 1;
        }
    }

    pub fn set_value(&mut self, value: u8)
        ensures
            final(self)@ == value,
    {
        self.value = value;
    }

    pub fn get_value(&self) -> (value: u8)
        ensures
            value == self@,
    {
        self.value
    }
}

} // verus!
