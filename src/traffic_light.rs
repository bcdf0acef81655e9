use vstd::prelude::*;

verus! {

/// A signal with two states, green and red.
#[derive(Debug, Clone, Copy, PartialEq, Eq, Structural)]
pub struct TrafficLight {
    /// `true` when green.
    pub state: bool,
}

impl TrafficLight {
    /// A light that starts red.
    pub fn new() -> (r: TrafficLight)
        ensures
            !r.state,
    {
        TrafficLight { state: false }
    }

    /// Flips the light between green and red.
    pub fn change_state(&mut self)
        ensures
            final(self).state == !old(self).state,
    {
        self.state = !self.state;
    }

    /// Makes the light green or red.
    pub fn set_state(&mut self, green: bool)
        ensures
            final(self).state == green,
    {
        self.state = green;
    }

    pub fn is_green(&self) -> (r: bool)
        ensures
            r == self.state,
    {
        self.state
    }
}

} // verus!
