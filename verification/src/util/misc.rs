//! A modulo counter used for frame decimation.

use vstd::prelude::*;

verus! {

/// Counts ticks modulo a fixed period; a node that should only refresh every
/// n-th tick acts when the counter reads zero.
#[derive(Debug)]
pub struct FrameCounter {
    counter: usize,
    modulo: usize,
}

impl FrameCounter {
    pub closed spec fn counter_val(self) -> nat {
        self.counter as nat
    }

    pub closed spec fn modulo_val(self) -> nat {
        self.modulo as nat
    }

    pub open spec fn wf(self) -> bool {
        self.modulo_val() > 0 && self.counter_val() < self.modulo_val()
    }

    pub fn new(modulo: usize) -> (c: FrameCounter)
        requires
            modulo > 0,
        ensures
            c.wf(),
            c.counter_val() == 0,
            c.modulo_val() == modulo,
    {
        FrameCounter { counter: 0, modulo }
    }

    /// Return the current reading and step to the next one, wrapping at the
    /// period.
    pub fn fetch_inc(&mut self) -> (value: usize)
        requires
            old(self).wf(),
        ensures
            final(self).wf(),
            value == old(self).counter_val(),
            final(self).modulo_val() == old(self).modulo_val(),
            final(self).counter_val() as int == ((old(self).counter_val() + 1) as int) % (old(
                self,
            ).modulo_val() as int),
    {
        let value = self.counter;
        self.counter = (self.counter + 1) % self.modulo;
        value
    }
}

} // verus!
