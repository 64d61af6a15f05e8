use vstd::prelude::*;

verus! {

/// Switches that decide which call sites emit trace records.
#[derive(Debug, Clone, Copy, PartialEq, Eq, Structural)]
pub struct TraceOptions {
    /// Trace every call site.
    pub all: bool,
    /// Trace the workers' event loops.
    pub el: bool,
}

impl TraceOptions {
    /// Whether the workers' event loops emit records.
    pub fn traces_event_loop(&self) -> (r: bool)
        ensures
            r == (self.all || self.el),
    {
        self.all || self.el
    }
}

} // verus!
