//! Structured diagnostics.
//!
//! Numeric code in this library never aborts: conditions worth reporting are
//! recorded as events in an injected sink, so callers and tests can observe
//! exactly what degraded and why.

use vstd::prelude::*;

verus! {

/// One diagnostic event.
#[derive(Clone, Copy, PartialEq, Eq, Structural, Debug)]
pub enum DiagEvent {
    /// A charge lay outside the physical domain and was skipped during
    /// deposition.
    ChargeOutOfBounds,
    /// A charge's grid path left the padded grid and its current was skipped.
    CurrentPathOutOfGrid,
    /// A field query lay outside the physical domain and returned zero.
    PointOutOfBounds,
    /// A field query arrived before the grids were initialized and returned
    /// zero.
    FieldsUninitialized,
    /// The crossing-point search aborted on a vanishing gradient or its step
    /// cap and returned the starting point.
    CrossingSearchAborted,
    /// The crossing-point bisection hit its step cap and returned its best
    /// estimate.
    BisectionCapReached,
    /// Contour extraction stopped at the contour cap.
    ContourCapReached,
    /// A grid handed in for initialization did not match the geometry's
    /// extent and was rejected.
    GridSizeMismatch,
}

/// A diagnostic sink: it records events in order.
pub struct DiagSink {
    /// The events recorded so far, oldest first.
    pub events: Vec<DiagEvent>,
}

impl DiagSink {
    /// An empty sink.
    pub fn new() -> (s: DiagSink)
        ensures
            s.events@.len() == 0,
    {
        DiagSink { events: Vec::new() }
    }

    /// Record one event.
    pub fn record(&mut self, e: DiagEvent)
        ensures
            final(self).events@ == old(self).events@.push(e),
    {
        self.events.push(e);
    }

    /// How many events have been recorded.
    pub fn len(&self) -> (n: usize)
        ensures
            n == self.events@.len(),
    {
        self.events.len()
    }
}

} // verus!
