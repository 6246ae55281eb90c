//! The health snapshot that the controller keeps for whoever asks.

use vstd::prelude::*;
use vstd::string::*;
use crate::clock::now_micros;

verus! {

/// The identity under which the controller reports its events.
pub const REPORTER: &'static str = "doc-controller";

/// When the controller last started a reconciliation, and under which
/// identity it reports events.
#[derive(Debug, Clone, PartialEq, Eq)]
pub struct Diagnostics {
    /// Start of the latest reconciliation, in microseconds since the epoch.
    pub last_event: i64,
    /// The identity of the controller as the source of events.
    pub reporter: String,
}

impl Default for Diagnostics {
    /// Diagnostics of a controller that starts now.
    fn default() -> (d: Diagnostics)
        ensures
            d.reporter@ == REPORTER@,
    {
        Diagnostics::started_at(now_micros())
    }
}

impl Diagnostics {
    /// Diagnostics of a controller that starts at `now_micros`.
    pub fn started_at(now_micros: i64) -> (d: Diagnostics)
        ensures
            d.last_event == now_micros,
            d.reporter@ == REPORTER@,
    {
        Diagnostics { last_event: now_micros, reporter: String::from_str(REPORTER) }
    }

    /// Notes that a reconciliation starts now. The time is that of the
    /// latest attempt, successful or not.
    pub fn touch(&mut self)
        ensures
            final(self).reporter == old(self).reporter,
    {
        let now = now_micros();
        self.touch_at(now);
    }

    /// Notes that a reconciliation starts at `now_micros`.
    pub fn touch_at(&mut self, now_micros: i64)
        ensures
            final(self).last_event == now_micros,
            final(self).reporter == old(self).reporter,
    {
        self.last_event = now_micros;
    }

    /// A copy of the diagnostics as they are now; later reconciliations do
    /// not change it.
    pub fn snapshot(&self) -> (d: Diagnostics)
        ensures
            d.last_event == self.last_event,
            d.reporter@ == self.reporter@,
    {
        Diagnostics { last_event: self.last_event, reporter: self.reporter.clone() }
    }
}

} // verus!
