//! A small labelled stopwatch for coarse performance reporting.

use vstd::prelude::*;

verus! {

#[verifier::external_type_specification]
#[verifier::external_body]
pub struct ExInstant(std::time::Instant);

/// Relies on `std::time::Instant::now`: an opaque reading of the
/// monotonic clock; nothing can be promised of its value.
#[verifier::external_body]
fn instant_now() -> std::time::Instant {
    std::time::Instant::now()
}

/// Relies on `std::time::Instant::elapsed`: the span between `start` and
/// the clock at the call; nothing can be promised of its value.
#[verifier::external_body]
fn instant_elapsed(start: &std::time::Instant) -> std::time::Duration {
    start.elapsed()
}

/// A stopwatch started at creation, carrying a label for reporting.
pub struct PerfTimer {
    start: std::time::Instant,
    label: String,
}

impl PerfTimer {
    /// The label this timer was created with.
    pub closed spec fn label_view(&self) -> Seq<char> {
        self.label@
    }

    /// Start a timer under the given label.
    pub fn new(label: &str) -> (t: Self)
        ensures
            t.label_view() == label@,
    {
        PerfTimer { start: instant_now(), label: label.to_owned() }
    }

    /// The time since this timer was started. The reading is opaque: it
    /// depends on the clock at the moment of the call.
    pub fn elapsed(&self) -> std::time::Duration {
        instant_elapsed(&self.start)
    }

    /// The timer's label, for reporting alongside a reading.
    pub fn label(&self) -> (r: &String)
        ensures
            r@ == self.label_view(),
    {
        &self.label
    }
}

} // verus!
