//! The guest accessibility sensor: which of its lines are accepted, and when an
//! observation counts as having reached the sensor.
use vstd::prelude::*;
use crate::text::{push_str, starts_with, str_equal, has_prefix};

verus! {

broadcast use vstd::string::group_string_axioms;

/// Longest sensor line accepted, in bytes.
pub const MAX_SENSOR_LINE_BYTES: usize = 1048576;

/// What an accessibility observation recorded.
#[derive(Clone, Copy, Debug)]
pub struct AccessibilityObserverResult {
    pub event_count: u64,
    pub ready_observed: bool,
}

/// Why the sensor's output was refused.
#[derive(Clone, Copy, Debug, PartialEq, Eq, Structural)]
pub enum AccessibilityError {
    LineTooLong,
    KindOutOfScope,
    NotReady,
}

impl AccessibilityError {
    /// The human-readable description of the error.
    pub open spec fn text(&self) -> Seq<char> {
        match *self {
            AccessibilityError::LineTooLong => "guest accessibility sensor line exceeds one MiB"@,
            AccessibilityError::KindOutOfScope => "guest accessibility event kind must start with accessibility."@,
            AccessibilityError::NotReady => "guest accessibility sensor closed or timed out before readiness"@,
        }
    }

    /// Renders the description of the error.
    pub fn message(&self) -> (r: String)
        ensures
            r@ == self.text(),
    {
        let mut s = String::new();
        match *self {
            AccessibilityError::LineTooLong => push_str(&mut s, "guest accessibility sensor line exceeds one MiB"),
            AccessibilityError::KindOutOfScope => push_str(
                &mut s,
                "guest accessibility event kind must start with accessibility.",
            ),
            AccessibilityError::NotReady => push_str(
                &mut s,
                "guest accessibility sensor closed or timed out before readiness",
            ),
        }
        s
    }
}

/// The progress of one observation: events accepted so far, and whether the sensor
/// announced that it is ready.
#[derive(Clone, Copy, Debug)]
pub struct AccessibilityObservation {
    pub event_count: u64,
    pub ready_observed: bool,
}

impl AccessibilityObservation {
    /// An observation that has accepted nothing.
    pub fn new() -> (r: Self)
        ensures
            r.event_count == 0,
            !r.ready_observed,
    {
        AccessibilityObservation { event_count: 0, ready_observed: false }
    }

    /// Refuses a sensor line longer than one MiB.
    pub fn check_line(&self, line_len: usize) -> (r: Result<(), AccessibilityError>)
        ensures
            line_len > MAX_SENSOR_LINE_BYTES ==> r == Err::<(), AccessibilityError>(
                AccessibilityError::LineTooLong,
            ),
            line_len <= MAX_SENSOR_LINE_BYTES ==> r is Ok,
    {
        if line_len > MAX_SENSOR_LINE_BYTES {
            Err(AccessibilityError::LineTooLong)
        } else {
            Ok(())
        }
    }

    /// Accepts a decoded event whose kind lies in the `accessibility.` namespace, and notes
    /// the readiness announcement.
    pub fn accept_event(&mut self, kind: &str) -> (r: Result<(), AccessibilityError>)
        requires
            old(self).event_count < u64::MAX,
        ensures
            !has_prefix(kind@, "accessibility."@) ==> r == Err::<(), AccessibilityError>(
                AccessibilityError::KindOutOfScope,
            ) && *final(self) == *old(self),
            has_prefix(kind@, "accessibility."@) ==> r is Ok && final(self).event_count
                == old(self).event_count + 1 && final(self).ready_observed == (old(
                self,
            ).ready_observed || kind@ == "accessibility.sensor.ready"@),
    {
        if !starts_with(kind, "accessibility.") {
            return Err(AccessibilityError::KindOutOfScope);
        }
        self.ready_observed = self.ready_observed || str_equal(kind, "accessibility.sensor.ready");
        self.event_count = self.event_count + 1;
        Ok(())
    }

    /// The result of an observation, which must have seen the sensor become ready.
    pub fn finish(&self) -> (r: Result<AccessibilityObserverResult, AccessibilityError>)
        ensures
            !self.ready_observed ==> r == Err::<AccessibilityObserverResult, AccessibilityError>(
                AccessibilityError::NotReady,
            ),
            self.ready_observed ==> (r matches Ok(x) && x.event_count == self.event_count
                && x.ready_observed),
    {
        if !self.ready_observed {
            return Err(AccessibilityError::NotReady);
        }
        Ok(AccessibilityObserverResult { event_count: self.event_count, ready_observed: true })
    }
}

} // verus!
