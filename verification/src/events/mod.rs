//! Sequential information about interactions.

pub mod raw;
pub mod resolve;

use vstd::prelude::*;

verus! {

/// Names the `Duration` that `Duration::from_millis` builds from a count of milliseconds.
pub uninterp spec fn duration_from_millis(millis: u64) -> std::time::Duration;

/// `Duration::from_millis`: the claim is only that the result is the duration that the
/// name `duration_from_millis` gives for the same count (it never panics).
#[verifier::external_body]
fn wrap_duration_from_millis(millis: u64) -> (d: std::time::Duration)
    ensures
        d == duration_from_millis(millis),
{
    std::time::Duration::from_millis(millis)
}

/// An opaque, monotonic timestamp with unspecified epoch, with millisecond precision.
///
/// Subtract two timestamps to get the duration between them, with [`FrameTimestamp::epoch`]
/// being the somewhat-meaningless starting point.
#[derive(Copy, Clone, Debug, Hash, PartialEq, Eq, PartialOrd, Ord, Structural)]
pub struct FrameTimestamp(u64);

impl FrameTimestamp {
    /// Milliseconds since the epoch.
    pub closed spec fn millis(self) -> u64 {
        self.0
    }

    /// The timestamp `millis` milliseconds after the epoch.
    pub closed spec fn at_millis(millis: u64) -> Self {
        FrameTimestamp(millis)
    }

    /// Two timestamps are equal exactly when their milliseconds are.
    pub proof fn lemma_at_millis(millis: u64)
        ensures
            Self::at_millis(millis).millis() == millis,
            forall|t: Self| t.millis() == millis ==> t == Self::at_millis(millis),
    {
    }

    /// The timestamp `millis` milliseconds after the epoch.
    pub fn from_millis(millis: u64) -> (t: Self)
        ensures
            t == Self::at_millis(millis),
            t.millis() == millis,
    {
        FrameTimestamp(millis)
    }

    /// Milliseconds since the epoch.
    pub fn as_millis(self) -> (m: u64)
        ensures
            m == self.millis(),
    {
        self.0
    }

    /// Get the epoch. This is only useful to subtract from other timestamps.
    pub fn epoch() -> (t: Self)
        ensures
            t.millis() == 0,
    {
        FrameTimestamp(0)
    }

    /// Get the time since the unspecified epoch.
    pub fn since_arbitrary(self) -> (d: std::time::Duration)
        ensures
            d == duration_from_millis(self.millis()),
    {
        wrap_duration_from_millis(self.0)
    }

    /// The duration from `earlier` to `self`.
    pub fn sub(self, earlier: Self) -> (d: std::time::Duration)
        requires
            earlier.millis() <= self.millis(),
        ensures
            d == duration_from_millis((self.millis() - earlier.millis()) as u64),
    {
        wrap_duration_from_millis(self.0 - earlier.0)
    }
}

/// Events associated with a specific tablet.
#[derive(Clone, Copy, Debug, PartialEq, Eq, Structural)]
pub enum TabletEvent {
    /// The tablet is new. May be enumerated at the start of the program,
    /// may be newly plugged in, or sent immediately before its first use.
    Added,
    /// Unplugged or otherwise becomes unavailable. The tablet will be removed from the hardware report.
    Removed,
}

/// Events for actions on a touch sensitive linear strip or circular ring. `V` holds a position
/// along the strip or ring.
#[derive(Clone, Copy, Debug)]
pub enum TouchStripEvent<V> {
    /// Single degree-of-freedom pose.
    Pose(V),
    /// Optionally sent with a frame to describe the cause of the events.
    Source(crate::pad::TouchSource),
    /// End of a frame.
    Frame(Option<FrameTimestamp>),
    /// The interaction is over. This is not guaranteed to be sent at any point.
    Up,
}

} // verus!
