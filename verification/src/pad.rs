//! # Pads
//!
//! Pads represent collections of additional controls that a tablet provides on its surface,
//! including buttons, mode toggles, sliders, wheels, etc. A pad may be further divided into
//! groups, each with its own mode toggle.

use vstd::prelude::*;

verus! {

/// A collection of controls on a tablet.
#[derive(Debug)]
pub struct Pad {
    pub internal_id: crate::platform::InternalID,
    /// How many buttons total are on this pad.
    pub total_buttons: u32,
    /// Groups within this pad. Always at least one once the pad is reported.
    pub groups: Vec<Group>,
}

/// The type of interactable being queried for mode feedback.
#[derive(Copy, Clone)]
pub enum FeedbackElement<'a> {
    /// The button with the given pad index.
    Button(u32),
    Ring(&'a Ring),
    Strip(&'a Strip),
}

/// A group of controls within a pad.
#[derive(Debug)]
pub struct Group {
    pub internal_id: crate::platform::InternalID,
    /// How many mode layers does this group cycle through? Never `Some(0)`.
    /// If `None`, the group does not expose the ability to shift through modes.
    pub mode_count: Option<u32>,
    /// Sorted list of the pad button indices that are owned by this group.
    pub buttons: Vec<u32>,
    pub rings: Vec<Ring>,
    pub strips: Vec<Strip>,
}

/// The cause of a ring or strip interaction.
#[derive(Eq, PartialEq, Copy, Clone, Debug, Structural)]
pub enum TouchSource {
    Unknown,
    /// A finger is touching the surface.
    Finger,
}

/// A continuous circular touch-sensitive area or scrollwheel.
#[derive(Debug)]
pub struct Ring {
    pub internal_id: crate::platform::InternalID,
    /// Granularity of the reported angle, if known.
    pub granularity: Option<crate::axis::Granularity>,
}

/// A touch-sensitive strip or slider.
#[derive(Debug)]
pub struct Strip {
    pub internal_id: crate::platform::InternalID,
    /// Granularity of the reported linear position, if known.
    pub granularity: Option<crate::axis::Granularity>,
}

/// A mode count as a group reports it: zero modes means no mode switching.
pub fn mode_count_from(modes: u32) -> (r: Option<u32>)
    ensures
        modes == 0 <==> r is None,
        r matches Some(m) ==> m == modes,
{
    if modes == 0 {
        None
    } else {
        Some(modes)
    }
}

} // verus!
