//! Bookkeeping for Wayland's `tablet_unstable_v2` protocol.

pub mod buttons;
pub mod concrete;
pub mod lists;
pub mod state;
pub mod summary;

use vstd::prelude::*;

use crate::axis::{CircularInfo, FullInfo, Info, LengthInfo, NormalizedInfo, SliderInfo};

verus! {

/// A Wayland button code.
pub type ButtonID = u32;

/// An axis a tool announces it can report.
#[derive(Clone, Copy, Debug, PartialEq, Eq, Structural)]
pub enum ToolCapability {
    Tilt,
    Pressure,
    Distance,
    Rotation,
    Slider,
    Wheel,
}

/// Record a capability a tool announced: the axis becomes supported, with nothing known of
/// its range or granularity (a distance is normalized); every other axis stays as it was.
pub fn add_capability<L>(axes: &mut FullInfo<L>, capability: ToolCapability)
    ensures
        *final(axes) == match capability {
            ToolCapability::Tilt => (FullInfo { tilt: Some(Info { limits: None, granularity: None }), ..*old(axes) }),
            ToolCapability::Pressure => (FullInfo { pressure: Some(NormalizedInfo { granularity: None }), ..*old(axes) }),
            ToolCapability::Distance => (FullInfo {
                distance: Some(LengthInfo::Normalized(NormalizedInfo { granularity: None })),
                ..*old(axes)
            }),
            ToolCapability::Rotation => (FullInfo { roll: Some(CircularInfo { granularity: None }), ..*old(axes) }),
            ToolCapability::Slider => (FullInfo { slider: Some(SliderInfo { granularity: None }), ..*old(axes) }),
            ToolCapability::Wheel => (FullInfo { wheel: Some(CircularInfo { granularity: None }), ..*old(axes) }),
        },
{
    match capability {
        ToolCapability::Tilt => axes.tilt = Some(Info { limits: None, granularity: None }),
        ToolCapability::Pressure => axes.pressure = Some(NormalizedInfo { granularity: None }),
        ToolCapability::Distance => axes.distance = Some(LengthInfo::Normalized(NormalizedInfo { granularity: None })),
        ToolCapability::Rotation => axes.roll = Some(CircularInfo { granularity: None }),
        ToolCapability::Slider => axes.slider = Some(SliderInfo { granularity: None }),
        ToolCapability::Wheel => axes.wheel = Some(CircularInfo { granularity: None }),
    }
}

} // verus!
