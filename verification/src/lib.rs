//! Cross-platform tablet, pad and stylus library: the platform-independent core.
//!
//! Hardware descriptions, event bookkeeping and the per-backend state machines
//! live here; the connections to the windowing servers drive them from outside.

pub mod axis;
pub mod builder;
pub mod lookup;
pub mod events;
pub mod pad;
pub mod platform;
pub mod tablet;
pub mod tool;
pub mod util;

use vstd::prelude::*;

verus! {

/// List of supported backends. This is not affected by enabled features.
#[derive(Clone, Copy, Debug, PartialEq, Eq, Structural)]
pub enum Backend {
    /// `tablet_unstable_v2` on Wayland.
    WaylandTabletUnstableV2,
    /// `XInput2` on an X server.
    XorgXInput2,
    /// `RealTimeStylus` on Windows Ink.
    WindowsInkRealTimeStylus,
}

} // verus!
