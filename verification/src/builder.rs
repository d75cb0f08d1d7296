//! Builder-style configuration for connecting to the system tablet API, and the choice of a
//! backend from the kind of display a window lives on.

use vstd::prelude::*;

use crate::Backend;

verus! {

/// The error of fetching a display or window handle.
#[verifier::external_type_specification]
#[verifier::external_body]
pub struct ExHandleError(raw_window_handle::HandleError);

/// The error of building a manager.
#[derive(Debug)]
pub enum BuildError {
    /// The given window handle doesn't use a supported connection type. This includes cases
    /// where the platform is otherwise supported but its backend is not built in.
    Unsupported,
    /// Failed to acquire a window handle.
    HandleError(raw_window_handle::HandleError),
}

impl From<raw_window_handle::HandleError> for BuildError {
    fn from(value: raw_window_handle::HandleError) -> (r: BuildError) {
        BuildError::HandleError(value)
    }
}

impl vstd::std_specs::convert::FromSpecImpl<raw_window_handle::HandleError> for BuildError {
    open spec fn obeys_from_spec() -> bool {
        true
    }

    open spec fn from_spec(value: raw_window_handle::HandleError) -> BuildError {
        BuildError::HandleError(value)
    }
}

/// Pre-construction configuration for a manager.
#[derive(Default, Debug)]
pub struct Builder {}

impl Builder {
    /// The default configuration.
    pub fn new() -> (r: Self) {
        Builder {}
    }
}

/// The kind of display a window handle names.
#[derive(Clone, Copy, Debug, PartialEq, Eq, Structural)]
pub enum DisplayKind {
    Wayland,
    Windows,
    /// Any other display.
    Other,
}

/// The backend for a window on a display of kind `display`: Wayland's tablet protocol on a
/// Wayland display, and on a Windows display Ink's real-time stylus if the window is a Win32
/// window; anything else is unsupported.
pub fn backend_for(display: DisplayKind, win32_window: bool) -> (r: Result<Backend, BuildError>)
    ensures
        display == DisplayKind::Wayland ==> r matches Ok(Backend::WaylandTabletUnstableV2),
        display == DisplayKind::Windows && win32_window ==> r matches Ok(Backend::WindowsInkRealTimeStylus),
        display == DisplayKind::Windows && !win32_window ==> r matches Err(BuildError::Unsupported),
        display == DisplayKind::Other ==> r matches Err(BuildError::Unsupported),
{
    match display {
        DisplayKind::Wayland => Ok(Backend::WaylandTabletUnstableV2),
        DisplayKind::Windows => {
            if win32_window {
                Ok(Backend::WindowsInkRealTimeStylus)
            } else {
                Err(BuildError::Unsupported)
            }
        },
        DisplayKind::Other => Err(BuildError::Unsupported),
    }
}

} // verus!
