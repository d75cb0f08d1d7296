//! # Tools
//!
//! Also called a *stylus* or *pointer*, these represent the device that the user holds to
//! interact with a pad. A single stylus with a tip and eraser represents *two* tools.

use vstd::prelude::*;

verus! {

/// An opaque representation of a tool button. A single button ID is not necessarily unique
/// across tools.
#[derive(Copy, Clone, Debug, PartialEq, Eq)]
pub struct ButtonID(pub crate::platform::ButtonID);

/// An opaque identifier that is baked into the hardware of the tool. Connects related tools
/// together - for example, a pen and its eraser share the same hardware id.
#[derive(Copy, Clone, Debug, PartialEq, Eq, Structural)]
pub struct HardwareID(pub u64);

/// The kind of a tool.
#[derive(Clone, Copy, Debug, PartialEq, Eq, Structural)]
pub enum Type {
    Pen,
    Pencil,
    Brush,
    /// A nib found on the reverse of some styli primarily intended to erase.
    Eraser,
    /// A tool designed to work in the space above the surface.
    Airbrush,
    /// A touch.
    Finger,
    /// A mouse-like device that rests on the surface and provides absolute coordinates.
    Mouse,
    /// A mouse-like device with a transparent crosshair for precise selection.
    Lens,
    /// A virtual tool emulated from conventional mouse or touch input.
    Emulated,
}

/// The name of each tool type.
pub open spec fn tool_type_name(t: Type) -> Seq<char> {
    match t {
        Type::Pen => "Pen"@,
        Type::Pencil => "Pencil"@,
        Type::Brush => "Brush"@,
        Type::Eraser => "Eraser"@,
        Type::Airbrush => "Airbrush"@,
        Type::Finger => "Finger"@,
        Type::Mouse => "Mouse"@,
        Type::Lens => "Lens"@,
        Type::Emulated => "Emulated"@,
    }
}

impl Type {
    /// The name of the variant.
    pub fn as_str(&self) -> (name: &'static str)
        ensures
            name@ == tool_type_name(*self),
    {
        match self {
            Type::Pen => "Pen",
            Type::Pencil => "Pencil",
            Type::Brush => "Brush",
            Type::Eraser => "Eraser",
            Type::Airbrush => "Airbrush",
            Type::Finger => "Finger",
            Type::Mouse => "Mouse",
            Type::Lens => "Lens",
            Type::Emulated => "Emulated",
        }
    }
}

/// Description of the capabilities of a tool. `L` holds the limits of dynamic-range axes.
#[derive(Clone, Debug)]
pub struct Tool<L> {
    /// Platform internal ID.
    pub internal_id: crate::platform::InternalID,
    pub name: Option<String>,
    /// Identifier uniquely representing this tool hardware, if known.
    pub hardware_id: Option<HardwareID>,
    /// A unique tool type reported by wacom devices.
    pub wacom_id: Option<u64>,
    /// Type of the tool, if known.
    pub tool_type: Option<Type>,
    /// The capabilities of the axes reported by this device.
    pub axes: crate::axis::FullInfo<L>,
}

/// The 64-bit value carried as a high and a low 32-bit half.
pub open spec fn join_halves(hi: u32, lo: u32) -> int {
    (hi as u64) * 0x1_0000_0000 + (lo as u64)
}

/// Join the high and low halves of a 64-bit hardware identifier.
pub fn id_from_halves(hi: u32, lo: u32) -> (r: u64)
    ensures
        r == join_halves(hi, lo),
{
    let h = hi as u64;
    let l = lo as u64;
    assert((h << 32u64) | l == h * 0x1_0000_0000 + l) by (bit_vector)
        requires
            h <= 0xffff_ffff,
            l <= 0xffff_ffff,
    ;
    (h << 32u64) | l
}

} // verus!
