//! Interned atoms used by the XInput implementation and by certain driver implementations.

use vstd::prelude::*;

verus! {

/// An interned atom: never the null atom zero.
#[derive(Copy, Clone, Debug, PartialEq, Eq, Structural)]
pub struct Atom(u32);

impl Atom {
    #[verifier::type_invariant]
    closed spec fn nonzero(self) -> bool {
        self.0 != 0
    }

    /// The atom's number.
    pub closed spec fn value(self) -> u32 {
        self.0
    }

    /// The atom numbered `value`, or `None` for the null atom.
    pub fn new(value: u32) -> (r: Option<Atom>)
        ensures
            value == 0 <==> r is None,
            r matches Some(a) ==> a.value() == value,
    {
        if value == 0 {
            None
        } else {
            Some(Atom(value))
        }
    }

    /// The atom's number, never zero.
    pub fn get(self) -> (v: u32)
        ensures
            v == self.value(),
            v != 0,
    {
        proof {
            use_type_invariant(&self);
        }
        self.0
    }
}

/// The error of interning an atom.
#[derive(Debug, Clone, Copy, PartialEq, Eq, Structural)]
pub enum InternError {
    /// The connection failed.
    Connection,
    /// The server replied with an error.
    Reply,
    /// The server replied with the null atom.
    NullReply,
}

/// An atom from the number an intern reply carries; the null atom is an error.
pub fn atom_from_reply(value: u32) -> (r: Result<Atom, InternError>)
    ensures
        value == 0 <==> r == Err::<Atom, InternError>(InternError::NullReply),
        r matches Ok(a) ==> a.value() == value,
{
    match Atom::new(value) {
        Some(a) => Ok(a),
        None => Err(InternError::NullReply),
    }
}

/// Interned atoms of the xf86-input-wacom driver.
#[derive(Copy, Clone, Debug)]
pub struct WacomAtoms {
    pub prop_tool_type: Atom,
    pub type_stylus: Atom,
    pub type_cursor: Atom,
    pub type_eraser: Atom,
    pub type_pad: Atom,
    pub prop_serial_ids: Atom,
}

/// Interned atoms of the xf86-input-libinput driver.
#[derive(Copy, Clone, Debug)]
pub struct LibinputAtoms {
    pub prop_tool_serial: Atom,
    pub prop_tool_id: Atom,
    pub prop_pad_group_modes_available: Atom,
    pub prop_pad_group_current_modes: Atom,
    pub prop_pad_button_groups: Atom,
    pub prop_pad_strip_groups: Atom,
    pub prop_pad_ring_groups: Atom,
    pub prop_heartbeat: Atom,
}

/// Interned atoms of the XInput server's device properties.
#[derive(Copy, Clone, Debug)]
pub struct XiAtoms {
    pub prop_product_id: Atom,
    pub prop_device_node: Atom,
}

/// Interned labels of absolute valuator axes.
#[derive(Copy, Clone, Debug)]
pub struct AbsoluteAxisAtoms {
    pub x: Atom,
    pub y: Atom,
    /// "Roll" here.
    pub rz: Atom,
    pub distance: Atom,
    pub pressure: Atom,
    pub tilt_x: Atom,
    pub tilt_y: Atom,
    pub wheel: Atom,
}

/// Interned atoms.
#[derive(Copy, Clone, Debug)]
pub struct Atoms {
    pub wacom: WacomAtoms,
    pub libinput: LibinputAtoms,
    pub xi: XiAtoms,
    pub absolute_axes: AbsoluteAxisAtoms,
}

} // verus!
