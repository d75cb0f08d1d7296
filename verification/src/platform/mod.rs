//! Platform identifiers and the per-backend state machines.

pub mod ink;
pub mod wl;
pub mod xinput2;

use vstd::prelude::*;

verus! {

/// Holds any one of the internal platform IDs.
#[derive(Clone, Copy, Debug, PartialEq, Eq, Structural)]
pub enum InternalID {
    /// A Wayland object, numbered uniquely for the connection's lifetime.
    Wayland(u64),
    Ink(ink::ID),
    XInput2(xinput2::ID),
}

impl InternalID {
    /// The Wayland ID. The caller must know the ID comes from the Wayland backend.
    pub fn unwrap_wl(&self) -> (id: u64)
        requires
            self is Wayland,
        ensures
            *self == InternalID::Wayland(id),
    {
        match self {
            InternalID::Wayland(id) => *id,
            _ => {
                assert(false);
                0
            },
        }
    }

    /// The Ink ID. The caller must know the ID comes from the Ink backend.
    pub fn unwrap_ink(&self) -> (id: ink::ID)
        requires
            self is Ink,
        ensures
            *self == InternalID::Ink(id),
    {
        match self {
            InternalID::Ink(id) => *id,
            _ => {
                assert(false);
                ink::ID::Tablet(0)
            },
        }
    }

    /// The XInput2 ID. The caller must know the ID comes from the XInput2 backend.
    pub fn unwrap_xinput2(&self) -> (id: xinput2::ID)
        requires
            self is XInput2,
        ensures
            *self == InternalID::XInput2(id),
    {
        match self {
            InternalID::XInput2(id) => *id,
            _ => {
                assert(false);
                xinput2::ID::EmulatedTablet
            },
        }
    }
}

impl From<u64> for InternalID {
    fn from(value: u64) -> Self {
        InternalID::Wayland(value)
    }
}

impl vstd::std_specs::convert::FromSpecImpl<u64> for InternalID {
    open spec fn obeys_from_spec() -> bool {
        true
    }

    open spec fn from_spec(v: u64) -> Self {
        InternalID::Wayland(v)
    }
}

impl From<ink::ID> for InternalID {
    fn from(value: ink::ID) -> Self {
        InternalID::Ink(value)
    }
}

impl vstd::std_specs::convert::FromSpecImpl<ink::ID> for InternalID {
    open spec fn obeys_from_spec() -> bool {
        true
    }

    open spec fn from_spec(v: ink::ID) -> Self {
        InternalID::Ink(v)
    }
}

impl From<xinput2::ID> for InternalID {
    fn from(value: xinput2::ID) -> Self {
        InternalID::XInput2(value)
    }
}

impl vstd::std_specs::convert::FromSpecImpl<xinput2::ID> for InternalID {
    open spec fn obeys_from_spec() -> bool {
        true
    }

    open spec fn from_spec(v: xinput2::ID) -> Self {
        InternalID::XInput2(v)
    }
}

/// Holds any one of the internal platform button IDs.
#[derive(Copy, Clone, Debug, PartialEq, Eq, Structural)]
pub enum ButtonID {
    /// A Wayland button code.
    Wayland(u32),
    Ink(ink::ButtonID),
    /// An XInput button index, never zero.
    XInput2(u16),
}

impl ButtonID {
    /// The Wayland button code. The caller must know the button comes from the Wayland backend.
    pub fn unwrap_wl(&self) -> (b: u32)
        requires
            self is Wayland,
        ensures
            *self == ButtonID::Wayland(b),
    {
        match self {
            ButtonID::Wayland(b) => *b,
            _ => {
                assert(false);
                0
            },
        }
    }

    /// The Ink button. The caller must know the button comes from the Ink backend.
    pub fn unwrap_ink(&self) -> (b: ink::ButtonID)
        requires
            self is Ink,
        ensures
            *self == ButtonID::Ink(b),
    {
        match self {
            ButtonID::Ink(b) => *b,
            _ => {
                assert(false);
                ink::ButtonID(ink::Guid { data1: 0, data2: 0, data3: 0, data4: 0 })
            },
        }
    }
}

} // verus!
