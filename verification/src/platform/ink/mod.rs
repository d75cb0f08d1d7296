//! Bookkeeping for Windows Ink's `RealTimeStylus` interface.

pub mod frame;
pub mod packet;

use vstd::prelude::*;

verus! {

/// An Ink device ID.
#[derive(Clone, Copy, Debug, PartialEq, Eq, Structural)]
pub enum ID {
    /// "Tablet contextual ID" (`tcid`)
    Tablet(u32),
    /// Stylus ID and the `IInkCursor` ID, if known.
    Stylus { sid: u32, cursor_id: Option<i32> },
}

/// The fields of a COM `GUID`.
#[derive(Clone, Copy, Debug, PartialEq, Eq, Structural)]
pub struct Guid {
    pub data1: u32,
    pub data2: u16,
    pub data3: u16,
    /// The eight final bytes, first byte most significant.
    pub data4: u64,
}

/// An Ink stylus button, named by its GUID.
#[derive(Clone, Copy, Debug, PartialEq, Eq, Structural)]
pub struct ButtonID(pub Guid);

impl ButtonID {
    /// Whether `self` sorts before `other`: by the GUID's fields in order, the last eight
    /// bytes compared from the first.
    pub open spec fn spec_precedes(self, other: ButtonID) -> bool {
        let (a, b) = (self.0, other.0);
        a.data1 < b.data1 || (a.data1 == b.data1 && (a.data2 < b.data2 || (a.data2 == b.data2 && (a.data3
            < b.data3 || (a.data3 == b.data3 && a.data4 < b.data4)))))
    }

    /// Whether `self` sorts before `other`.
    pub fn precedes(&self, other: &ButtonID) -> (r: bool)
        ensures
            r == self.spec_precedes(*other),
    {
        let (a, b) = (self.0, other.0);
        a.data1 < b.data1 || (a.data1 == b.data1 && (a.data2 < b.data2 || (a.data2 == b.data2 && (a.data3
            < b.data3 || (a.data3 == b.data3 && a.data4 < b.data4)))))
    }
}

/// At most this many tablets are announced when the stylus service starts.
pub const MAX_ANNOUNCED_TABLETS: u32 = 8;

/// At most this many properties come with a stylus going down or up.
pub const MAX_PACKET_PROPS: u32 = 32;

/// At most this many properties come with a batch of packets.
pub const MAX_BATCH_PROPS: u32 = 0x7FFF;

/// The number of items a callback's buffer holds, if `count` is allowed: zero needs no
/// buffer, and more than `max` is an invalid argument.
pub fn callback_len(count: u32, max: u32) -> (r: Option<usize>)
    ensures
        count <= max <==> r is Some,
        r matches Some(n) ==> n == count,
{
    if count <= max {
        Some(count as usize)
    } else {
        None
    }
}

} // verus!
