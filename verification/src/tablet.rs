//! # Tablets
//!
//! A tablet is the logical device providing the system with access to pad and stylus data,
//! and the surface the tools report their interactions with.

use vstd::prelude::*;

verus! {

/// A USB vendor and product identifier pair.
#[derive(Debug, Clone, Copy, PartialEq, Eq, Structural)]
pub struct UsbId {
    /// Vendor ID
    pub vid: u16,
    /// Product ID
    pub pid: u16,
}

/// See [module level docs](`crate::tablet`) for details.
#[derive(Clone, Debug)]
pub struct Tablet {
    pub internal_id: crate::platform::InternalID,
    pub name: Option<String>,
    pub usb_id: Option<UsbId>,
}

/// The USB identifiers of a tablet from the two 32-bit words that carry them, or `None` when
/// either does not fit in 16 bits.
pub fn usb_id_from_words(vid: u32, pid: u32) -> (r: Option<UsbId>)
    ensures
        r is Some <==> (vid <= u16::MAX && pid <= u16::MAX),
        r matches Some(id) ==> id.vid == vid && id.pid == pid,
{
    if vid <= 0xffff && pid <= 0xffff {
        Some(UsbId { vid: vid as u16, pid: pid as u16 })
    } else {
        None
    }
}

} // verus!
