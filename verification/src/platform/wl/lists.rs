//! The small inline lists the Wayland backend keeps buttons in.

use smallvec::SmallVec;
use vstd::prelude::*;

verus! {

/// The buttons a tool holds, in an inline-first vector of the `smallvec` crate.
#[verifier::external_body]
pub struct HeldButtons {
    list: SmallVec<[u32; 4]>,
}

/// The button changes of a frame, in an inline-first vector of the `smallvec` crate.
#[verifier::external_body]
pub struct ButtonChanges {
    list: SmallVec<[(u32, bool); 1]>,
}

/// The buttons a tool holds, in the order they were pressed.
pub uninterp spec fn held_buttons(v: HeldButtons) -> Seq<u32>;

/// The button changes of a frame, in the order they happened.
pub uninterp spec fn button_changes(v: ButtonChanges) -> Seq<(u32, bool)>;

/// Lists are kept well below this length: the crate's growth panics long before `isize`
/// bytes, and no tablet has that many buttons.
pub const LIST_LIMIT: usize = 0x0fff_ffff;

/// `SmallVec::new`: an empty list.
#[verifier::external_body]
pub(crate) fn new_held() -> (r: HeldButtons)
    ensures
        held_buttons(r) == Seq::<u32>::empty(),
{
    HeldButtons { list: SmallVec::new() }
}

/// `SmallVec::as_slice`: the items in order.
#[verifier::external_body]
pub(crate) fn held_slice(v: &HeldButtons) -> (r: &[u32])
    ensures
        r@ == held_buttons(*v),
{
    v.list.as_slice()
}

/// `SmallVec::push`: the item appended at the end.
#[verifier::external_body]
pub(crate) fn held_push(v: &mut HeldButtons, x: u32)
    requires
        held_buttons(*old(v)).len() < LIST_LIMIT,
    ensures
        held_buttons(*final(v)) == held_buttons(*old(v)).push(x),
{
    v.list.push(x)
}

/// Whether `b` is kept when `button` is released.
pub(crate) fn keeps(b: &u32, button: u32) -> (r: bool)
    ensures
        r == (*b != button),
{
    *b != button
}

/// The items that are not `button`, in their order.
pub open spec fn without(held: Seq<u32>, button: u32) -> Seq<u32> {
    held.filter(|b: u32| b != button)
}

/// `SmallVec::retain`: the items that are not `button`, in their order.
#[verifier::external_body]
pub(crate) fn held_remove_all(v: &mut HeldButtons, button: u32)
    ensures
        held_buttons(*final(v)) == without(held_buttons(*old(v)), button),
{
    v.list.retain(|b| keeps(b, button))
}

/// `SmallVec::new`: an empty list.
#[verifier::external_body]
pub(crate) fn new_changes() -> (r: ButtonChanges)
    ensures
        button_changes(r) == Seq::<(u32, bool)>::empty(),
{
    ButtonChanges { list: SmallVec::new() }
}

/// `SmallVec::as_slice`: the items in order.
#[verifier::external_body]
pub(crate) fn changes_slice(v: &ButtonChanges) -> (r: &[(u32, bool)])
    ensures
        r@ == button_changes(*v),
{
    v.list.as_slice()
}

/// `SmallVec::push`: the item appended at the end.
#[verifier::external_body]
pub(crate) fn changes_push(v: &mut ButtonChanges, x: (u32, bool))
    requires
        button_changes(*old(v)).len() < LIST_LIMIT,
    ensures
        button_changes(*final(v)) == button_changes(*old(v)).push(x),
{
    v.list.push(x)
}

/// `SmallVec::clear`: no items.
#[verifier::external_body]
pub(crate) fn changes_clear(v: &mut ButtonChanges)
    ensures
        button_changes(*final(v)) == Seq::<(u32, bool)>::empty(),
{
    v.list.clear()
}

} // verus!
