//! Finding reported objects by their IDs.

use vstd::prelude::*;

use crate::pad::{Group, Pad};
use crate::platform::InternalID;
use crate::tablet::Tablet;
use crate::tool::Tool;

verus! {

/// `k` is the first position of `ids` holding `id`.
pub open spec fn first_at(ids: Seq<InternalID>, id: InternalID, k: int) -> bool {
    0 <= k < ids.len() && ids[k] == id && forall|j: int| 0 <= j < k ==> ids[j] != id
}

/// Whether `ids` holds `id`.
pub open spec fn holds(ids: Seq<InternalID>, id: InternalID) -> bool {
    exists|k: int| 0 <= k < ids.len() && ids[k] == id
}

/// The IDs of tablets, in order.
pub open spec fn tablet_ids(tablets: Seq<Tablet>) -> Seq<InternalID> {
    tablets.map_values(|t: Tablet| t.internal_id)
}

/// The IDs of tools, in order.
pub open spec fn tool_ids<L>(tools: Seq<Tool<L>>) -> Seq<InternalID> {
    tools.map_values(|t: Tool<L>| t.internal_id)
}

/// The IDs of pads, in order.
pub open spec fn pad_ids(pads: Seq<Pad>) -> Seq<InternalID> {
    pads.map_values(|p: Pad| p.internal_id)
}

/// The IDs of a pad's groups, in order.
pub open spec fn group_ids(groups: Seq<Group>) -> Seq<InternalID> {
    groups.map_values(|g: Group| g.internal_id)
}

/// The first group of `groups` that owns button `idx`.
pub open spec fn owner_at(groups: Seq<Group>, idx: u32, k: int) -> bool {
    0 <= k < groups.len() && groups[k].buttons@.contains(idx) && forall|j: int|
        0 <= j < k ==> !groups[j].buttons@.contains(idx)
}

/// The IDs of a group's rings, in order.
pub open spec fn group_ring_ids(group: &Group) -> Seq<InternalID> {
    group.rings@.map_values(|r: crate::pad::Ring| r.internal_id)
}

/// The IDs of a group's strips, in order.
pub open spec fn group_strip_ids(group: &Group) -> Seq<InternalID> {
    group.strips@.map_values(|r: crate::pad::Strip| r.internal_id)
}

/// The first position of `id` in `ids`.
pub(crate) fn find_id(ids: &Vec<InternalID>, id: InternalID) -> (r: Option<usize>)
    ensures
        r matches Some(k) ==> first_at(ids@, id, k as int),
        r is None ==> !holds(ids@, id),
{
    let mut i: usize = 0;
    while i < ids.len()
        invariant
            i <= ids@.len(),
            forall|j: int| 0 <= j < i ==> ids@[j] != id,
        decreases ids@.len() - i,
    {
        if ids[i] == id {
            return Some(i);
        }
        i = i + 1;
    }
    None
}

pub(crate) fn collect_tablet_ids(tablets: &[Tablet]) -> (r: Vec<InternalID>)
    ensures
        r@ == tablet_ids(tablets@),
{
    let mut r: Vec<InternalID> = Vec::new();
    let mut i: usize = 0;
    while i < tablets.len()
        invariant
            i <= tablets@.len(),
            r@ == tablet_ids(tablets@.take(i as int)),
        decreases tablets@.len() - i,
    {
        r.push(tablets[i].internal_id);
        proof {
            assert(tablets@.take(i + 1) =~= tablets@.take(i as int).push(tablets@[i as int]));
        }
        i = i + 1;
    }
    assert(tablets@.take(i as int) =~= tablets@);
    r
}

pub(crate) fn collect_tool_ids<L>(tools: &[Tool<L>]) -> (r: Vec<InternalID>)
    ensures
        r@ == tool_ids(tools@),
{
    let mut r: Vec<InternalID> = Vec::new();
    let mut i: usize = 0;
    while i < tools.len()
        invariant
            i <= tools@.len(),
            r@ == tool_ids(tools@.take(i as int)),
        decreases tools@.len() - i,
    {
        r.push(tools[i].internal_id);
        proof {
            assert(tools@.take(i + 1) =~= tools@.take(i as int).push(tools@[i as int]));
        }
        i = i + 1;
    }
    assert(tools@.take(i as int) =~= tools@);
    r
}

pub(crate) fn collect_pad_ids(pads: &[Pad]) -> (r: Vec<InternalID>)
    ensures
        r@ == pad_ids(pads@),
{
    let mut r: Vec<InternalID> = Vec::new();
    let mut i: usize = 0;
    while i < pads.len()
        invariant
            i <= pads@.len(),
            r@ == pad_ids(pads@.take(i as int)),
        decreases pads@.len() - i,
    {
        r.push(pads[i].internal_id);
        proof {
            assert(pads@.take(i + 1) =~= pads@.take(i as int).push(pads@[i as int]));
        }
        i = i + 1;
    }
    assert(pads@.take(i as int) =~= pads@);
    r
}

pub(crate) fn collect_group_ids(groups: &Vec<Group>) -> (r: Vec<InternalID>)
    ensures
        r@ == group_ids(groups@),
{
    let mut r: Vec<InternalID> = Vec::new();
    let mut i: usize = 0;
    while i < groups.len()
        invariant
            i <= groups@.len(),
            r@ == group_ids(groups@.take(i as int)),
        decreases groups@.len() - i,
    {
        r.push(groups[i].internal_id);
        proof {
            assert(groups@.take(i + 1) =~= groups@.take(i as int).push(groups@[i as int]));
        }
        i = i + 1;
    }
    assert(groups@.take(i as int) =~= groups@);
    r
}

pub(crate) fn owns(buttons: &Vec<u32>, idx: u32) -> (r: bool)
    ensures
        r == buttons@.contains(idx),
{
    let mut i: usize = 0;
    while i < buttons.len()
        invariant
            i <= buttons@.len(),
            forall|j: int| 0 <= j < i ==> buttons@[j] != idx,
        decreases buttons@.len() - i,
    {
        if buttons[i] == idx {
            assert(buttons@[i as int] == idx);
            return true;
        }
        i = i + 1;
    }
    false
}

pub(crate) fn button_owner(groups: &Vec<Group>, idx: u32) -> (r: Option<usize>)
    ensures
        r matches Some(k) ==> owner_at(groups@, idx, k as int),
        r is None ==> forall|k: int| 0 <= k < groups@.len() ==> !groups@[k].buttons@.contains(idx),
{
    let mut i: usize = 0;
    while i < groups.len()
        invariant
            i <= groups@.len(),
            forall|j: int| 0 <= j < i ==> !groups@[j].buttons@.contains(idx),
        decreases groups@.len() - i,
    {
        if owns(&groups[i].buttons, idx) {
            return Some(i);
        }
        i = i + 1;
    }
    None
}

pub(crate) fn collect_ring_ids(group: &Group) -> (r: Vec<InternalID>)
    ensures
        r@ == group_ring_ids(group),
{
    let mut r: Vec<InternalID> = Vec::new();
    let mut i: usize = 0;
    while i < group.rings.len()
        invariant
            i <= group.rings@.len(),
            r@ == group.rings@.take(i as int).map_values(|r: crate::pad::Ring| r.internal_id),
        decreases group.rings@.len() - i,
    {
        r.push(group.rings[i].internal_id);
        proof {
            assert(group.rings@.take(i + 1) =~= group.rings@.take(i as int).push(group.rings@[i as int]));
        }
        i = i + 1;
    }
    assert(group.rings@.take(i as int) =~= group.rings@);
    r
}

pub(crate) fn collect_strip_ids(group: &Group) -> (r: Vec<InternalID>)
    ensures
        r@ == group_strip_ids(group),
{
    let mut r: Vec<InternalID> = Vec::new();
    let mut i: usize = 0;
    while i < group.strips.len()
        invariant
            i <= group.strips@.len(),
            r@ == group.strips@.take(i as int).map_values(|r: crate::pad::Strip| r.internal_id),
        decreases group.strips@.len() - i,
    {
        r.push(group.strips[i].internal_id);
        proof {
            assert(group.strips@.take(i + 1) =~= group.strips@.take(i as int).push(group.strips@[i as int]));
        }
        i = i + 1;
    }
    assert(group.strips@.take(i as int) =~= group.strips@);
    r
}

} // verus!
