//! The summary resolved against the reported devices: each summarized object is named by
//! its position in the device lists, and objects that are not reported are left out.

use vstd::prelude::*;

use super::summary::{Group as GroupSummary, Pad as PadSummary, PadButton, Ring as RingSummary, Strip as StripSummary, Summary};
use crate::lookup::{
    button_owner, collect_group_ids, collect_pad_ids, collect_ring_ids, collect_strip_ids, collect_tablet_ids,
    collect_tool_ids, find_id, first_at, group_ids, group_ring_ids, group_strip_ids, holds, owner_at, pad_ids,
    tablet_ids, tool_ids,
};
use crate::pad::{Group, Pad, TouchSource};
use crate::platform::InternalID;
use crate::tablet::Tablet;
use crate::tool::Tool;

verus! {

/// The tool in use, over a tablet: positions in the tool and tablet lists.
pub struct InState<P> {
    pub tool: usize,
    pub tablet: usize,
    pub pose: P,
    pub down: bool,
    pub pressed_buttons: Vec<u32>,
}

/// A pad button: the position of the group owning it, if any.
#[derive(Clone, Copy, Debug, PartialEq, Eq, Structural)]
pub struct PadButtonState {
    pub group: Option<usize>,
    pub currently_pressed: bool,
    pub count: usize,
}

/// A ring: its position in its group's rings.
#[derive(Clone, Copy, Debug)]
pub struct RingState<F> {
    pub ring: usize,
    pub angle: Option<F>,
    pub touched_by: Option<TouchSource>,
    pub delta_radians: Option<F>,
}

/// A strip: its position in its group's strips.
#[derive(Clone, Copy, Debug)]
pub struct StripState<F> {
    pub strip: usize,
    pub position: Option<F>,
    pub touched_by: Option<TouchSource>,
    pub delta: Option<F>,
}

/// A group: its position in its pad's groups.
pub struct GroupState<F> {
    pub group: usize,
    pub mode: Option<u32>,
    pub rings: Vec<RingState<F>>,
    pub strips: Vec<StripState<F>>,
}

/// A pad: its position in the pad list, and that of its tablet if known.
pub struct PadState<F> {
    pub pad: usize,
    pub tablet: Option<usize>,
    pub groups: Vec<GroupState<F>>,
    pub buttons: Vec<PadButtonState>,
}

/// The resolved summary.
pub struct ConcreteSummary<P, F> {
    pub tool: Option<InState<P>>,
    pub pads: Vec<PadState<F>>,
}









/// `st` is the state of summarized ring `s` among the rings whose IDs are `ids`.
pub open spec fn ring_resolved<F>(st: RingState<F>, s: RingSummary<F>, ids: Seq<InternalID>) -> bool {
    &&& first_at(ids, InternalID::Wayland(s.id), st.ring as int)
    &&& st.angle == s.last_pos
    &&& st.delta_radians == s.delta
    &&& st.touched_by == match s.pressed {
        Some(p) => Some(p.source),
        None => None,
    }
}

/// The ring states of the summarized rings that the group reports, in order.
fn resolve_rings<F: Copy>(group: &Group, rings: &Vec<RingSummary<F>>) -> (r: Vec<RingState<F>>)
    ensures
        r@.len() == rings@.filter(|s: RingSummary<F>| holds(group_ring_ids(group), InternalID::Wayland(s.id))).len(),
        forall|i: int|
            0 <= i < r@.len() ==> ring_resolved(
                #[trigger] r@[i],
                rings@.filter(|s: RingSummary<F>| holds(group_ring_ids(group), InternalID::Wayland(s.id)))[i],
                group_ring_ids(group),
            ),
{
    let ids = collect_ring_ids(group);
    let ghost pred = |s: RingSummary<F>| holds(group_ring_ids(group), InternalID::Wayland(s.id));
    let mut out: Vec<RingState<F>> = Vec::new();
    let mut i: usize = 0;
    while i < rings.len()
        invariant
            i <= rings@.len(),
            ids@ == group_ring_ids(group),
            pred == (|s: RingSummary<F>| holds(group_ring_ids(group), InternalID::Wayland(s.id))),
            out@.len() == rings@.take(i as int).filter(pred).len(),
            forall|k: int|
                0 <= k < out@.len() ==> ring_resolved(#[trigger] out@[k], rings@.take(i as int).filter(pred)[k], group_ring_ids(group)),
        decreases rings@.len() - i,
    {
        let s = &rings[i];
        let ghost old_out = out@;
        proof {
            reveal(Seq::filter);
            assert(rings@.take(i + 1).drop_last() =~= rings@.take(i as int));
            assert(rings@.take(i + 1).last() == *s);
        }
        let found = find_id(&ids, InternalID::Wayland(s.id));
        proof {
            if found is Some {
                assert(pred(*s));
            } else {
                assert(!pred(*s));
            }
        }
        match found {
            Some(k) => {
                let touched_by = match s.pressed {
                    Some(p) => Some(p.source),
                    None => None,
                };
                out.push(RingState { ring: k, angle: s.last_pos, touched_by, delta_radians: s.delta });
            },
            None => {},
        }
        proof {
            reveal(Seq::filter);
            let prev = rings@.take(i as int).filter(pred);
            let next = rings@.take(i + 1).filter(pred);
            if pred(*s) {
                assert(next == prev.push(*s));
            } else {
                assert(next == prev);
            }
            assert forall|k: int| 0 <= k < out@.len() implies ring_resolved(#[trigger] out@[k], next[k], group_ring_ids(group)) by {
                if k < old_out.len() {
                    assert(out@[k] == old_out[k]);
                    assert(next[k] == prev[k]);
                    let w = old_out[k].ring;
                } else {
                    assert(k == old_out.len());
                    assert(next[k] == *s);
                }
            }
        }
        let ghost next_g = rings@.take(i + 1).filter(pred);
        i = i + 1;
        assert(rings@.take(i as int).filter(pred) == next_g);
    }
    assert(rings@.take(i as int) =~= rings@);
    out
}



/// `st` is the state of summarized strip `s` among the strips whose IDs are `ids`.
pub open spec fn strip_resolved<F>(st: StripState<F>, s: StripSummary<F>, ids: Seq<InternalID>) -> bool {
    &&& first_at(ids, InternalID::Wayland(s.id), st.strip as int)
    &&& st.position == s.last_pos
    &&& st.delta == s.delta
    &&& st.touched_by == match s.pressed {
        Some(p) => Some(p.source),
        None => None,
    }
}

/// The strip states of the summarized strips that the group reports, in order.
fn resolve_strips<F: Copy>(group: &Group, strips: &Vec<StripSummary<F>>) -> (r: Vec<StripState<F>>)
    ensures
        r@.len() == strips@.filter(|s: StripSummary<F>| holds(group_strip_ids(group), InternalID::Wayland(s.id))).len(),
        forall|i: int|
            0 <= i < r@.len() ==> strip_resolved(
                #[trigger] r@[i],
                strips@.filter(|s: StripSummary<F>| holds(group_strip_ids(group), InternalID::Wayland(s.id)))[i],
                group_strip_ids(group),
            ),
{
    let ids = collect_strip_ids(group);
    let ghost pred = |s: StripSummary<F>| holds(group_strip_ids(group), InternalID::Wayland(s.id));
    let mut out: Vec<StripState<F>> = Vec::new();
    let mut i: usize = 0;
    while i < strips.len()
        invariant
            i <= strips@.len(),
            ids@ == group_strip_ids(group),
            pred == (|s: StripSummary<F>| holds(group_strip_ids(group), InternalID::Wayland(s.id))),
            out@.len() == strips@.take(i as int).filter(pred).len(),
            forall|k: int|
                0 <= k < out@.len() ==> strip_resolved(#[trigger] out@[k], strips@.take(i as int).filter(pred)[k], group_strip_ids(group)),
        decreases strips@.len() - i,
    {
        let s = &strips[i];
        let ghost old_out = out@;
        proof {
            reveal(Seq::filter);
            assert(strips@.take(i + 1).drop_last() =~= strips@.take(i as int));
            assert(strips@.take(i + 1).last() == *s);
        }
        let found = find_id(&ids, InternalID::Wayland(s.id));
        proof {
            if found is Some {
                assert(pred(*s));
            } else {
                assert(!pred(*s));
            }
        }
        match found {
            Some(k) => {
                let touched_by = match s.pressed {
                    Some(p) => Some(p.source),
                    None => None,
                };
                out.push(StripState { strip: k, position: s.last_pos, touched_by, delta: s.delta });
            },
            None => {},
        }
        proof {
            reveal(Seq::filter);
            let prev = strips@.take(i as int).filter(pred);
            let next = strips@.take(i + 1).filter(pred);
            if pred(*s) {
                assert(next == prev.push(*s));
            } else {
                assert(next == prev);
            }
            assert forall|k: int| 0 <= k < out@.len() implies strip_resolved(#[trigger] out@[k], next[k], group_strip_ids(group)) by {
                if k < old_out.len() {
                    assert(out@[k] == old_out[k]);
                    assert(next[k] == prev[k]);
                    let w = old_out[k].strip;
                } else {
                    assert(k == old_out.len());
                    assert(next[k] == *s);
                }
            }
        }
        let ghost next_g = strips@.take(i + 1).filter(pred);
        i = i + 1;
        assert(strips@.take(i as int).filter(pred) == next_g);
    }
    assert(strips@.take(i as int) =~= strips@);
    out
}

/// `st` is the state of summarized group `s` among the groups `groups` of its pad.
pub open spec fn group_resolved<F>(st: GroupState<F>, s: GroupSummary<F>, groups: Seq<Group>) -> bool {
    &&& first_at(group_ids(groups), InternalID::Wayland(s.id), st.group as int)
    &&& st.mode == s.mode
    &&& st.rings@.len() == s.rings@.filter(
        |r: RingSummary<F>| holds(group_ring_ids(&groups[st.group as int]), InternalID::Wayland(r.id)),
    ).len()
    &&& forall|i: int|
        0 <= i < st.rings@.len() ==> ring_resolved(
            #[trigger] st.rings@[i],
            s.rings@.filter(
                |r: RingSummary<F>| holds(group_ring_ids(&groups[st.group as int]), InternalID::Wayland(r.id)),
            )[i],
            group_ring_ids(&groups[st.group as int]),
        )
    &&& st.strips@.len() == s.strips@.filter(
        |r: StripSummary<F>| holds(group_strip_ids(&groups[st.group as int]), InternalID::Wayland(r.id)),
    ).len()
    &&& forall|i: int|
        0 <= i < st.strips@.len() ==> strip_resolved(
            #[trigger] st.strips@[i],
            s.strips@.filter(
                |r: StripSummary<F>| holds(group_strip_ids(&groups[st.group as int]), InternalID::Wayland(r.id)),
            )[i],
            group_strip_ids(&groups[st.group as int]),
        )
}

/// Whether summarized group `s` is among `groups`.
pub open spec fn group_known<F>(groups: Seq<Group>) -> spec_fn(GroupSummary<F>) -> bool {
    |s: GroupSummary<F>| holds(group_ids(groups), InternalID::Wayland(s.id))
}

/// The group states of the summarized groups that the pad reports, in order.
fn resolve_groups<F: Copy>(groups: &Vec<Group>, summaries: &Vec<GroupSummary<F>>) -> (r: Vec<GroupState<F>>)
    ensures
        r@.len() == summaries@.filter(group_known::<F>(groups@)).len(),
        forall|i: int|
            0 <= i < r@.len() ==> group_resolved(#[trigger] r@[i], summaries@.filter(group_known::<F>(groups@))[i], groups@),
{
    let ids = collect_group_ids(groups);
    let ghost pred = group_known::<F>(groups@);
    let mut out: Vec<GroupState<F>> = Vec::new();
    let mut i: usize = 0;
    while i < summaries.len()
        invariant
            i <= summaries@.len(),
            ids@ == group_ids(groups@),
            pred == group_known::<F>(groups@),
            out@.len() == summaries@.take(i as int).filter(pred).len(),
            forall|k: int|
                0 <= k < out@.len() ==> group_resolved(#[trigger] out@[k], summaries@.take(i as int).filter(pred)[k], groups@),
        decreases summaries@.len() - i,
    {
        let s = &summaries[i];
        let ghost old_out = out@;
        proof {
            reveal(Seq::filter);
            assert(summaries@.take(i + 1).drop_last() =~= summaries@.take(i as int));
            assert(summaries@.take(i + 1).last() == *s);
        }
        let found = find_id(&ids, InternalID::Wayland(s.id));
        proof {
            if found is Some {
                assert(pred(*s));
            } else {
                assert(!pred(*s));
            }
        }
        match found {
            Some(k) => {
                let rings = resolve_rings(&groups[k], &s.rings);
                let strips = resolve_strips(&groups[k], &s.strips);
                out.push(GroupState { group: k, mode: s.mode, rings, strips });
            },
            None => {},
        }
        proof {
            reveal(Seq::filter);
            let prev = summaries@.take(i as int).filter(pred);
            let next = summaries@.take(i + 1).filter(pred);
            if pred(*s) {
                assert(next == prev.push(*s));
            } else {
                assert(next == prev);
            }
            assert forall|k: int| 0 <= k < out@.len() implies group_resolved(#[trigger] out@[k], next[k], groups@) by {
                if k < old_out.len() {
                    assert(out@[k] == old_out[k]);
                    assert(next[k] == prev[k]);
                    let w = old_out[k].group;
                } else {
                    assert(next[k] == *s);
                }
            }
        }
        let ghost next_g = summaries@.take(i + 1).filter(pred);
        i = i + 1;
        assert(summaries@.take(i as int).filter(pred) == next_g);
    }
    assert(summaries@.take(i as int) =~= summaries@);
    out
}

/// The state of pad button `idx`: the first group owning it, and its summary.
pub open spec fn button_resolved(st: PadButtonState, b: PadButton, groups: Seq<Group>, idx: u32) -> bool {
    &&& st.currently_pressed == b.pressed
    &&& st.count == b.count
    &&& match st.group {
        Some(k) => owner_at(groups, idx, k as int),
        None => forall|k: int| 0 <= k < groups.len() ==> !groups[k].buttons@.contains(idx),
    }
}

/// `st` is the state of summarized pad `s` among the reported `pads` and `tablets`.
pub open spec fn pad_resolved<F>(st: PadState<F>, s: PadSummary<F>, pads: Seq<Pad>, tablets: Seq<Tablet>) -> bool {
    &&& first_at(pad_ids(pads), InternalID::Wayland(s.id), st.pad as int)
    &&& match s.tablet_id {
        Some(t) => if holds(tablet_ids(tablets), InternalID::Wayland(t)) {
            st.tablet matches Some(k) && first_at(tablet_ids(tablets), InternalID::Wayland(t), k as int)
        } else {
            st.tablet is None
        },
        None => st.tablet is None,
    }
    &&& st.groups@.len() == s.groups@.filter(group_known::<F>(pads[st.pad as int].groups@)).len()
    &&& forall|i: int|
        0 <= i < st.groups@.len() ==> group_resolved(
            #[trigger] st.groups@[i],
            s.groups@.filter(group_known::<F>(pads[st.pad as int].groups@))[i],
            pads[st.pad as int].groups@,
        )
    &&& st.buttons@.len() == s.buttons@.len()
    &&& forall|i: int|
        0 <= i < st.buttons@.len() ==> button_resolved(
            #[trigger] st.buttons@[i],
            s.buttons@[i],
            pads[st.pad as int].groups@,
            i as u32,
        )
}

/// Whether summarized pad `s` is among `pads`.
pub open spec fn pad_known<F>(pads: Seq<Pad>) -> spec_fn(PadSummary<F>) -> bool {
    |s: PadSummary<F>| holds(pad_ids(pads), InternalID::Wayland(s.id))
}

fn resolve_buttons(groups: &Vec<Group>, buttons: &Vec<PadButton>) -> (r: Vec<PadButtonState>)
    requires
        buttons@.len() <= u32::MAX + 1,
    ensures
        r@.len() == buttons@.len(),
        forall|i: int| 0 <= i < r@.len() ==> button_resolved(#[trigger] r@[i], buttons@[i], groups@, i as u32),
{
    let mut out: Vec<PadButtonState> = Vec::new();
    let mut i: usize = 0;
    while i < buttons.len()
        invariant
            i <= buttons@.len(),
            buttons@.len() <= u32::MAX + 1,
            out@.len() == i,
            forall|k: int| 0 <= k < i ==> button_resolved(#[trigger] out@[k], buttons@[k], groups@, k as u32),
        decreases buttons@.len() - i,
    {
        let idx = i as u32;
        let group = button_owner(groups, idx);
        let b = buttons[i];
        out.push(PadButtonState { group, currently_pressed: b.pressed, count: b.count });
        i = i + 1;
    }
    out
}

/// Every summarized pad has at most one button per `u32` index.
pub open spec fn buttons_fit<P, F>(summary: &Summary<P, F>) -> bool {
    forall|i: int| 0 <= i < summary.pads@.len() ==> #[trigger] summary.pads@[i].buttons@.len() <= u32::MAX + 1
}

/// The state of the tool in use, if it and its tablet are reported.
pub open spec fn tool_resolved<P, L>(st: Option<InState<P>>, s: Option<super::summary::Tool<P>>, tools: Seq<Tool<L>>, tablets: Seq<Tablet>) -> bool {
    match s {
        Some(t) => if holds(tablet_ids(tablets), InternalID::Wayland(t.tablet_id)) && holds(
            tool_ids(tools),
            InternalID::Wayland(t.id),
        ) {
            st matches Some(i) && first_at(tool_ids(tools), InternalID::Wayland(t.id), i.tool as int) && first_at(
                tablet_ids(tablets),
                InternalID::Wayland(t.tablet_id),
                i.tablet as int,
            ) && i.pose == t.pose && i.down == t.down && i.pressed_buttons@ == t.held()
        } else {
            st is None
        },
        None => st is None,
    }
}

impl<P: Copy, F: Copy> Summary<P, F> {
    /// The summary resolved against the reported `tablets`, `tools` and `pads`: objects are
    /// named by their first position there, and summarized objects that are not reported are
    /// left out. Each pad button is given the first group owning it.
    pub fn make_concrete<L>(&self, tablets: &[Tablet], tools: &[Tool<L>], pads: &[Pad]) -> (r: ConcreteSummary<P, F>)
        requires
            buttons_fit(self),
        ensures
            tool_resolved(r.tool, self.tool, tools@, tablets@),
            r.pads@.len() == self.pads@.filter(pad_known::<F>(pads@)).len(),
            forall|i: int|
                0 <= i < r.pads@.len() ==> pad_resolved(
                    #[trigger] r.pads@[i],
                    self.pads@.filter(pad_known::<F>(pads@))[i],
                    pads@,
                    tablets@,
                ),
    {
        let tablet_list = collect_tablet_ids(tablets);
        let tool_list = collect_tool_ids(tools);
        let pad_list = collect_pad_ids(pads);
        let tool = match &self.tool {
            Some(t) => {
                let tablet = find_id(&tablet_list, InternalID::Wayland(t.tablet_id));
                let found = find_id(&tool_list, InternalID::Wayland(t.id));
                match (tablet, found) {
                    (Some(tablet), Some(tool)) => {
                        let held = t.pressed_buttons();
                        let pressed_buttons = vstd::slice::slice_to_vec(held);
                        Some(InState { tool, tablet, pose: t.pose, down: t.down, pressed_buttons })
                    },
                    _ => None,
                }
            },
            None => None,
        };
        let ghost pred = pad_known::<F>(pads@);
        let mut out: Vec<PadState<F>> = Vec::new();
        let mut i: usize = 0;
        while i < self.pads.len()
            invariant
                i <= self.pads@.len(),
                buttons_fit(self),
                pad_list@ == pad_ids(pads@),
                tablet_list@ == tablet_ids(tablets@),
                pred == pad_known::<F>(pads@),
                tool_resolved(tool, self.tool, tools@, tablets@),
                out@.len() == self.pads@.take(i as int).filter(pred).len(),
                forall|k: int|
                    0 <= k < out@.len() ==> pad_resolved(
                        #[trigger] out@[k],
                        self.pads@.take(i as int).filter(pred)[k],
                        pads@,
                        tablets@,
                    ),
            decreases self.pads@.len() - i,
        {
            let s = &self.pads[i];
            let ghost old_out = out@;
            proof {
                reveal(Seq::filter);
                assert(self.pads@.take(i + 1).drop_last() =~= self.pads@.take(i as int));
                assert(self.pads@.take(i + 1).last() == *s);
            }
            let found = find_id(&pad_list, InternalID::Wayland(s.id));
            proof {
                if found is Some {
                    assert(pred(*s));
                } else {
                    assert(!pred(*s));
                }
            }
            match found {
                Some(k) => {
                    let tablet = match s.tablet_id {
                        Some(t) => find_id(&tablet_list, InternalID::Wayland(t)),
                        None => None,
                    };
                    let groups = resolve_groups(&pads[k].groups, &s.groups);
                    assert(s.buttons@.len() <= u32::MAX + 1);
                    let buttons = resolve_buttons(&pads[k].groups, &s.buttons);
                    out.push(PadState { pad: k, tablet, groups, buttons });
                },
                None => {},
            }
            proof {
                reveal(Seq::filter);
                let prev = self.pads@.take(i as int).filter(pred);
                let next = self.pads@.take(i + 1).filter(pred);
                if pred(*s) {
                    assert(next == prev.push(*s));
                } else {
                    assert(next == prev);
                }
                assert forall|k: int| 0 <= k < out@.len() implies pad_resolved(#[trigger] out@[k], next[k], pads@, tablets@) by {
                    if k < old_out.len() {
                        assert(out@[k] == old_out[k]);
                        assert(next[k] == prev[k]);
                        let w = old_out[k].pad;
                    } else {
                        assert(next[k] == *s);
                    }
                }
            }
            let ghost next_g = self.pads@.take(i + 1).filter(pred);
            i = i + 1;
            assert(self.pads@.take(i as int).filter(pred) == next_g);
        }
        assert(self.pads@.take(i as int) =~= self.pads@);
        ConcreteSummary { tool, pads: out }
    }
}

} // verus!
