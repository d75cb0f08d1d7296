//! Backend events resolved against the reported devices: each device an event names is
//! given by its first position in the device lists. An event naming a device that is not
//! reported cannot be resolved and is skipped.

use vstd::prelude::*;

use super::raw;
use super::{FrameTimestamp, TabletEvent, TouchStripEvent};
use crate::lookup::{
    button_owner, collect_group_ids, collect_pad_ids, collect_ring_ids, collect_strip_ids, collect_tablet_ids,
    collect_tool_ids, find_id, first_at, group_ids, group_ring_ids, group_strip_ids, holds, owner_at, pad_ids,
    tablet_ids, tool_ids,
};
use crate::pad::{Group, Pad};
use crate::platform::InternalID;
use crate::tablet::Tablet;
use crate::tool::Tool;

verus! {

/// A tool event, with the tablet of `In` given by position.
#[derive(Clone, Copy, Debug)]
pub enum ToolEvent<P> {
    Added,
    Removed,
    In { tablet: usize },
    Down,
    Button { button_id: crate::tool::ButtonID, pressed: bool },
    Pose(P),
    Frame(Option<FrameTimestamp>),
    Up,
    Out,
}

/// A pad group event, with its ring or strip given by position in the group.
#[derive(Clone, Copy, Debug)]
pub enum PadGroupEvent<V> {
    Mode(u32),
    Ring { ring: usize, event: TouchStripEvent<V> },
    Strip { strip: usize, event: TouchStripEvent<V> },
}

/// A pad event, with groups and tablets given by position.
#[derive(Clone, Copy, Debug)]
pub enum PadEvent<V> {
    Added,
    Removed,
    Group { group: usize, event: PadGroupEvent<V> },
    /// A button, with the first group owning it, if any.
    Button { button_idx: u32, pressed: bool, group: Option<usize> },
    Enter { tablet: usize },
    Exit,
}

/// An event, with its device given by position in the tool, tablet or pad list.
#[derive(Clone, Copy, Debug)]
pub enum Event<P, V> {
    Tool { tool: usize, event: ToolEvent<P> },
    Tablet { tablet: usize, event: TabletEvent },
    Pad { pad: usize, event: PadEvent<V> },
}

/// Whether every device that `event` names is reported.
pub open spec fn resolvable<P, V, L>(
    event: raw::Event<InternalID, P, V>,
    tablets: Seq<Tablet>,
    tools: Seq<Tool<L>>,
    pads: Seq<Pad>,
) -> bool {
    match event {
        raw::Event::Tool { tool, event } => holds(tool_ids(tools), tool) && match event {
            raw::ToolEvent::In { tablet } => holds(tablet_ids(tablets), tablet),
            _ => true,
        },
        raw::Event::Tablet { tablet, .. } => holds(tablet_ids(tablets), tablet),
        raw::Event::Pad { pad, event } => holds(pad_ids(pads), pad) && {
            let k = choose|k: int| first_at(pad_ids(pads), pad, k);
            match event {
                raw::PadEvent::Group { group, event } => holds(group_ids(pads[k].groups@), group) && {
                    let g = choose|g: int| first_at(group_ids(pads[k].groups@), group, g);
                    match event {
                        raw::PadGroupEvent::Ring { ring, .. } => holds(group_ring_ids(&pads[k].groups@[g]), ring),
                        raw::PadGroupEvent::Strip { strip, .. } => holds(group_strip_ids(&pads[k].groups@[g]), strip),
                        raw::PadGroupEvent::Mode(_) => true,
                    }
                },
                raw::PadEvent::Enter { tablet } => holds(tablet_ids(tablets), tablet),
                _ => true,
            }
        },
    }
}

/// `r` is `event` with each device replaced by its first position.
pub open spec fn resolved<P, V, L>(
    event: raw::Event<InternalID, P, V>,
    r: Event<P, V>,
    tablets: Seq<Tablet>,
    tools: Seq<Tool<L>>,
    pads: Seq<Pad>,
) -> bool {
    match (event, r) {
        (raw::Event::Tool { tool, event }, Event::Tool { tool: t, event: e }) => first_at(tool_ids(tools), tool, t as int)
            && match (event, e) {
            (raw::ToolEvent::Added, ToolEvent::Added) => true,
            (raw::ToolEvent::Removed, ToolEvent::Removed) => true,
            (raw::ToolEvent::In { tablet }, ToolEvent::In { tablet: k }) => first_at(tablet_ids(tablets), tablet, k as int),
            (raw::ToolEvent::Down, ToolEvent::Down) => true,
            (raw::ToolEvent::Button { button_id, pressed }, ToolEvent::Button { button_id: b, pressed: p }) => b
                == crate::tool::ButtonID(button_id) && p == pressed,
            (raw::ToolEvent::Pose(v), ToolEvent::Pose(w)) => v == w,
            (raw::ToolEvent::Frame(v), ToolEvent::Frame(w)) => v == w,
            (raw::ToolEvent::Up, ToolEvent::Up) => true,
            (raw::ToolEvent::Out, ToolEvent::Out) => true,
            _ => false,
        },
        (raw::Event::Tablet { tablet, event }, Event::Tablet { tablet: k, event: e }) => first_at(
            tablet_ids(tablets),
            tablet,
            k as int,
        ) && e == event,
        (raw::Event::Pad { pad, event }, Event::Pad { pad: k, event: e }) => first_at(pad_ids(pads), pad, k as int)
            && match (event, e) {
            (raw::PadEvent::Added, PadEvent::Added) => true,
            (raw::PadEvent::Removed, PadEvent::Removed) => true,
            (raw::PadEvent::Exit, PadEvent::Exit) => true,
            (raw::PadEvent::Enter { tablet }, PadEvent::Enter { tablet: t }) => first_at(tablet_ids(tablets), tablet, t as int),
            (
                raw::PadEvent::Button { button_idx, pressed },
                PadEvent::Button { button_idx: b, pressed: p, group },
            ) => b == button_idx && p == pressed && match group {
                Some(g) => owner_at(pads[k as int].groups@, button_idx, g as int),
                None => forall|g: int|
                    0 <= g < pads[k as int].groups@.len() ==> !pads[k as int].groups@[g].buttons@.contains(button_idx),
            },
            (raw::PadEvent::Group { group, event }, PadEvent::Group { group: g, event: ge }) => first_at(
                group_ids(pads[k as int].groups@),
                group,
                g as int,
            ) && match (event, ge) {
                (raw::PadGroupEvent::Mode(m), PadGroupEvent::Mode(n)) => m == n,
                (raw::PadGroupEvent::Ring { ring, event }, PadGroupEvent::Ring { ring: x, event: ev }) => first_at(
                    group_ring_ids(&pads[k as int].groups@[g as int]),
                    ring,
                    x as int,
                ) && ev == event,
                (raw::PadGroupEvent::Strip { strip, event }, PadGroupEvent::Strip { strip: x, event: ev }) => first_at(
                    group_strip_ids(&pads[k as int].groups@[g as int]),
                    strip,
                    x as int,
                ) && ev == event,
                _ => false,
            },
            _ => false,
        },
        _ => false,
    }
}

proof fn lemma_first_unique(ids: Seq<InternalID>, id: InternalID, k: int)
    requires
        first_at(ids, id, k),
    ensures
        (choose|c: int| first_at(ids, id, c)) == k,
{
    let c = choose|c: int| first_at(ids, id, c);
    if c < k {
        assert(ids[c] != id);
    }
    if k < c {
        assert(ids[k] != id);
    }
}

fn resolve_tool_event<P: Copy>(event: raw::ToolEvent<InternalID, P>, tablets: &Vec<InternalID>) -> (r: Option<ToolEvent<P>>)
    ensures
        r is Some <==> (match event {
            raw::ToolEvent::In { tablet } => holds(tablets@, tablet),
            _ => true,
        }),
        r matches Some(e) ==> match (event, e) {
            (raw::ToolEvent::Added, ToolEvent::Added) => true,
            (raw::ToolEvent::Removed, ToolEvent::Removed) => true,
            (raw::ToolEvent::In { tablet }, ToolEvent::In { tablet: k }) => first_at(tablets@, tablet, k as int),
            (raw::ToolEvent::Down, ToolEvent::Down) => true,
            (raw::ToolEvent::Button { button_id, pressed }, ToolEvent::Button { button_id: b, pressed: p }) => b
                == crate::tool::ButtonID(button_id) && p == pressed,
            (raw::ToolEvent::Pose(v), ToolEvent::Pose(w)) => v == w,
            (raw::ToolEvent::Frame(v), ToolEvent::Frame(w)) => v == w,
            (raw::ToolEvent::Up, ToolEvent::Up) => true,
            (raw::ToolEvent::Out, ToolEvent::Out) => true,
            _ => false,
        },
{
    match event {
        raw::ToolEvent::Added => Some(ToolEvent::Added),
        raw::ToolEvent::Removed => Some(ToolEvent::Removed),
        raw::ToolEvent::In { tablet } => match find_id(tablets, tablet) {
            Some(k) => Some(ToolEvent::In { tablet: k }),
            None => None,
        },
        raw::ToolEvent::Down => Some(ToolEvent::Down),
        raw::ToolEvent::Button { button_id, pressed } => Some(
            ToolEvent::Button { button_id: crate::tool::ButtonID(button_id), pressed },
        ),
        raw::ToolEvent::Pose(v) => Some(ToolEvent::Pose(v)),
        raw::ToolEvent::Frame(v) => Some(ToolEvent::Frame(v)),
        raw::ToolEvent::Up => Some(ToolEvent::Up),
        raw::ToolEvent::Out => Some(ToolEvent::Out),
    }
}

/// Resolve one event against the reported devices: `None` exactly when it names a device
/// that is not reported.
pub fn resolve<P: Copy, V: Copy, L>(
    event: raw::Event<InternalID, P, V>,
    tablets: &[Tablet],
    tools: &[Tool<L>],
    pads: &[Pad],
) -> (r: Option<Event<P, V>>)
    ensures
        r is Some <==> resolvable(event, tablets@, tools@, pads@),
        r matches Some(e) ==> resolved(event, e, tablets@, tools@, pads@),
{
    let tablet_list = collect_tablet_ids(tablets);
    match event {
        raw::Event::Tool { tool, event: te } => {
            let tool_list = collect_tool_ids(tools);
            let t = match find_id(&tool_list, tool) {
                Some(t) => t,
                None => return None,
            };
            match resolve_tool_event(te, &tablet_list) {
                Some(e) => Some(Event::Tool { tool: t, event: e }),
                None => None,
            }
        },
        raw::Event::Tablet { tablet, event: e } => match find_id(&tablet_list, tablet) {
            Some(k) => Some(Event::Tablet { tablet: k, event: e }),
            None => None,
        },
        raw::Event::Pad { pad, event: pe } => {
            let pad_list = collect_pad_ids(pads);
            let k = match find_id(&pad_list, pad) {
                Some(k) => k,
                None => return None,
            };
            proof {
                lemma_first_unique(pad_ids(pads@), pad, k as int);
            }
            let e = match pe {
                raw::PadEvent::Added => PadEvent::Added,
                raw::PadEvent::Removed => PadEvent::Removed,
                raw::PadEvent::Exit => PadEvent::Exit,
                raw::PadEvent::Enter { tablet } => match find_id(&tablet_list, tablet) {
                    Some(t) => PadEvent::Enter { tablet: t },
                    None => return None,
                },
                raw::PadEvent::Button { button_idx, pressed } => {
                    let group = button_owner(&pads[k].groups, button_idx);
                    PadEvent::Button { button_idx, pressed, group }
                },
                raw::PadEvent::Group { group, event: ge } => {
                    let group_list = collect_group_ids(&pads[k].groups);
                    let g = match find_id(&group_list, group) {
                        Some(g) => g,
                        None => return None,
                    };
                    proof {
                        lemma_first_unique(group_ids(pads@[k as int].groups@), group, g as int);
                    }
                    let e = match ge {
                        raw::PadGroupEvent::Mode(m) => PadGroupEvent::Mode(m),
                        raw::PadGroupEvent::Ring { ring, event } => {
                            let rings = collect_ring_ids(&pads[k].groups[g]);
                            match find_id(&rings, ring) {
                                Some(x) => PadGroupEvent::Ring { ring: x, event },
                                None => return None,
                            }
                        },
                        raw::PadGroupEvent::Strip { strip, event } => {
                            let strips = collect_strip_ids(&pads[k].groups[g]);
                            match find_id(&strips, strip) {
                                Some(x) => PadGroupEvent::Strip { strip: x, event },
                                None => return None,
                            }
                        },
                    };
                    PadEvent::Group { group: g, event: e }
                },
            };
            Some(Event::Pad { pad: k, event: e })
        },
    }
}

/// Resolve a pump's events in order, skipping those naming a device that is not reported.
pub fn resolve_all<P: Copy, V: Copy, L>(
    events: &[raw::Event<InternalID, P, V>],
    tablets: &[Tablet],
    tools: &[Tool<L>],
    pads: &[Pad],
) -> (r: Vec<Event<P, V>>)
    ensures
        r@.len() == events@.filter(|e: raw::Event<InternalID, P, V>| resolvable(e, tablets@, tools@, pads@)).len(),
        forall|i: int|
            0 <= i < r@.len() ==> resolved(
                events@.filter(|e: raw::Event<InternalID, P, V>| resolvable(e, tablets@, tools@, pads@))[i],
                #[trigger] r@[i],
                tablets@,
                tools@,
                pads@,
            ),
{
    let ghost pred = |e: raw::Event<InternalID, P, V>| resolvable(e, tablets@, tools@, pads@);
    let mut out: Vec<Event<P, V>> = Vec::new();
    let mut i: usize = 0;
    while i < events.len()
        invariant
            i <= events@.len(),
            pred == (|e: raw::Event<InternalID, P, V>| resolvable(e, tablets@, tools@, pads@)),
            out@.len() == events@.take(i as int).filter(pred).len(),
            forall|k: int|
                0 <= k < out@.len() ==> resolved(events@.take(i as int).filter(pred)[k], #[trigger] out@[k], tablets@, tools@, pads@),
        decreases events@.len() - i,
    {
        let e = events[i];
        let ghost old_out = out@;
        let r = resolve(e, tablets, tools, pads);
        match r {
            Some(x) => {
                out.push(x);
            },
            None => {},
        }
        proof {
            reveal(Seq::filter);
            assert(events@.take(i + 1).drop_last() =~= events@.take(i as int));
            assert(events@.take(i + 1).last() == e);
            let prev = events@.take(i as int).filter(pred);
            let next = events@.take(i + 1).filter(pred);
            if pred(e) {
                assert(next == prev.push(e));
            } else {
                assert(next == prev);
            }
            assert forall|k: int| 0 <= k < out@.len() implies resolved(next[k], #[trigger] out@[k], tablets@, tools@, pads@) by {
                if k < old_out.len() {
                    assert(out@[k] == old_out[k]);
                    assert(next[k] == prev[k]);
                } else {
                    assert(next[k] == e);
                }
            }
        }
        let ghost next_g = events@.take(i + 1).filter(pred);
        i = i + 1;
        assert(events@.take(i as int).filter(pred) == next_g);
    }
    assert(events@.take(i as int) =~= events@);
    out
}


proof fn lemma_first_at_unique(ids: Seq<InternalID>, id: InternalID, a: int, b: int)
    requires
        first_at(ids, id, a),
        first_at(ids, id, b),
    ensures
        a == b,
{
    if a < b {
        assert(ids[a] != id);
    }
    if b < a {
        assert(ids[b] != id);
    }
}

proof fn lemma_owner_at_unique(groups: Seq<Group>, idx: u32, a: int, b: int)
    requires
        owner_at(groups, idx, a),
        owner_at(groups, idx, b),
    ensures
        a == b,
{
    if a < b {
        assert(!groups[a].buttons@.contains(idx));
    }
    if b < a {
        assert(!groups[b].buttons@.contains(idx));
    }
}

/// Resolution is a function: an event resolves against the same devices in at most one way.
pub proof fn lemma_resolved_unique<P, V, L>(
    event: raw::Event<InternalID, P, V>,
    r1: Event<P, V>,
    r2: Event<P, V>,
    tablets: Seq<Tablet>,
    tools: Seq<Tool<L>>,
    pads: Seq<Pad>,
)
    requires
        resolved(event, r1, tablets, tools, pads),
        resolved(event, r2, tablets, tools, pads),
    ensures
        r1 == r2,
{
    match (event, r1, r2) {
        (raw::Event::Tool { tool, event: te }, Event::Tool { tool: t1, event: e1 }, Event::Tool { tool: t2, event: e2 }) => {
            lemma_first_at_unique(tool_ids(tools), tool, t1 as int, t2 as int);
            match (te, e1, e2) {
                (raw::ToolEvent::In { tablet }, ToolEvent::In { tablet: k1 }, ToolEvent::In { tablet: k2 }) => {
                    lemma_first_at_unique(tablet_ids(tablets), tablet, k1 as int, k2 as int);
                },
                _ => {},
            }
        },
        (raw::Event::Tablet { tablet, .. }, Event::Tablet { tablet: k1, .. }, Event::Tablet { tablet: k2, .. }) => {
            lemma_first_at_unique(tablet_ids(tablets), tablet, k1 as int, k2 as int);
        },
        (raw::Event::Pad { pad, event: pe }, Event::Pad { pad: k1, event: e1 }, Event::Pad { pad: k2, event: e2 }) => {
            lemma_first_at_unique(pad_ids(pads), pad, k1 as int, k2 as int);
            let groups = pads[k1 as int].groups@;
            match (pe, e1, e2) {
                (raw::PadEvent::Enter { tablet }, PadEvent::Enter { tablet: t1 }, PadEvent::Enter { tablet: t2 }) => {
                    lemma_first_at_unique(tablet_ids(tablets), tablet, t1 as int, t2 as int);
                },
                (
                    raw::PadEvent::Button { button_idx, .. },
                    PadEvent::Button { group: g1, .. },
                    PadEvent::Button { group: g2, .. },
                ) => {
                    match (g1, g2) {
                        (Some(a), Some(b)) => lemma_owner_at_unique(groups, button_idx, a as int, b as int),
                        (Some(a), None) => assert(groups[a as int].buttons@.contains(button_idx)),
                        (None, Some(b)) => assert(groups[b as int].buttons@.contains(button_idx)),
                        (None, None) => {},
                    }
                },
                (
                    raw::PadEvent::Group { group, event: ge },
                    PadEvent::Group { group: g1, event: ge1 },
                    PadEvent::Group { group: g2, event: ge2 },
                ) => {
                    lemma_first_at_unique(group_ids(groups), group, g1 as int, g2 as int);
                    match (ge, ge1, ge2) {
                        (
                            raw::PadGroupEvent::Ring { ring, .. },
                            PadGroupEvent::Ring { ring: x1, .. },
                            PadGroupEvent::Ring { ring: x2, .. },
                        ) => {
                            lemma_first_at_unique(group_ring_ids(&groups[g1 as int]), ring, x1 as int, x2 as int);
                        },
                        (
                            raw::PadGroupEvent::Strip { strip, .. },
                            PadGroupEvent::Strip { strip: x1, .. },
                            PadGroupEvent::Strip { strip: x2, .. },
                        ) => {
                            lemma_first_at_unique(group_strip_ids(&groups[g1 as int]), strip, x1 as int, x2 as int);
                        },
                        _ => {},
                    }
                },
                _ => {},
            }
        },
        _ => {},
    }
}

/// Resolving a pump's events is deterministic: two lists that each meet what `resolve_all`
/// promises for the same events and devices are the same list, so going through the events
/// twice gives the same events.
pub proof fn lemma_resolve_all_unique<P, V, L>(
    events: Seq<raw::Event<InternalID, P, V>>,
    r1: Seq<Event<P, V>>,
    r2: Seq<Event<P, V>>,
    tablets: Seq<Tablet>,
    tools: Seq<Tool<L>>,
    pads: Seq<Pad>,
)
    requires
        r1.len() == events.filter(|e: raw::Event<InternalID, P, V>| resolvable(e, tablets, tools, pads)).len(),
        r2.len() == r1.len(),
        forall|i: int|
            0 <= i < r1.len() ==> resolved(
                events.filter(|e: raw::Event<InternalID, P, V>| resolvable(e, tablets, tools, pads))[i],
                #[trigger] r1[i],
                tablets,
                tools,
                pads,
            ),
        forall|i: int|
            0 <= i < r2.len() ==> resolved(
                events.filter(|e: raw::Event<InternalID, P, V>| resolvable(e, tablets, tools, pads))[i],
                #[trigger] r2[i],
                tablets,
                tools,
                pads,
            ),
    ensures
        r1 == r2,
{
    let kept = events.filter(|e: raw::Event<InternalID, P, V>| resolvable(e, tablets, tools, pads));
    assert forall|i: int| 0 <= i < r1.len() implies r1[i] == r2[i] by {
        lemma_resolved_unique(kept[i], r1[i], r2[i], tablets, tools, pads);
    }
    assert(r1 =~= r2);
}

} // verus!
