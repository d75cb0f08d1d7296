//! The XInput2 backend's device tables and the decisions it takes on server events.
//!
//! The caller talks to the X server; here the devices are kept, and each server event is
//! turned into the events this crate reports.

use vstd::prelude::*;

use super::{
    transition_event, transition_events, transitions, Fp3232, PadInfo, Phase, RingInfo, Timestamp,
    ToolInfo, Transition, ID,
};
use crate::events::raw;
use crate::events::FrameTimestamp;
use crate::events::TabletEvent;

verus! {

/// Whether `a` sorts before `b`: the emulated tablet first, then by generation, then by device.
pub open spec fn id_before(a: ID, b: ID) -> bool {
    match (a, b) {
        (ID::EmulatedTablet, ID::EmulatedTablet) => false,
        (ID::EmulatedTablet, ID::ID { .. }) => true,
        (ID::ID { .. }, ID::EmulatedTablet) => false,
        (ID::ID { generation: g1, device_id: d1 }, ID::ID { generation: g2, device_id: d2 }) => g1
            < g2 || (g1 == g2 && d1 < d2),
    }
}

/// Whether `a` sorts before `b`.
pub fn id_precedes(a: ID, b: ID) -> (r: bool)
    ensures
        r == id_before(a, b),
{
    match (a, b) {
        (ID::EmulatedTablet, ID::EmulatedTablet) => false,
        (ID::EmulatedTablet, ID::ID { .. }) => true,
        (ID::ID { .. }, ID::EmulatedTablet) => false,
        (ID::ID { generation: g1, device_id: d1 }, ID::ID { generation: g2, device_id: d2 }) => g1
            < g2 || (g1 == g2 && d1 < d2),
    }
}

/// The keys of a table strictly increase: each device once, in ID order.
pub open spec fn sorted_keys<X>(table: Seq<(ID, X)>) -> bool {
    forall|i: int, j: int| 0 <= i < j < table.len() ==> id_before(table[i].0, table[j].0)
}

/// The table after inserting `(id, x)` as an ordered map does: at the first position whose key
/// does not sort before `id`, replacing the entry there if it has the same key.
pub open spec fn ordered_insert<X>(table: Seq<(ID, X)>, id: ID, x: X, at: int) -> Seq<(ID, X)> {
    if at < table.len() && table[at].0 == id {
        table.update(at, (id, x))
    } else {
        table.insert(at, (id, x))
    }
}

/// `at` is the position where `id` belongs in the sorted table.
pub open spec fn insertion_point<X>(table: Seq<(ID, X)>, id: ID, at: int) -> bool {
    &&& 0 <= at <= table.len()
    &&& forall|j: int| 0 <= j < at ==> id_before(#[trigger] table[j].0, id)
    &&& forall|j: int| at <= j < table.len() ==> !id_before(#[trigger] table[j].0, id)
}

proof fn lemma_id_order(a: ID, b: ID, c: ID)
    ensures
        !(id_before(a, b) && id_before(b, a)),
        id_before(a, b) && id_before(b, c) ==> id_before(a, c),
        !id_before(a, b) && !id_before(b, a) ==> a == b,
{
}

/// Insert into a sorted table as an ordered map does.
pub fn table_insert<X>(table: &mut Vec<(ID, X)>, id: ID, x: X) -> (at: usize)
    requires
        sorted_keys(old(table)@),
    ensures
        insertion_point(old(table)@, id, at as int),
        final(table)@ == ordered_insert(old(table)@, id, x, at as int),
        sorted_keys(final(table)@),
{
    let mut at: usize = 0;
    while at < table.len() && id_precedes(table[at].0, id)
        invariant
            at <= table@.len(),
            sorted_keys(table@),
            table@ == old(table)@,
            forall|j: int| 0 <= j < at ==> id_before(#[trigger] table@[j].0, id),
        decreases table.len() - at,
    {
        at = at + 1;
    }
    proof {
        assert forall|j: int| at <= j < table@.len() implies !id_before(#[trigger] table@[j].0, id) by {
            if j > at {
                lemma_id_order(table@[at as int].0, table@[j].0, id);
                assert(id_before(table@[at as int].0, table@[j].0));
            }
        }
    }
    if at < table.len() && table[at].0 == id {
        table.set(at, (id, x));
        proof {
            assert forall|i: int, j: int| 0 <= i < j < table@.len() implies id_before(table@[i].0, table@[j].0) by {
                assert(id_before(old(table)@[i].0, old(table)@[j].0));
            }
        }
    } else {
        table.insert(at, (id, x));
        proof {
            let t = table@;
            let o = old(table)@;
            assert forall|i: int, j: int| 0 <= i < j < t.len() implies id_before(t[i].0, t[j].0) by {
                if j < at {
                    assert(t[i] == o[i] && t[j] == o[j]);
                } else if j == at {
                    assert(t[i] == o[i]);
                } else if i == at {
                    assert(t[j] == o[j - 1]);
                    assert(!id_before(o[j - 1].0, id));
                    if j - 1 == at {
                        assert(o[at as int].0 != id);
                    } else {
                        lemma_id_order(o[at as int].0, o[j - 1].0, id);
                        assert(id_before(o[at as int].0, o[j - 1].0));
                        assert(o[at as int].0 != id);
                    }
                    lemma_id_order(id, o[j - 1].0, id);
                } else if i < at {
                    assert(t[i] == o[i] && t[j] == o[j - 1]);
                } else {
                    assert(t[i] == o[i - 1] && t[j] == o[j - 1]);
                }
            }
        }
    }
    at
}

/// The position of the entry with key `id`, if any.
pub fn table_find<X>(table: &Vec<(ID, X)>, id: ID) -> (r: Option<usize>)
    ensures
        match r {
            Some(i) => i < table@.len() && table@[i as int].0 == id,
            None => forall|j: int| 0 <= j < table@.len() ==> table@[j].0 != id,
        },
{
    let mut i: usize = 0;
    while i < table.len()
        invariant
            i <= table@.len(),
            forall|j: int| 0 <= j < i ==> table@[j].0 != id,
        decreases table.len() - i,
    {
        if table[i].0 == id {
            return Some(i);
        }
        i = i + 1;
    }
    None
}

/// The frame event of tool `id` at server time `time`.
pub open spec fn frame_event<P, V>(id: ID, time: Timestamp) -> raw::Event<ID, P, V> {
    raw::Event::Tool {
        tool: id,
        event: raw::ToolEvent::Frame(Some(FrameTimestamp::at_millis(time as u64))),
    }
}

/// Record that tool `info` emits something at `time`: the frame it had pending at another
/// time is closed first.
pub open spec fn spec_touch_frame<T, P, V>(id: ID, info: ToolInfo<T>, time: Timestamp) -> (
    ToolInfo<T>,
    Seq<raw::Event<ID, P, V>>,
) {
    (
        ToolInfo { frame_pending: Some(time), ..info },
        match info.frame_pending {
            Some(last) => if last != time {
                seq![frame_event::<P, V>(id, last)]
            } else {
                seq![]
            },
            None => seq![],
        },
    )
}

/// The phase change with its events.
pub open spec fn spec_set_phase<T, P, V>(id: ID, info: ToolInfo<T>, phase: Phase) -> (
    ToolInfo<T>,
    Seq<raw::Event<ID, P, V>>,
) {
    (ToolInfo { phase, ..info }, transition_events::<P, V>(id, info.tablet, transitions(info.phase, phase)))
}

/// The phase change to In if Out, with its events.
pub open spec fn spec_ensure_in<T, P, V>(id: ID, info: ToolInfo<T>) -> (
    ToolInfo<T>,
    Seq<raw::Event<ID, P, V>>,
) {
    if info.phase == Phase::Out {
        spec_set_phase(id, info, Phase::In)
    } else {
        (info, seq![])
    }
}

/// A tool's master cursor or keyboard left our window at `time`: the tool leaves, closing any
/// pending frame of an interaction first.
pub open spec fn spec_tool_left<T, P, V>(id: ID, info: ToolInfo<T>, master: u16, time: Timestamp) -> (
    ToolInfo<T>,
    Seq<raw::Event<ID, P, V>>,
) {
    if !(info.master_pointer == master || info.master_keyboard == master) {
        (info, seq![])
    } else {
        let (i1, e1) = if info.phase == Phase::In || info.phase == Phase::Down {
            spec_touch_frame::<T, P, V>(id, info, time)
        } else {
            (info, seq![])
        };
        let (i2, e2) = spec_set_phase::<T, P, V>(id, i1, Phase::Out);
        (i2, e1 + e2)
    }
}

/// End of a pump for one tool: its pending frame is emitted, and it leaves if its last
/// interaction timed out.
pub open spec fn spec_tool_cleanup<T, P, V>(id: ID, info: ToolInfo<T>, now: Timestamp) -> (
    ToolInfo<T>,
    Seq<raw::Event<ID, P, V>>,
) {
    let e1 = match info.frame_pending {
        Some(t) => seq![frame_event::<P, V>(id, t)],
        None => seq![],
    };
    let i1 = ToolInfo { frame_pending: None, ..info };
    if super::timed_out(i1.last_interaction, now, super::TOOL_TIMEOUT_MS) {
        let i2 = ToolInfo { last_interaction: None, ..i1 };
        let (i3, e3) = spec_set_phase::<T, P, V>(id, i2, Phase::Out);
        (i3, e1 + e3)
    } else {
        (i1, e1)
    }
}

/// A button of a tool changed at the tool: the tool comes In if it was Out; button 1 is the
/// tip, pressing it goes Down and releasing it goes back In; button 0 does not occur; the
/// others are reported as tool buttons. Detail numbers past 16 bits are ignored.
pub open spec fn spec_tool_button<T, P, V>(id: ID, info: ToolInfo<T>, detail: u32, pressed: bool) -> (
    ToolInfo<T>,
    Seq<raw::Event<ID, P, V>>,
) {
    if detail > u16::MAX {
        (info, seq![])
    } else {
        let (i1, e1) = spec_ensure_in::<T, P, V>(id, info);
        if detail == 0 {
            (i1, e1)
        } else if detail == 1 {
            let (i2, e2) = spec_set_phase::<T, P, V>(
                id,
                i1,
                if pressed {
                    Phase::Down
                } else {
                    Phase::In
                },
            );
            (i2, e1 + e2)
        } else {
            (
                i1,
                e1.push(
                    raw::Event::Tool {
                        tool: id,
                        event: raw::ToolEvent::Button {
                            button_id: crate::platform::ButtonID::XInput2(detail as u16),
                            pressed,
                        },
                    },
                ),
            )
        }
    }
}

/// Apply `step` to every entry of the table in order, collecting the new table and the events.
pub open spec fn fold_table<X, E>(table: Seq<(ID, X)>, step: spec_fn(ID, X) -> (X, Seq<E>)) -> (
    Seq<(ID, X)>,
    Seq<E>,
)
    decreases table.len(),
{
    if table.len() == 0 {
        (seq![], seq![])
    } else {
        let (pre_table, pre_events) = fold_table(table.drop_last(), step);
        let (id, x) = table.last();
        let (new_x, events) = step(id, x);
        (pre_table.push((id, new_x)), pre_events + events)
    }
}

proof fn lemma_fold_step<X, E>(table: Seq<(ID, X)>, i: int, step: spec_fn(ID, X) -> (X, Seq<E>))
    requires
        0 <= i < table.len(),
    ensures
        fold_table(table.subrange(0, i + 1), step) == ({
            let (pt, pe) = fold_table(table.subrange(0, i), step);
            let (nx, e) = step(table[i].0, table[i].1);
            (pt.push((table[i].0, nx)), pe + e)
        }),
{
    assert(table.subrange(0, i + 1).drop_last() =~= table.subrange(0, i));
}

proof fn lemma_fold_keys<X, E>(table: Seq<(ID, X)>, step: spec_fn(ID, X) -> (X, Seq<E>))
    ensures
        fold_table(table, step).0.len() == table.len(),
        forall|j: int| 0 <= j < table.len() ==> #[trigger] fold_table(table, step).0[j].0 == table[j].0,
    decreases table.len(),
{
    if table.len() > 0 {
        lemma_fold_keys(table.drop_last(), step);
    }
}

/// A table whose keys are those of a sorted table, in the same order, is sorted.
proof fn lemma_same_keys_sorted<X>(a: Seq<(ID, X)>, b: Seq<(ID, X)>)
    requires
        sorted_keys(a),
        a.len() == b.len(),
        forall|j: int| 0 <= j < a.len() ==> #[trigger] b[j].0 == a[j].0,
    ensures
        sorted_keys(b),
{
    assert forall|i: int, j: int| 0 <= i < j < b.len() implies id_before(b[i].0, b[j].0) by {
        assert(b[i].0 == a[i].0 && b[j].0 == a[j].0);
    }
}

/// The step of a master device leaving the window, for each tool.
pub open spec fn left_step<T, P, V>(master: u16, time: Timestamp) -> spec_fn(ID, ToolInfo<T>) -> (
    ToolInfo<T>,
    Seq<raw::Event<ID, P, V>>,
) {
    |id: ID, info: ToolInfo<T>| spec_tool_left::<T, P, V>(id, info, master, time)
}

/// The end-of-pump step for each tool.
pub open spec fn cleanup_step<T, P, V>(now: Timestamp) -> spec_fn(ID, ToolInfo<T>) -> (
    ToolInfo<T>,
    Seq<raw::Event<ID, P, V>>,
) {
    |id: ID, info: ToolInfo<T>| spec_tool_cleanup::<T, P, V>(id, info, now)
}

/// The Up event of the ring of pad `pad`.
pub open spec fn ring_event<P, V>(pad: ID, event: crate::events::TouchStripEvent<V>) -> raw::Event<ID, P, V> {
    raw::Event::Pad {
        pad,
        event: raw::PadEvent::Group { group: pad, event: raw::PadGroupEvent::Ring { ring: pad, event } },
    }
}

/// End of a pump for one pad: a ring whose interaction timed out is released.
pub open spec fn spec_ring_cleanup<T, P, V>(id: ID, info: PadInfo<T>, now: Timestamp) -> (
    PadInfo<T>,
    Seq<raw::Event<ID, P, V>>,
) {
    match info.ring {
        Some(ring) => if super::timed_out(ring.last_interaction, now, super::RING_TIMEOUT_MS) {
            (
                PadInfo { ring: Some(super::RingInfo { last_interaction: None, ..ring }), ..info },
                seq![ring_event::<P, V>(id, crate::events::TouchStripEvent::Up)],
            )
        } else {
            (info, seq![])
        },
        None => (info, seq![]),
    }
}

/// The end-of-pump step for each pad.
pub open spec fn ring_cleanup_step<T, P, V>(now: Timestamp) -> spec_fn(ID, PadInfo<T>) -> (
    PadInfo<T>,
    Seq<raw::Event<ID, P, V>>,
) {
    |id: ID, info: PadInfo<T>| spec_ring_cleanup::<T, P, V>(id, info, now)
}

/// The devices reported before an enumeration: the tools and pads by ID, in table order, and
/// whether the emulated tablet was.
pub struct Enumeration {
    pub tools: Vec<ID>,
    pub pads: Vec<ID>,
    pub emulated_tablet: bool,
}

/// The IDs of a table, in order.
pub open spec fn table_keys<X>(table: Seq<(ID, X)>) -> Seq<ID> {
    table.map_values(|e: (ID, X)| e.0)
}

/// A device appearing or going away.
#[derive(Clone, Copy, Debug, PartialEq, Eq, Structural)]
pub enum DeviceChange {
    ToolAdded,
    ToolRemoved,
    PadAdded,
    PadRemoved,
}

/// The event announcing `change` of device `id`.
pub open spec fn change_event<P, V>(change: DeviceChange, id: ID) -> raw::Event<ID, P, V> {
    match change {
        DeviceChange::ToolAdded => raw::Event::Tool { tool: id, event: raw::ToolEvent::Added },
        DeviceChange::ToolRemoved => raw::Event::Tool { tool: id, event: raw::ToolEvent::Removed },
        DeviceChange::PadAdded => raw::Event::Pad { pad: id, event: raw::PadEvent::Added },
        DeviceChange::PadRemoved => raw::Event::Pad { pad: id, event: raw::PadEvent::Removed },
    }
}

/// The events announcing `change` for each of `ids` that is not among `others`, in order.
pub open spec fn change_events<P, V>(ids: Seq<ID>, others: Seq<ID>, change: DeviceChange) -> Seq<raw::Event<ID, P, V>> {
    ids.filter(|id: ID| !others.contains(id)).map_values(|id: ID| change_event::<P, V>(change, id))
}

/// The event announcing that the emulated tablet appeared (`true`) or went away.
pub open spec fn emulated_tablet_events<P, V>(before: bool, after: bool) -> Seq<raw::Event<ID, P, V>> {
    if before && !after {
        seq![raw::Event::Tablet { tablet: ID::EmulatedTablet, event: TabletEvent::Removed }]
    } else if after && !before {
        seq![raw::Event::Tablet { tablet: ID::EmulatedTablet, event: TabletEvent::Added }]
    } else {
        seq![]
    }
}

/// The IDs of a table, in order.
fn keys_of<X>(table: &Vec<(ID, X)>) -> (r: Vec<ID>)
    ensures
        r@ == table_keys(table@),
{
    let mut r: Vec<ID> = Vec::new();
    let mut i: usize = 0;
    while i < table.len()
        invariant
            i <= table@.len(),
            r@ == table_keys(table@.take(i as int)),
        decreases table@.len() - i,
    {
        r.push(table[i].0);
        proof {
            assert(table_keys(table@.take(i + 1)) =~= table_keys(table@.take(i as int)).push(table@[i as int].0));
        }
        i = i + 1;
    }
    assert(table@.take(i as int) =~= table@);
    r
}

/// Whether `ids` holds `id`.
fn id_listed(ids: &Vec<ID>, id: ID) -> (r: bool)
    ensures
        r == ids@.contains(id),
{
    let mut i: usize = 0;
    while i < ids.len()
        invariant
            i <= ids@.len(),
            forall|j: int| 0 <= j < i ==> ids@[j] != id,
        decreases ids@.len() - i,
    {
        if ids[i] == id {
            assert(ids@[i as int] == id);
            return true;
        }
        i = i + 1;
    }
    false
}

/// Announce `change` for each of `ids` that is not among `others`, in order.
fn push_changes<P, V>(events: &mut Vec<raw::Event<ID, P, V>>, ids: &Vec<ID>, others: &Vec<ID>, change: DeviceChange)
    ensures
        final(events)@ == old(events)@ + change_events::<P, V>(ids@, others@, change),
{
    let ghost pred = |id: ID| !others@.contains(id);
    let ghost f = |id: ID| change_event::<P, V>(change, id);
    let mut i: usize = 0;
    while i < ids.len()
        invariant
            i <= ids@.len(),
            pred == (|id: ID| !others@.contains(id)),
            f == (|id: ID| change_event::<P, V>(change, id)),
            events@ == old(events)@ + ids@.take(i as int).filter(pred).map_values(f),
        decreases ids@.len() - i,
    {
        let id = ids[i];
        let listed = id_listed(others, id);
        proof {
            reveal(Seq::filter);
            assert(ids@.take(i + 1).drop_last() =~= ids@.take(i as int));
            assert(ids@.take(i + 1).last() == id);
        }
        if !listed {
            let e = match change {
                DeviceChange::ToolAdded => raw::Event::Tool { tool: id, event: raw::ToolEvent::Added },
                DeviceChange::ToolRemoved => raw::Event::Tool { tool: id, event: raw::ToolEvent::Removed },
                DeviceChange::PadAdded => raw::Event::Pad { pad: id, event: raw::PadEvent::Added },
                DeviceChange::PadRemoved => raw::Event::Pad { pad: id, event: raw::PadEvent::Removed },
            };
            events.push(e);
            proof {
                assert(ids@.take(i + 1).filter(pred) == ids@.take(i as int).filter(pred).push(id));
                assert(ids@.take(i + 1).filter(pred).map_values(f) =~= ids@.take(i as int).filter(pred).map_values(f).push(f(id)));
            }
        } else {
            proof {
                assert(ids@.take(i + 1).filter(pred) == ids@.take(i as int).filter(pred));
            }
        }
        i = i + 1;
    }
    assert(ids@.take(i as int) =~= ids@);
}

/// The backend's device tables, event queue and clock.
pub struct XiState<T, P, V> {
    /// Tool state, by device, in ID order.
    pub tool_infos: Vec<(ID, ToolInfo<T>)>,
    /// Pad state, by device, in ID order.
    pub pad_infos: Vec<(ID, PadInfo<T>)>,
    /// The button count of each reported pad.
    pub pad_buttons: Vec<(ID, u32)>,
    /// Events of the current pump.
    pub events: Vec<raw::Event<ID, P, V>>,
    /// The most recent event time.
    pub server_time: Timestamp,
    /// Device ID generation.
    pub device_generation: u16,
    /// Whether the emulated tablet is reported.
    pub emulated_tablet: bool,
}

impl<T: Copy, P, V> XiState<T, P, V> {
    /// The tables are ordered maps.
    pub open spec fn wf(&self) -> bool {
        &&& sorted_keys(self.tool_infos@)
        &&& sorted_keys(self.pad_infos@)
    }

    /// An empty state.
    pub fn new() -> (r: Self)
        ensures
            r.wf(),
            r.tool_infos@.len() == 0,
            r.pad_infos@.len() == 0,
            r.pad_buttons@.len() == 0,
            r.events@.len() == 0,
            r.server_time == 0,
            r.device_generation == 0,
            !r.emulated_tablet,
    {
        XiState {
            tool_infos: Vec::new(),
            pad_infos: Vec::new(),
            pad_buttons: Vec::new(),
            events: Vec::new(),
            server_time: 0,
            device_generation: 0,
            emulated_tablet: false,
        }
    }

    /// The ID that device `device` has in the current generation, if it can have one.
    pub open spec fn current_id(&self, device: u16) -> ID {
        ID::ID { generation: self.device_generation, device_id: device }
    }

    /// Start of a pump: forget last pump's events.
    pub fn pre_frame_cleanup(&mut self)
        ensures
            final(self).events@.len() == 0,
            final(self).tool_infos@ == old(self).tool_infos@,
            final(self).pad_infos@ == old(self).pad_infos@,
            final(self).pad_buttons@ == old(self).pad_buttons@,
            final(self).server_time == old(self).server_time,
            final(self).device_generation == old(self).device_generation,
    {
        self.events.clear();
    }

    /// Forget every device, before enumerating them anew; what was reported, so that the end
    /// of the enumeration can announce what changed.
    pub fn clear_devices(&mut self) -> (previous: Enumeration)
        ensures
            final(self).wf(),
            final(self).tool_infos@.len() == 0,
            final(self).pad_infos@.len() == 0,
            final(self).pad_buttons@.len() == 0,
            final(self).events@ == old(self).events@,
            final(self).server_time == old(self).server_time,
            final(self).device_generation == old(self).device_generation,
            final(self).emulated_tablet == old(self).emulated_tablet,
            previous.tools@ == table_keys(old(self).tool_infos@),
            previous.pads@ == table_keys(old(self).pad_infos@),
            previous.emulated_tablet == old(self).emulated_tablet,
    {
        let previous = Enumeration {
            tools: keys_of(&self.tool_infos),
            pads: keys_of(&self.pad_infos),
            emulated_tablet: self.emulated_tablet,
        };
        self.tool_infos.clear();
        self.pad_infos.clear();
        self.pad_buttons.clear();
        previous
    }

    /// Record a tool.
    pub fn insert_tool(&mut self, id: ID, info: ToolInfo<T>)
        requires
            old(self).wf(),
        ensures
            final(self).wf(),
            exists|at: int|
                insertion_point(old(self).tool_infos@, id, at) && final(self).tool_infos@
                    == ordered_insert(old(self).tool_infos@, id, info, at),
            final(self).pad_infos@ == old(self).pad_infos@,
            final(self).pad_buttons@ == old(self).pad_buttons@,
            final(self).events@ == old(self).events@,
            final(self).server_time == old(self).server_time,
            final(self).device_generation == old(self).device_generation,
    {
        let at = table_insert(&mut self.tool_infos, id, info);
        assert(insertion_point(old(self).tool_infos@, id, at as int));
    }

    /// Record a pad and its button count.
    pub fn insert_pad(&mut self, id: ID, info: PadInfo<T>, total_buttons: u32)
        requires
            old(self).wf(),
        ensures
            final(self).wf(),
            exists|at: int|
                insertion_point(old(self).pad_infos@, id, at) && final(self).pad_infos@
                    == ordered_insert(old(self).pad_infos@, id, info, at),
            final(self).pad_buttons@ == old(self).pad_buttons@.push((id, total_buttons)),
            final(self).tool_infos@ == old(self).tool_infos@,
            final(self).events@ == old(self).events@,
            final(self).server_time == old(self).server_time,
            final(self).device_generation == old(self).device_generation,
    {
        let at = table_insert(&mut self.pad_infos, id, info);
        assert(insertion_point(old(self).pad_infos@, id, at as int));
        self.pad_buttons.push((id, total_buttons));
    }
}

/// Emit the events of a step on one tool.
fn touch_frame<T: Copy, P, V>(info: &mut ToolInfo<T>, id: ID, time: Timestamp, events: &mut Vec<raw::Event<ID, P, V>>)
    ensures
        *final(info) == spec_touch_frame::<T, P, V>(id, *old(info), time).0,
        final(events)@ == old(events)@ + spec_touch_frame::<T, P, V>(id, *old(info), time).1,
{
    let last = info.frame_pending;
    info.frame_pending = Some(time);
    match last {
        Some(last) => {
            if last != time {
                events.push(
                    raw::Event::Tool {
                        tool: id,
                        event: raw::ToolEvent::Frame(Some(FrameTimestamp::from_millis(last as u64))),
                    },
                );
            }
        },
        None => {},
    }
    assert(events@ =~= old(events)@ + spec_touch_frame::<T, P, V>(id, *old(info), time).1);
}

/// One tool's part of a master device leaving the window.
fn tool_left<T: Copy, P, V>(
    info: &mut ToolInfo<T>,
    id: ID,
    master: u16,
    time: Timestamp,
    events: &mut Vec<raw::Event<ID, P, V>>,
)
    ensures
        *final(info) == spec_tool_left::<T, P, V>(id, *old(info), master, time).0,
        final(events)@ == old(events)@ + spec_tool_left::<T, P, V>(id, *old(info), master, time).1,
{
    if !(info.master_pointer == master || info.master_keyboard == master) {
        assert(events@ =~= old(events)@ + seq![]);
        return;
    }
    if info.phase == Phase::In || info.phase == Phase::Down {
        touch_frame(info, id, time, events);
    }
    let ghost mid = events@;
    info.set_phase(id, Phase::Out, events);
    assert(events@ =~= old(events)@ + spec_tool_left::<T, P, V>(id, *old(info), master, time).1);
}

/// One tool's part of the end of a pump.
fn tool_cleanup<T: Copy, P, V>(info: &mut ToolInfo<T>, id: ID, now: Timestamp, events: &mut Vec<raw::Event<ID, P, V>>)
    ensures
        *final(info) == spec_tool_cleanup::<T, P, V>(id, *old(info), now).0,
        final(events)@ == old(events)@ + spec_tool_cleanup::<T, P, V>(id, *old(info), now).1,
{
    match info.frame_pending {
        Some(t) => {
            events.push(
                raw::Event::Tool {
                    tool: id,
                    event: raw::ToolEvent::Frame(Some(FrameTimestamp::from_millis(t as u64))),
                },
            );
        },
        None => {},
    }
    info.frame_pending = None;
    if info.take_timeout(now) {
        info.set_phase(id, Phase::Out, events);
    }
    assert(events@ =~= old(events)@ + spec_tool_cleanup::<T, P, V>(id, *old(info), now).1);
}

/// One tool's reaction to a button change.
fn tool_button<T: Copy, P, V>(
    info: &mut ToolInfo<T>,
    id: ID,
    detail: u32,
    pressed: bool,
    events: &mut Vec<raw::Event<ID, P, V>>,
)
    ensures
        *final(info) == spec_tool_button::<T, P, V>(id, *old(info), detail, pressed).0,
        final(events)@ == old(events)@ + spec_tool_button::<T, P, V>(id, *old(info), detail, pressed).1,
{
    if detail > 0xffff {
        assert(events@ =~= old(events)@ + seq![]);
        return;
    }
    let button_idx = detail as u16;
    info.ensure_in(id, events);
    if button_idx == 0 {
    } else if button_idx == 1 {
        info.set_phase(
            id,
            if pressed {
                Phase::Down
            } else {
                Phase::In
            },
            events,
        );
    } else {
        events.push(
            raw::Event::Tool {
                tool: id,
                event: raw::ToolEvent::Button {
                    button_id: crate::platform::ButtonID::XInput2(button_idx),
                    pressed,
                },
            },
        );
    }
    assert(events@ =~= old(events)@ + spec_tool_button::<T, P, V>(id, *old(info), detail, pressed).1);
}

/// The pad button event for X button `detail` of a pad with `total` buttons: X numbers pad
/// buttons from 1 to `total`, reported here from 0. Other numbers are ignored.
pub open spec fn spec_pad_button<P, V>(pad: ID, total: u32, detail: u32, pressed: bool) -> Seq<raw::Event<ID, P, V>> {
    if detail == 0 || detail > total {
        seq![]
    } else {
        seq![raw::Event::Pad { pad, event: raw::PadEvent::Button { button_idx: (detail - 1) as u32, pressed } }]
    }
}

/// The position of the button count of pad `id`, if reported.
fn pad_buttons_find(table: &Vec<(ID, u32)>, id: ID) -> (r: Option<usize>)
    ensures
        match r {
            Some(i) => i < table@.len() && table@[i as int].0 == id && forall|j: int| 0 <= j < i ==> table@[j].0 != id,
            None => forall|j: int| 0 <= j < table@.len() ==> table@[j].0 != id,
        },
{
    let mut i: usize = 0;
    while i < table.len()
        invariant
            i <= table@.len(),
            forall|j: int| 0 <= j < i ==> table@[j].0 != id,
        decreases table.len() - i,
    {
        if table[i].0 == id {
            return Some(i);
        }
        i = i + 1;
    }
    None
}

/// The first pad entry with key `id`.
pub open spec fn first_pad_entry(table: Seq<(ID, u32)>, id: ID) -> Option<int> {
    if exists|i: int| 0 <= i < table.len() && table[i].0 == id && forall|j: int| 0 <= j < i ==> table[j].0 != id {
        Some(choose|i: int| 0 <= i < table.len() && table[i].0 == id && forall|j: int| 0 <= j < i ==> table[j].0 != id)
    } else {
        None
    }
}

/// The position of `id` in a table with unique keys, if any.
pub open spec fn key_position<X>(table: Seq<(ID, X)>, id: ID) -> Option<int> {
    if exists|i: int| 0 <= i < table.len() && table[i].0 == id {
        Some(choose|i: int| 0 <= i < table.len() && table[i].0 == id)
    } else {
        None
    }
}

proof fn lemma_key_position<X>(table: Seq<(ID, X)>, id: ID, i: int)
    requires
        sorted_keys(table),
        0 <= i < table.len(),
        table[i].0 == id,
    ensures
        key_position(table, id) == Some(i),
{
    assert(exists|k: int| 0 <= k < table.len() && table[k].0 == id);
    let k = choose|k: int| 0 <= k < table.len() && table[k].0 == id;
    if k < i {
        assert(id_before(table[k].0, table[i].0));
    }
    if i < k {
        assert(id_before(table[i].0, table[k].0));
    }
    lemma_id_order(id, id, id);
    assert(k == i);
}

proof fn lemma_first_pad_entry(table: Seq<(ID, u32)>, id: ID, i: int)
    requires
        0 <= i < table.len(),
        table[i].0 == id,
        forall|j: int| 0 <= j < i ==> table[j].0 != id,
    ensures
        first_pad_entry(table, id) == Some(i),
{
    assert(exists|k: int| 0 <= k < table.len() && table[k].0 == id && forall|j: int| 0 <= j < k ==> table[j].0 != id);
    let k = choose|k: int| 0 <= k < table.len() && table[k].0 == id && forall|j: int| 0 <= j < k ==> table[j].0 != id;
    if k < i {
        assert(table[k].0 != id);
    }
    if i < k {
        assert(table[i].0 != id);
    }
}

impl<T: Copy, P, V> XiState<T, P, V> {
    /// A button press or release from device `device` at `time`. Presses emulated by the
    /// server (from scroll wheels) are ignored. Tools react as `spec_tool_button` says;
    /// otherwise a pad with the device's ID reports the button as `spec_pad_button` says.
    pub fn button_event(&mut self, device: u16, detail: u32, pressed: bool, time: Timestamp, emulated: bool)
        requires
            old(self).wf(),
        ensures
            final(self).wf(),
            final(self).server_time == time,
            final(self).device_generation == old(self).device_generation,
            final(self).pad_infos@ == old(self).pad_infos@,
            final(self).pad_buttons@ == old(self).pad_buttons@,
            ({
                let id = old(self).current_id(device);
                if emulated || device == 0 {
                    final(self).tool_infos@ == old(self).tool_infos@ && final(self).events@ == old(self).events@
                } else {
                    match key_position(old(self).tool_infos@, id) {
                        Some(k) => {
                            let (info, ev) = spec_tool_button::<T, P, V>(id, old(self).tool_infos@[k].1, detail, pressed);
                            &&& final(self).tool_infos@ == old(self).tool_infos@.update(k, (id, info))
                            &&& final(self).events@ == old(self).events@ + ev
                        },
                        None => {
                            &&& final(self).tool_infos@ == old(self).tool_infos@
                            &&& final(self).events@ == old(self).events@ + match first_pad_entry(old(self).pad_buttons@, id) {
                                Some(k) => spec_pad_button::<P, V>(id, old(self).pad_buttons@[k].1, detail, pressed),
                                None => seq![],
                            }
                        },
                    }
                }
            }),
    {
        self.server_time = time;
        if emulated {
            return;
        }
        let id = match super::device_id(device, self.device_generation) {
            Some(id) => id,
            None => return,
        };
        match table_find(&self.tool_infos, id) {
            Some(k) => {
                proof {
                    lemma_key_position(self.tool_infos@, id, k as int);
                }
                let mut info = self.tool_infos[k].1;
                tool_button(&mut info, id, detail, pressed, &mut self.events);
                self.tool_infos.set(k, (id, info));
                proof {
                    assert forall|i: int, j: int| 0 <= i < j < self.tool_infos@.len() implies id_before(
                        self.tool_infos@[i].0,
                        self.tool_infos@[j].0,
                    ) by {
                        assert(id_before(old(self).tool_infos@[i].0, old(self).tool_infos@[j].0));
                    }
                }
            },
            None => {
                proof {
                    if key_position(self.tool_infos@, id) is Some {
                        let k = choose|k: int| 0 <= k < self.tool_infos@.len() && self.tool_infos@[k].0 == id;
                    }
                }
                match pad_buttons_find(&self.pad_buttons, id) {
                    Some(k) => {
                        proof {
                            lemma_first_pad_entry(self.pad_buttons@, id, k as int);
                        }
                        let total = self.pad_buttons[k].1;
                        if detail == 0 || detail > total {
                            assert(self.events@ =~= old(self).events@ + spec_pad_button::<P, V>(id, total, detail, pressed));
                            return;
                        }
                        self.events.push(
                            raw::Event::Pad {
                                pad: id,
                                event: raw::PadEvent::Button { button_idx: detail - 1, pressed },
                            },
                        );
                        assert(self.events@ =~= old(self).events@ + spec_pad_button::<P, V>(id, total, detail, pressed));
                    },
                    None => {
                        assert(self.events@ =~= old(self).events@ + seq![]);
                    },
                }
            },
        }
    }
}

/// One pad's part of the end of a pump.
fn ring_cleanup<T: Copy, P, V>(info: &mut PadInfo<T>, id: ID, now: Timestamp, events: &mut Vec<raw::Event<ID, P, V>>)
    ensures
        *final(info) == spec_ring_cleanup::<T, P, V>(id, *old(info), now).0,
        final(events)@ == old(events)@ + spec_ring_cleanup::<T, P, V>(id, *old(info), now).1,
{
    match info.ring {
        Some(mut ring) => {
            if ring.take_timeout(now) {
                info.ring = Some(ring);
                events.push(
                    raw::Event::Pad {
                        pad: id,
                        event: raw::PadEvent::Group {
                            group: id,
                            event: raw::PadGroupEvent::Ring { ring: id, event: crate::events::TouchStripEvent::Up },
                        },
                    },
                );
            }
        },
        None => {},
    }
    assert(events@ =~= old(events)@ + spec_ring_cleanup::<T, P, V>(id, *old(info), now).1);
}

impl<T: Copy, P, V> XiState<T, P, V> {
    /// The master device `master` left our window at `time`: each of its tools leaves as
    /// `spec_tool_left` says, in table order.
    pub fn parent_left(&mut self, master: u16, time: Timestamp)
        requires
            old(self).wf(),
        ensures
            final(self).wf(),
            final(self).tool_infos@ == fold_table(old(self).tool_infos@, left_step::<T, P, V>(master, time)).0,
            final(self).events@ == old(self).events@ + fold_table(
                old(self).tool_infos@,
                left_step::<T, P, V>(master, time),
            ).1,
            final(self).pad_infos@ == old(self).pad_infos@,
            final(self).pad_buttons@ == old(self).pad_buttons@,
            final(self).server_time == old(self).server_time,
            final(self).device_generation == old(self).device_generation,
    {
        let ghost step = left_step::<T, P, V>(master, time);
        let ghost tools0 = self.tool_infos@;
        let ghost events0 = self.events@;
        let mut i: usize = 0;
        while i < self.tool_infos.len()
            invariant
                i <= self.tool_infos@.len(),
                self.tool_infos@.len() == tools0.len(),
                step == left_step::<T, P, V>(master, time),
                self.tool_infos@.subrange(0, i as int) == fold_table(tools0.subrange(0, i as int), step).0,
                forall|j: int| i <= j < tools0.len() ==> #[trigger] self.tool_infos@[j] == tools0[j],
                self.events@ == events0 + fold_table(tools0.subrange(0, i as int), step).1,
                self.pad_infos@ == old(self).pad_infos@,
                self.pad_buttons@ == old(self).pad_buttons@,
                self.server_time == old(self).server_time,
                self.device_generation == old(self).device_generation,
            decreases self.tool_infos@.len() - i,
        {
            let (id, mut info) = self.tool_infos[i];
            let ghost ev_before = self.events@;
            tool_left(&mut info, id, master, time, &mut self.events);
            let ghost pre = self.tool_infos@;
            self.tool_infos.set(i, (id, info));
            proof {
                lemma_fold_step(tools0, i as int, step);
                assert(self.tool_infos@.subrange(0, i + 1) =~= pre.subrange(0, i as int).push((id, info)));
                assert(self.events@ =~= events0 + fold_table(tools0.subrange(0, i + 1), step).1);
            }
            i = i + 1;
        }
        proof {
            assert(tools0.subrange(0, tools0.len() as int) =~= tools0);
            assert(self.tool_infos@ =~= self.tool_infos@.subrange(0, i as int));
            lemma_fold_keys(tools0, step);
            lemma_same_keys_sorted(tools0, self.tool_infos@);
        }
    }
}

impl<T: Copy, P, V> XiState<T, P, V> {
    /// End of a pump: rings whose interaction timed out are released (`spec_ring_cleanup`),
    /// then each tool emits its pending frame and leaves if it timed out (`spec_tool_cleanup`),
    /// both at the last server time and in table order.
    pub fn post_frame_cleanup(&mut self)
        requires
            old(self).wf(),
        ensures
            final(self).wf(),
            final(self).pad_infos@ == fold_table(
                old(self).pad_infos@,
                ring_cleanup_step::<T, P, V>(old(self).server_time),
            ).0,
            final(self).tool_infos@ == fold_table(
                old(self).tool_infos@,
                cleanup_step::<T, P, V>(old(self).server_time),
            ).0,
            final(self).events@ == old(self).events@ + fold_table(
                old(self).pad_infos@,
                ring_cleanup_step::<T, P, V>(old(self).server_time),
            ).1 + fold_table(old(self).tool_infos@, cleanup_step::<T, P, V>(old(self).server_time)).1,
            final(self).pad_buttons@ == old(self).pad_buttons@,
            final(self).server_time == old(self).server_time,
            final(self).device_generation == old(self).device_generation,
    {
        let now = self.server_time;
        let ghost rstep = ring_cleanup_step::<T, P, V>(now);
        let ghost pads0 = self.pad_infos@;
        let ghost events0 = self.events@;
        let mut i: usize = 0;
        while i < self.pad_infos.len()
            invariant
                i <= self.pad_infos@.len(),
                self.pad_infos@.len() == pads0.len(),
                rstep == ring_cleanup_step::<T, P, V>(now),
                self.pad_infos@.subrange(0, i as int) == fold_table(pads0.subrange(0, i as int), rstep).0,
                forall|j: int| i <= j < pads0.len() ==> #[trigger] self.pad_infos@[j] == pads0[j],
                self.events@ == events0 + fold_table(pads0.subrange(0, i as int), rstep).1,
                self.tool_infos@ == old(self).tool_infos@,
                self.pad_buttons@ == old(self).pad_buttons@,
                self.server_time == now,
                self.device_generation == old(self).device_generation,
            decreases self.pad_infos@.len() - i,
        {
            let (id, mut info) = self.pad_infos[i];
            ring_cleanup(&mut info, id, now, &mut self.events);
            let ghost pre = self.pad_infos@;
            self.pad_infos.set(i, (id, info));
            proof {
                lemma_fold_step(pads0, i as int, rstep);
                assert(self.pad_infos@.subrange(0, i + 1) =~= pre.subrange(0, i as int).push((id, info)));
                assert(self.events@ =~= events0 + fold_table(pads0.subrange(0, i + 1), rstep).1);
            }
            i = i + 1;
        }
        proof {
            assert(pads0.subrange(0, pads0.len() as int) =~= pads0);
            assert(self.pad_infos@ =~= self.pad_infos@.subrange(0, i as int));
            lemma_fold_keys(pads0, rstep);
            lemma_same_keys_sorted(pads0, self.pad_infos@);
        }
        let ghost tstep = cleanup_step::<T, P, V>(now);
        let ghost tools0 = self.tool_infos@;
        let ghost events1 = self.events@;
        let mut i: usize = 0;
        while i < self.tool_infos.len()
            invariant
                i <= self.tool_infos@.len(),
                self.tool_infos@.len() == tools0.len(),
                tstep == cleanup_step::<T, P, V>(now),
                self.tool_infos@.subrange(0, i as int) == fold_table(tools0.subrange(0, i as int), tstep).0,
                forall|j: int| i <= j < tools0.len() ==> #[trigger] self.tool_infos@[j] == tools0[j],
                self.events@ == events1 + fold_table(tools0.subrange(0, i as int), tstep).1,
                self.pad_infos@ == fold_table(pads0, rstep).0,
                sorted_keys(self.pad_infos@),
                self.pad_buttons@ == old(self).pad_buttons@,
                self.server_time == now,
                self.device_generation == old(self).device_generation,
            decreases self.tool_infos@.len() - i,
        {
            let (id, mut info) = self.tool_infos[i];
            tool_cleanup(&mut info, id, now, &mut self.events);
            let ghost pre = self.tool_infos@;
            self.tool_infos.set(i, (id, info));
            proof {
                lemma_fold_step(tools0, i as int, tstep);
                assert(self.tool_infos@.subrange(0, i + 1) =~= pre.subrange(0, i as int).push((id, info)));
                assert(self.events@ =~= events1 + fold_table(tools0.subrange(0, i + 1), tstep).1);
            }
            i = i + 1;
        }
        proof {
            assert(tools0.subrange(0, tools0.len() as int) =~= tools0);
            assert(self.tool_infos@ =~= self.tool_infos@.subrange(0, i as int));
            lemma_fold_keys(tools0, tstep);
            lemma_same_keys_sorted(tools0, self.tool_infos@);
            assert(self.events@ =~= old(self).events@ + fold_table(pads0, rstep).1 + fold_table(tools0, tstep).1);
        }
    }
}

/// The entry of `table` for device `device` in the current generation, if any.
pub open spec fn entry_of_device<X>(table: Seq<(ID, X)>, generation: u16, device: u16) -> Option<int> {
    if device == 0 {
        None
    } else {
        key_position(table, ID::ID { generation, device_id: device })
    }
}

/// The position of device `device` in a sorted table.
fn find_device<X>(table: &Vec<(ID, X)>, generation: u16, device: u16) -> (r: Option<usize>)
    requires
        sorted_keys(table@),
    ensures
        r matches Some(k) ==> entry_of_device(table@, generation, device) == Some(k as int),
        r is None ==> entry_of_device(table@, generation, device) is None,
{
    let id = match super::device_id(device, generation) {
        Some(id) => id,
        None => return None,
    };
    match table_find(table, id) {
        Some(k) => {
            proof {
                lemma_key_position(table@, id, k as int);
            }
            Some(k)
        },
        None => None,
    }
}

impl<T: Copy, P, V> XiState<T, P, V> {
    /// The state of the tool that device `device` is, if it is one.
    pub fn tool_of_device(&self, device: u16) -> (r: Option<ToolInfo<T>>)
        requires
            self.wf(),
        ensures
            r == (match entry_of_device(self.tool_infos@, self.device_generation, device) {
                Some(k) => Some(self.tool_infos@[k].1),
                None => None,
            }),
    {
        match find_device(&self.tool_infos, self.device_generation, device) {
            Some(k) => Some(self.tool_infos[k].1),
            None => None,
        }
    }

    /// The ring of the pad that device `device` is, if it is a pad with a ring.
    pub fn ring_of_device(&self, device: u16) -> (r: Option<RingInfo<T>>)
        requires
            self.wf(),
        ensures
            r == (match entry_of_device(self.pad_infos@, self.device_generation, device) {
                Some(k) => self.pad_infos@[k].1.ring,
                None => None,
            }),
    {
        match find_device(&self.pad_infos, self.device_generation, device) {
            Some(k) => self.pad_infos[k].1.ring,
            None => None,
        }
    }

    /// Motion of device `device` at `time`, which the caller has read as `pose`. If the
    /// device is a tool, its pending frame of another time is closed, it comes In if it was
    /// Out, and the pose is reported; the result says whether it was a tool.
    pub fn tool_motion(&mut self, device: u16, time: Timestamp, pose: P) -> (r: bool)
        requires
            old(self).wf(),
        ensures
            final(self).wf(),
            final(self).server_time == time,
            final(self).device_generation == old(self).device_generation,
            final(self).pad_infos@ == old(self).pad_infos@,
            final(self).pad_buttons@ == old(self).pad_buttons@,
            match entry_of_device(old(self).tool_infos@, old(self).device_generation, device) {
                Some(k) => {
                    let id = old(self).tool_infos@[k].0;
                    let (i1, e1) = spec_touch_frame::<T, P, V>(id, old(self).tool_infos@[k].1, time);
                    let (i2, e2) = spec_ensure_in::<T, P, V>(id, i1);
                    &&& r
                    &&& final(self).tool_infos@ == old(self).tool_infos@.update(k, (id, i2))
                    &&& final(self).events@ == old(self).events@ + e1 + e2 + seq![
                        raw::Event::Tool { tool: id, event: raw::ToolEvent::Pose(pose) },
                    ]
                },
                None => {
                    &&& !r
                    &&& final(self).tool_infos@ == old(self).tool_infos@
                    &&& final(self).events@ == old(self).events@
                },
            },
    {
        self.server_time = time;
        let k = match find_device(&self.tool_infos, self.device_generation, device) {
            Some(k) => k,
            None => return false,
        };
        let (id, mut info) = self.tool_infos[k];
        let ghost e0 = self.events@;
        touch_frame(&mut info, id, time, &mut self.events);
        let ghost e1 = self.events@;
        info.ensure_in(id, &mut self.events);
        let ghost e2 = self.events@;
        self.events.push(raw::Event::Tool { tool: id, event: raw::ToolEvent::Pose(pose) });
        self.tool_infos.set(k, (id, info));
        proof {
            let (i1, ev1) = spec_touch_frame::<T, P, V>(id, old(self).tool_infos@[k as int].1, time);
            let (i2, ev2) = spec_ensure_in::<T, P, V>(id, i1);
            assert(e1 == e0 + ev1);
            assert(info == i2);
            assert(e2 =~= e1 + ev2);
            assert(self.events@ =~= old(self).events@ + ev1 + ev2 + seq![
                raw::Event::Tool { tool: id, event: raw::ToolEvent::Pose(pose) },
            ]);
            assert forall|a: int, b: int| 0 <= a < b < self.tool_infos@.len() implies id_before(
                self.tool_infos@[a].0,
                self.tool_infos@[b].0,
            ) by {
                assert(id_before(old(self).tool_infos@[a].0, old(self).tool_infos@[b].0));
            }
        }
        true
    }

    /// Ring motion of device `device`, after `tool_motion` found no tool: `raw` is the ring's
    /// valuator and `value` what the caller made of it. A pad with a ring first releases it if
    /// its last interaction timed out; a raw zero, which is where the ring snaps back on
    /// release, reports nothing more; otherwise the value and a frame are reported at the
    /// server time, and the interaction is recorded.
    pub fn ring_motion(&mut self, device: u16, raw: super::Fp3232, value: V)
        requires
            old(self).wf(),
        ensures
            final(self).wf(),
            final(self).server_time == old(self).server_time,
            final(self).device_generation == old(self).device_generation,
            final(self).tool_infos@ == old(self).tool_infos@,
            final(self).pad_buttons@ == old(self).pad_buttons@,
            match entry_of_device(old(self).pad_infos@, old(self).device_generation, device) {
                Some(k) if old(self).pad_infos@[k].1.ring is Some => {
                    let now = old(self).server_time;
                    let (id, pad) = old(self).pad_infos@[k];
                    let ring = pad.ring->Some_0;
                    let up = super::timed_out(ring.last_interaction, now, super::RING_TIMEOUT_MS);
                    let e_up = if up {
                        seq![ring_event::<P, V>(id, crate::events::TouchStripEvent::Up)]
                    } else {
                        seq![]
                    };
                    if raw.integral == 0 && raw.frac == 0 {
                        &&& final(self).pad_infos@ == old(self).pad_infos@.update(
                            k,
                            (id, PadInfo {
                                ring: Some(super::RingInfo {
                                    last_interaction: if up { None } else { ring.last_interaction },
                                    ..ring
                                }),
                                ..pad
                            }),
                        )
                        &&& final(self).events@ == old(self).events@ + e_up
                    } else {
                        &&& final(self).pad_infos@ == old(self).pad_infos@.update(
                            k,
                            (id, PadInfo {
                                ring: Some(super::RingInfo { last_interaction: Some(now), ..ring }),
                                ..pad
                            }),
                        )
                        &&& final(self).events@ == old(self).events@ + e_up + seq![
                            ring_event::<P, V>(id, crate::events::TouchStripEvent::Pose(value)),
                            ring_event::<P, V>(
                                id,
                                crate::events::TouchStripEvent::Frame(
                                    Some(FrameTimestamp::at_millis(now as u64)),
                                ),
                            ),
                        ]
                    }
                },
                _ => {
                    &&& final(self).pad_infos@ == old(self).pad_infos@
                    &&& final(self).events@ == old(self).events@
                },
            },
    {
        let k = match find_device(&self.pad_infos, self.device_generation, device) {
            Some(k) => k,
            None => return,
        };
        let (id, mut pad) = self.pad_infos[k];
        let mut ring = match pad.ring {
            Some(ring) => ring,
            None => return,
        };
        let now = self.server_time;
        if ring.take_timeout(now) {
            self.events.push(
                raw::Event::Pad {
                    pad: id,
                    event: raw::PadEvent::Group {
                        group: id,
                        event: raw::PadGroupEvent::Ring { ring: id, event: crate::events::TouchStripEvent::Up },
                    },
                },
            );
        }
        let ghost e_up = self.events@;
        if !(raw.integral == 0 && raw.frac == 0) {
            self.events.push(
                raw::Event::Pad {
                    pad: id,
                    event: raw::PadEvent::Group {
                        group: id,
                        event: raw::PadGroupEvent::Ring {
                            ring: id,
                            event: crate::events::TouchStripEvent::Pose(value),
                        },
                    },
                },
            );
            self.events.push(
                raw::Event::Pad {
                    pad: id,
                    event: raw::PadEvent::Group {
                        group: id,
                        event: raw::PadGroupEvent::Ring {
                            ring: id,
                            event: crate::events::TouchStripEvent::Frame(
                                Some(FrameTimestamp::from_millis(now as u64)),
                            ),
                        },
                    },
                },
            );
            ring.last_interaction = Some(now);
        }
        pad.ring = Some(ring);
        self.pad_infos.set(k, (id, pad));
        proof {
            assert forall|a: int, b: int| 0 <= a < b < self.pad_infos@.len() implies id_before(
                self.pad_infos@[a].0,
                self.pad_infos@[b].0,
            ) by {
                assert(id_before(old(self).pad_infos@[a].0, old(self).pad_infos@[b].0));
            }
            let up = super::timed_out(
                old(self).pad_infos@[k as int].1.ring->Some_0.last_interaction,
                now,
                super::RING_TIMEOUT_MS,
            );
            let e = if up {
                seq![ring_event::<P, V>(id, crate::events::TouchStripEvent::Up)]
            } else {
                seq![]
            };
            assert(e_up =~= old(self).events@ + e);
            if !(raw.integral == 0 && raw.frac == 0) {
                assert(self.events@ =~= e_up + seq![
                    ring_event::<P, V>(id, crate::events::TouchStripEvent::Pose(value)),
                    ring_event::<P, V>(
                        id,
                        crate::events::TouchStripEvent::Frame(Some(FrameTimestamp::at_millis(now as u64))),
                    ),
                ]);
            }
        }
    }
}

/// Whether `tablet` is one of the enumerated tablet devices `tablets`.
pub open spec fn tablet_known(tablets: Seq<u16>, tablet: ID) -> bool {
    match tablet {
        ID::ID { device_id, .. } => tablets.contains(device_id),
        ID::EmulatedTablet => false,
    }
}

/// A tool's tablet after enumeration: an unknown device is replaced by the emulated tablet.
pub open spec fn fixed_tablet(tablets: Seq<u16>, tablet: ID) -> ID {
    if tablet_known(tablets, tablet) {
        tablet
    } else {
        ID::EmulatedTablet
    }
}

/// Whether `tablet` is among the device IDs.
fn tablet_is_known(tablets: &[u16], tablet: ID) -> (r: bool)
    ensures
        r == tablet_known(tablets@, tablet),
{
    match tablet {
        ID::ID { device_id, .. } => {
            let mut i: usize = 0;
            while i < tablets.len()
                invariant
                    i <= tablets@.len(),
                    forall|j: int| 0 <= j < i ==> tablets@[j] != device_id,
                    tablet_known(tablets@, tablet) == tablets@.contains(device_id),
                decreases tablets.len() - i,
            {
                if tablets[i] == device_id {
                    assert(tablets@[i as int] == device_id);
                    return true;
                }
                i = i + 1;
            }
            false
        },
        ID::EmulatedTablet => false,
    }
}

impl<T: Copy, P, V> XiState<T, P, V> {
    /// End of an enumeration that found the tablet devices `tablets`, after devices
    /// `previous` were reported: a tool attached to any other tablet is attached to the
    /// emulated one. The changes are announced: tools, then pads, that went away; the emulated
    /// tablet if it went away or appeared; tools, then pads, that appeared; then each pad, in
    /// table order, announces the tablet it is attached to, since pads cannot roam between
    /// tablets. The result says whether the emulated tablet is needed: some tool or pad is not
    /// attached to a found tablet.
    pub fn finish_enumeration(&mut self, tablets: &[u16], previous: &Enumeration) -> (wants_emulated: bool)
        requires
            old(self).wf(),
        ensures
            final(self).wf(),
            final(self).tool_infos@.len() == old(self).tool_infos@.len(),
            forall|j: int|
                0 <= j < old(self).tool_infos@.len() ==> #[trigger] final(self).tool_infos@[j] == (
                old(self).tool_infos@[j].0,
                ToolInfo { tablet: fixed_tablet(tablets@, old(self).tool_infos@[j].1.tablet), ..old(self).tool_infos@[j].1 },
            ),
            final(self).events@ == old(self).events@
                + change_events::<P, V>(previous.tools@, table_keys(old(self).tool_infos@), DeviceChange::ToolRemoved)
                + change_events::<P, V>(previous.pads@, table_keys(old(self).pad_infos@), DeviceChange::PadRemoved)
                + emulated_tablet_events::<P, V>(previous.emulated_tablet, wants_emulated)
                + change_events::<P, V>(table_keys(old(self).tool_infos@), previous.tools@, DeviceChange::ToolAdded)
                + change_events::<P, V>(table_keys(old(self).pad_infos@), previous.pads@, DeviceChange::PadAdded)
                + old(self).pad_infos@.map_values(
                |e: (ID, PadInfo<T>)| raw::Event::<ID, P, V>::Pad { pad: e.0, event: raw::PadEvent::Enter { tablet: e.1.tablet } },
            ),
            wants_emulated == ((exists|j: int|
                0 <= j < old(self).tool_infos@.len() && !tablet_known(tablets@, #[trigger] old(self).tool_infos@[j].1.tablet))
                || (exists|j: int|
                0 <= j < old(self).pad_infos@.len() && !tablet_known(tablets@, #[trigger] old(self).pad_infos@[j].1.tablet))),
            final(self).emulated_tablet == wants_emulated,
            final(self).pad_infos@ == old(self).pad_infos@,
            final(self).pad_buttons@ == old(self).pad_buttons@,
            final(self).server_time == old(self).server_time,
            final(self).device_generation == old(self).device_generation,
    {
        let tool_keys = keys_of(&self.tool_infos);
        let pad_keys = keys_of(&self.pad_infos);
        let mut wants = false;
        let mut i: usize = 0;
        while i < self.tool_infos.len()
            invariant
                i <= self.tool_infos@.len(),
                self.tool_infos@.len() == old(self).tool_infos@.len(),
                forall|j: int|
                    0 <= j < i ==> #[trigger] self.tool_infos@[j] == (
                    old(self).tool_infos@[j].0,
                    ToolInfo { tablet: fixed_tablet(tablets@, old(self).tool_infos@[j].1.tablet), ..old(self).tool_infos@[j].1 },
                ),
                forall|j: int| i <= j < self.tool_infos@.len() ==> #[trigger] self.tool_infos@[j] == old(self).tool_infos@[j],
                wants == exists|j: int| 0 <= j < i && !tablet_known(tablets@, #[trigger] old(self).tool_infos@[j].1.tablet),
                self.pad_infos@ == old(self).pad_infos@,
                self.events@ == old(self).events@,
                self.pad_buttons@ == old(self).pad_buttons@,
                self.server_time == old(self).server_time,
                self.device_generation == old(self).device_generation,
            decreases self.tool_infos@.len() - i,
        {
            let (id, mut info) = self.tool_infos[i];
            let known = tablet_is_known(tablets, info.tablet);
            if !known {
                info.tablet = ID::EmulatedTablet;
                wants = true;
            }
            self.tool_infos.set(i, (id, info));
            i = i + 1;
        }
        proof {
            lemma_same_keys_sorted(old(self).tool_infos@, self.tool_infos@);
        }
        let ghost tools_wanted = wants;
        let ghost tools_after = self.tool_infos@;
        let mut i: usize = 0;
        while i < self.pad_infos.len()
            invariant
                i <= self.pad_infos@.len(),
                self.pad_infos@ == old(self).pad_infos@,
                wants == (tools_wanted || exists|j: int| 0 <= j < i && !tablet_known(tablets@, #[trigger] old(self).pad_infos@[j].1.tablet)),
            decreases self.pad_infos@.len() - i,
        {
            if !tablet_is_known(tablets, self.pad_infos[i].1.tablet) {
                wants = true;
            }
            i = i + 1;
        }
        let ghost events0 = self.events@;
        push_changes(&mut self.events, &previous.tools, &tool_keys, DeviceChange::ToolRemoved);
        push_changes(&mut self.events, &previous.pads, &pad_keys, DeviceChange::PadRemoved);
        if previous.emulated_tablet && !wants {
            self.events.push(raw::Event::Tablet { tablet: ID::EmulatedTablet, event: TabletEvent::Removed });
        } else if wants && !previous.emulated_tablet {
            self.events.push(raw::Event::Tablet { tablet: ID::EmulatedTablet, event: TabletEvent::Added });
        }
        push_changes(&mut self.events, &tool_keys, &previous.tools, DeviceChange::ToolAdded);
        push_changes(&mut self.events, &pad_keys, &previous.pads, DeviceChange::PadAdded);
        let ghost events1 = self.events@;
        assert(events1 =~= events0
            + change_events::<P, V>(previous.tools@, tool_keys@, DeviceChange::ToolRemoved)
            + change_events::<P, V>(previous.pads@, pad_keys@, DeviceChange::PadRemoved)
            + emulated_tablet_events::<P, V>(previous.emulated_tablet, wants)
            + change_events::<P, V>(tool_keys@, previous.tools@, DeviceChange::ToolAdded)
            + change_events::<P, V>(pad_keys@, previous.pads@, DeviceChange::PadAdded));
        let mut i: usize = 0;
        while i < self.pad_infos.len()
            invariant
                i <= self.pad_infos@.len(),
                self.pad_infos@ == old(self).pad_infos@,
                self.tool_infos@ == tools_after,
                self.pad_buttons@ == old(self).pad_buttons@,
                self.server_time == old(self).server_time,
                self.device_generation == old(self).device_generation,
                self.events@ == events1 + old(self).pad_infos@.subrange(0, i as int).map_values(
                    |e: (ID, PadInfo<T>)| raw::Event::<ID, P, V>::Pad { pad: e.0, event: raw::PadEvent::Enter { tablet: e.1.tablet } },
                ),
            decreases self.pad_infos@.len() - i,
        {
            let (id, pad) = self.pad_infos[i];
            self.events.push(raw::Event::Pad { pad: id, event: raw::PadEvent::Enter { tablet: pad.tablet } });
            proof {
                assert(old(self).pad_infos@.subrange(0, i + 1) =~= old(self).pad_infos@.subrange(0, i as int).push((id, pad)));
            }
            i = i + 1;
        }
        proof {
            assert(old(self).pad_infos@.subrange(0, i as int) =~= old(self).pad_infos@);
        }
        self.emulated_tablet = wants;
        wants
    }
}

/// When a master device leaves the window, every tool attached to it ends up Out, and every
/// other tool is left as it was.
pub proof fn lemma_left_tools_are_out<T, P, V>(table: Seq<(ID, ToolInfo<T>)>, master: u16, time: Timestamp)
    ensures
        fold_table(table, left_step::<T, P, V>(master, time)).0.len() == table.len(),
        forall|j: int|
            0 <= j < table.len() ==> {
                let after = #[trigger] fold_table(table, left_step::<T, P, V>(master, time)).0[j];
                if table[j].1.master_pointer == master || table[j].1.master_keyboard == master {
                    after.0 == table[j].0 && after.1.phase == Phase::Out
                } else {
                    after == table[j]
                }
            },
    decreases table.len(),
{
    lemma_fold_keys(table, left_step::<T, P, V>(master, time));
    if table.len() > 0 {
        let rest = table.drop_last();
        lemma_left_tools_are_out::<T, P, V>(rest, master, time);
        assert forall|j: int| 0 <= j < table.len() - 1 implies #[trigger] rest[j] == table[j] by {}
    }
}

/// Only the tip, X button 1, moves a tool between In and Down: pressing it goes Down and
/// releasing it lifts back In, with a tool that was Out first coming In over its tablet; the
/// tip is never reported as a tool button.
pub proof fn lemma_tip_sets_the_phase<T, P, V>(id: ID, info: ToolInfo<T>, pressed: bool)
    ensures
        ({
            let (after, ev) = spec_tool_button::<T, P, V>(id, info, 1, pressed);
            &&& after.phase == (if pressed { Phase::Down } else { Phase::In })
            &&& forall|k: int| 0 <= k < ev.len() ==> !((#[trigger] ev[k]) matches raw::Event::Tool { event: raw::ToolEvent::Button { .. }, .. })
            &&& (info.phase == Phase::Out ==> ev.len() >= 1 && ev[0] == raw::Event::<ID, P, V>::Tool {
                tool: id,
                event: raw::ToolEvent::In { tablet: info.tablet },
            })
            &&& (pressed && info.phase != Phase::Down ==> ev.last() == raw::Event::<ID, P, V>::Tool {
                tool: id,
                event: raw::ToolEvent::Down,
            })
            &&& (!pressed && info.phase == Phase::Down ==> ev == seq![raw::Event::<ID, P, V>::Tool { tool: id, event: raw::ToolEvent::Up }])
        }),
{
    let (after, ev) = spec_tool_button::<T, P, V>(id, info, 1, pressed);
    let (i1, e1) = spec_ensure_in::<T, P, V>(id, info);
    let target = if pressed { Phase::Down } else { Phase::In };
    let (i2, e2) = spec_set_phase::<T, P, V>(id, i1, target);
    assert(ev == e1 + e2);
    assert forall|k: int| 0 <= k < ev.len() implies !((#[trigger] ev[k]) matches raw::Event::Tool { event: raw::ToolEvent::Button { .. }, .. }) by {
        if k < e1.len() {
            assert(ev[k] == e1[k]);
        } else {
            assert(ev[k] == e2[k - e1.len()]);
        }
    }
}

/// Every other X button of a tool (details 2 up to the largest 16-bit one) is reported as a
/// tool button with that number and the same press, and leaves the phase alone, except that a
/// tool that was Out comes In over its tablet first.
pub proof fn lemma_other_buttons_are_tool_buttons<T, P, V>(id: ID, info: ToolInfo<T>, detail: u32, pressed: bool)
    requires
        2 <= detail <= u16::MAX,
    ensures
        ({
            let (after, ev) = spec_tool_button::<T, P, V>(id, info, detail, pressed);
            &&& after.phase == (if info.phase == Phase::Out { Phase::In } else { info.phase })
            &&& ev.len() == (if info.phase == Phase::Out { 2int } else { 1int })
            &&& ev.last() == raw::Event::<ID, P, V>::Tool {
                tool: id,
                event: raw::ToolEvent::Button { button_id: crate::platform::ButtonID::XInput2(detail as u16), pressed },
            }
            &&& (info.phase == Phase::Out ==> ev[0] == raw::Event::<ID, P, V>::Tool {
                tool: id,
                event: raw::ToolEvent::In { tablet: info.tablet },
            })
        }),
{
}

} // verus!
