//! The state the Ink plugin keeps between pumps, and its reactions to the stylus callbacks.

use vstd::prelude::*;

use super::packet::InterpretError;
use super::ID;
use crate::events::raw;
use crate::events::{FrameTimestamp, TabletEvent};
use crate::platform::InternalID;
use crate::tablet::Tablet;
use crate::axis::{spec_no_axes, FullInfo};
use crate::tool::{HardwareID, Tool, Type};

verus! {

/// Where a stylus that is in range is.
#[derive(Clone, Copy, PartialEq, Eq, Debug, Structural)]
pub enum StylusPhase {
    /// In the air above the surface. This phase doesn't exist on all hardware.
    InAir,
    /// Physically against the surface.
    Touched,
}

/// A tablet slot, in the order the tablets were announced: notifications may refer to a
/// tablet by its position.
#[derive(Clone, Debug)]
pub enum RawTabletSlot<I> {
    /// The tablet could not be set up, but the slot is still taken so that positions stay in
    /// step with the server's.
    Dummy { tcid: u32 },
    /// A tablet whose packets can be read with `raw`.
    Concrete { tcid: u32, raw: I },
}

impl<I> RawTabletSlot<I> {
    /// The tablet context ID.
    pub open spec fn spec_tcid(&self) -> u32 {
        match self {
            RawTabletSlot::Dummy { tcid } => *tcid,
            RawTabletSlot::Concrete { tcid, .. } => *tcid,
        }
    }

    /// The tablet context ID.
    pub fn tcid(&self) -> (r: u32)
        ensures
            r == self.spec_tcid(),
    {
        match self {
            RawTabletSlot::Dummy { tcid } => *tcid,
            RawTabletSlot::Concrete { tcid, .. } => *tcid,
        }
    }
}

/// The phase of each stylus in range, by stylus; a stylus that is out of range has none.
pub open spec fn phase_map(states: Seq<(ID, StylusPhase)>) -> Map<ID, StylusPhase> {
    Map::new(
        |id: ID| exists|i: int| 0 <= i < states.len() && states[i].0 == id,
        |id: ID| states[choose|i: int| 0 <= i < states.len() && states[i].0 == id].1,
    )
}

/// No stylus is listed twice.
pub open spec fn unique_keys(states: Seq<(ID, StylusPhase)>) -> bool {
    forall|i: int, j: int| 0 <= i < j < states.len() ==> states[i].0 != states[j].0
}

proof fn lemma_phase_at(states: Seq<(ID, StylusPhase)>, i: int)
    requires
        unique_keys(states),
        0 <= i < states.len(),
    ensures
        phase_map(states).dom().contains(states[i].0),
        phase_map(states)[states[i].0] == states[i].1,
{
    let id = states[i].0;
    assert(exists|k: int| 0 <= k < states.len() && states[k].0 == id);
    let k = choose|k: int| 0 <= k < states.len() && states[k].0 == id;
    if k != i {
        assert(states[k].0 == states[i].0);
    }
}

/// The positions that are queued for removal strictly increase and lie within the slots.
pub open spec fn deletions_valid(deletions: Seq<usize>, slots: nat) -> bool {
    &&& forall|i: int, j: int| 0 <= i < j < deletions.len() ==> deletions[i] < deletions[j]
    &&& forall|i: int| 0 <= i < deletions.len() ==> deletions[i] < slots
}

/// The slots left when those at the listed positions (increasing) are removed.
pub open spec fn remove_all<X>(s: Seq<X>, positions: Seq<usize>) -> Seq<X>
    decreases positions.len(),
{
    if positions.len() == 0 {
        s
    } else {
        remove_all(s.remove(positions.last() as int), positions.drop_last())
    }
}

/// The phase events of a stylus going to `to` from `from` (`None`: out of range) over
/// `tablet`; none if the phase does not change.
pub open spec fn spec_phase_events<P, V>(stylus: ID, tablet: ID, from: Option<StylusPhase>, to: StylusPhase) -> Seq<
    raw::Event<ID, P, V>,
> {
    let tool = |e: raw::ToolEvent<ID, P>| raw::Event::<ID, P, V>::Tool { tool: stylus, event: e };
    match (from, to) {
        (None, StylusPhase::InAir) => seq![tool(raw::ToolEvent::In { tablet })],
        (None, StylusPhase::Touched) => seq![tool(raw::ToolEvent::In { tablet }), tool(raw::ToolEvent::Down)],
        (Some(StylusPhase::Touched), StylusPhase::InAir) => seq![tool(raw::ToolEvent::Up)],
        (Some(StylusPhase::InAir), StylusPhase::Touched) => seq![tool(raw::ToolEvent::Down)],
        _ => seq![],
    }
}

/// How many packets at the front were read without error.
pub open spec fn leading_ok<X, E>(s: Seq<Result<X, E>>) -> nat
    decreases s.len(),
{
    if s.len() == 0 || s[0] is Err {
        0
    } else {
        1 + leading_ok(s.drop_first())
    }
}

proof fn lemma_leading_ok<X, E>(s: Seq<Result<X, E>>, i: int)
    requires
        0 <= i <= s.len(),
        forall|j: int| 0 <= j < i ==> #[trigger] s[j] is Ok,
        i == s.len() || s[i] is Err,
    ensures
        leading_ok(s) == i,
    decreases i,
{
    if i > 0 {
        let t = s.drop_first();
        assert forall|j: int| 0 <= j < i - 1 implies #[trigger] t[j] is Ok by {
            assert(t[j] == s[j + 1]);
        }
        if i < s.len() {
            assert(t[i - 1] == s[i]);
        }
        lemma_leading_ok(t, i - 1);
    }
}

/// The pose and frame events of the packets read before the first error, in order.
pub open spec fn spec_packet_events<P, V>(stylus: ID, packets: Seq<Result<(P, Option<FrameTimestamp>), InterpretError>>) -> Seq<
    raw::Event<ID, P, V>,
> {
    Seq::new(
        2 * leading_ok(packets),
        |k: int|
            if k % 2 == 0 {
                raw::Event::<ID, P, V>::Tool { tool: stylus, event: raw::ToolEvent::Pose(packets[k / 2]->Ok_0.0) }
            } else {
                raw::Event::<ID, P, V>::Tool {
                    tool: stylus,
                    event: raw::ToolEvent::Frame(packets[k / 2]->Ok_0.1),
                }
            },
    )
}

/// The state the plugin shares with the manager. `I` holds how a tablet's packets are read,
/// `L` the limits of tool axes, `P` a pose.
#[derive(Clone)]
pub struct InkFrame<I, L, P, V> {
    /// The phase of each stylus in range.
    pub stylus_states: Vec<(ID, StylusPhase)>,
    pub tools: Vec<Tool<L>>,
    /// Positions in `raw_tablets` queued for removal once the events are consumed, increasing.
    pub raw_tablet_deletions: Vec<usize>,
    /// Tablets in the order they were announced.
    pub raw_tablets: Vec<RawTabletSlot<I>>,
    /// The tablets made from concrete slots.
    pub tablets: Vec<Tablet>,
    pub events: Vec<raw::Event<ID, P, V>>,
}

impl<I, L, P, V> InkFrame<I, L, P, V> {
    /// Each stylus once; removals increasing and within the slots.
    pub open spec fn wf(&self) -> bool {
        &&& unique_keys(self.stylus_states@)
        &&& deletions_valid(self.raw_tablet_deletions@, self.raw_tablets@.len())
    }

    /// An empty frame.
    pub fn new() -> (r: Self)
        ensures
            r.wf(),
            r.stylus_states@.len() == 0,
            r.tools@.len() == 0,
            r.raw_tablet_deletions@.len() == 0,
            r.raw_tablets@.len() == 0,
            r.tablets@.len() == 0,
            r.events@.len() == 0,
    {
        InkFrame {
            stylus_states: Vec::new(),
            tools: Vec::new(),
            raw_tablet_deletions: Vec::new(),
            raw_tablets: Vec::new(),
            tablets: Vec::new(),
            events: Vec::new(),
        }
    }

    /// Destroy all state, even if it is inconsistent.
    pub fn reset(&mut self)
        ensures
            final(self).wf(),
            final(self).stylus_states@.len() == 0,
            final(self).tools@.len() == 0,
            final(self).raw_tablet_deletions@.len() == 0,
            final(self).raw_tablets@.len() == 0,
            final(self).tablets@.len() == 0,
            final(self).events@.len() == 0,
    {
        self.stylus_states.clear();
        self.tools.clear();
        self.raw_tablet_deletions.clear();
        self.raw_tablets.clear();
        self.tablets.clear();
        self.events.clear();
    }

    /// Append a tablet slot: a concrete one, read with `raw`, whose user-facing tablet (named
    /// `name`, with the slot's ID) is announced as added, or a dummy that only keeps the
    /// positions in step.
    pub fn append_tablet(&mut self, tcid: u32, concrete: Option<(I, Option<String>)>)
        requires
            old(self).wf(),
        ensures
            final(self).wf(),
            final(self).stylus_states@ == old(self).stylus_states@,
            final(self).raw_tablet_deletions@ == old(self).raw_tablet_deletions@,
            final(self).raw_tablets@.len() == old(self).raw_tablets@.len() + 1,
            final(self).raw_tablets@.drop_last() == old(self).raw_tablets@,
            final(self).raw_tablets@.last().spec_tcid() == tcid,
            (final(self).raw_tablets@.last() is Concrete) == (concrete is Some),
            match concrete {
                Some((raw, name)) => {
                    &&& final(self).raw_tablets@.last() == (RawTabletSlot::Concrete { tcid, raw })
                    &&& final(self).tablets@ == old(self).tablets@.push(
                        Tablet { internal_id: InternalID::Ink(ID::Tablet(tcid)), name, usb_id: None },
                    )
                    &&& final(self).events@ == old(self).events@.push(
                        raw::Event::Tablet { tablet: ID::Tablet(tcid), event: TabletEvent::Added },
                    )
                },
                None => {
                    &&& final(self).tablets@ == old(self).tablets@
                    &&& final(self).events@ == old(self).events@
                },
            },
    {
        let slot = match concrete {
            Some((raw, name)) => {
                self.tablets.push(Tablet { internal_id: InternalID::Ink(ID::Tablet(tcid)), name, usb_id: None });
                self.events.push(raw::Event::Tablet { tablet: ID::Tablet(tcid), event: TabletEvent::Added });
                RawTabletSlot::Concrete { tcid, raw }
            },
            None => RawTabletSlot::Dummy { tcid },
        };
        self.raw_tablets.push(slot);
        assert(self.raw_tablets@.drop_last() =~= old(self).raw_tablets@);
    }

    /// The position of the first slot with `tcid` that is not queued for removal.
    pub fn live_slot(&self, tcid: u32) -> (r: Option<usize>)
        requires
            self.wf(),
        ensures
            match r {
                Some(k) => {
                    &&& k < self.raw_tablets@.len()
                    &&& self.raw_tablets@[k as int].spec_tcid() == tcid
                    &&& !self.raw_tablet_deletions@.contains(k)
                    &&& forall|j: int|
                        0 <= j < k ==> self.raw_tablets@[j].spec_tcid() != tcid
                            || self.raw_tablet_deletions@.contains(j as usize)
                },
                None => forall|j: int|
                    0 <= j < self.raw_tablets@.len() ==> self.raw_tablets@[j].spec_tcid() != tcid
                        || self.raw_tablet_deletions@.contains(j as usize),
            },
    {
        let mut k: usize = 0;
        while k < self.raw_tablets.len()
            invariant
                self.wf(),
                k <= self.raw_tablets@.len(),
                forall|j: int|
                    0 <= j < k ==> self.raw_tablets@[j].spec_tcid() != tcid
                        || self.raw_tablet_deletions@.contains(j as usize),
            decreases self.raw_tablets@.len() - k,
        {
            if self.raw_tablets[k].tcid() == tcid && !self.is_deleted(k) {
                return Some(k);
            }
            k = k + 1;
        }
        None
    }

    /// Whether slot `k` is queued for removal.
    pub fn is_deleted(&self, k: usize) -> (r: bool)
        ensures
            r == self.raw_tablet_deletions@.contains(k),
    {
        let mut i: usize = 0;
        while i < self.raw_tablet_deletions.len()
            invariant
                i <= self.raw_tablet_deletions@.len(),
                forall|j: int| 0 <= j < i ==> self.raw_tablet_deletions@[j] != k,
            decreases self.raw_tablet_deletions@.len() - i,
        {
            if self.raw_tablet_deletions[i] == k {
                assert(self.raw_tablet_deletions@[i as int] == k);
                return true;
            }
            i = i + 1;
        }
        false
    }

    /// A stylus went out of range: it is forgotten, and leaves (lifting first if it touched).
    pub fn stylus_out_of_range(&mut self, stylus: ID)
        requires
            old(self).wf(),
        ensures
            final(self).wf(),
            phase_map(final(self).stylus_states@) == phase_map(old(self).stylus_states@).remove(stylus),
            final(self).events@ == old(self).events@ + if !phase_map(old(self).stylus_states@).dom().contains(stylus) {
                seq![]
            } else if phase_map(old(self).stylus_states@)[stylus] == StylusPhase::Touched {
                seq![
                    raw::Event::Tool { tool: stylus, event: raw::ToolEvent::Up },
                    raw::Event::Tool { tool: stylus, event: raw::ToolEvent::Out },
                ]
            } else {
                seq![raw::Event::Tool { tool: stylus, event: raw::ToolEvent::Out }]
            },
            final(self).tools@ == old(self).tools@,
            final(self).raw_tablet_deletions@ == old(self).raw_tablet_deletions@,
            final(self).raw_tablets@ == old(self).raw_tablets@,
            final(self).tablets@ == old(self).tablets@,
    {
        let ghost s0 = self.stylus_states@;
        match find_stylus(&self.stylus_states, stylus) {
            Some(k) => {
                proof {
                    lemma_phase_at(s0, k as int);
                }
                let (_, phase) = self.stylus_states.remove(k);
                match phase {
                    StylusPhase::Touched => {
                        self.events.push(raw::Event::Tool { tool: stylus, event: raw::ToolEvent::Up });
                        self.events.push(raw::Event::Tool { tool: stylus, event: raw::ToolEvent::Out });
                    },
                    StylusPhase::InAir => {
                        self.events.push(raw::Event::Tool { tool: stylus, event: raw::ToolEvent::Out });
                    },
                }
                proof {
                    let s1 = self.stylus_states@;
                    assert(unique_keys(s1)) by {
                        assert forall|i: int, j: int| 0 <= i < j < s1.len() implies s1[i].0 != s1[j].0 by {
                            let oi = if i < k { i } else { i + 1 };
                            let oj = if j < k { j } else { j + 1 };
                            assert(s1[i] == s0[oi] && s1[j] == s0[oj]);
                        }
                    }
                    assert(phase_map(s1) =~= phase_map(s0).remove(stylus)) by {
                        assert forall|id: ID| #[trigger] phase_map(s1).dom().contains(id) <==> phase_map(s0).remove(stylus).dom().contains(id) by {
                            if phase_map(s1).dom().contains(id) {
                                let i = choose|i: int| 0 <= i < s1.len() && s1[i].0 == id;
                                let oi = if i < k { i } else { i + 1 };
                                assert(s0[oi] == s1[i]);
                                assert(s0[oi].0 != s0[k as int].0);
                            }
                            if phase_map(s0).remove(stylus).dom().contains(id) {
                                let i = choose|i: int| 0 <= i < s0.len() && s0[i].0 == id;
                                assert(i != k);
                                let ni = if i < k { i } else { i - 1 };
                                assert(s1[ni] == s0[i]);
                            }
                        }
                        assert forall|id: ID| #[trigger] phase_map(s1).dom().contains(id) implies phase_map(s1)[id] == phase_map(s0).remove(stylus)[id] by {
                            let i = choose|i: int| 0 <= i < s1.len() && s1[i].0 == id;
                            let oi = if i < k { i } else { i + 1 };
                            assert(s0[oi] == s1[i]);
                            lemma_phase_at(s1, i);
                            lemma_phase_at(s0, oi);
                        }
                    }
                }
            },
            None => {
                proof {
                    assert(phase_map(s0) =~= phase_map(s0).remove(stylus));
                }
            },
        }
    }

    /// Move stylus `stylus` into `phase` over tablet `tcid`, reporting the change.
    /// The result says whether events were pushed that need a frame.
    fn set_stylus_phase(&mut self, stylus: ID, tcid: u32, phase: StylusPhase) -> (needs_frame: bool)
        requires
            old(self).wf(),
        ensures
            final(self).wf(),
            phase_map(final(self).stylus_states@) == phase_map(old(self).stylus_states@).insert(stylus, phase),
            ({
                let from = if phase_map(old(self).stylus_states@).dom().contains(stylus) {
                    Some(phase_map(old(self).stylus_states@)[stylus])
                } else {
                    None
                };
                &&& final(self).events@ == old(self).events@ + spec_phase_events::<P, V>(stylus, ID::Tablet(tcid), from, phase)
                &&& needs_frame == (from != Some(phase))
            }),
            final(self).tools@ == old(self).tools@,
            final(self).raw_tablet_deletions@ == old(self).raw_tablet_deletions@,
            final(self).raw_tablets@ == old(self).raw_tablets@,
            final(self).tablets@ == old(self).tablets@,
    {
        let ghost s0 = self.stylus_states@;
        let tablet = ID::Tablet(tcid);
        match find_stylus(&self.stylus_states, stylus) {
            Some(k) => {
                proof {
                    lemma_phase_at(s0, k as int);
                }
                let old_phase = self.stylus_states[k].1;
                if old_phase == phase {
                    proof {
                        assert(phase_map(s0) =~= phase_map(s0).insert(stylus, phase));
                        assert(self.events@ =~= old(self).events@ + spec_phase_events::<P, V>(stylus, tablet, Some(old_phase), phase));
                    }
                    return false;
                }
                self.stylus_states.set(k, (stylus, phase));
                match phase {
                    StylusPhase::InAir => {
                        self.events.push(raw::Event::Tool { tool: stylus, event: raw::ToolEvent::Up });
                    },
                    StylusPhase::Touched => {
                        self.events.push(raw::Event::Tool { tool: stylus, event: raw::ToolEvent::Down });
                    },
                }
                proof {
                    let s1 = self.stylus_states@;
                    assert(unique_keys(s1)) by {
                        assert forall|i: int, j: int| 0 <= i < j < s1.len() implies s1[i].0 != s1[j].0 by {
                            assert(s1[i].0 == s0[i].0 && s1[j].0 == s0[j].0);
                        }
                    }
                    assert(phase_map(s1) =~= phase_map(s0).insert(stylus, phase)) by {
                        assert forall|id: ID| #[trigger] phase_map(s1).dom().contains(id) <==> phase_map(s0).insert(stylus, phase).dom().contains(id) by {
                            if phase_map(s0).dom().contains(id) {
                                let i = choose|i: int| 0 <= i < s0.len() && s0[i].0 == id;
                                assert(s1[i].0 == s0[i].0);
                            }
                            if phase_map(s1).dom().contains(id) {
                                let i = choose|i: int| 0 <= i < s1.len() && s1[i].0 == id;
                                assert(s1[i].0 == s0[i].0);
                            }
                            assert(s1[k as int].0 == stylus);
                        }
                        assert forall|id: ID| #[trigger] phase_map(s1).dom().contains(id) implies phase_map(s1)[id] == phase_map(s0).insert(stylus, phase)[id] by {
                            let i = choose|i: int| 0 <= i < s1.len() && s1[i].0 == id;
                            lemma_phase_at(s1, i);
                            if id != stylus {
                                assert(s1[i] == s0[i]);
                                lemma_phase_at(s0, i);
                            } else {
                                lemma_phase_at(s1, k as int);
                            }
                        }
                    }
                    assert(self.events@ =~= old(self).events@ + spec_phase_events::<P, V>(stylus, tablet, Some(old_phase), phase));
                }
                true
            },
            None => {
                self.stylus_states.push((stylus, phase));
                match phase {
                    StylusPhase::InAir => {
                        self.events.push(raw::Event::Tool { tool: stylus, event: raw::ToolEvent::In { tablet } });
                    },
                    StylusPhase::Touched => {
                        self.events.push(raw::Event::Tool { tool: stylus, event: raw::ToolEvent::In { tablet } });
                        self.events.push(raw::Event::Tool { tool: stylus, event: raw::ToolEvent::Down });
                    },
                }
                proof {
                    let s1 = self.stylus_states@;
                    let n = s0.len() as int;
                    assert(!phase_map(s0).dom().contains(stylus));
                    assert(unique_keys(s1)) by {
                        assert forall|i: int, j: int| 0 <= i < j < s1.len() implies s1[i].0 != s1[j].0 by {
                            if j == n {
                                assert(s1[i] == s0[i]);
                            } else {
                                assert(s1[i] == s0[i] && s1[j] == s0[j]);
                            }
                        }
                    }
                    assert(phase_map(s1) =~= phase_map(s0).insert(stylus, phase)) by {
                        assert forall|id: ID| #[trigger] phase_map(s1).dom().contains(id) <==> phase_map(s0).insert(stylus, phase).dom().contains(id) by {
                            if phase_map(s0).dom().contains(id) {
                                let i = choose|i: int| 0 <= i < s0.len() && s0[i].0 == id;
                                assert(s1[i] == s0[i]);
                            }
                            if phase_map(s1).dom().contains(id) {
                                let i = choose|i: int| 0 <= i < s1.len() && s1[i].0 == id;
                                if i < n {
                                    assert(s1[i] == s0[i]);
                                }
                            }
                            assert(s1[n].0 == stylus);
                        }
                        assert forall|id: ID| #[trigger] phase_map(s1).dom().contains(id) implies phase_map(s1)[id] == phase_map(s0).insert(stylus, phase)[id] by {
                            let i = choose|i: int| 0 <= i < s1.len() && s1[i].0 == id;
                            lemma_phase_at(s1, i);
                            if i < n {
                                assert(s1[i] == s0[i]);
                                lemma_phase_at(s0, i);
                            }
                        }
                    }
                    assert(self.events@ =~= old(self).events@ + spec_phase_events::<P, V>(stylus, tablet, None, phase));
                }
                true
            },
        }
    }

    /// Packets of stylus `stylus` over tablet `tcid` in `phase`, read by the caller with the
    /// tablet's interpreter. Nothing happens unless the tablet has a concrete slot not queued
    /// for removal. Otherwise a change of phase is reported, then the pose and frame of each
    /// packet up to the first that could not be read; a phase change without any packet
    /// gets a frame of its own.
    pub fn handle_packets(
        &mut self,
        stylus: ID,
        tcid: u32,
        phase: StylusPhase,
        packets: Vec<Result<(P, Option<FrameTimestamp>), InterpretError>>,
    )
        requires
            old(self).wf(),
        ensures
            final(self).wf(),
            final(self).tools@ == old(self).tools@,
            final(self).raw_tablet_deletions@ == old(self).raw_tablet_deletions@,
            final(self).raw_tablets@ == old(self).raw_tablets@,
            final(self).tablets@ == old(self).tablets@,
            ({
                let live = exists|k: int|
                    0 <= k < old(self).raw_tablets@.len() && old(self).raw_tablets@[k].spec_tcid() == tcid
                        && !old(self).raw_tablet_deletions@.contains(k as usize) && forall|j: int|
                        0 <= j < k ==> old(self).raw_tablets@[j].spec_tcid() != tcid
                            || old(self).raw_tablet_deletions@.contains(j as usize);
                let first = choose|k: int|
                    0 <= k < old(self).raw_tablets@.len() && old(self).raw_tablets@[k].spec_tcid() == tcid
                        && !old(self).raw_tablet_deletions@.contains(k as usize) && forall|j: int|
                        0 <= j < k ==> old(self).raw_tablets@[j].spec_tcid() != tcid
                            || old(self).raw_tablet_deletions@.contains(j as usize);
                let from = if phase_map(old(self).stylus_states@).dom().contains(stylus) {
                    Some(phase_map(old(self).stylus_states@)[stylus])
                } else {
                    None
                };
                let phase_events = spec_phase_events::<P, V>(stylus, ID::Tablet(tcid), from, phase);
                let packet_events = spec_packet_events::<P, V>(stylus, packets@);
                let lone_frame = if from != Some(phase) && leading_ok(packets@) == 0 {
                    seq![raw::Event::Tool { tool: stylus, event: raw::ToolEvent::Frame(None) }]
                } else {
                    seq![]
                };
                if live && old(self).raw_tablets@[first] is Concrete {
                    &&& phase_map(final(self).stylus_states@) == phase_map(old(self).stylus_states@).insert(stylus, phase)
                    &&& final(self).events@ == old(self).events@ + phase_events + packet_events + lone_frame
                } else {
                    &&& final(self).stylus_states@ == old(self).stylus_states@
                    &&& final(self).events@ == old(self).events@
                }
            }),
    {
        let k = match self.live_slot(tcid) {
            Some(k) => k,
            None => {
                return;
            },
        };
        proof {
            let t = old(self).raw_tablets@;
            let d = old(self).raw_tablet_deletions@;
            assert(0 <= k < t.len() && t[k as int].spec_tcid() == tcid && !d.contains(k) && forall|j: int|
                0 <= j < k ==> t[j].spec_tcid() != tcid || d.contains(j as usize));
            let c = choose|c: int|
                0 <= c < t.len() && t[c].spec_tcid() == tcid && !d.contains(c as usize) && forall|j: int|
                    0 <= j < c ==> t[j].spec_tcid() != tcid || d.contains(j as usize);
            if c < k {
                assert(t[c].spec_tcid() != tcid || d.contains(c as usize));
            }
            if k < c {
                assert(t[k as int].spec_tcid() != tcid || d.contains(k));
            }
            assert(c == k);
        }
        let concrete = match &self.raw_tablets[k] {
            RawTabletSlot::Concrete { .. } => true,
            RawTabletSlot::Dummy { .. } => false,
        };
        if !concrete {
            return;
        }
        let mut needs_frame = self.set_stylus_phase(stylus, tcid, phase);
        let ghost nf0 = needs_frame;
        let ghost e1 = self.events@;
        let ghost mid = self.stylus_states@;
        let ghost ps = packets@;
        let mut packets = packets;
        assert(ps.len() == packets.len());
        let mut i: usize = 0;
        while packets.len() > 0
            invariant_except_break
                i + packets@.len() == ps.len(),
                packets@ == ps.subrange(i as int, ps.len() as int),
            invariant
                i <= ps.len(),
                ps.len() <= usize::MAX,
                forall|j: int| 0 <= j < i ==> #[trigger] ps[j] is Ok,
                self.events@ == e1 + Seq::new(
                    2 * i as nat,
                    |k: int|
                        if k % 2 == 0 {
                            raw::Event::<ID, P, V>::Tool { tool: stylus, event: raw::ToolEvent::Pose(ps[k / 2]->Ok_0.0) }
                        } else {
                            raw::Event::<ID, P, V>::Tool { tool: stylus, event: raw::ToolEvent::Frame(ps[k / 2]->Ok_0.1) }
                        },
                ),
                i > 0 ==> !needs_frame,
                i == 0 ==> needs_frame == nf0,
                self.stylus_states@ == mid,
                self.tools@ == old(self).tools@,
                self.raw_tablet_deletions@ == old(self).raw_tablet_deletions@,
                self.raw_tablets@ == old(self).raw_tablets@,
                self.tablets@ == old(self).tablets@,
            ensures
                i == ps.len() || ps[i as int] is Err,
            decreases packets@.len(),
        {
            let next = packets.remove(0);
            assert(next == ps[i as int]);
            match next {
                Ok((pose, timestamp)) => {
                    let ghost before = self.events@;
                    self.events.push(raw::Event::Tool { tool: stylus, event: raw::ToolEvent::Pose(pose) });
                    self.events.push(raw::Event::Tool { tool: stylus, event: raw::ToolEvent::Frame(timestamp) });
                    needs_frame = false;
                    proof {
                        assert(packets@ =~= ps.subrange(i + 1, ps.len() as int));
                    }
                    i = i + 1;
                    proof {
                        assert(self.events@ =~= e1 + Seq::new(
                            2 * i as nat,
                            |k: int|
                                if k % 2 == 0 {
                                    raw::Event::<ID, P, V>::Tool { tool: stylus, event: raw::ToolEvent::Pose(ps[k / 2]->Ok_0.0) }
                                } else {
                                    raw::Event::<ID, P, V>::Tool { tool: stylus, event: raw::ToolEvent::Frame(ps[k / 2]->Ok_0.1) }
                                },
                        ));
                    }
                },
                Err(_) => {
                    break;
                },
            }
        }
        proof {
            lemma_leading_ok(ps, i as int);
        }
        if needs_frame {
            self.events.push(raw::Event::Tool { tool: stylus, event: raw::ToolEvent::Frame(None) });
        }
        proof {
            let pe = spec_packet_events::<P, V>(stylus, ps);
            if needs_frame {
                assert(self.events@ =~= e1 + pe + seq![raw::Event::Tool { tool: stylus, event: raw::ToolEvent::Frame(None) }]);
            } else {
                assert(self.events@ =~= e1 + pe + seq![]);
            }
        }
    }
}

/// The position of stylus `stylus` in the state table.
fn find_stylus(states: &Vec<(ID, StylusPhase)>, stylus: ID) -> (r: Option<usize>)
    ensures
        match r {
            Some(k) => k < states@.len() && states@[k as int].0 == stylus,
            None => !phase_map(states@).dom().contains(stylus),
        },
{
    let mut i: usize = 0;
    while i < states.len()
        invariant
            i <= states@.len(),
            forall|j: int| 0 <= j < i ==> states@[j].0 != stylus,
        decreases states@.len() - i,
    {
        if states[i].0 == stylus {
            return Some(i);
        }
        i = i + 1;
    }
    None
}

/// How many listed positions lie below `n`.
pub open spec fn count_below(positions: Seq<usize>, n: int) -> nat
    decreases positions.len(),
{
    if positions.len() == 0 {
        0
    } else {
        count_below(positions.drop_last(), n) + if positions.last() < n {
            1nat
        } else {
            0nat
        }
    }
}

/// How many times `x` is listed.
pub open spec fn count_eq(positions: Seq<usize>, x: int) -> nat
    decreases positions.len(),
{
    if positions.len() == 0 {
        0
    } else {
        count_eq(positions.drop_last(), x) + if positions.last() == x {
            1nat
        } else {
            0nat
        }
    }
}

/// The logical position of slot `physical`: the slots before it that are not queued for
/// removal.
pub open spec fn logical_index(deletions: Seq<usize>, physical: int) -> int {
    physical - count_below(deletions, physical)
}

proof fn lemma_count_step(positions: Seq<usize>, n: int)
    ensures
        count_below(positions, n + 1) == count_below(positions, n) + count_eq(positions, n),
    decreases positions.len(),
{
    if positions.len() > 0 {
        lemma_count_step(positions.drop_last(), n);
    }
}

proof fn lemma_count_eq_unique(positions: Seq<usize>, x: usize)
    requires
        forall|i: int, j: int| 0 <= i < j < positions.len() ==> positions[i] < positions[j],
    ensures
        count_eq(positions, x as int) == if positions.contains(x) {
            1nat
        } else {
            0nat
        },
    decreases positions.len(),
{
    if positions.len() > 0 {
        let d = positions.drop_last();
        lemma_count_eq_unique(d, x);
        let n = positions.len() - 1;
        if positions.last() == x {
            assert(positions[n] == x);
            if d.contains(x) {
                let k = choose|k: int| 0 <= k < d.len() && d[k] == x;
                assert(positions[k] == d[k]);
                assert(positions[k] < positions[n]);
            }
        } else {
            if positions.contains(x) {
                let k = choose|k: int| 0 <= k < positions.len() && positions[k] == x;
                assert(k != n);
                assert(d[k] == positions[k]);
            }
            if d.contains(x) {
                let k = choose|k: int| 0 <= k < d.len() && d[k] == x;
                assert(positions[k] == d[k]);
            }
        }
    }
}

proof fn lemma_count_zero(positions: Seq<usize>)
    ensures
        count_below(positions, 0) == 0,
    decreases positions.len(),
{
    if positions.len() > 0 {
        lemma_count_zero(positions.drop_last());
    }
}

proof fn lemma_count_all(positions: Seq<usize>, n: int)
    requires
        forall|i: int| 0 <= i < positions.len() ==> positions[i] < n,
    ensures
        count_below(positions, n) == positions.len(),
    decreases positions.len(),
{
    if positions.len() > 0 {
        let d = positions.drop_last();
        assert forall|i: int| 0 <= i < d.len() implies d[i] < n by {
            assert(d[i] == positions[i]);
        }
        lemma_count_all(d, n);
    }
}

proof fn lemma_count_below_bound(positions: Seq<usize>, n: int)
    ensures
        count_below(positions, n) <= positions.len(),
    decreases positions.len(),
{
    if positions.len() > 0 {
        lemma_count_below_bound(positions.drop_last(), n);
    }
}

/// Whether `t` was made from one of the slots at `positions`.
pub open spec fn made_from<I>(t: Tablet, slots: Seq<RawTabletSlot<I>>, positions: Seq<usize>) -> bool {
    exists|i: int|
        0 <= i < positions.len() && t.internal_id == InternalID::Ink(ID::Tablet(slots[positions[i] as int].spec_tcid()))
}

/// Tablets that were not made from the slots at `positions`.
pub open spec fn kept_tablet<I>(slots: Seq<RawTabletSlot<I>>, positions: Seq<usize>) -> spec_fn(Tablet) -> bool {
    |t: Tablet| !made_from(t, slots, positions)
}

impl<I, L, P, V> InkFrame<I, L, P, V> {
    /// The tablet at logical position `idx` was removed: the slot that is the `idx`th among
    /// those not already queued for removal is queued, in order, and its removal announced.
    /// A negative or too large `idx` is an error, and changes nothing.
    pub fn delete_tcid_by_idx(&mut self, idx: i32) -> (r: Result<usize, ()>)
        requires
            old(self).wf(),
        ensures
            final(self).wf(),
            final(self).stylus_states@ == old(self).stylus_states@,
            final(self).tools@ == old(self).tools@,
            final(self).raw_tablets@ == old(self).raw_tablets@,
            final(self).tablets@ == old(self).tablets@,
            (idx < 0 || idx >= old(self).raw_tablets@.len() - old(self).raw_tablet_deletions@.len()) <==> r is Err,
            r is Err ==> final(self).raw_tablet_deletions@ == old(self).raw_tablet_deletions@ && final(self).events@
                == old(self).events@,
            r matches Ok(p) ==> {
                &&& p < old(self).raw_tablets@.len()
                &&& !old(self).raw_tablet_deletions@.contains(p)
                &&& logical_index(old(self).raw_tablet_deletions@, p as int) == idx
                &&& exists|at: int|
                    0 <= at <= old(self).raw_tablet_deletions@.len() && final(self).raw_tablet_deletions@
                        == old(self).raw_tablet_deletions@.insert(at, p)
                &&& final(self).events@ == old(self).events@.push(
                    raw::Event::Tablet {
                        tablet: ID::Tablet(old(self).raw_tablets@[p as int].spec_tcid()),
                        event: TabletEvent::Removed,
                    },
                )
            },
    {
        let ghost dels = self.raw_tablet_deletions@;
        let ghost n = self.raw_tablets@.len() as int;
        proof {
            lemma_count_all(dels, n);
            lemma_count_zero(dels);
        }
        if idx < 0 {
            return Err(());
        }
        let target = idx as usize;
        if target >= self.raw_tablets.len().saturating_sub(self.raw_tablet_deletions.len()) {
            return Err(());
        }
        let mut logical: usize = 0;
        let mut physical: usize = 0;
        while physical < self.raw_tablets.len()
            invariant
                self.wf(),
                self.raw_tablet_deletions@ == dels,
                self.raw_tablets@.len() == n,
                self.events@ == old(self).events@,
                self.stylus_states@ == old(self).stylus_states@,
                self.tools@ == old(self).tools@,
                self.raw_tablets@ == old(self).raw_tablets@,
                self.tablets@ == old(self).tablets@,
                target == idx,
                dels == old(self).raw_tablet_deletions@,
                n == old(self).raw_tablets@.len(),
                target < n - dels.len(),
                physical <= n,
                logical == logical_index(dels, physical as int),
                logical <= target,
            decreases n - physical,
        {
            proof {
                lemma_count_step(dels, physical as int);
                lemma_count_eq_unique(dels, physical);
            }
            if !self.is_deleted(physical) {
                if logical == target {
                    let mut at: usize = 0;
                    while at < self.raw_tablet_deletions.len() && self.raw_tablet_deletions[at] < physical
                        invariant
                            self.raw_tablet_deletions@ == dels,
                            at <= dels.len(),
                            forall|j: int| 0 <= j < at ==> dels[j] < physical,
                        decreases dels.len() - at,
                    {
                        at = at + 1;
                    }
                    proof {
                        assert forall|j: int| at <= j < dels.len() implies dels[j] > physical by {
                            assert(dels[j] != physical);
                            if j > at {
                                assert(dels[at as int] < dels[j]);
                            }
                        }
                    }
                    self.raw_tablet_deletions.insert(at, physical);
                    let tcid = self.raw_tablets[physical].tcid();
                    self.events.push(raw::Event::Tablet { tablet: ID::Tablet(tcid), event: TabletEvent::Removed });
                    proof {
                        let nd = self.raw_tablet_deletions@;
                        assert forall|i: int, j: int| 0 <= i < j < nd.len() implies nd[i] < nd[j] by {
                            if j < at {
                                assert(nd[i] == dels[i] && nd[j] == dels[j]);
                            } else if j == at {
                                assert(nd[i] == dels[i]);
                            } else if i == at {
                                assert(nd[j] == dels[j - 1]);
                            } else if i < at {
                                assert(nd[i] == dels[i] && nd[j] == dels[j - 1]);
                            } else {
                                assert(nd[i] == dels[i - 1] && nd[j] == dels[j - 1]);
                            }
                        }
                        assert forall|i: int| 0 <= i < nd.len() implies nd[i] < n by {
                            if i < at {
                                assert(nd[i] == dels[i]);
                            } else if i > at {
                                assert(nd[i] == dels[i - 1]);
                            }
                        }
                        assert(nd == dels.insert(at as int, physical));
                        assert(!dels.contains(physical));
                        assert(logical_index(dels, physical as int) == idx);
                        assert(physical < n);
                        assert(!(idx < 0 || idx >= n - dels.len()));
                    }
                    return Ok(physical);
                }
                logical = logical + 1;
            }
            physical = physical + 1;
        }
        proof {
            assert(false);
        }
        Err(())
    }

    /// End of a pump, once the events were consumed: the events are forgotten, the queued
    /// slots are removed, and so are the tablets made from them.
    pub fn frame_end_cleanup(&mut self)
        requires
            old(self).wf(),
        ensures
            final(self).wf(),
            final(self).events@.len() == 0,
            final(self).raw_tablet_deletions@.len() == 0,
            final(self).raw_tablets@ == remove_all(old(self).raw_tablets@, old(self).raw_tablet_deletions@),
            final(self).tablets@ == old(self).tablets@.filter(
                kept_tablet(old(self).raw_tablets@, old(self).raw_tablet_deletions@),
            ),
            final(self).stylus_states@ == old(self).stylus_states@,
            final(self).tools@ == old(self).tools@,
    {
        self.events.clear();
        let ghost dels = self.raw_tablet_deletions@;
        let ghost slots = self.raw_tablets@;
        let mut removed: Vec<u32> = Vec::new();
        let mut k: usize = 0;
        while k < self.raw_tablet_deletions.len()
            invariant
                self.raw_tablet_deletions@ == dels,
                self.raw_tablets@ == slots,
                deletions_valid(dels, slots.len()),
                self.events@.len() == 0,
                self.stylus_states@ == old(self).stylus_states@,
                self.tools@ == old(self).tools@,
                self.tablets@ == old(self).tablets@,
                k <= dels.len(),
                removed@.len() == k,
                forall|i: int| 0 <= i < k ==> #[trigger] removed@[i] == slots[dels[i] as int].spec_tcid(),
            decreases dels.len() - k,
        {
            let d = self.raw_tablet_deletions[k];
            removed.push(self.raw_tablets[d].tcid());
            k = k + 1;
        }
        while self.raw_tablet_deletions.len() > 0
            invariant
                deletions_valid(self.raw_tablet_deletions@, self.raw_tablets@.len()),
                remove_all(self.raw_tablets@, self.raw_tablet_deletions@) == remove_all(slots, dels),
                self.events@.len() == 0,
                self.stylus_states@ == old(self).stylus_states@,
                self.tools@ == old(self).tools@,
                self.tablets@ == old(self).tablets@,
                unique_keys(self.stylus_states@),
            decreases self.raw_tablet_deletions@.len(),
        {
            let ghost before = self.raw_tablets@;
            let ghost dl = self.raw_tablet_deletions@;
            let d = self.raw_tablet_deletions.pop().unwrap();
            self.raw_tablets.remove(d);
            proof {
                let nd = self.raw_tablet_deletions@;
                assert(nd =~= dl.drop_last());
                assert forall|i: int| 0 <= i < nd.len() implies nd[i] < self.raw_tablets@.len() by {
                    assert(nd[i] == dl[i]);
                    assert(dl[i] < dl[dl.len() - 1]);
                }
            }
        }
        let mut kept: Vec<Tablet> = Vec::new();
        std::mem::swap(&mut kept, &mut self.tablets);
        let ghost tabs = kept@;
        let ghost pred = kept_tablet(slots, dels);
        assert(tabs.len() == kept.len());
        let mut j: usize = 0;
        while kept.len() > 0
            invariant
                j + kept@.len() == tabs.len(),
                tabs.len() <= usize::MAX,
                kept@ == tabs.subrange(j as int, tabs.len() as int),
                self.tablets@ == tabs.take(j as int).filter(pred),
                pred == kept_tablet(slots, dels),
                deletions_valid(dels, slots.len()),
                self.raw_tablet_deletions@.len() == 0,
                self.raw_tablets@ == remove_all(slots, dels),
                self.events@.len() == 0,
                self.stylus_states@ == old(self).stylus_states@,
                self.tools@ == old(self).tools@,
                unique_keys(self.stylus_states@),
                removed@.len() == dels.len(),
                forall|i: int| 0 <= i < dels.len() ==> #[trigger] removed@[i] == slots[dels[i] as int].spec_tcid(),
            decreases kept@.len(),
        {
            let t = kept.remove(0);
            assert(t == tabs[j as int]);
            let mut hit = false;
            let mut i: usize = 0;
            while i < removed.len()
                invariant
                    i <= removed@.len(),
                    removed@.len() == dels.len(),
                    deletions_valid(dels, slots.len()),
                    forall|q: int| 0 <= q < dels.len() ==> #[trigger] removed@[q] == slots[dels[q] as int].spec_tcid(),
                    hit == exists|q: int| 0 <= q < i && t.internal_id == InternalID::Ink(ID::Tablet(#[trigger] removed@[q])),
                decreases removed@.len() - i,
            {
                if t.internal_id == InternalID::Ink(ID::Tablet(removed[i])) {
                    hit = true;
                }
                i = i + 1;
            }
            proof {
                assert(hit == !pred(t)) by {
                    if hit {
                        let q = choose|q: int| 0 <= q < i && t.internal_id == InternalID::Ink(ID::Tablet(#[trigger] removed@[q]));
                        assert(removed@[q] == slots[dels[q] as int].spec_tcid());
                    }
                    if !pred(t) {
                        let q = choose|q: int|
                            0 <= q < dels.len() && t.internal_id == InternalID::Ink(ID::Tablet(slots[dels[q] as int].spec_tcid()));
                        assert(removed@[q] == slots[dels[q] as int].spec_tcid());
                    }
                }
                assert(tabs.take(j + 1).drop_last() =~= tabs.take(j as int));
                assert(tabs.take(j + 1).last() == t);
            }
            let ghost before = self.tablets@;
            if !hit {
                self.tablets.push(t);
            }
            proof {
                reveal(Seq::filter);
                assert(self.tablets@ == tabs.take(j + 1).filter(pred));
            }
            j = j + 1;
            proof {
                assert(kept@ =~= tabs.subrange(j as int, tabs.len() as int));
            }
        }
        proof {
            assert(tabs.take(j as int) =~= tabs);
        }
    }
}

/// The kind of tool a cursor is: an eraser if it is the inverted end, else a pen; unknown if
/// the service could not say.
pub open spec fn ink_tool_type(inverted: Option<bool>) -> Option<Type> {
    match inverted {
        Some(true) => Some(Type::Eraser),
        Some(false) => Some(Type::Pen),
        None => None,
    }
}

/// The tool of stylus `sid` as the stylus service describes its cursor: the cursor's ID (if
/// known) is also the hardware ID, its bits kept as they are; no axes are known until the
/// stylus visits a tablet.
pub open spec fn stylus_tool<L>(sid: u32, cursor_id: Option<i32>, name: Option<String>, inverted: Option<bool>) -> Tool<
    L,
> {
    Tool {
        internal_id: InternalID::Ink(ID::Stylus { sid, cursor_id }),
        name,
        hardware_id: match cursor_id {
            Some(c) => Some(HardwareID(c as u64)),
            None => None,
        },
        wacom_id: None,
        tool_type: ink_tool_type(inverted),
        axes: spec_no_axes(),
    }
}

/// Whether `id` names stylus `sid`, whatever its cursor.
pub open spec fn is_stylus(id: InternalID, sid: u32) -> bool {
    id matches InternalID::Ink(ID::Stylus { sid: s, .. }) && s == sid
}

impl<I, L, P, V> InkFrame<I, L, P, V> {
    /// Add the tool of stylus `sid`, described by its cursor (`stylus_tool`); its position.
    pub fn add_stylus_tool(&mut self, sid: u32, cursor_id: Option<i32>, name: Option<String>, inverted: Option<bool>) -> (k: usize)
        requires
            old(self).wf(),
        ensures
            final(self).wf(),
            k == old(self).tools@.len(),
            final(self).tools@ == old(self).tools@.push(stylus_tool::<L>(sid, cursor_id, name, inverted)),
            final(self).stylus_states@ == old(self).stylus_states@,
            final(self).raw_tablet_deletions@ == old(self).raw_tablet_deletions@,
            final(self).raw_tablets@ == old(self).raw_tablets@,
            final(self).tablets@ == old(self).tablets@,
            final(self).events@ == old(self).events@,
    {
        let hardware_id = match cursor_id {
            Some(c) => Some(HardwareID(c as u64)),
            None => None,
        };
        let tool_type = match inverted {
            Some(true) => Some(Type::Eraser),
            Some(false) => Some(Type::Pen),
            None => None,
        };
        let k = self.tools.len();
        self.tools.push(
            Tool {
                internal_id: InternalID::Ink(ID::Stylus { sid, cursor_id }),
                name,
                hardware_id,
                wacom_id: None,
                tool_type,
                axes: FullInfo::default(),
            },
        );
        k
    }

    /// Whether `stylus` is in range: a stylus that visits a tablet while in range takes on
    /// what the tablet can report.
    pub fn in_range(&self, stylus: ID) -> (r: bool)
        ensures
            r == phase_map(self.stylus_states@).dom().contains(stylus),
    {
        let mut i: usize = 0;
        while i < self.stylus_states.len()
            invariant
                i <= self.stylus_states@.len(),
                forall|j: int| 0 <= j < i ==> self.stylus_states@[j].0 != stylus,
            decreases self.stylus_states@.len() - i,
        {
            if self.stylus_states[i].0 == stylus {
                return true;
            }
            i = i + 1;
        }
        false
    }

    /// The position of the first tool that is stylus `sid`.
    pub fn tool_of_sid(&self, sid: u32) -> (r: Option<usize>)
        ensures
            r matches Some(k) ==> k < self.tools@.len() && is_stylus(self.tools@[k as int].internal_id, sid)
                && forall|j: int| 0 <= j < k ==> !is_stylus(self.tools@[j].internal_id, sid),
            r is None ==> forall|j: int| 0 <= j < self.tools@.len() ==> !is_stylus(self.tools@[j].internal_id, sid),
    {
        let mut i: usize = 0;
        while i < self.tools.len()
            invariant
                i <= self.tools@.len(),
                forall|j: int| 0 <= j < i ==> !is_stylus(self.tools@[j].internal_id, sid),
            decreases self.tools@.len() - i,
        {
            let hit = match self.tools[i].internal_id {
                InternalID::Ink(ID::Stylus { sid: s, .. }) => s == sid,
                _ => false,
            };
            if hit {
                return Some(i);
            }
            i = i + 1;
        }
        None
    }
}

/// A stylus out of range that sends packets again comes In over the packets' tablet before
/// anything else, and goes Down right after if it touches.
pub proof fn lemma_return_starts_with_in<P, V>(stylus: ID, tablet: ID, phase: StylusPhase)
    ensures
        spec_phase_events::<P, V>(stylus, tablet, None, phase).len() >= 1,
        spec_phase_events::<P, V>(stylus, tablet, None, phase)[0] == (raw::Event::<ID, P, V>::Tool {
            tool: stylus,
            event: raw::ToolEvent::In { tablet },
        }),
        phase == StylusPhase::Touched ==> spec_phase_events::<P, V>(stylus, tablet, None, phase)[1] == (raw::Event::<
            ID,
            P,
            V,
        >::Tool { tool: stylus, event: raw::ToolEvent::Down }),
{
}

/// The phase events take the one path the phases allow: a hovering stylus that touches goes
/// Down, a touching one that lifts goes Up, a stylus coming into range comes In over the
/// tablet (and goes Down too if it touches), and a stylus staying in its phase reports nothing.
pub proof fn lemma_phase_changes_are_paths<P, V>(stylus: ID, tablet: ID)
    ensures
        spec_phase_events::<P, V>(stylus, tablet, Some(StylusPhase::InAir), StylusPhase::Touched) == seq![
            raw::Event::<ID, P, V>::Tool { tool: stylus, event: raw::ToolEvent::Down },
        ],
        spec_phase_events::<P, V>(stylus, tablet, Some(StylusPhase::Touched), StylusPhase::InAir) == seq![
            raw::Event::<ID, P, V>::Tool { tool: stylus, event: raw::ToolEvent::Up },
        ],
        spec_phase_events::<P, V>(stylus, tablet, None, StylusPhase::InAir) == seq![
            raw::Event::<ID, P, V>::Tool { tool: stylus, event: raw::ToolEvent::In { tablet } },
        ],
        spec_phase_events::<P, V>(stylus, tablet, None, StylusPhase::Touched) == seq![
            raw::Event::<ID, P, V>::Tool { tool: stylus, event: raw::ToolEvent::In { tablet } },
            raw::Event::<ID, P, V>::Tool { tool: stylus, event: raw::ToolEvent::Down },
        ],
        spec_phase_events::<P, V>(stylus, tablet, Some(StylusPhase::InAir), StylusPhase::InAir).len() == 0,
        spec_phase_events::<P, V>(stylus, tablet, Some(StylusPhase::Touched), StylusPhase::Touched).len() == 0,
{
}

} // verus!
