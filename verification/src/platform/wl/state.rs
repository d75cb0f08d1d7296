//! The Wayland backend's object tables, and the assembly of tool frames from the protocol's
//! messages.

use vstd::prelude::*;

use super::lists::{self, button_changes, ButtonChanges};
use super::summary::Summary;
use crate::events::raw;
use crate::events::FrameTimestamp;
use crate::pad::{Group, Pad, Ring, Strip};
use crate::platform::{ButtonID, InternalID};
use crate::tablet::Tablet;
use crate::tool::Tool;

verus! {

/// The Wayland object number of an `InternalID`; other IDs never reach this backend.
pub open spec fn wl_number(id: InternalID) -> u64 {
    match id {
        InternalID::Wayland(n) => n,
        _ => 0,
    }
}

fn wl_number_of(id: &InternalID) -> (r: u64)
    ensures
        r == wl_number(*id),
{
    match id {
        InternalID::Wayland(n) => *n,
        _ => 0,
    }
}

/// An object that is built from a burst of messages ended by "done".
pub trait HasWlId: Sized {
    /// The object's Wayland number.
    spec fn wl_id(&self) -> u64;

    /// Whether the object is consistent once its messages are all in.
    spec fn complete(&self) -> bool;

    /// The object with number `id`, before any message.
    fn new_default(id: u64) -> (r: Self)
        ensures
            r.wl_id() == id;

    /// The object's Wayland number.
    fn id(&self) -> (r: u64)
        ensures
            r == self.wl_id();

    /// The finished object, or an error if it is not consistent.
    fn done(self) -> (r: Result<Self, ()>)
        ensures
            self.complete() ==> r == Ok::<Self, ()>(self),
            !self.complete() ==> r is Err;
}

impl<L> HasWlId for Tool<L> {
    open spec fn wl_id(&self) -> u64 {
        wl_number(self.internal_id)
    }

    open spec fn complete(&self) -> bool {
        true
    }

    fn new_default(id: u64) -> (r: Self) {
        Tool {
            internal_id: InternalID::Wayland(id),
            name: None,
            hardware_id: None,
            wacom_id: None,
            tool_type: None,
            axes: crate::axis::FullInfo::default(),
        }
    }

    fn id(&self) -> (r: u64) {
        wl_number_of(&self.internal_id)
    }

    fn done(self) -> (r: Result<Self, ()>) {
        Ok(self)
    }
}

impl HasWlId for Tablet {
    open spec fn wl_id(&self) -> u64 {
        wl_number(self.internal_id)
    }

    open spec fn complete(&self) -> bool {
        true
    }

    fn new_default(id: u64) -> (r: Self) {
        Tablet { internal_id: InternalID::Wayland(id), name: None, usb_id: None }
    }

    fn id(&self) -> (r: u64) {
        wl_number_of(&self.internal_id)
    }

    fn done(self) -> (r: Result<Self, ()>) {
        Ok(self)
    }
}

impl HasWlId for Pad {
    open spec fn wl_id(&self) -> u64 {
        wl_number(self.internal_id)
    }

    /// A pad is reported only once it has a group.
    open spec fn complete(&self) -> bool {
        self.groups@.len() > 0
    }

    /// The protocol says zero buttons if the count is never sent.
    fn new_default(id: u64) -> (r: Self) {
        Pad { internal_id: InternalID::Wayland(id), total_buttons: 0, groups: Vec::new() }
    }

    fn id(&self) -> (r: u64) {
        wl_number_of(&self.internal_id)
    }

    fn done(self) -> (r: Result<Self, ()>) {
        if self.groups.len() == 0 {
            Err(())
        } else {
            Ok(self)
        }
    }
}

impl HasWlId for Group {
    open spec fn wl_id(&self) -> u64 {
        wl_number(self.internal_id)
    }

    open spec fn complete(&self) -> bool {
        true
    }

    fn new_default(id: u64) -> (r: Self) {
        Group {
            internal_id: InternalID::Wayland(id),
            mode_count: None,
            buttons: Vec::new(),
            rings: Vec::new(),
            strips: Vec::new(),
        }
    }

    fn id(&self) -> (r: u64) {
        wl_number_of(&self.internal_id)
    }

    fn done(self) -> (r: Result<Self, ()>) {
        Ok(self)
    }
}

impl HasWlId for Ring {
    open spec fn wl_id(&self) -> u64 {
        wl_number(self.internal_id)
    }

    open spec fn complete(&self) -> bool {
        true
    }

    fn new_default(id: u64) -> (r: Self) {
        Ring { internal_id: InternalID::Wayland(id), granularity: None }
    }

    fn id(&self) -> (r: u64) {
        wl_number_of(&self.internal_id)
    }

    fn done(self) -> (r: Result<Self, ()>) {
        Ok(self)
    }
}

impl HasWlId for Strip {
    open spec fn wl_id(&self) -> u64 {
        wl_number(self.internal_id)
    }

    open spec fn complete(&self) -> bool {
        true
    }

    fn new_default(id: u64) -> (r: Self) {
        Strip { internal_id: InternalID::Wayland(id), granularity: None }
    }

    fn id(&self) -> (r: u64) {
        wl_number_of(&self.internal_id)
    }

    fn done(self) -> (r: Result<Self, ()>) {
        Ok(self)
    }
}

/// Objects in the process of being created by a burst of messages followed by "done".
pub struct PartialVec<T> {
    pub constructing: Vec<T>,
}

impl<T: HasWlId> PartialVec<T> {
    /// Nothing under construction.
    pub fn new() -> (r: Self)
        ensures
            r.constructing@.len() == 0,
    {
        PartialVec { constructing: Vec::new() }
    }

    /// The position of the object `id` under construction, started anew if there is none.
    pub fn get_or_insert_ctor(&mut self, id: u64) -> (i: usize)
        ensures
            i < final(self).constructing@.len(),
            final(self).constructing@[i as int].wl_id() == id,
            forall|j: int| 0 <= j < i ==> final(self).constructing@[j].wl_id() != id,
            i < old(self).constructing@.len() ==> final(self).constructing@ == old(self).constructing@,
            i >= old(self).constructing@.len() ==> i == old(self).constructing@.len()
                && final(self).constructing@.drop_last() == old(self).constructing@,
    {
        let mut i: usize = 0;
        while i < self.constructing.len()
            invariant
                i <= self.constructing@.len(),
                self.constructing@ == old(self).constructing@,
                forall|j: int| 0 <= j < i ==> self.constructing@[j].wl_id() != id,
            decreases self.constructing@.len() - i,
        {
            if self.constructing[i].id() == id {
                return i;
            }
            i = i + 1;
        }
        self.constructing.push(T::new_default(id));
        assert(self.constructing@.drop_last() =~= old(self).constructing@);
        i
    }

    /// Finish the object `id`: `None` if it is not under construction; otherwise it leaves
    /// the table, and is returned if consistent.
    pub fn done(&mut self, id: u64) -> (r: Option<Result<T, ()>>)
        ensures
            (forall|j: int| 0 <= j < old(self).constructing@.len() ==> old(self).constructing@[j].wl_id() != id)
                <==> r is None,
            r is None ==> final(self).constructing@ == old(self).constructing@,
            r is Some ==> exists|k: int|
                0 <= k < old(self).constructing@.len() && old(self).constructing@[k].wl_id() == id && (forall|j: int|
                    0 <= j < k ==> old(self).constructing@[j].wl_id() != id) && final(self).constructing@
                    == old(self).constructing@.remove(k) && (old(self).constructing@[k].complete() ==> r == Some(
                    Ok::<T, ()>(old(self).constructing@[k]),
                )) && (!old(self).constructing@[k].complete() ==> r matches Some(Err(_))),
    {
        let mut i: usize = 0;
        while i < self.constructing.len()
            invariant
                i <= self.constructing@.len(),
                self.constructing@ == old(self).constructing@,
                forall|j: int| 0 <= j < i ==> self.constructing@[j].wl_id() != id,
            decreases self.constructing@.len() - i,
        {
            if self.constructing[i].id() == id {
                let obj = self.constructing.remove(i);
                return Some(obj.done());
            }
            i = i + 1;
        }
        None
    }

    /// Drop the objects `id` under construction.
    pub fn destroy(&mut self, id: u64)
        ensures
            final(self).constructing@ == old(self).constructing@.filter(|t: T| t.wl_id() != id),
    {
        let mut kept: Vec<T> = Vec::new();
        std::mem::swap(&mut kept, &mut self.constructing);
        let ghost all = kept@;
        assert(all.len() == kept.len());
        let mut j: usize = 0;
        while kept.len() > 0
            invariant
                j + kept@.len() == all.len(),
                all.len() <= usize::MAX,
                kept@ == all.subrange(j as int, all.len() as int),
                self.constructing@ == all.take(j as int).filter(|t: T| t.wl_id() != id),
            decreases kept@.len(),
        {
            let t = kept.remove(0);
            assert(t == all[j as int]);
            proof {
                assert(all.take(j + 1).drop_last() =~= all.take(j as int));
                assert(all.take(j + 1).last() == t);
            }
            if t.id() != id {
                self.constructing.push(t);
            }
            proof {
                reveal(Seq::filter);
                assert(self.constructing@ == all.take(j + 1).filter(|t: T| t.wl_id() != id));
            }
            j = j + 1;
            proof {
                assert(kept@ =~= all.subrange(j as int, all.len() as int));
            }
        }
        proof {
            assert(all.take(j as int) =~= all);
        }
    }
}

/// The one phase change a tool may make in a frame.
#[derive(Clone, Copy, Debug, PartialEq, Eq, Structural)]
pub enum FrameState {
    /// In, over the tablet with this number.
    In(u64),
    Out,
    Down,
    Up,
}

/// A frame being assembled from a tool's messages: its phase change, its axes `A` (the
/// caller's), and its button changes in order.
pub struct FrameInProgress<A> {
    pub tool: u64,
    pub state_transition: Option<FrameState>,
    pub axes: A,
    pub buttons: ButtonChanges,
}

impl<A> FrameInProgress<A> {
    /// The button changes of the frame, in order.
    pub open spec fn changes(&self) -> Seq<(u32, bool)> {
        button_changes(self.buttons)
    }
}

/// An object whose destruction waits for the next pump.
#[derive(Clone, Copy, Debug, PartialEq, Eq, Structural)]
pub enum ConstructID {
    Tablet(u64),
    Pad(u64),
    Tool(u64),
}

/// The events of a frame of tool `tool` at `millis`: a phase change in or down first, then
/// the pose, then the button changes in order, then a phase change up or out, then the frame.
pub open spec fn spec_frame_events<P, V>(
    tool: u64,
    state: Option<FrameState>,
    pose: Option<P>,
    changes: Seq<(u32, bool)>,
    millis: u32,
) -> Seq<raw::Event<u64, P, V>> {
    let ev = |e: raw::ToolEvent<u64, P>| raw::Event::<u64, P, V>::Tool { tool, event: e };
    let first = match state {
        Some(FrameState::In(tablet)) => seq![ev(raw::ToolEvent::In { tablet })],
        Some(FrameState::Down) => seq![ev(raw::ToolEvent::Down)],
        _ => seq![],
    };
    let posed = match pose {
        Some(p) => seq![ev(raw::ToolEvent::Pose(p))],
        None => seq![],
    };
    let buttons = changes.map_values(
        |c: (u32, bool)| ev(raw::ToolEvent::Button { button_id: ButtonID::Wayland(c.0), pressed: c.1 }),
    );
    let last = match state {
        Some(FrameState::Up) => seq![ev(raw::ToolEvent::Up)],
        Some(FrameState::Out) => seq![ev(raw::ToolEvent::Out)],
        _ => seq![],
    };
    first + posed + buttons + last + seq![
        ev(raw::ToolEvent::Frame(Some(FrameTimestamp::at_millis(millis as u64)))),
    ]
}

/// The position of the frame in progress of tool `tool`, if it has one.
pub open spec fn frame_position<A>(frames: Seq<FrameInProgress<A>>, tool: u64) -> Option<int> {
    if exists|k: int| 0 <= k < frames.len() && frames[k].tool == tool {
        Some(choose|k: int| 0 <= k < frames.len() && frames[k].tool == tool)
    } else {
        None
    }
}

/// The button changes of a frame after recording `(button, pressed)`: appended at the end,
/// unless the list is already at its length limit.
pub open spec fn recorded(changes: Seq<(u32, bool)>, button: u32, pressed: bool) -> Seq<(u32, bool)> {
    if changes.len() < lists::LIST_LIMIT {
        changes.push((button, pressed))
    } else {
        changes
    }
}

/// Each tool has at most one frame in progress.
pub open spec fn unique_frames<A>(frames: Seq<FrameInProgress<A>>) -> bool {
    forall|i: int, j: int| 0 <= i < j < frames.len() ==> frames[i].tool != frames[j].tool
}

/// The backend's tables: objects under construction, finished objects, objects to destroy
/// at the next pump, the summary, the frames in progress and the events of this pump.
/// `L` holds axis limits, `A` the axes of a frame, `P` a pose, `F` a ring or strip position.
pub struct TabletCore<L, A, P, F> {
    pub partial_tablets: PartialVec<Tablet>,
    pub partial_tools: PartialVec<Tool<L>>,
    pub partial_pads: PartialVec<Pad>,
    pub partial_groups: PartialVec<Group>,
    pub tablets: Vec<Tablet>,
    pub tools: Vec<Tool<L>>,
    pub pads: Vec<Pad>,
    pub destroy_next_frame: Vec<ConstructID>,
    pub raw_summary: Summary<P, F>,
    pub frames_in_progress: Vec<FrameInProgress<A>>,
    pub events: Vec<raw::Event<u64, P, F>>,
}

impl<L, A, P, F> TabletCore<L, A, P, F> {
    /// At most one frame in progress per tool.
    pub open spec fn wf(&self) -> bool {
        unique_frames(self.frames_in_progress@)
    }

    /// Empty tables.
    pub fn new() -> (r: Self)
        ensures
            r.wf(),
            r.tablets@.len() == 0,
            r.tools@.len() == 0,
            r.pads@.len() == 0,
            r.events@.len() == 0,
            r.frames_in_progress@.len() == 0,
            r.destroy_next_frame@.len() == 0,
    {
        TabletCore {
            partial_tablets: PartialVec::new(),
            partial_tools: PartialVec::new(),
            partial_pads: PartialVec::new(),
            partial_groups: PartialVec::new(),
            tablets: Vec::new(),
            tools: Vec::new(),
            pads: Vec::new(),
            destroy_next_frame: Vec::new(),
            raw_summary: Summary::new(),
            frames_in_progress: Vec::new(),
            events: Vec::new(),
        }
    }

    /// Tool `tool` was removed: its construction stops, and it is destroyed at the next pump
    /// so that this pump's events can still refer to it.
    pub fn destroy_tool(&mut self, tool: u64)
        ensures
            final(self).partial_tools.constructing@ == old(self).partial_tools.constructing@.filter(
                |t: Tool<L>| t.wl_id() != tool,
            ),
            final(self).destroy_next_frame@ == old(self).destroy_next_frame@.push(ConstructID::Tool(tool)),
            final(self).tools@ == old(self).tools@,
            final(self).events@ == old(self).events@,
            final(self).frames_in_progress@ == old(self).frames_in_progress@,
    {
        self.partial_tools.destroy(tool);
        self.destroy_next_frame.push(ConstructID::Tool(tool));
    }

    /// Tablet `tablet` was removed, as `destroy_tool` says.
    pub fn destroy_tablet(&mut self, tablet: u64)
        ensures
            final(self).partial_tablets.constructing@ == old(self).partial_tablets.constructing@.filter(
                |t: Tablet| t.wl_id() != tablet,
            ),
            final(self).destroy_next_frame@ == old(self).destroy_next_frame@.push(ConstructID::Tablet(tablet)),
            final(self).tablets@ == old(self).tablets@,
            final(self).events@ == old(self).events@,
            final(self).frames_in_progress@ == old(self).frames_in_progress@,
    {
        self.partial_tablets.destroy(tablet);
        self.destroy_next_frame.push(ConstructID::Tablet(tablet));
    }

    /// Pad `pad` was removed, as `destroy_tool` says.
    pub fn destroy_pad(&mut self, pad: u64)
        ensures
            final(self).partial_pads.constructing@ == old(self).partial_pads.constructing@.filter(
                |t: Pad| t.wl_id() != pad,
            ),
            final(self).destroy_next_frame@ == old(self).destroy_next_frame@.push(ConstructID::Pad(pad)),
            final(self).pads@ == old(self).pads@,
            final(self).events@ == old(self).events@,
            final(self).frames_in_progress@ == old(self).frames_in_progress@,
    {
        self.partial_pads.destroy(pad);
        self.destroy_next_frame.push(ConstructID::Pad(pad));
    }

    /// The position of the frame in progress of tool `tool`, started with axes `axes` and no
    /// change if there is none.
    pub fn frame_in_progress(&mut self, tool: u64, axes: A) -> (i: usize)
        requires
            old(self).wf(),
        ensures
            final(self).wf(),
            i < final(self).frames_in_progress@.len(),
            final(self).frames_in_progress@[i as int].tool == tool,
            i < old(self).frames_in_progress@.len() ==> final(self).frames_in_progress@ == old(self).frames_in_progress@,
            i >= old(self).frames_in_progress@.len() ==> {
                &&& i == old(self).frames_in_progress@.len()
                &&& final(self).frames_in_progress@.drop_last() == old(self).frames_in_progress@
                &&& final(self).frames_in_progress@[i as int].state_transition is None
                &&& final(self).frames_in_progress@[i as int].axes == axes
                &&& final(self).frames_in_progress@[i as int].changes() == Seq::<(u32, bool)>::empty()
                &&& forall|j: int| 0 <= j < i ==> old(self).frames_in_progress@[j].tool != tool
            },
            final(self).events@ == old(self).events@,
            final(self).tools@ == old(self).tools@,
            final(self).tablets@ == old(self).tablets@,
            final(self).pads@ == old(self).pads@,
            final(self).destroy_next_frame@ == old(self).destroy_next_frame@,
            final(self).raw_summary == old(self).raw_summary,
    {
        let mut i: usize = 0;
        while i < self.frames_in_progress.len()
            invariant
                i <= self.frames_in_progress@.len(),
                self.frames_in_progress@ == old(self).frames_in_progress@,
                unique_frames(self.frames_in_progress@),
                self.events@ == old(self).events@,
                self.tools@ == old(self).tools@,
                self.tablets@ == old(self).tablets@,
                self.pads@ == old(self).pads@,
                self.destroy_next_frame@ == old(self).destroy_next_frame@,
                self.raw_summary == old(self).raw_summary,
                forall|j: int| 0 <= j < i ==> self.frames_in_progress@[j].tool != tool,
            decreases self.frames_in_progress@.len() - i,
        {
            if self.frames_in_progress[i].tool == tool {
                return i;
            }
            i = i + 1;
        }
        self.frames_in_progress.push(
            FrameInProgress { tool, state_transition: None, axes, buttons: lists::new_changes() },
        );
        proof {
            let f = self.frames_in_progress@;
            assert(f.drop_last() =~= old(self).frames_in_progress@);
            assert forall|a: int, b: int| 0 <= a < b < f.len() implies f[a].tool != f[b].tool by {
                if b < i {
                    assert(f[a] == old(self).frames_in_progress@[a] && f[b] == old(self).frames_in_progress@[b]);
                } else {
                    assert(f[a] == old(self).frames_in_progress@[a]);
                }
            }
        }
        i
    }

    /// Record the phase change `state` of tool `tool` in its frame in progress, starting a
    /// frame with axes `axes` if the tool has none; a later change in the same frame replaces
    /// an earlier one. Every other frame stays as it was.
    pub fn frame_transition(&mut self, tool: u64, axes: A, state: FrameState)
        requires
            old(self).wf(),
        ensures
            final(self).wf(),
            final(self).events@ == old(self).events@,
            final(self).tools@ == old(self).tools@,
            final(self).tablets@ == old(self).tablets@,
            final(self).pads@ == old(self).pads@,
            final(self).destroy_next_frame@ == old(self).destroy_next_frame@,
            final(self).raw_summary == old(self).raw_summary,
            ({
                let f0 = old(self).frames_in_progress@;
                let f1 = final(self).frames_in_progress@;
                match frame_position(f0, tool) {
                    Some(k) => {
                        &&& f1.len() == f0.len()
                        &&& forall|j: int| 0 <= j < f0.len() && j != k ==> #[trigger] f1[j] == f0[j]
                        &&& f1[k].tool == tool
                        &&& f1[k].state_transition == Some(state)
                        &&& f1[k].axes == f0[k].axes
                        &&& f1[k].changes() == f0[k].changes()
                    },
                    None => {
                        &&& f1.len() == f0.len() + 1
                        &&& f1.drop_last() == f0
                        &&& f1.last().tool == tool
                        &&& f1.last().state_transition == Some(state)
                        &&& f1.last().axes == axes
                        &&& f1.last().changes() == Seq::<(u32, bool)>::empty()
                    },
                }
            }),
    {
        let ghost f0 = self.frames_in_progress@;
        let i = self.frame_in_progress(tool, axes);
        proof {
            if (i as int) < f0.len() {
                assert(f0[i as int].tool == tool);
                let k = choose|k: int| 0 <= k < f0.len() && f0[k].tool == tool;
                assert(k == i as int);
            } else {
                assert(!(exists|k: int| 0 <= k < f0.len() && f0[k].tool == tool));
            }
        }
        self.frames_in_progress[i].state_transition = Some(state);
    }

    /// Record a button change of tool `tool` in its frame in progress, starting a frame with
    /// axes `axes` if the tool has none: the change is appended to the frame's changes
    /// (`recorded`), and every other frame stays as it was.
    pub fn frame_button(&mut self, tool: u64, axes: A, button: u32, pressed: bool)
        requires
            old(self).wf(),
        ensures
            final(self).wf(),
            final(self).events@ == old(self).events@,
            final(self).tools@ == old(self).tools@,
            final(self).tablets@ == old(self).tablets@,
            final(self).pads@ == old(self).pads@,
            final(self).destroy_next_frame@ == old(self).destroy_next_frame@,
            final(self).raw_summary == old(self).raw_summary,
            ({
                let f0 = old(self).frames_in_progress@;
                let f1 = final(self).frames_in_progress@;
                match frame_position(f0, tool) {
                    Some(k) => {
                        &&& f1.len() == f0.len()
                        &&& forall|j: int| 0 <= j < f0.len() && j != k ==> #[trigger] f1[j] == f0[j]
                        &&& f1[k].tool == tool
                        &&& f1[k].state_transition == f0[k].state_transition
                        &&& f1[k].axes == f0[k].axes
                        &&& f1[k].changes() == recorded(f0[k].changes(), button, pressed)
                    },
                    None => {
                        &&& f1.len() == f0.len() + 1
                        &&& f1.drop_last() == f0
                        &&& f1.last().tool == tool
                        &&& f1.last().state_transition is None
                        &&& f1.last().axes == axes
                        &&& f1.last().changes() == seq![(button, pressed)]
                    },
                }
            }),
    {
        let ghost f0 = self.frames_in_progress@;
        let i = self.frame_in_progress(tool, axes);
        proof {
            if (i as int) < f0.len() {
                assert(f0[i as int].tool == tool);
                let k = choose|k: int| 0 <= k < f0.len() && f0[k].tool == tool;
                assert(k == i as int);
            } else {
                assert(!(exists|k: int| 0 <= k < f0.len() && f0[k].tool == tool));
            }
        }
        if lists::changes_slice(&self.frames_in_progress[i].buttons).len() < lists::LIST_LIMIT {
            lists::changes_push(&mut self.frames_in_progress[i].buttons, (button, pressed));
        }
    }

    /// The frame message of tool `tool` at `millis`. If it has a frame in progress, its phase
    /// change, the `pose` the caller made of its axes, and its button changes are reported
    /// (`spec_frame_events`); its phase change and button changes are then forgotten, and the
    /// whole frame once the tool is out. The frame event is reported either way.
    pub fn frame(&mut self, tool: u64, millis: u32, pose: Option<P>)
        requires
            old(self).wf(),
        ensures
            final(self).wf(),
            final(self).tools@ == old(self).tools@,
            ({
                let frames = old(self).frames_in_progress@;
                if exists|k: int| 0 <= k < frames.len() && frames[k].tool == tool {
                    let k = choose|k: int| 0 <= k < frames.len() && frames[k].tool == tool;
                    let f = frames[k];
                    &&& final(self).events@ == old(self).events@ + spec_frame_events::<P, F>(
                        tool,
                        f.state_transition,
                        pose,
                        f.changes(),
                        millis,
                    )
                    &&& if f.state_transition == Some(FrameState::Out) {
                        final(self).frames_in_progress@.len() == frames.len() - 1
                            && forall|j: int| 0 <= j < frames.len() - 1 ==> #[trigger] final(self).frames_in_progress@[j].tool
                                == frames.remove(k)[j].tool
                    } else {
                        &&& final(self).frames_in_progress@.len() == frames.len()
                        &&& final(self).frames_in_progress@[k].state_transition is None
                        &&& final(self).frames_in_progress@[k].changes() == Seq::<(u32, bool)>::empty()
                        &&& final(self).frames_in_progress@[k].tool == tool
                        &&& forall|j: int|
                            0 <= j < frames.len() && j != k ==> #[trigger] final(self).frames_in_progress@[j] == frames[j]
                    }
                } else {
                    &&& final(self).frames_in_progress@ == frames
                    &&& final(self).events@ == old(self).events@.push(
                        raw::Event::Tool {
                            tool,
                            event: raw::ToolEvent::Frame(Some(FrameTimestamp::at_millis(millis as u64))),
                        },
                    )
                }
            }),
    {
        let ghost frames = self.frames_in_progress@;
        let mut k: usize = 0;
        while k < self.frames_in_progress.len()
            invariant
                k <= self.frames_in_progress@.len(),
                self.frames_in_progress@ == frames,
                self.events@ == old(self).events@,
                self.tools@ == old(self).tools@,
                frames == old(self).frames_in_progress@,
                forall|j: int| 0 <= j < k ==> frames[j].tool != tool,
            ensures
                k <= frames.len(),
                self.frames_in_progress@ == frames,
                self.events@ == old(self).events@,
                self.tools@ == old(self).tools@,
                frames == old(self).frames_in_progress@,
                forall|j: int| 0 <= j < k ==> frames[j].tool != tool,
                k < frames.len() ==> frames[k as int].tool == tool,
            decreases self.frames_in_progress@.len() - k,
        {
            if self.frames_in_progress[k].tool == tool {
                break;
            }
            k = k + 1;
        }
        let frame_event = raw::Event::Tool {
            tool,
            event: raw::ToolEvent::Frame(Some(FrameTimestamp::from_millis(millis as u64))),
        };
        if k == self.frames_in_progress.len() {
            self.events.push(frame_event);
            return;
        }
        proof {
            assert(exists|c: int| 0 <= c < frames.len() && frames[c].tool == tool) by {
                assert(frames[k as int].tool == tool);
            }
            let c = choose|c: int| 0 <= c < frames.len() && frames[c].tool == tool;
            if c != k {
                assert(frames[c].tool != frames[k as int].tool);
            }
        }
        let ghost e0 = self.events@;
        let state = self.frames_in_progress[k].state_transition;
        match state {
            Some(FrameState::In(tablet)) => {
                self.events.push(raw::Event::Tool { tool, event: raw::ToolEvent::In { tablet } });
            },
            Some(FrameState::Down) => {
                self.events.push(raw::Event::Tool { tool, event: raw::ToolEvent::Down });
            },
            _ => {},
        }
        let ghost e1 = self.events@;
        match pose {
            Some(p) => {
                self.events.push(raw::Event::Tool { tool, event: raw::ToolEvent::Pose(p) });
            },
            None => {},
        }
        let ghost e2 = self.events@;
        let changes = lists::changes_slice(&self.frames_in_progress[k].buttons);
        let ghost cs = changes@;
        let mut i: usize = 0;
        while i < changes.len()
            invariant
                i <= cs.len(),
                changes@ == cs,
                k < frames.len(),
                self.frames_in_progress@ == frames,
                self.tools@ == old(self).tools@,
                self.events@ == e2 + cs.take(i as int).map_values(
                    |c: (u32, bool)| raw::Event::<u64, P, F>::Tool {
                        tool,
                        event: raw::ToolEvent::Button { button_id: ButtonID::Wayland(c.0), pressed: c.1 },
                    },
                ),
            decreases cs.len() - i,
        {
            let (button, pressed) = changes[i];
            self.events.push(
                raw::Event::Tool { tool, event: raw::ToolEvent::Button { button_id: ButtonID::Wayland(button), pressed } },
            );
            proof {
                assert(cs.take(i + 1) =~= cs.take(i as int).push(cs[i as int]));
            }
            i = i + 1;
        }
        proof {
            assert(cs.take(i as int) =~= cs);
        }
        let ghost e3 = self.events@;
        let clear = match state {
            Some(FrameState::Up) => {
                self.events.push(raw::Event::Tool { tool, event: raw::ToolEvent::Up });
                false
            },
            Some(FrameState::Out) => {
                self.events.push(raw::Event::Tool { tool, event: raw::ToolEvent::Out });
                true
            },
            _ => false,
        };
        self.events.push(frame_event);
        proof {
            let f = frames[k as int];
            assert(self.events@ =~= old(self).events@ + spec_frame_events::<P, F>(
                tool,
                f.state_transition,
                pose,
                f.changes(),
                millis,
            ));
        }
        self.frames_in_progress[k].state_transition = None;
        lists::changes_clear(&mut self.frames_in_progress[k].buttons);
        if clear {
            self.frames_in_progress.remove(k);
            proof {
                let f = self.frames_in_progress@;
                assert forall|a: int, b: int| 0 <= a < b < f.len() implies f[a].tool != f[b].tool by {
                    let oa = if a < k { a } else { a + 1 };
                    let ob = if b < k { b } else { b + 1 };
                    assert(f[a].tool == frames[oa].tool && f[b].tool == frames[ob].tool);
                }
                assert forall|j: int| 0 <= j < frames.len() - 1 implies #[trigger] f[j].tool == frames.remove(k as int)[j].tool by {
                    let oj = if j < k { j } else { j + 1 };
                    assert(f[j].tool == frames[oj].tool);
                }
            }
        } else {
            proof {
                let f = self.frames_in_progress@;
                assert forall|a: int, b: int| 0 <= a < b < f.len() implies f[a].tool != f[b].tool by {
                    assert(f[a].tool == frames[a].tool && f[b].tool == frames[b].tool);
                }
            }
        }
    }
}

/// The kinds of objects whose destruction waits.
#[derive(Clone, Copy, Debug, PartialEq, Eq, Structural)]
pub enum ObjectKind {
    Tablet,
    Pad,
    Tool,
}

/// The pending destruction of object `id` of kind `kind`.
pub open spec fn construct_of(kind: ObjectKind, id: u64) -> ConstructID {
    match kind {
        ObjectKind::Tablet => ConstructID::Tablet(id),
        ObjectKind::Pad => ConstructID::Pad(id),
        ObjectKind::Tool => ConstructID::Tool(id),
    }
}

fn construct_id(kind: ObjectKind, id: u64) -> (r: ConstructID)
    ensures
        r == construct_of(kind, id),
{
    match kind {
        ObjectKind::Tablet => ConstructID::Tablet(id),
        ObjectKind::Pad => ConstructID::Pad(id),
        ObjectKind::Tool => ConstructID::Tool(id),
    }
}

fn listed(list: &Vec<ConstructID>, c: ConstructID) -> (r: bool)
    ensures
        r == list@.contains(c),
{
    let mut i: usize = 0;
    while i < list.len()
        invariant
            i <= list@.len(),
            forall|j: int| 0 <= j < i ==> list@[j] != c,
        decreases list@.len() - i,
    {
        if list[i] == c {
            assert(list@[i as int] == c);
            return true;
        }
        i = i + 1;
    }
    false
}

/// The objects of kind `kind` that are not listed for destruction.
pub open spec fn survives<T: HasWlId>(list: Seq<ConstructID>, kind: ObjectKind) -> spec_fn(T) -> bool {
    |t: T| !list.contains(construct_of(kind, t.wl_id()))
}

/// The frames of tools that are not listed for destruction.
pub open spec fn frame_survives<A>(list: Seq<ConstructID>) -> spec_fn(FrameInProgress<A>) -> bool {
    |f: FrameInProgress<A>| !list.contains(ConstructID::Tool(f.tool))
}

fn retain_surviving<T: HasWlId>(table: &mut Vec<T>, list: &Vec<ConstructID>, kind: ObjectKind)
    ensures
        final(table)@ == old(table)@.filter(survives::<T>(list@, kind)),
{
    let mut kept: Vec<T> = Vec::new();
    std::mem::swap(&mut kept, table);
    let ghost all = kept@;
    let ghost pred = survives::<T>(list@, kind);
    assert(all.len() == kept.len());
    let mut j: usize = 0;
    while kept.len() > 0
        invariant
            j + kept@.len() == all.len(),
            all.len() <= usize::MAX,
            kept@ == all.subrange(j as int, all.len() as int),
            pred == survives::<T>(list@, kind),
            table@ == all.take(j as int).filter(pred),
        decreases kept@.len(),
    {
        let t = kept.remove(0);
        assert(t == all[j as int]);
        proof {
            assert(all.take(j + 1).drop_last() =~= all.take(j as int));
            assert(all.take(j + 1).last() == t);
        }
        let id = t.id();
        if !listed(list, construct_id(kind, id)) {
            table.push(t);
        }
        proof {
            reveal(Seq::filter);
            assert(table@ == all.take(j + 1).filter(pred));
        }
        j = j + 1;
        proof {
            assert(kept@ =~= all.subrange(j as int, all.len() as int));
        }
    }
    proof {
        assert(all.take(j as int) =~= all);
    }
}

proof fn lemma_filter_unique_frames<A>(s: Seq<FrameInProgress<A>>, p: spec_fn(FrameInProgress<A>) -> bool)
    requires
        unique_frames(s),
    ensures
        unique_frames(s.filter(p)),
    decreases s.len(),
{
    reveal(Seq::filter);
    if s.len() > 0 {
        let d = s.drop_last();
        assert(unique_frames(d)) by {
            assert forall|a: int, b: int| 0 <= a < b < d.len() implies d[a].tool != d[b].tool by {
                assert(d[a] == s[a] && d[b] == s[b]);
            }
        }
        lemma_filter_unique_frames(d, p);
        let fd = d.filter(p);
        if p(s.last()) {
            assert forall|i: int| 0 <= i < fd.len() implies fd[i].tool != s.last().tool by {
                assert(fd.contains(fd[i]));
                d.lemma_filter_contains_rev(p, fd[i]);
                let j = choose|j: int| 0 <= j < d.len() && d[j] == fd[i];
                assert(s[j] == d[j]);
            }
            let out = s.filter(p);
            assert(out == fd.push(s.last()));
            assert forall|a: int, b: int| 0 <= a < b < out.len() implies out[a].tool != out[b].tool by {
                if b < fd.len() {
                    assert(out[a] == fd[a] && out[b] == fd[b]);
                } else {
                    assert(out[a] == fd[a]);
                }
            }
        }
    }
}

impl<L, A, P, F> TabletCore<L, A, P, F> {
    /// Start of a pump at time `now`: last pump's events are forgotten, the objects whose
    /// destruction waited are destroyed (with the frames of destroyed tools), and the
    /// summary's one-shot state is consumed.
    pub fn cleanup_start(&mut self, now: u64)
        requires
            old(self).wf(),
        ensures
            final(self).wf(),
            final(self).events@.len() == 0,
            final(self).destroy_next_frame@.len() == 0,
            final(self).tablets@ == old(self).tablets@.filter(
                survives::<Tablet>(old(self).destroy_next_frame@, ObjectKind::Tablet),
            ),
            final(self).pads@ == old(self).pads@.filter(survives::<Pad>(old(self).destroy_next_frame@, ObjectKind::Pad)),
            final(self).tools@ == old(self).tools@.filter(
                survives::<Tool<L>>(old(self).destroy_next_frame@, ObjectKind::Tool),
            ),
            final(self).frames_in_progress@ == old(self).frames_in_progress@.filter(
                frame_survives::<A>(old(self).destroy_next_frame@),
            ),
            final(self).raw_summary.tool == old(self).raw_summary.tool,
            final(self).raw_summary.pads@.len() == old(self).raw_summary.pads@.len(),
            forall|i: int|
                0 <= i < old(self).raw_summary.pads@.len() ==> super::summary::pad_consumed(
                    old(self).raw_summary.pads@[i],
                    #[trigger] final(self).raw_summary.pads@[i],
                    now,
                ),
    {
        self.events.clear();
        let mut list: Vec<ConstructID> = Vec::new();
        std::mem::swap(&mut list, &mut self.destroy_next_frame);
        retain_surviving(&mut self.pads, &list, ObjectKind::Pad);
        retain_surviving(&mut self.tablets, &list, ObjectKind::Tablet);
        retain_surviving(&mut self.tools, &list, ObjectKind::Tool);
        let mut kept: Vec<FrameInProgress<A>> = Vec::new();
        std::mem::swap(&mut kept, &mut self.frames_in_progress);
        let ghost all = kept@;
        let ghost pred = frame_survives::<A>(list@);
        assert(all.len() == kept.len());
        let mut j: usize = 0;
        while kept.len() > 0
            invariant
                j + kept@.len() == all.len(),
                all.len() <= usize::MAX,
                kept@ == all.subrange(j as int, all.len() as int),
                pred == frame_survives::<A>(list@),
                self.frames_in_progress@ == all.take(j as int).filter(pred),
                list@ == old(self).destroy_next_frame@,
                all == old(self).frames_in_progress@,
                self.events@.len() == 0,
                self.destroy_next_frame@.len() == 0,
                self.tablets@ == old(self).tablets@.filter(survives::<Tablet>(list@, ObjectKind::Tablet)),
                self.pads@ == old(self).pads@.filter(survives::<Pad>(list@, ObjectKind::Pad)),
                self.tools@ == old(self).tools@.filter(survives::<Tool<L>>(list@, ObjectKind::Tool)),
                self.raw_summary.tool == old(self).raw_summary.tool,
                self.raw_summary.pads@ == old(self).raw_summary.pads@,
            decreases kept@.len(),
        {
            let f = kept.remove(0);
            assert(f == all[j as int]);
            proof {
                assert(all.take(j + 1).drop_last() =~= all.take(j as int));
                assert(all.take(j + 1).last() == f);
            }
            if !listed(&list, ConstructID::Tool(f.tool)) {
                self.frames_in_progress.push(f);
            }
            proof {
                reveal(Seq::filter);
                assert(self.frames_in_progress@ == all.take(j + 1).filter(pred));
            }
            j = j + 1;
            proof {
                assert(kept@ =~= all.subrange(j as int, all.len() as int));
            }
        }
        proof {
            assert(all.take(j as int) =~= all);
            lemma_filter_unique_frames(all, pred);
        }
        self.raw_summary.consume_oneshot(now);
    }
}

/// Whether an event reports a phase change: In, Down, Up or Out.
pub open spec fn is_phase_event<P, V>(e: raw::Event<u64, P, V>) -> bool {
    e matches raw::Event::Tool { event, .. } && (event is In || event is Down || event is Up || event is Out)
}

/// A frame reports the phase change it recorded as the matching tool event, and only that
/// one: In over its tablet or Down first, Up or Out just before the frame event; the frame
/// event, stamped with the frame's time, comes last. A frame also reports its pose and each of
/// its button changes, one event each, and nothing more.
pub proof fn lemma_frame_reports_its_phase_change<P, V>(
    tool: u64,
    state: Option<FrameState>,
    pose: Option<P>,
    changes: Seq<(u32, bool)>,
    millis: u32,
)
    ensures
        ({
            let ev = spec_frame_events::<P, V>(tool, state, pose, changes, millis);
            &&& ev.len() == (if state is Some { 1int } else { 0int }) + (if pose is Some { 1int } else { 0int })
                + changes.len() + 1
            &&& ev.last() == raw::Event::<u64, P, V>::Tool {
                tool,
                event: raw::ToolEvent::Frame(Some(FrameTimestamp::at_millis(millis as u64))),
            }
            &&& (state matches Some(FrameState::In(t)) ==> ev[0] == raw::Event::<u64, P, V>::Tool {
                tool,
                event: raw::ToolEvent::In { tablet: t },
            })
            &&& (state == Some(FrameState::Down) ==> ev[0] == raw::Event::<u64, P, V>::Tool {
                tool,
                event: raw::ToolEvent::Down,
            })
            &&& (state == Some(FrameState::Up) ==> ev[ev.len() - 2] == raw::Event::<u64, P, V>::Tool {
                tool,
                event: raw::ToolEvent::Up,
            })
            &&& (state == Some(FrameState::Out) ==> ev[ev.len() - 2] == raw::Event::<u64, P, V>::Tool {
                tool,
                event: raw::ToolEvent::Out,
            })
            &&& (state is None ==> forall|k: int| 0 <= k < ev.len() ==> !is_phase_event(#[trigger] ev[k]))
        }),
{
    let ev = spec_frame_events::<P, V>(tool, state, pose, changes, millis);
    let e = |x: raw::ToolEvent<u64, P>| raw::Event::<u64, P, V>::Tool { tool, event: x };
    let posed: Seq<raw::Event<u64, P, V>> = match pose {
        Some(p) => seq![e(raw::ToolEvent::Pose(p))],
        None => seq![],
    };
    let buttons = changes.map_values(
        |c: (u32, bool)| e(raw::ToolEvent::Button { button_id: ButtonID::Wayland(c.0), pressed: c.1 }),
    );
    if state is None {
        let frame_ev = seq![e(raw::ToolEvent::Frame(Some(FrameTimestamp::at_millis(millis as u64))))];
        assert(ev =~= posed + buttons + frame_ev);
        assert forall|k: int| 0 <= k < ev.len() implies !is_phase_event(#[trigger] ev[k]) by {
            if k < posed.len() {
                assert(ev[k] == posed[k]);
            } else if k < posed.len() + buttons.len() {
                assert(ev[k] == buttons[k - posed.len()]);
            } else {
                assert(ev[k] == frame_ev[k - posed.len() - buttons.len()]);
            }
        }
    }
}

} // verus!
