//! Bookkeeping for X11's `XInput2` extension.

pub mod devices;
pub mod names;
pub mod state;
pub mod strings;

use vstd::prelude::*;

use crate::events::raw;
use crate::axis::{opt_info_union_of, CircularInfo, FullInfo, Info, LengthInfo, NormalizedInfo};
use crate::events::FrameTimestamp;

verus! {

/// An XInput2 device ID.
#[derive(Clone, Copy, Debug, PartialEq, Eq, Structural)]
pub enum ID {
    /// Special value for the emulated tablet. This is an invalid ID for tools and pads.
    EmulatedTablet,
    ID {
        /// XInput re-uses the IDs of removed devices, the generation tells them apart.
        generation: u16,
        /// Never zero (zero stands for all devices).
        device_id: u16,
    },
}

/// What kind of device a name, driver property or heuristic points to.
#[derive(Copy, Clone, Debug, PartialEq, Eq, Structural)]
pub enum DeviceType {
    Tool(Option<crate::tool::Type>),
    Pad,
}

/// An X server timestamp, in milliseconds.
pub type Timestamp = u32;

/// If this many milliseconds pass since the last ring interaction, the ring is released.
pub const RING_TIMEOUT_MS: Timestamp = 200;

/// If this many milliseconds pass since the last tool interaction, the tool leaves.
pub const TOOL_TIMEOUT_MS: Timestamp = 500;

/// Zero is the special device ID that stands for all devices.
pub const XI_ALL_DEVICES: u16 = 0;

/// The ID of device `device_id` in generation `generation`, or `None` for device zero, which
/// stands for all devices.
pub fn device_id(device: u16, generation: u16) -> (r: Option<ID>)
    ensures
        device == 0 <==> r is None,
        r matches Some(id) ==> id == (ID::ID { generation, device_id: device }),
{
    if device == 0 {
        None
    } else {
        Some(ID::ID { generation, device_id: device })
    }
}

/// An XInput fixed-point number: a signed integral part and a binary fraction of 2^32.
#[derive(Copy, Clone, Debug, PartialEq, Eq, Structural)]
pub struct Fp3232 {
    pub integral: i32,
    pub frac: u32,
}

/// The absolute axes that a valuator label can name.
#[derive(Debug, Clone, Copy, PartialEq, Eq, Structural)]
pub enum ValuatorAxis {
    AbsX,
    AbsY,
    AbsDistance,
    AbsPressure,
    AbsTiltX,
    AbsTiltY,
    AbsRz,
    AbsWheel,
}

impl ValuatorAxis {
    /// The axis this valuator reports, or `Err` for the position axes, which are implicit.
    pub fn to_axis(self) -> (r: Result<crate::axis::Axis, ()>)
        ensures
            r is Err <==> (self == ValuatorAxis::AbsX || self == ValuatorAxis::AbsY),
            self == ValuatorAxis::AbsPressure ==> r == Ok::<crate::axis::Axis, ()>(crate::axis::Axis::Pressure),
            (self == ValuatorAxis::AbsTiltX || self == ValuatorAxis::AbsTiltY) ==> r == Ok::<crate::axis::Axis, ()>(crate::axis::Axis::Tilt),
            self == ValuatorAxis::AbsWheel ==> r == Ok::<crate::axis::Axis, ()>(crate::axis::Axis::Wheel),
            self == ValuatorAxis::AbsDistance ==> r == Ok::<crate::axis::Axis, ()>(crate::axis::Axis::Distance),
            self == ValuatorAxis::AbsRz ==> r == Ok::<crate::axis::Axis, ()>(crate::axis::Axis::Roll),
    {
        match self {
            ValuatorAxis::AbsX | ValuatorAxis::AbsY => Err(()),
            ValuatorAxis::AbsPressure => Ok(crate::axis::Axis::Pressure),
            ValuatorAxis::AbsTiltX | ValuatorAxis::AbsTiltY => Ok(crate::axis::Axis::Tilt),
            ValuatorAxis::AbsWheel => Ok(crate::axis::Axis::Wheel),
            ValuatorAxis::AbsDistance => Ok(crate::axis::Axis::Distance),
            ValuatorAxis::AbsRz => Ok(crate::axis::Axis::Roll),
        }
    }
}

/// Record in a tool's axes what a usable absolute valuator labelled `label` reports. Pressure,
/// distance (normalized) and roll become supported, with nothing known of their granularity;
/// a tilt valuator reports the range `tilt`, joined by `join` with what the other tilt
/// valuator reported; the position and wheel valuators add nothing.
pub fn add_tool_valuator<L: Copy, F: Fn(L, L) -> L>(axes: &mut FullInfo<L>, label: ValuatorAxis, tilt: L, join: F)
    requires
        forall|x: L, y: L| join.requires((x, y)),
    ensures
        match label {
            ValuatorAxis::AbsX | ValuatorAxis::AbsY | ValuatorAxis::AbsWheel => *final(axes) == *old(axes),
            ValuatorAxis::AbsPressure => *final(axes) == (FullInfo {
                pressure: Some(NormalizedInfo { granularity: None }),
                ..*old(axes)
            }),
            ValuatorAxis::AbsDistance => *final(axes) == (FullInfo {
                distance: Some(LengthInfo::Normalized(NormalizedInfo { granularity: None })),
                ..*old(axes)
            }),
            ValuatorAxis::AbsRz => *final(axes) == (FullInfo { roll: Some(CircularInfo { granularity: None }), ..*old(axes) }),
            ValuatorAxis::AbsTiltX | ValuatorAxis::AbsTiltY => {
                &&& (FullInfo { tilt: old(axes).tilt, ..*final(axes) }) == *old(axes)
                &&& opt_info_union_of(old(axes).tilt, Some(Info { limits: Some(tilt), granularity: None }), join, final(axes).tilt)
            },
        },
{
    match label {
        ValuatorAxis::AbsX | ValuatorAxis::AbsY | ValuatorAxis::AbsWheel => {},
        ValuatorAxis::AbsPressure => axes.pressure = Some(NormalizedInfo { granularity: None }),
        ValuatorAxis::AbsDistance => axes.distance = Some(LengthInfo::Normalized(NormalizedInfo { granularity: None })),
        ValuatorAxis::AbsRz => axes.roll = Some(CircularInfo { granularity: None }),
        ValuatorAxis::AbsTiltX | ValuatorAxis::AbsTiltY => {
            let new = Info { limits: Some(tilt), granularity: None };
            axes.tilt = match axes.tilt {
                Some(t) => Some(t.union(new, join)),
                None => Some(new),
            };
        },
    }
}

/// The axis that `label` names among the interned absolute axis labels, checked in the order
/// x, y, distance, pressure, tilt x, tilt y, rz, wheel. Label zero is no atom and names nothing.
pub open spec fn spec_valuator_label(label: u32, atoms: strings::AbsoluteAxisAtoms) -> Option<ValuatorAxis> {
    if label == 0 {
        None
    } else if label == atoms.x.value() {
        Some(ValuatorAxis::AbsX)
    } else if label == atoms.y.value() {
        Some(ValuatorAxis::AbsY)
    } else if label == atoms.distance.value() {
        Some(ValuatorAxis::AbsDistance)
    } else if label == atoms.pressure.value() {
        Some(ValuatorAxis::AbsPressure)
    } else if label == atoms.tilt_x.value() {
        Some(ValuatorAxis::AbsTiltX)
    } else if label == atoms.tilt_y.value() {
        Some(ValuatorAxis::AbsTiltY)
    } else if label == atoms.rz.value() {
        Some(ValuatorAxis::AbsRz)
    } else if label == atoms.wheel.value() {
        Some(ValuatorAxis::AbsWheel)
    } else {
        None
    }
}

/// The axis that a valuator's label atom names.
pub fn match_valuator_label(label: u32, atoms: &strings::AbsoluteAxisAtoms) -> (r: Option<ValuatorAxis>)
    ensures
        r == spec_valuator_label(label, *atoms),
{
    if label == 0 {
        None
    } else if label == atoms.x.get() {
        Some(ValuatorAxis::AbsX)
    } else if label == atoms.y.get() {
        Some(ValuatorAxis::AbsY)
    } else if label == atoms.distance.get() {
        Some(ValuatorAxis::AbsDistance)
    } else if label == atoms.pressure.get() {
        Some(ValuatorAxis::AbsPressure)
    } else if label == atoms.tilt_x.get() {
        Some(ValuatorAxis::AbsTiltX)
    } else if label == atoms.tilt_y.get() {
        Some(ValuatorAxis::AbsTiltY)
    } else if label == atoms.rz.get() {
        Some(ValuatorAxis::AbsRz)
    } else if label == atoms.wheel.get() {
        Some(ValuatorAxis::AbsWheel)
    } else {
        None
    }
}

/// Whether the valuator mask says valuator `idx` reported in this event.
pub open spec fn valuator_reported(mask: Seq<u32>, idx: u16) -> bool {
    &&& (idx / 32) < mask.len()
    &&& mask[(idx / 32) as int] & (1u32 << (idx % 32) as u32) != 0
}

/// The value of valuator `idx` in a motion event, as `valuator_fetch` reads it.
pub open spec fn spec_valuator_fetch(mask: Seq<u32>, values: Seq<Fp3232>, idx: u16) -> Option<Fp3232> {
    if !valuator_reported(mask, idx) {
        None
    } else if values.len() == 1 {
        // Pad rings report a sparse mask but a single value.
        Some(values[0])
    } else if idx < values.len() {
        Some(values[idx as int])
    } else {
        None
    }
}

/// Fetch valuator `idx` from a motion event: `None` unless the mask marks it as reported.
/// When the event carries a single value, that value stands for the valuator whatever its
/// index (a quirk of pad rings).
pub fn valuator_fetch(mask: &[u32], values: &[Fp3232], idx: u16) -> (r: Option<Fp3232>)
    ensures
        r == spec_valuator_fetch(mask@, values@, idx),
{
    let word_idx = idx / 32;
    let bit_idx = idx % 32;
    if word_idx as usize >= mask.len() {
        return None;
    }
    let word = mask[word_idx as usize];
    let bit: u32 = 1u32 << (bit_idx as u32);
    if word & bit == 0 {
        return None;
    }
    if values.len() == 1 {
        return Some(values[0]);
    }
    if (idx as usize) < values.len() {
        Some(values[idx as usize])
    } else {
        None
    }
}

/// Where a tool is relative to the tablet.
#[derive(Eq, PartialEq, Clone, Copy, Debug, Structural)]
pub enum Phase {
    In,
    Down,
    Out,
}

/// The tool events that move between phases.
#[derive(Eq, PartialEq, Clone, Copy, Debug, Structural)]
pub enum Transition {
    In,
    Down,
    Out,
    Up,
}

/// The transitions that lead from phase `from` to phase `to`, in order.
pub open spec fn transitions(from: Phase, to: Phase) -> Seq<Transition> {
    match (from, to) {
        (Phase::Down, Phase::Out) => seq![Transition::Up, Transition::Out],
        (Phase::Down, Phase::In) => seq![Transition::Up],
        (Phase::In, Phase::Out) => seq![Transition::Out],
        (Phase::In, Phase::Down) => seq![Transition::Down],
        (Phase::Out, Phase::In) => seq![Transition::In],
        (Phase::Out, Phase::Down) => seq![Transition::In, Transition::Down],
        _ => seq![],
    }
}

/// The phase a single transition leads to from `phase`, or `None` if it cannot happen there.
pub open spec fn step(phase: Phase, t: Transition) -> Option<Phase> {
    match (phase, t) {
        (Phase::Out, Transition::In) => Some(Phase::In),
        (Phase::In, Transition::Down) => Some(Phase::Down),
        (Phase::Down, Transition::Up) => Some(Phase::In),
        (Phase::In, Transition::Out) => Some(Phase::Out),
        _ => None,
    }
}

/// The phase that a run of transitions leads to, or `None` if one of them cannot happen.
pub open spec fn replay(phase: Phase, ts: Seq<Transition>) -> Option<Phase>
    decreases ts.len(),
{
    if ts.len() == 0 {
        Some(phase)
    } else {
        match step(phase, ts[0]) {
            Some(next) => replay(next, ts.drop_first()),
            None => None,
        }
    }
}

/// The number of transitions between two phases: Out, In and Down lie on a line.
pub open spec fn phase_distance(a: Phase, b: Phase) -> nat {
    let level = |p: Phase| -> int {
        match p {
            Phase::Out => 0,
            Phase::In => 1,
            Phase::Down => 2,
        }
    };
    let d = level(a) - level(b);
    if d < 0 {
        (-d) as nat
    } else {
        d as nat
    }
}

/// The transitions that a phase change emits are a valid path from the old phase to the new
/// one, and a shortest one: each step can happen where it stands, and there are as many
/// steps as the phases are apart (none when the phase does not change).
pub proof fn lemma_transitions_are_shortest_path(from: Phase, to: Phase)
    ensures
        replay(from, transitions(from, to)) == Some(to),
        transitions(from, to).len() == phase_distance(from, to),
{
    reveal_with_fuel(replay, 3);
}

/// The tool event that a transition is reported as.
pub open spec fn transition_event<P, V>(tool: ID, tablet: ID, t: Transition) -> raw::Event<ID, P, V> {
    raw::Event::Tool {
        tool,
        event: match t {
            Transition::In => raw::ToolEvent::In { tablet },
            Transition::Out => raw::ToolEvent::Out,
            Transition::Down => raw::ToolEvent::Down,
            Transition::Up => raw::ToolEvent::Up,
        },
    }
}

/// The events that report a run of transitions.
pub open spec fn transition_events<P, V>(tool: ID, tablet: ID, ts: Seq<Transition>) -> Seq<
    raw::Event<ID, P, V>,
> {
    ts.map_values(|t: Transition| transition_event::<P, V>(tool, tablet, t))
}

/// A valuator bound to one of our axes: where it is in the valuator array, and how to adapt
/// its value (`T`).
#[derive(Copy, Clone, Debug)]
pub struct AxisInfo<T> {
    pub index: u16,
    pub transform: T,
}

/// The metadata for translating a tool's events, and the state needed to emulate events that
/// X does not send.
#[derive(Clone, Copy, Debug)]
pub struct ToolInfo<T> {
    pub distance: Option<AxisInfo<T>>,
    pub pressure: Option<AxisInfo<T>>,
    pub roll: Option<AxisInfo<T>>,
    pub tilt: [Option<AxisInfo<T>>; 2],
    pub wheel: Option<AxisInfo<T>>,
    /// The tablet this tool belongs to, based on heuristics.
    pub tablet: ID,
    pub phase: Phase,
    /// The master cursor.
    pub master_pointer: u16,
    /// The master keyboard associated with the master pointer.
    pub master_keyboard: u16,
    /// A change has occurred that requires a frame event at this time.
    pub frame_pending: Option<Timestamp>,
    pub last_interaction: Option<Timestamp>,
}

/// Whether an interaction at `interaction` has timed out by `now`, after `timeout`
/// milliseconds (an interaction in the future never has).
pub open spec fn timed_out(interaction: Option<Timestamp>, now: Timestamp, timeout: Timestamp) -> bool {
    match interaction {
        Some(i) => i <= now && now - i >= timeout,
        None => false,
    }
}

/// Take the timeout of an interaction: true, and the interaction forgotten, if it timed out.
fn take_timeout_of(interaction: &mut Option<Timestamp>, now: Timestamp, timeout: Timestamp) -> (r: bool)
    ensures
        r == timed_out(*old(interaction), now, timeout),
        *final(interaction) == if r { None } else { *old(interaction) },
{
    let Some(i) = *interaction else {
        return false;
    };
    if i > now {
        return false;
    }
    if now - i >= timeout {
        *interaction = None;
        true
    } else {
        false
    }
}

impl<T> ToolInfo<T> {
    /// True, and the interaction forgotten, if the last interaction timed out by `now`.
    pub fn take_timeout(&mut self, now: Timestamp) -> (r: bool)
        ensures
            r == timed_out(old(self).last_interaction, now, TOOL_TIMEOUT_MS),
            *final(self) == (ToolInfo {
                last_interaction: if r { None } else { old(self).last_interaction },
                ..*old(self)
            }),
    {
        take_timeout_of(&mut self.last_interaction, now, TOOL_TIMEOUT_MS)
    }

    /// Set the current phase of interaction, emitting the events needed to get to that state.
    pub fn set_phase<P, V>(&mut self, self_id: ID, phase: Phase, events: &mut Vec<raw::Event<ID, P, V>>)
        ensures
            *final(self) == (ToolInfo { phase, ..*old(self) }),
            final(events)@ == old(events)@ + transition_events::<P, V>(
                self_id,
                old(self).tablet,
                transitions(old(self).phase, phase),
            ),
    {
        let ghost start = events@;
        let ghost ts = transitions(self.phase, phase);
        let changes: Vec<Transition> = match (self.phase, phase) {
            (Phase::Down, Phase::Out) => vec![Transition::Up, Transition::Out],
            (Phase::Down, Phase::In) => vec![Transition::Up],
            (Phase::In, Phase::Out) => vec![Transition::Out],
            (Phase::In, Phase::Down) => vec![Transition::Down],
            (Phase::Out, Phase::In) => vec![Transition::In],
            (Phase::Out, Phase::Down) => vec![Transition::In, Transition::Down],
            _ => vec![],
        };
        assert(changes@ =~= ts);
        self.phase = phase;
        let mut i: usize = 0;
        while i < changes.len()
            invariant
                i <= changes@.len(),
                changes@ == ts,
                events@ == start + transition_events::<P, V>(self_id, self.tablet, ts.subrange(0, i as int)),
            decreases changes.len() - i,
        {
            let event = match changes[i] {
                Transition::In => raw::ToolEvent::In { tablet: self.tablet },
                Transition::Out => raw::ToolEvent::Out,
                Transition::Down => raw::ToolEvent::Down,
                Transition::Up => raw::ToolEvent::Up,
            };
            events.push(raw::Event::Tool { tool: self_id, event });
            proof {
                assert(ts.subrange(0, i + 1) =~= ts.subrange(0, i as int).push(ts[i as int]));
                assert(transition_events::<P, V>(self_id, self.tablet, ts.subrange(0, i + 1))
                    =~= transition_events::<P, V>(self_id, self.tablet, ts.subrange(0, i as int)).push(
                    transition_event::<P, V>(self_id, self.tablet, ts[i as int])));
            }
            i = i + 1;
        }
        proof {
            assert(ts.subrange(0, ts.len() as int) =~= ts);
        }
    }

    /// If the tool is Out, move it In. No effect if down or in already.
    pub fn ensure_in<P, V>(&mut self, self_id: ID, events: &mut Vec<raw::Event<ID, P, V>>)
        ensures
            *final(self) == (ToolInfo {
                phase: if old(self).phase == Phase::Out { Phase::In } else { old(self).phase },
                ..*old(self)
            }),
            final(events)@ == old(events)@ + if old(self).phase == Phase::Out {
                seq![transition_event::<P, V>(self_id, old(self).tablet, Transition::In)]
            } else {
                Seq::empty()
            },
    {
        if self.phase == Phase::Out {
            self.phase = Phase::In;
            events.push(raw::Event::Tool { tool: self_id, event: raw::ToolEvent::In { tablet: self.tablet } });
        }
        assert(events@ =~= old(events)@ + if old(self).phase == Phase::Out {
            seq![transition_event::<P, V>(self_id, old(self).tablet, Transition::In)]
        } else {
            Seq::empty()
        });
    }
}

/// A pad ring bound to a valuator.
#[derive(Clone, Copy, Debug)]
pub struct RingInfo<T> {
    pub axis: AxisInfo<T>,
    pub last_interaction: Option<Timestamp>,
}

impl<T> RingInfo<T> {
    /// Returns true if the ring was interacted but the interaction timed out by `now`;
    /// the interaction is then forgotten. When true, emit an Up event.
    pub fn take_timeout(&mut self, now: Timestamp) -> (r: bool)
        ensures
            r == timed_out(old(self).last_interaction, now, RING_TIMEOUT_MS),
            final(self).last_interaction == if r { None } else { old(self).last_interaction },
            final(self).axis == old(self).axis,
    {
        take_timeout_of(&mut self.last_interaction, now, RING_TIMEOUT_MS)
    }
}

/// The state of a pad.
#[derive(Clone, Copy, Debug)]
pub struct PadInfo<T> {
    pub ring: Option<RingInfo<T>>,
    /// The tablet this pad belongs to, based on heuristics, or the emulated one.
    pub tablet: ID,
}

/// When the interned axis labels are distinct, each label names its own axis: the label of
/// distance gives the distance valuator, that of pressure the pressure valuator, and so on for
/// x, y, tilt x, tilt y, rz and the wheel; and a label gives an axis only if it is that axis's
/// label.
pub proof fn lemma_labels_name_their_axis(atoms: strings::AbsoluteAxisAtoms)
    requires
        atoms.x.value() != atoms.y.value(),
        atoms.x.value() != atoms.distance.value(),
        atoms.x.value() != atoms.pressure.value(),
        atoms.x.value() != atoms.tilt_x.value(),
        atoms.x.value() != atoms.tilt_y.value(),
        atoms.x.value() != atoms.rz.value(),
        atoms.x.value() != atoms.wheel.value(),
        atoms.y.value() != atoms.distance.value(),
        atoms.y.value() != atoms.pressure.value(),
        atoms.y.value() != atoms.tilt_x.value(),
        atoms.y.value() != atoms.tilt_y.value(),
        atoms.y.value() != atoms.rz.value(),
        atoms.y.value() != atoms.wheel.value(),
        atoms.distance.value() != atoms.pressure.value(),
        atoms.distance.value() != atoms.tilt_x.value(),
        atoms.distance.value() != atoms.tilt_y.value(),
        atoms.distance.value() != atoms.rz.value(),
        atoms.distance.value() != atoms.wheel.value(),
        atoms.pressure.value() != atoms.tilt_x.value(),
        atoms.pressure.value() != atoms.tilt_y.value(),
        atoms.pressure.value() != atoms.rz.value(),
        atoms.pressure.value() != atoms.wheel.value(),
        atoms.tilt_x.value() != atoms.tilt_y.value(),
        atoms.tilt_x.value() != atoms.rz.value(),
        atoms.tilt_x.value() != atoms.wheel.value(),
        atoms.tilt_y.value() != atoms.rz.value(),
        atoms.tilt_y.value() != atoms.wheel.value(),
        atoms.rz.value() != atoms.wheel.value(),
    ensures
        atoms.x.value() != 0 ==> spec_valuator_label(atoms.x.value(), atoms) == Some(ValuatorAxis::AbsX),
        forall|label: u32| spec_valuator_label(label, atoms) == Some(ValuatorAxis::AbsX) ==> label == atoms.x.value(),
        atoms.y.value() != 0 ==> spec_valuator_label(atoms.y.value(), atoms) == Some(ValuatorAxis::AbsY),
        forall|label: u32| spec_valuator_label(label, atoms) == Some(ValuatorAxis::AbsY) ==> label == atoms.y.value(),
        atoms.distance.value() != 0 ==> spec_valuator_label(atoms.distance.value(), atoms) == Some(ValuatorAxis::AbsDistance),
        forall|label: u32| spec_valuator_label(label, atoms) == Some(ValuatorAxis::AbsDistance) ==> label == atoms.distance.value(),
        atoms.pressure.value() != 0 ==> spec_valuator_label(atoms.pressure.value(), atoms) == Some(ValuatorAxis::AbsPressure),
        forall|label: u32| spec_valuator_label(label, atoms) == Some(ValuatorAxis::AbsPressure) ==> label == atoms.pressure.value(),
        atoms.tilt_x.value() != 0 ==> spec_valuator_label(atoms.tilt_x.value(), atoms) == Some(ValuatorAxis::AbsTiltX),
        forall|label: u32| spec_valuator_label(label, atoms) == Some(ValuatorAxis::AbsTiltX) ==> label == atoms.tilt_x.value(),
        atoms.tilt_y.value() != 0 ==> spec_valuator_label(atoms.tilt_y.value(), atoms) == Some(ValuatorAxis::AbsTiltY),
        forall|label: u32| spec_valuator_label(label, atoms) == Some(ValuatorAxis::AbsTiltY) ==> label == atoms.tilt_y.value(),
        atoms.rz.value() != 0 ==> spec_valuator_label(atoms.rz.value(), atoms) == Some(ValuatorAxis::AbsRz),
        forall|label: u32| spec_valuator_label(label, atoms) == Some(ValuatorAxis::AbsRz) ==> label == atoms.rz.value(),
        atoms.wheel.value() != 0 ==> spec_valuator_label(atoms.wheel.value(), atoms) == Some(ValuatorAxis::AbsWheel),
        forall|label: u32| spec_valuator_label(label, atoms) == Some(ValuatorAxis::AbsWheel) ==> label == atoms.wheel.value(),
{
}

} // verus!
