//! Events in the form in which they are stored while awaiting a pump: devices are named by
//! their platform IDs. `P` holds a tool pose, `V` a ring or strip position.

use vstd::prelude::*;
use vstd::std_specs::convert::FromSpec;

use super::{FrameTimestamp, TabletEvent, TouchStripEvent};

verus! {

/// Events associated with a specific tool.
#[derive(Clone, Copy, Debug)]
pub enum ToolEvent<Id, P> {
    Added,
    Removed,
    In { tablet: Id },
    Down,
    Button { button_id: crate::platform::ButtonID, pressed: bool },
    Pose(P),
    Frame(Option<FrameTimestamp>),
    Up,
    Out,
}

/// Events associated with a specific pad group.
#[derive(Clone, Copy, Debug)]
pub enum PadGroupEvent<Id, V> {
    Mode(u32),
    Ring { ring: Id, event: TouchStripEvent<V> },
    Strip { strip: Id, event: TouchStripEvent<V> },
}

/// Events associated with a specific pad.
#[derive(Clone, Copy, Debug)]
pub enum PadEvent<Id, V> {
    Added,
    Removed,
    Group { group: Id, event: PadGroupEvent<Id, V> },
    Button { button_idx: u32, pressed: bool },
    Enter { tablet: Id },
    Exit,
}

/// Any event, naming its device.
#[derive(Clone, Copy, Debug)]
pub enum Event<Id, P, V> {
    Tool { tool: Id, event: ToolEvent<Id, P> },
    Tablet { tablet: Id, event: TabletEvent },
    Pad { pad: Id, event: PadEvent<Id, V> },
}

impl<Id, P> ToolEvent<Id, P> {
    /// The same event with every ID passed through `f`.
    pub open spec fn map_ids<J>(self, f: spec_fn(Id) -> J) -> ToolEvent<J, P> {
        match self {
            ToolEvent::Added => ToolEvent::Added,
            ToolEvent::Removed => ToolEvent::Removed,
            ToolEvent::In { tablet } => ToolEvent::In { tablet: f(tablet) },
            ToolEvent::Down => ToolEvent::Down,
            ToolEvent::Button { button_id, pressed } => ToolEvent::Button { button_id, pressed },
            ToolEvent::Pose(v) => ToolEvent::Pose(v),
            ToolEvent::Frame(v) => ToolEvent::Frame(v),
            ToolEvent::Up => ToolEvent::Up,
            ToolEvent::Out => ToolEvent::Out,
        }
    }

    /// Convert every ID of the event through `From`.
    pub fn id_into<Into: From<Id>>(self) -> (r: ToolEvent<Into, P>)
        ensures
            Into::obeys_from_spec() ==> r == self.map_ids(|id: Id| Into::from_spec(id)),
    {
        match self {
            ToolEvent::Added => ToolEvent::Added,
            ToolEvent::Removed => ToolEvent::Removed,
            ToolEvent::In { tablet } => ToolEvent::In { tablet: Into::from(tablet) },
            ToolEvent::Down => ToolEvent::Down,
            ToolEvent::Button { button_id, pressed } => ToolEvent::Button { button_id, pressed },
            ToolEvent::Pose(v) => ToolEvent::Pose(v),
            ToolEvent::Frame(v) => ToolEvent::Frame(v),
            ToolEvent::Up => ToolEvent::Up,
            ToolEvent::Out => ToolEvent::Out,
        }
    }
}

impl<Id, V> PadGroupEvent<Id, V> {
    /// The same event with every ID passed through `f`.
    pub open spec fn map_ids<J>(self, f: spec_fn(Id) -> J) -> PadGroupEvent<J, V> {
        match self {
            PadGroupEvent::Mode(m) => PadGroupEvent::Mode(m),
            PadGroupEvent::Ring { ring, event } => PadGroupEvent::Ring { ring: f(ring), event },
            PadGroupEvent::Strip { strip, event } => PadGroupEvent::Strip { strip: f(strip), event },
        }
    }

    /// Convert every ID of the event through `From`.
    pub fn id_into<Into: From<Id>>(self) -> (r: PadGroupEvent<Into, V>)
        ensures
            Into::obeys_from_spec() ==> r == self.map_ids(|id: Id| Into::from_spec(id)),
    {
        match self {
            PadGroupEvent::Mode(m) => PadGroupEvent::Mode(m),
            PadGroupEvent::Ring { ring, event } => PadGroupEvent::Ring {
                ring: Into::from(ring),
                event,
            },
            PadGroupEvent::Strip { strip, event } => PadGroupEvent::Strip {
                strip: Into::from(strip),
                event,
            },
        }
    }
}

impl<Id, V> PadEvent<Id, V> {
    /// The same event with every ID passed through `f`.
    pub open spec fn map_ids<J>(self, f: spec_fn(Id) -> J) -> PadEvent<J, V> {
        match self {
            PadEvent::Added => PadEvent::Added,
            PadEvent::Removed => PadEvent::Removed,
            PadEvent::Group { group, event } => PadEvent::Group {
                group: f(group),
                event: event.map_ids(f),
            },
            PadEvent::Button { button_idx, pressed } => PadEvent::Button { button_idx, pressed },
            PadEvent::Enter { tablet } => PadEvent::Enter { tablet: f(tablet) },
            PadEvent::Exit => PadEvent::Exit,
        }
    }

    /// Convert every ID of the event through `From`.
    pub fn id_into<Into: From<Id>>(self) -> (r: PadEvent<Into, V>)
        ensures
            Into::obeys_from_spec() ==> r == self.map_ids(|id: Id| Into::from_spec(id)),
    {
        match self {
            PadEvent::Added => PadEvent::Added,
            PadEvent::Removed => PadEvent::Removed,
            PadEvent::Group { group, event } => PadEvent::Group {
                group: Into::from(group),
                event: event.id_into::<Into>(),
            },
            PadEvent::Button { button_idx, pressed } => PadEvent::Button { button_idx, pressed },
            PadEvent::Enter { tablet } => PadEvent::Enter { tablet: Into::from(tablet) },
            PadEvent::Exit => PadEvent::Exit,
        }
    }
}

impl<Id, P, V> Event<Id, P, V> {
    /// The same event with every ID passed through `f`.
    pub open spec fn map_ids<J>(self, f: spec_fn(Id) -> J) -> Event<J, P, V> {
        match self {
            Event::Tool { tool, event } => Event::Tool { tool: f(tool), event: event.map_ids(f) },
            Event::Tablet { tablet, event } => Event::Tablet { tablet: f(tablet), event },
            Event::Pad { pad, event } => Event::Pad { pad: f(pad), event: event.map_ids(f) },
        }
    }

    /// Convert every ID of the event through `From`.
    pub fn id_into<Into: From<Id>>(self) -> (r: Event<Into, P, V>)
        ensures
            Into::obeys_from_spec() ==> r == self.map_ids(|id: Id| Into::from_spec(id)),
    {
        match self {
            Event::Tool { tool, event } => Event::Tool {
                tool: Into::from(tool),
                event: event.id_into::<Into>(),
            },
            Event::Tablet { tablet, event } => Event::Tablet { tablet: Into::from(tablet), event },
            Event::Pad { pad, event } => Event::Pad {
                pad: Into::from(pad),
                event: event.id_into::<Into>(),
            },
        }
    }
}


/// Passing every ID of an event through the identity changes nothing: the conversion keeps the
/// shape of the event and every value other than the IDs.
pub proof fn lemma_map_ids_identity<Id, P, V>(e: Event<Id, P, V>)
    ensures
        e.map_ids(|id: Id| id) == e,
{
    match e {
        Event::Tool { event, .. } => {
            match event {
                ToolEvent::In { .. } => {},
                _ => {},
            }
        },
        Event::Pad { event, .. } => {
            match event {
                PadEvent::Group { event: ge, .. } => {
                    match ge {
                        _ => {},
                    }
                },
                _ => {},
            }
        },
        _ => {},
    }
}

} // verus!
