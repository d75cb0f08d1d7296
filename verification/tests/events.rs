use octotablet::events::raw;
use octotablet::events::resolve::{resolve, resolve_all, Event, PadEvent, PadGroupEvent, ToolEvent};
use octotablet::events::{FrameTimestamp, TabletEvent, TouchStripEvent};
use octotablet::pad::{Group, Pad, Ring};
use octotablet::platform::{ButtonID, InternalID};
use octotablet::tablet::Tablet;
use octotablet::tool::Tool;

#[test]
fn timestamps_are_milliseconds() {
    let t = FrameTimestamp::from_millis(1500);
    assert_eq!(t.as_millis(), 1500);
    assert_eq!(t.since_arbitrary(), std::time::Duration::from_millis(1500));
    assert_eq!(FrameTimestamp::epoch().as_millis(), 0);
    let earlier = FrameTimestamp::from_millis(250);
    assert_eq!(t.sub(earlier), std::time::Duration::from_millis(1250));
}

fn tablet(id: u64) -> Tablet {
    Tablet { internal_id: InternalID::Wayland(id), name: None, usb_id: None }
}

fn tool(id: u64) -> Tool<f32> {
    Tool {
        internal_id: InternalID::Wayland(id),
        name: None,
        hardware_id: None,
        wacom_id: None,
        tool_type: None,
        axes: octotablet::axis::FullInfo::default(),
    }
}

fn pad() -> Pad {
    Pad {
        internal_id: InternalID::Wayland(30),
        total_buttons: 4,
        groups: vec![
            Group {
                internal_id: InternalID::Wayland(40),
                mode_count: None,
                buttons: vec![0, 1],
                rings: vec![],
                strips: vec![],
            },
            Group {
                internal_id: InternalID::Wayland(41),
                mode_count: Some(2),
                buttons: vec![2],
                rings: vec![Ring { internal_id: InternalID::Wayland(50), granularity: None }],
                strips: vec![],
            },
        ],
    }
}

#[test]
fn events_name_devices_by_position() {
    let tablets = vec![tablet(10), tablet(11)];
    let tools = vec![tool(20)];
    let pads = vec![pad()];
    let e: raw::Event<InternalID, u8, u8> = raw::Event::Tool {
        tool: InternalID::Wayland(20),
        event: raw::ToolEvent::In { tablet: InternalID::Wayland(11) },
    };
    assert!(matches!(
        resolve(e, &tablets, &tools, &pads),
        Some(Event::Tool { tool: 0, event: ToolEvent::In { tablet: 1 } })
    ));
    let b: raw::Event<InternalID, u8, u8> = raw::Event::Tool {
        tool: InternalID::Wayland(20),
        event: raw::ToolEvent::Button { button_id: ButtonID::Wayland(3), pressed: true },
    };
    assert!(matches!(resolve(b, &tablets, &tools, &pads), Some(Event::Tool { tool: 0, event: ToolEvent::Button { pressed: true, .. } })));
}

#[test]
fn events_naming_unknown_devices_are_skipped() {
    let tablets = vec![tablet(10)];
    let tools = vec![tool(20)];
    let pads = vec![pad()];
    let unknown_tool: raw::Event<InternalID, u8, u8> = raw::Event::Tool { tool: InternalID::Wayland(99), event: raw::ToolEvent::Down };
    assert!(resolve(unknown_tool, &tablets, &tools, &pads).is_none());
    let unknown_tablet: raw::Event<InternalID, u8, u8> = raw::Event::Tool {
        tool: InternalID::Wayland(20),
        event: raw::ToolEvent::In { tablet: InternalID::Wayland(12) },
    };
    assert!(resolve(unknown_tablet, &tablets, &tools, &pads).is_none());
    let all = vec![
        unknown_tool,
        raw::Event::Tablet { tablet: InternalID::Wayland(10), event: TabletEvent::Added },
        unknown_tablet,
        raw::Event::Tool { tool: InternalID::Wayland(20), event: raw::ToolEvent::Frame(Some(FrameTimestamp::from_millis(3))) },
    ];
    let r = resolve_all(&all, &tablets, &tools, &pads);
    assert_eq!(r.len(), 2);
    assert!(matches!(r[0], Event::Tablet { tablet: 0, event: TabletEvent::Added }));
    assert!(matches!(r[1], Event::Tool { tool: 0, event: ToolEvent::Frame(Some(_)) }));
}

#[test]
fn pad_buttons_find_their_group() {
    let tablets = vec![tablet(10)];
    let tools: Vec<Tool<f32>> = vec![];
    let pads = vec![pad()];
    let press = |idx: u32| -> raw::Event<InternalID, u8, u8> {
        raw::Event::Pad { pad: InternalID::Wayland(30), event: raw::PadEvent::Button { button_idx: idx, pressed: true } }
    };
    assert!(matches!(resolve(press(1), &tablets, &tools, &pads), Some(Event::Pad { pad: 0, event: PadEvent::Button { button_idx: 1, group: Some(0), .. } })));
    assert!(matches!(resolve(press(2), &tablets, &tools, &pads), Some(Event::Pad { event: PadEvent::Button { group: Some(1), .. }, .. })));
    assert!(matches!(resolve(press(3), &tablets, &tools, &pads), Some(Event::Pad { event: PadEvent::Button { group: None, .. }, .. })));
}

#[test]
fn ring_events_resolve_through_group() {
    let tablets: Vec<Tablet> = vec![];
    let tools: Vec<Tool<f32>> = vec![];
    let pads = vec![pad()];
    let e: raw::Event<InternalID, u8, u8> = raw::Event::Pad {
        pad: InternalID::Wayland(30),
        event: raw::PadEvent::Group {
            group: InternalID::Wayland(41),
            event: raw::PadGroupEvent::Ring { ring: InternalID::Wayland(50), event: TouchStripEvent::Pose(7) },
        },
    };
    assert!(matches!(
        resolve(e, &tablets, &tools, &pads),
        Some(Event::Pad { pad: 0, event: PadEvent::Group { group: 1, event: PadGroupEvent::Ring { ring: 0, event: TouchStripEvent::Pose(7) } } })
    ));
    let missing: raw::Event<InternalID, u8, u8> = raw::Event::Pad {
        pad: InternalID::Wayland(30),
        event: raw::PadEvent::Group {
            group: InternalID::Wayland(40),
            event: raw::PadGroupEvent::Ring { ring: InternalID::Wayland(50), event: TouchStripEvent::Up },
        },
    };
    assert!(resolve(missing, &tablets, &tools, &pads).is_none());
    let enter: raw::Event<InternalID, u8, u8> = raw::Event::Pad { pad: InternalID::Wayland(30), event: raw::PadEvent::Enter { tablet: InternalID::Wayland(10) } };
    assert!(resolve(enter, &tablets, &tools, &pads).is_none());
}
