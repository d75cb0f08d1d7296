use octotablet::events::raw::{Event, PadEvent, PadGroupEvent, ToolEvent};
use octotablet::events::{TabletEvent, TouchStripEvent};
use octotablet::platform::xinput2::devices::{
    associations, keep_pad, keep_tool, libinput_tool_info, master_keyboard_of, resolve_device_type, tool_ids,
    wacom_info, zip_groups, LibinputInfo, WacomInfo,
};
use octotablet::platform::xinput2::names::{guess_from_name, parse_xwayland_from_name, ToolNameFields};
use octotablet::platform::xinput2::state::XiState;
use octotablet::platform::xinput2::strings::{Atom, WacomAtoms};
use octotablet::platform::xinput2::{AxisInfo, DeviceType, Fp3232, PadInfo, Phase, RingInfo, ToolInfo, ID};
use octotablet::platform::ButtonID;
use octotablet::tool::{HardwareID, Type};

fn tool_info(master_pointer: u16, master_keyboard: u16) -> ToolInfo<()> {
    ToolInfo {
        distance: None,
        pressure: None,
        roll: None,
        tilt: [None, None],
        wheel: None,
        tablet: ID::EmulatedTablet,
        phase: Phase::Out,
        master_pointer,
        master_keyboard,
        frame_pending: None,
        last_interaction: None,
    }
}

fn dev(device_id: u16) -> ID {
    ID::ID { generation: 0, device_id }
}

fn state_with_tool() -> XiState<(), u8, u8> {
    let mut s: XiState<(), u8, u8> = XiState::new();
    s.insert_tool(dev(5), tool_info(2, 3));
    s
}

#[test]
fn generic_names_give_tablet_kind_and_serial() {
    match guess_from_name(b"Wacom Intuos S Pen Pen (0x802a1b4)") {
        ToolNameFields::Generic { maybe_associated_tablet, id, device_type } => {
            assert_eq!(maybe_associated_tablet.as_deref(), Some(&b"Wacom Intuos S Pen"[..]));
            assert_eq!(id, Some(HardwareID(0x802a1b4)));
            assert_eq!(device_type, Some(DeviceType::Tool(Some(Type::Pen))));
        }
        other => panic!("unexpected {other:?}"),
    }
}

#[test]
fn zero_serial_is_no_serial_and_pads_name_their_pen() {
    match guess_from_name(b"XP-PEN DECO-01 stylus (0)") {
        ToolNameFields::Generic { maybe_associated_tablet, id, device_type } => {
            assert_eq!(maybe_associated_tablet.as_deref(), Some(&b"XP-PEN DECO-01"[..]));
            assert_eq!(id, None);
            assert_eq!(device_type, Some(DeviceType::Tool(Some(Type::Pen))));
        }
        other => panic!("unexpected {other:?}"),
    }
    match guess_from_name(b"Wacom Intuos S Pad pad") {
        ToolNameFields::Generic { maybe_associated_tablet, device_type, .. } => {
            assert_eq!(maybe_associated_tablet.as_deref(), Some(&b"Wacom Intuos S Pen"[..]));
            assert_eq!(device_type, Some(DeviceType::Pad));
        }
        other => panic!("unexpected {other:?}"),
    }
    match guess_from_name(b"HUION Tablet unknown tool") {
        ToolNameFields::Generic { device_type, .. } => assert_eq!(device_type, Some(DeviceType::Tool(None))),
        other => panic!("unexpected {other:?}"),
    }
    match guess_from_name(b"Keyboard") {
        ToolNameFields::Generic { maybe_associated_tablet, id, device_type } => {
            assert_eq!(maybe_associated_tablet, None);
            assert_eq!(id, None);
            assert_eq!(device_type, None);
        }
        other => panic!("unexpected {other:?}"),
    }
}

#[test]
fn xwayland_names_give_kind_and_seat() {
    let info = parse_xwayland_from_name(b"xwayland-tablet stylus:12").unwrap();
    assert_eq!(info.device_type, DeviceType::Tool(Some(Type::Pen)));
    assert_eq!(info.seat, 12);
    assert_eq!(parse_xwayland_from_name(b"xwayland-tablet-pad:3").unwrap().device_type, DeviceType::Pad);
    assert!(parse_xwayland_from_name(b"xwayland-tablet stylus").is_none());
    assert!(parse_xwayland_from_name(b"xwayland-tablet trackball:1").is_none());
    assert!(matches!(guess_from_name(b"xwayland-tablet eraser:1"), ToolNameFields::Xwayland(_)));
}

#[test]
fn tip_button_moves_tool_in_and_down() {
    let mut s = state_with_tool();
    s.button_event(5, 1, true, 100, false);
    assert_eq!(s.server_time, 100);
    assert!(matches!(s.events[..], [
        Event::Tool { event: ToolEvent::In { tablet: ID::EmulatedTablet }, .. },
        Event::Tool { event: ToolEvent::Down, .. },
    ]));
    assert_eq!(s.tool_infos[0].1.phase, Phase::Down);
    s.button_event(5, 1, false, 101, false);
    assert!(matches!(s.events[2], Event::Tool { event: ToolEvent::Up, .. }));
    assert_eq!(s.tool_infos[0].1.phase, Phase::In);
    s.button_event(5, 3, true, 102, false);
    assert!(matches!(s.events[3], Event::Tool { event: ToolEvent::Button { button_id: ButtonID::XInput2(3), pressed: true }, .. }));
    assert_eq!(s.events.len(), 4);
}

#[test]
fn emulated_presses_and_unknown_devices_are_ignored() {
    let mut s = state_with_tool();
    s.button_event(5, 4, true, 50, true);
    s.button_event(9, 1, true, 51, false);
    s.button_event(0, 1, true, 52, false);
    assert!(s.events.is_empty());
    assert_eq!(s.tool_infos[0].1.phase, Phase::Out);
}

#[test]
fn pad_buttons_are_shifted_to_zero_based() {
    let mut s: XiState<(), u8, u8> = XiState::new();
    s.insert_pad(dev(7), PadInfo { ring: None, tablet: ID::EmulatedTablet }, 11);
    s.button_event(7, 1, true, 10, false);
    s.button_event(7, 11, false, 11, false);
    s.button_event(7, 12, true, 12, false);
    s.button_event(7, 0, true, 13, false);
    assert_eq!(s.events.len(), 2);
    assert!(matches!(s.events[0], Event::Pad { event: PadEvent::Button { button_idx: 0, pressed: true }, .. }));
    assert!(matches!(s.events[1], Event::Pad { event: PadEvent::Button { button_idx: 10, pressed: false }, .. }));
}

#[test]
fn motion_frames_close_when_time_moves() {
    let mut s = state_with_tool();
    assert!(s.tool_motion(5, 100, 1));
    assert!(matches!(s.events[..], [
        Event::Tool { event: ToolEvent::In { .. }, .. },
        Event::Tool { event: ToolEvent::Pose(1), .. },
    ]));
    assert!(s.tool_motion(5, 100, 2));
    assert_eq!(s.events.len(), 3);
    assert!(s.tool_motion(5, 120, 3));
    assert!(matches!(s.events[3], Event::Tool { event: ToolEvent::Frame(Some(t)), .. } if t.as_millis() == 100));
    assert!(matches!(s.events[4], Event::Tool { event: ToolEvent::Pose(3), .. }));
    assert!(!s.tool_motion(9, 130, 4));
    assert_eq!(s.server_time, 130);
}

#[test]
fn leaving_master_takes_its_tools_out() {
    let mut s = state_with_tool();
    s.insert_tool(dev(6), tool_info(8, 9));
    s.button_event(5, 1, true, 10, false);
    s.tool_motion(6, 10, 0);
    s.pre_frame_cleanup();
    s.parent_left(3, 20);
    assert!(matches!(s.events[..], [
        Event::Tool { event: ToolEvent::Up, .. },
        Event::Tool { event: ToolEvent::Out, .. },
    ]));
    assert_eq!(s.tool_infos[0].1.phase, Phase::Out);
    assert_eq!(s.tool_infos[1].1.phase, Phase::In);
}

#[test]
fn leaving_closes_a_pending_frame_first() {
    let mut s = state_with_tool();
    s.tool_motion(5, 10, 0);
    s.pre_frame_cleanup();
    s.parent_left(2, 30);
    assert!(matches!(s.events[0], Event::Tool { event: ToolEvent::Frame(Some(t)), .. } if t.as_millis() == 10));
    assert!(matches!(s.events[1], Event::Tool { event: ToolEvent::Out, .. }));
}

#[test]
fn end_of_pump_emits_frames_and_times_out_tools() {
    let mut s = state_with_tool();
    s.tool_motion(5, 40, 0);
    s.pre_frame_cleanup();
    s.post_frame_cleanup();
    assert!(matches!(s.events[..], [Event::Tool { event: ToolEvent::Frame(Some(_)), .. }]));
    let mut info = s.tool_infos[0].1;
    info.last_interaction = Some(0);
    s.insert_tool(dev(5), info);
    s.server_time = 600;
    s.pre_frame_cleanup();
    s.post_frame_cleanup();
    assert!(matches!(s.events[..], [Event::Tool { event: ToolEvent::Out, .. }]));
    assert_eq!(s.tool_infos[0].1.last_interaction, None);
}

#[test]
fn rings_report_value_and_release_after_timeout() {
    let mut s: XiState<(), u8, u8> = XiState::new();
    let ring = RingInfo { axis: AxisInfo { index: 0, transform: () }, last_interaction: None };
    s.insert_pad(dev(7), PadInfo { ring: Some(ring), tablet: ID::EmulatedTablet }, 0);
    s.tool_motion(7, 1000, 0);
    s.ring_motion(7, Fp3232 { integral: 3, frac: 0 }, 9);
    assert!(matches!(s.events[..], [
        Event::Pad { event: PadEvent::Group { event: PadGroupEvent::Ring { event: TouchStripEvent::Pose(9), .. }, .. }, .. },
        Event::Pad { event: PadEvent::Group { event: PadGroupEvent::Ring { event: TouchStripEvent::Frame(Some(_)), .. }, .. }, .. },
    ]));
    s.pre_frame_cleanup();
    s.tool_motion(7, 1100, 0);
    s.ring_motion(7, Fp3232 { integral: 0, frac: 0 }, 0);
    assert!(s.events.is_empty());
    s.server_time = 1300;
    s.post_frame_cleanup();
    assert!(matches!(s.events[..], [
        Event::Pad { event: PadEvent::Group { event: PadGroupEvent::Ring { event: TouchStripEvent::Up, .. }, .. }, .. },
    ]));
}

#[test]
fn enumeration_attaches_orphans_to_the_emulated_tablet() {
    let mut s: XiState<(), u8, u8> = XiState::new();
    let previous = s.clear_devices();
    let mut info = tool_info(2, 3);
    info.tablet = dev(40);
    s.insert_tool(dev(5), info);
    s.insert_pad(dev(7), PadInfo { ring: None, tablet: ID::EmulatedTablet }, 4);
    assert!(s.finish_enumeration(&[], &previous));
    assert!(s.emulated_tablet);
    assert_eq!(s.tool_infos[0].1.tablet, ID::EmulatedTablet);
    assert!(matches!(s.events[..], [
        Event::Tablet { tablet: ID::EmulatedTablet, event: TabletEvent::Added },
        Event::Tool { event: ToolEvent::Added, .. },
        Event::Pad { event: PadEvent::Added, .. },
        Event::Pad { event: PadEvent::Enter { tablet: ID::EmulatedTablet }, .. },
    ]));
    let mut t: XiState<(), u8, u8> = XiState::new();
    let previous = t.clear_devices();
    t.insert_tool(dev(5), info);
    assert!(!t.finish_enumeration(&[40], &previous));
    assert_eq!(t.tool_infos[0].1.tablet, dev(40));
}

#[test]
fn enumeration_announces_what_changed() {
    let mut s: XiState<(), u8, u8> = XiState::new();
    let previous = s.clear_devices();
    s.insert_tool(dev(5), tool_info(2, 3));
    s.insert_tool(dev(6), tool_info(2, 3));
    s.insert_pad(dev(7), PadInfo { ring: None, tablet: ID::EmulatedTablet }, 4);
    assert!(s.finish_enumeration(&[], &previous));
    s.events.clear();
    // Tool 6 and the pad go away, tool 8 appears, tool 5 stays.
    let previous = s.clear_devices();
    assert_eq!(previous.tools, vec![dev(5), dev(6)]);
    assert_eq!(previous.pads, vec![dev(7)]);
    assert!(previous.emulated_tablet);
    let mut info = tool_info(2, 3);
    info.tablet = dev(40);
    s.insert_tool(dev(5), info);
    s.insert_tool(dev(8), info);
    assert!(!s.finish_enumeration(&[40], &previous));
    assert!(!s.emulated_tablet);
    assert_eq!(s.events.len(), 4);
    assert!(matches!(s.events[0], Event::Tool { tool, event: ToolEvent::Removed } if tool == dev(6)));
    assert!(matches!(s.events[1], Event::Pad { pad, event: PadEvent::Removed } if pad == dev(7)));
    assert!(matches!(s.events[2], Event::Tablet { tablet: ID::EmulatedTablet, event: TabletEvent::Removed }));
    assert!(matches!(s.events[3], Event::Tool { tool, event: ToolEvent::Added } if tool == dev(8)));
}

fn atoms() -> WacomAtoms {
    let a = |v: u32| Atom::new(v).unwrap();
    WacomAtoms { prop_tool_type: a(1), type_stylus: a(2), type_cursor: a(3), type_eraser: a(4), type_pad: a(5), prop_serial_ids: a(6) }
}

#[test]
fn wacom_properties_give_kind_and_ids() {
    let w = wacom_info(Some(&[4]), Some(&[7, 8, 9]), &atoms()).unwrap();
    assert_eq!(w.device_type(), DeviceType::Tool(Some(Type::Eraser)));
    assert_eq!(w.hardware_serial(), Some(8));
    assert_eq!(w.hardware_id(), Some(9));
    assert_eq!(w.ids().unwrap().tablet_id, 7);
    let pad = wacom_info(Some(&[5, 1]), Some(&[7, 8]), &atoms()).unwrap();
    assert_eq!(pad, WacomInfo::Pad { ids: None });
    assert!(wacom_info(Some(&[0]), None, &atoms()).is_none());
    assert!(wacom_info(Some(&[99]), None, &atoms()).is_none());
    assert!(wacom_info(Some(&[]), None, &atoms()).is_none());
    assert!(wacom_info(None, None, &atoms()).is_none());
}

#[test]
fn drivers_outrank_names() {
    let name = guess_from_name(b"Some Tablet Pad pad");
    let wacom = WacomInfo::Tool { ty: Type::Pen, ids: None };
    assert_eq!(resolve_device_type(Some(wacom), None, &name), Some(DeviceType::Tool(Some(Type::Pen))));
    let lib = LibinputInfo::Tool(libinput_tool_info(0, Some(3)));
    assert_eq!(resolve_device_type(None, Some(&lib), &name), Some(DeviceType::Tool(None)));
    assert_eq!(resolve_device_type(None, Some(&LibinputInfo::SomethingElse), &name), Some(DeviceType::Pad));
    assert_eq!(tool_ids(None, Some(&lib)), (None, Some(3)));
    let lib2 = LibinputInfo::Tool(libinput_tool_info(77, None));
    assert_eq!(tool_ids(None, Some(&lib2)), (Some(HardwareID(77)), None));
    let ids = octotablet::platform::xinput2::devices::WacomIDs { hardware_serial: 1, hardware_id: 2, tablet_id: 3 };
    assert_eq!(tool_ids(Some(WacomInfo::Tool { ty: Type::Pen, ids: Some(ids) }), Some(&lib2)), (Some(HardwareID(1)), Some(2)));
}

#[test]
fn device_filters() {
    assert!(keep_tool(true, false, Some(Type::Pen), false));
    assert!(!keep_tool(false, false, Some(Type::Pen), false));
    assert!(!keep_tool(true, true, Some(Type::Mouse), false));
    assert!(keep_tool(false, true, Some(Type::Mouse), true));
    assert!(!keep_pad(0, false));
    assert!(keep_pad(0, true));
    assert!(keep_pad(11, false));
    assert_eq!(master_keyboard_of(&[(2, 3), (4, 5), (2, 9)], 2), 3);
    assert_eq!(master_keyboard_of(&[(2, 3)], 7), 0);
}

#[test]
fn libinput_groups_and_associations() {
    let g = zip_groups(&[3, 2, 4], &[1, 0]);
    assert_eq!(g.len(), 2);
    assert_eq!((g[1].num_modes, g[1].current_mode), (2, 0));
    assert_eq!(associations(&[0, 1, 2, 3, 255], 2), vec![Some(0), Some(1), None, None, None]);
}
