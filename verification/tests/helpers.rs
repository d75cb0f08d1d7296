use octotablet::axis::{FullInfo, LengthInfo};
use octotablet::events::FrameTimestamp;
use octotablet::platform::wl::{add_capability, ToolCapability};
use octotablet::platform::xinput2::devices::{can_be_tool, enumerable, xi_pad, XiDeviceKind};
use octotablet::builder::{backend_for, BuildError, Builder, DisplayKind};
use octotablet::pad::mode_count_from;
use octotablet::platform::wl::buttons::{add_group_buttons, decode_chunks, group_buttons, sort_dedup};
use octotablet::platform::xinput2::strings::{atom_from_reply, AbsoluteAxisAtoms, Atom, InternError};
use octotablet::platform::xinput2::{add_tool_valuator, device_id, match_valuator_label, valuator_fetch, Fp3232, ValuatorAxis, ID};
use octotablet::tablet::{usb_id_from_words, UsbId};
use octotablet::tool::{id_from_halves, Type};
use octotablet::util::NicheF32Error;
use octotablet::Backend;

#[test]
fn backends_by_display() {
    assert!(matches!(backend_for(DisplayKind::Wayland, false), Ok(Backend::WaylandTabletUnstableV2)));
    assert!(matches!(backend_for(DisplayKind::Windows, true), Ok(Backend::WindowsInkRealTimeStylus)));
    assert!(matches!(backend_for(DisplayKind::Windows, false), Err(BuildError::Unsupported)));
    assert!(matches!(backend_for(DisplayKind::Other, true), Err(BuildError::Unsupported)));
    let Builder {} = Builder::new();
}

#[test]
fn handle_errors_become_build_errors() {
    let e = BuildError::from(raw_window_handle::HandleError::Unavailable);
    assert!(matches!(e, BuildError::HandleError(raw_window_handle::HandleError::Unavailable)));
}

#[test]
fn group_button_bytes_decode_whole_chunks() {
    // Each chunk reads the same in either byte order.
    let bytes = [7, 0, 0, 7, 2, 0, 0, 2, 7, 0, 0, 7, 9];
    assert_eq!(decode_chunks(&bytes), vec![0x0700_0007, 0x0200_0002, 0x0700_0007]);
    assert_eq!(group_buttons(&bytes), vec![0x0200_0002, 0x0700_0007]);
    assert!(group_buttons(&[1, 2, 3]).is_empty());
    assert_eq!(sort_dedup(&vec![5, 1, 5, 3, 1]), vec![1, 3, 5]);
}

#[test]
fn usb_ids_must_fit_sixteen_bits() {
    assert_eq!(usb_id_from_words(0x056a, 0x0390), Some(UsbId { vid: 0x056a, pid: 0x0390 }));
    assert_eq!(usb_id_from_words(0x1_0000, 1), None);
    assert_eq!(usb_id_from_words(1, 0x1_0000), None);
}

#[test]
fn hardware_ids_join_halves() {
    assert_eq!(id_from_halves(0x1234_5678, 0x9abc_def0), 0x1234_5678_9abc_def0);
    assert_eq!(id_from_halves(0, 7), 7);
    assert_eq!(id_from_halves(1, 0), 0x1_0000_0000);
}

#[test]
fn zero_modes_is_no_mode_switching() {
    assert_eq!(mode_count_from(0), None);
    assert_eq!(mode_count_from(4), Some(4));
}

#[test]
fn names_and_messages() {
    assert_eq!(Type::Airbrush.as_str(), "Airbrush");
    assert_eq!(Type::Emulated.as_str(), "Emulated");
    assert_eq!(NicheF32Error::NaN.message(), "provided value was NaN");
}

#[test]
fn device_zero_is_all_devices() {
    assert_eq!(device_id(0, 3), None);
    assert_eq!(device_id(12, 3), Some(ID::ID { generation: 3, device_id: 12 }));
}

#[test]
fn null_atoms_are_errors() {
    assert_eq!(atom_from_reply(0), Err(InternError::NullReply));
    assert_eq!(atom_from_reply(42).map(Atom::get), Ok(42));
}

#[test]
fn valuator_labels_name_axes() {
    let a = |v: u32| Atom::new(v).unwrap();
    let atoms = AbsoluteAxisAtoms {
        x: a(1),
        y: a(2),
        rz: a(3),
        distance: a(4),
        pressure: a(5),
        tilt_x: a(6),
        tilt_y: a(7),
        wheel: a(8),
    };
    assert_eq!(match_valuator_label(5, &atoms), Some(ValuatorAxis::AbsPressure));
    assert_eq!(match_valuator_label(3, &atoms), Some(ValuatorAxis::AbsRz));
    assert_eq!(match_valuator_label(0, &atoms), None);
    assert_eq!(match_valuator_label(99, &atoms), None);
}

#[test]
fn valuators_follow_the_mask() {
    let v = |i: i32| Fp3232 { integral: i, frac: 0 };
    let values = [v(10), v(11), v(12)];
    assert_eq!(valuator_fetch(&[0b101], &values, 2), Some(v(12)));
    assert_eq!(valuator_fetch(&[0b101], &values, 1), None);
    assert_eq!(valuator_fetch(&[0b101], &values, 40), None);
    // A lone value stands for whichever valuator the mask names.
    assert_eq!(valuator_fetch(&[0, 1 << 3], &[v(99)], 35), Some(v(99)));
}

#[test]
fn platform_ids_unwrap_to_their_backend() {
    let b = octotablet::platform::ButtonID::Wayland(0x110);
    assert_eq!(b.unwrap_wl(), 0x110);
    let g = octotablet::platform::ink::Guid { data1: 1, data2: 2, data3: 3, data4: 4 };
    let b = octotablet::platform::ButtonID::Ink(octotablet::platform::ink::ButtonID(g));
    assert_eq!(b.unwrap_ink(), octotablet::platform::ink::ButtonID(g));
    let t = octotablet::platform::InternalID::Wayland(9);
    assert_eq!(t.unwrap_wl(), 9);
    let t = octotablet::platform::InternalID::from(octotablet::platform::ink::ID::Tablet(4));
    assert_eq!(t.unwrap_ink(), octotablet::platform::ink::ID::Tablet(4));
}

#[test]
fn only_enabled_slave_devices_are_enumerated() {
    assert!(!enumerable(true, XiDeviceKind::MasterPointer));
    assert!(!enumerable(true, XiDeviceKind::MasterKeyboard));
    assert!(!enumerable(false, XiDeviceKind::SlavePointer));
    assert!(enumerable(true, XiDeviceKind::FloatingSlave));
    assert!(can_be_tool(XiDeviceKind::SlavePointer));
    assert!(!can_be_tool(XiDeviceKind::SlaveKeyboard));
}

#[test]
fn capabilities_add_axes() {
    let mut axes = FullInfo::<f32>::default();
    add_capability(&mut axes, ToolCapability::Distance);
    add_capability(&mut axes, ToolCapability::Pressure);
    assert!(matches!(axes.distance, Some(LengthInfo::Normalized(_))));
    assert!(axes.pressure.is_some());
    assert!(axes.tilt.is_none() && axes.roll.is_none() && axes.wheel.is_none() && axes.slider.is_none());
    add_capability(&mut axes, ToolCapability::Rotation);
    assert!(axes.roll.is_some());
}

#[test]
fn timestamps_order_by_milliseconds() {
    assert!(FrameTimestamp::from_millis(3) < FrameTimestamp::from_millis(10));
    assert!(FrameTimestamp::epoch() <= FrameTimestamp::from_millis(0));
    assert_eq!(FrameTimestamp::from_millis(5).max(FrameTimestamp::from_millis(2)), FrameTimestamp::from_millis(5));
}

#[test]
fn tool_valuators_add_axes() {
    let join = |a: (i32, i32), b: (i32, i32)| (a.0.min(b.0), a.1.max(b.1));
    let mut axes = FullInfo::<(i32, i32)>::default();
    add_tool_valuator(&mut axes, ValuatorAxis::AbsX, (0, 1), join);
    add_tool_valuator(&mut axes, ValuatorAxis::AbsWheel, (0, 1), join);
    assert!(axes.wheel.is_none() && axes.tilt.is_none());
    add_tool_valuator(&mut axes, ValuatorAxis::AbsTiltX, (-60, 60), join);
    add_tool_valuator(&mut axes, ValuatorAxis::AbsTiltY, (-70, 50), join);
    assert_eq!(axes.tilt.unwrap().limits, Some((-70, 60)));
    add_tool_valuator(&mut axes, ValuatorAxis::AbsRz, (0, 1), join);
    add_tool_valuator(&mut axes, ValuatorAxis::AbsDistance, (0, 1), join);
    assert!(axes.roll.is_some());
    assert!(matches!(axes.distance, Some(LengthInfo::Normalized(_))));
    assert!(axes.pressure.is_none());
}

#[test]
fn x_pads_have_one_group_owning_every_button() {
    let pad = xi_pad(ID::ID { generation: 0, device_id: 9 }, 3, true, Some(4));
    assert_eq!(pad.total_buttons, 3);
    assert_eq!(pad.groups.len(), 1);
    assert_eq!(pad.groups[0].buttons, vec![0, 1, 2]);
    assert_eq!(pad.groups[0].rings.len(), 1);
    assert_eq!(pad.groups[0].mode_count, Some(4));
    assert!(pad.groups[0].strips.is_empty());
    let plain = xi_pad(ID::ID { generation: 0, device_id: 9 }, 0, false, None);
    assert!(plain.groups[0].buttons.is_empty() && plain.groups[0].rings.is_empty());
}

#[test]
fn group_button_messages_merge() {
    let bytes = [7, 0, 0, 7, 2, 0, 0, 2];
    assert_eq!(add_group_buttons(&vec![0x0700_0007, 1], &bytes), vec![1, 0x0200_0002, 0x0700_0007]);
}
