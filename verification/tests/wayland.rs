use octotablet::events::raw::{Event, ToolEvent};
use octotablet::pad::{Group, Pad, TouchSource};
use octotablet::platform::wl::state::{FrameState, HasWlId, PartialVec, TabletCore};
use octotablet::platform::wl::summary::{PadButton, PressInfo, Summary, EXPIRY_MS};
use octotablet::platform::{ButtonID, InternalID};
use octotablet::tablet::Tablet;
use octotablet::tool::Tool;

type Core = TabletCore<f32, (), u8, u8>;

fn wl_tablet(id: u64) -> Tablet {
    Tablet { internal_id: InternalID::Wayland(id), name: None, usb_id: None }
}

#[test]
fn presses_are_counted_on_the_rising_edge() {
    let mut s: Summary<u8, u8> = Summary::new();
    s.pad_button(30, 2, true);
    assert_eq!(s.pads.len(), 1);
    assert_eq!(s.pads[0].buttons.len(), 3);
    assert_eq!(s.pads[0].buttons[2], PadButton { pressed: true, count: 1 });
    assert_eq!(s.pads[0].buttons[0], PadButton::default());
    s.pad_button(30, 2, true);
    assert_eq!(s.pads[0].buttons[2].count, 1);
    s.pad_button(30, 2, false);
    s.pad_button(30, 2, true);
    assert_eq!(s.pads[0].buttons[2], PadButton { pressed: true, count: 2 });
    s.consume_oneshot(0);
    assert_eq!(s.pads[0].buttons[2], PadButton { pressed: true, count: 0 });
}

#[test]
fn held_tool_buttons_are_a_set_in_press_order() {
    let mut s: Summary<u8, u8> = Summary::new();
    s.tool_button(5, 100, true);
    assert!(s.tool.is_none());
    s.tool_in(5, 10, 0);
    s.tool_in(6, 11, 0);
    assert!(s.tool_is(5));
    s.tool_button(5, 100, true);
    s.tool_button(5, 101, true);
    s.tool_button(5, 100, true);
    assert_eq!(s.tool.as_ref().unwrap().pressed_buttons(), &[100, 101]);
    s.tool_button(5, 100, false);
    assert_eq!(s.tool.as_ref().unwrap().pressed_buttons(), &[101]);
    s.tool_button(6, 101, false);
    assert_eq!(s.tool.as_ref().unwrap().pressed_buttons(), &[101]);
    s.tool_set_down(5, true);
    assert!(s.tool.as_ref().unwrap().down);
    s.tool_out(6);
    assert!(s.tool_is(5));
    s.tool_out(5);
    assert!(s.tool.is_none());
}

#[test]
fn touches_expire_without_news() {
    let p = PressInfo::new(TouchSource::Finger, 100);
    assert_eq!(p.expiry, 100 + EXPIRY_MS);
    assert!(p.just_pressed);
    let mut s: Summary<u8, u8> = Summary::new();
    let (a, b, c) = s.ring_or_insert(30, 40, 50);
    s.pads[a].groups[b].rings[c].touch(TouchSource::Finger, 100);
    s.pads[a].groups[b].rings[c].frame(200);
    let ring = &s.pads[a].groups[b].rings[c];
    assert_eq!(ring.pressed, Some(PressInfo { source: TouchSource::Finger, just_pressed: false, expiry: 1200 }));
    s.pads[a].groups[b].rings[c].delta = Some(3);
    s.consume_oneshot(1200);
    assert!(s.pads[0].groups[0].rings[0].pressed.is_some());
    assert_eq!(s.pads[0].groups[0].rings[0].delta, None);
    s.consume_oneshot(1201);
    assert!(s.pads[0].groups[0].rings[0].pressed.is_none());
    let (a, b, c) = s.strip_or_insert(30, 40, 60);
    assert_eq!((a, b, c), (0, 0, 0));
    s.pads[a].groups[b].strips[c].touch(TouchSource::Unknown, 5);
    s.pads[a].groups[b].strips[c].stop();
    assert!(s.pads[0].groups[0].strips[0].pressed.is_none());
}

#[test]
fn summary_lookups_insert_once() {
    let mut s: Summary<u8, u8> = Summary::new();
    assert_eq!(s.pad_or_insert(1), 0);
    assert_eq!(s.pad_or_insert(2), 1);
    assert_eq!(s.pad_or_insert(1), 0);
    assert_eq!(s.group_set_mode(2, 9, 3), (1, 0));
    assert_eq!(s.pads[1].groups[0].mode, Some(3));
    assert_eq!(s.pad_set_tablet(1, Some(77)), 0);
    assert_eq!(s.pads[0].tablet_id, Some(77));
    s.remove_pad(1);
    assert_eq!(s.pads.len(), 1);
    assert_eq!(s.pads[0].id, 2);
}

#[test]
fn partial_objects_finish_on_done() {
    let mut pads: PartialVec<Pad> = PartialVec::new();
    let i = pads.get_or_insert_ctor(30);
    pads.constructing[i].total_buttons = 4;
    assert_eq!(pads.get_or_insert_ctor(30), i);
    assert!(matches!(pads.done(30), Some(Err(()))));
    assert!(pads.done(30).is_none());
    let i = pads.get_or_insert_ctor(31);
    pads.constructing[i].groups.push(Group::new_default(40));
    match pads.done(31) {
        Some(Ok(p)) => assert_eq!(p.id(), 31),
        _ => panic!("pad with a group is complete"),
    }
    let mut tablets: PartialVec<Tablet> = PartialVec::new();
    tablets.get_or_insert_ctor(10);
    tablets.get_or_insert_ctor(11);
    tablets.destroy(10);
    assert_eq!(tablets.constructing.len(), 1);
    assert_eq!(tablets.constructing[0].id(), 11);
}

#[test]
fn frames_order_ins_pose_buttons_outs() {
    let mut c: Core = TabletCore::new();
    c.frame_transition(5, (), FrameState::Down);
    c.frame_transition(5, (), FrameState::In(10));
    assert_eq!(c.frames_in_progress.len(), 1);
    c.frame_button(5, (), 0x110, true);
    c.frame(5, 42, Some(7));
    assert!(matches!(c.events[..], [
        Event::Tool { event: ToolEvent::In { tablet: 10 }, .. },
        Event::Tool { event: ToolEvent::Pose(7), .. },
        Event::Tool { event: ToolEvent::Button { button_id: ButtonID::Wayland(0x110), pressed: true }, .. },
        Event::Tool { event: ToolEvent::Frame(Some(t)), .. },
    ] if t.as_millis() == 42));
    assert_eq!(c.frames_in_progress.len(), 1);
    assert!(c.frames_in_progress[0].state_transition.is_none());
    c.events.clear();
    c.frame_transition(5, (), FrameState::Out);
    c.frame(5, 43, None);
    assert!(matches!(c.events[..], [
        Event::Tool { event: ToolEvent::Out, .. },
        Event::Tool { event: ToolEvent::Frame(Some(_)), .. },
    ]));
    assert!(c.frames_in_progress.is_empty());
    c.events.clear();
    c.frame(6, 44, None);
    assert!(matches!(c.events[..], [Event::Tool { tool: 6, event: ToolEvent::Frame(Some(_)) }]));
}

#[test]
fn destruction_waits_for_the_next_pump() {
    let mut c: Core = TabletCore::new();
    c.tablets.push(wl_tablet(10));
    c.tablets.push(wl_tablet(11));
    c.tools.push(Tool::new_default(5));
    c.frame_in_progress(5, ());
    c.destroy_tablet(10);
    c.destroy_tool(5);
    assert_eq!(c.tablets.len(), 2);
    c.cleanup_start(0);
    assert_eq!(c.tablets.len(), 1);
    assert_eq!(c.tablets[0].id(), 11);
    assert!(c.tools.is_empty());
    assert!(c.frames_in_progress.is_empty());
    assert!(c.destroy_next_frame.is_empty());
}

#[test]
fn concrete_summary_names_reported_objects() {
    let mut s: Summary<u8, u8> = Summary::new();
    s.tool_in(5, 11, 9);
    s.tool_button(5, 3, true);
    s.pad_button(30, 1, true);
    s.pad_set_tablet(30, Some(11));
    s.ring_or_insert(30, 40, 50);
    s.pad_button(31, 0, true);
    let tablets = vec![wl_tablet(10), wl_tablet(11)];
    let tools = vec![Tool::<f32>::new_default(5)];
    let mut group = Group::new_default(40);
    group.buttons = vec![1];
    let pads = vec![Pad { internal_id: InternalID::Wayland(30), total_buttons: 2, groups: vec![group] }];
    let r = s.make_concrete(&tablets, &tools, &pads);
    let t = r.tool.unwrap();
    assert_eq!((t.tool, t.tablet, t.pose, t.down), (0, 1, 9, false));
    assert_eq!(t.pressed_buttons, vec![3]);
    assert_eq!(r.pads.len(), 1);
    let p = &r.pads[0];
    assert_eq!((p.pad, p.tablet), (0, Some(1)));
    assert_eq!(p.buttons.len(), 2);
    assert_eq!(p.buttons[0].group, None);
    assert_eq!(p.buttons[1].group, Some(0));
    assert_eq!(p.buttons[1].count, 1);
    assert_eq!(p.groups.len(), 1);
    assert!(p.groups[0].rings.is_empty());
    let none = s.make_concrete(&[], &tools, &pads);
    assert!(none.tool.is_none());
}
