use octotablet::events::raw::{Event, ToolEvent};
use octotablet::events::{FrameTimestamp, TabletEvent};
use octotablet::platform::ink::frame::{InkFrame, RawTabletSlot, StylusPhase};
use octotablet::platform::ink::packet::{
    calc_granularity, layout_valid, normalized_granularity, FilterError, InterpretError, Interpreter, Iter, PacketIter,
    PacketProperty, StatusWord, Tristate,
};
use octotablet::platform::ink::{callback_len, ButtonID, Guid, ID, MAX_BATCH_PROPS, MAX_PACKET_PROPS};
use octotablet::platform::InternalID;
use octotablet::tablet::Tablet;

type Frame = InkFrame<u8, f32, u8, u8>;

fn stylus(sid: u32) -> ID {
    ID::Stylus { sid, cursor_id: None }
}

fn tablet(tcid: u32) -> Tablet {
    Tablet { internal_id: InternalID::Ink(ID::Tablet(tcid)), name: None, usb_id: None }
}

fn frame_with_tablets(tcids: &[u32]) -> Frame {
    let mut f: Frame = InkFrame::new();
    for &t in tcids {
        f.append_tablet(t, Some((0, Some(format!("tablet {t}")))));
        let made = f.tablets.last().unwrap();
        assert_eq!(made.internal_id, tablet(t).internal_id);
        assert_eq!(made.name, Some(format!("tablet {t}")));
        assert_eq!(made.usb_id, None);
    }
    f.events.clear();
    f
}

#[test]
fn tristate_helpers() {
    assert_eq!(Tristate::Valid(3).map_ok(|x: i32| x * 2), Tristate::Valid(6));
    assert_eq!(Tristate::<i32>::Malformed.map_ok(|x: i32| x * 2), Tristate::Malformed);
    assert_eq!(Tristate::<i32>::NotIncluded.ok(), None);
    assert_eq!(Tristate::Valid(5).ok(), Some(5));
    assert_eq!(InterpretError::from(FilterError::Value), InterpretError::Filter(FilterError::Value));
}

#[test]
fn granularity_counts_both_ends() {
    assert_eq!(calc_granularity(0, 1023).unwrap().get(), 1024);
    assert_eq!(calc_granularity(10, -10).unwrap().get(), 21);
    assert_eq!(calc_granularity(5, 5).unwrap().get(), 1);
    assert_eq!(calc_granularity(i32::MIN, i32::MAX).unwrap().get(), u32::MAX);
    assert!(normalized_granularity(5, 5).is_none());
    assert_eq!(normalized_granularity(-1, 1).unwrap().get(), 3);
}

#[test]
fn status_word_keeps_known_bits() {
    let s = StatusWord::from_bits_truncate(0x1b);
    assert_eq!(s.bits(), 0xb);
    assert!(s.is_down() && s.is_inverted() && s.is_barrel());
    assert!(!StatusWord::from_bits_truncate(4).is_down());
}

#[test]
fn packets_split_into_position_props_and_status() {
    let props = [1, 2, 3, 4, 5, 6, 7];
    assert!(PacketIter::new(&props, 2).is_none());
    assert!(PacketIter::new(&props, 0).is_none());
    let mut it = PacketIter::new(&props, 3).unwrap();
    let p = it.next().unwrap();
    assert_eq!(p.position, [1, 2]);
    assert!(p.props.is_empty());
    assert_eq!(p.status, 3);
    let q = it.next().unwrap();
    assert_eq!(q.position, [4, 5]);
    assert_eq!(q.status, 6);
    assert!(it.next().is_none());
    let words = [1, 2, 30, 40, 5, 6, 7, 31, 41, 6, 99];
    let mut it = PacketIter::new(&words, 5).unwrap();
    let p = it.next().unwrap();
    assert_eq!(p.position, [1, 2]);
    assert_eq!(p.props, vec![30, 40]);
    assert_eq!(p.status, 5);
}

#[test]
fn chunks_split_into_words_and_status() {
    let words = [1, 2, 30, 40, 5, 6, 7, 31, 41, 6, 99];
    let mut it = Iter::new(&words, 5);
    let p = it.next().unwrap();
    assert_eq!(p.words, vec![1, 2, 30, 40]);
    assert_eq!(p.status, 5);
    let q = it.next().unwrap();
    assert_eq!(q.words, vec![6, 7, 31, 41]);
    assert_eq!(q.status, 6);
    assert!(it.next().is_none());
}

#[test]
fn short_chunks_come_out_and_fail_to_read() {
    let words = [1, 2, 3];
    let mut it = Iter::new(&words, 2);
    let p = it.next().unwrap();
    assert_eq!(p.words, vec![1]);
    assert_eq!(p.status, 2);
    assert!(it.next().is_none());
    let reader = interpreter(false);
    assert_eq!(
        reader.read_words(&p.words).unwrap_err(),
        InterpretError::Filter(FilterError::NotEnoughData)
    );
    let mut it = Iter::new(&words, 1);
    let p = it.next().unwrap();
    assert!(p.words.is_empty());
    assert_eq!(p.status, 1);
    assert_eq!(it.next().unwrap().status, 2);
    assert_eq!(it.next().unwrap().status, 3);
    assert!(it.next().is_none());
}

fn interpreter(timer: bool) -> Interpreter<()> {
    Interpreter {
        normal_pressure: Tristate::Valid(()),
        tilt: [Tristate::Malformed, Tristate::NotIncluded],
        z: Tristate::NotIncluded,
        twist: Tristate::Valid(()),
        button_pressure: Tristate::NotIncluded,
        contact_size: [Tristate::NotIncluded, Tristate::NotIncluded],
        timer,
    }
}

#[test]
fn packet_words_follow_the_interpreter() {
    let w = interpreter(true).read_words(&[10, 20, 300, 7, 90, 1234]).unwrap();
    assert_eq!(w.position, [10, 20]);
    assert_eq!(w.values, vec![Some(300), None, None, None, Some(90), None, None, None]);
    assert_eq!(w.timestamp, Some(FrameTimestamp::from_millis(1234)));
    let plain = interpreter(false).read_words(&[1, 2, 3, 4, 5]).unwrap();
    assert_eq!(plain.timestamp, None);
}

#[test]
fn packet_word_errors() {
    let i = interpreter(true);
    assert_eq!(i.read_words(&[10, 20, 300]).unwrap_err(), InterpretError::Filter(FilterError::NotEnoughData));
    assert_eq!(i.read_words(&[10, 20, 300, 7, 90, -1]).unwrap_err(), InterpretError::Filter(FilterError::Value));
    assert_eq!(i.read_words(&[10, 20, 300, 7, 90, 1, 2]).unwrap_err(), InterpretError::TooMuchData);
    assert_eq!(i.read_words(&[10, 20, 300, 7, 90, -1, 2]).unwrap_err(), InterpretError::Filter(FilterError::Value));
}

#[test]
fn property_layouts() {
    let (x, y, st) = (Some(PacketProperty::X), Some(PacketProperty::Y), Some(PacketProperty::PacketStatus));
    let (p, z, t) = (Some(PacketProperty::NormalPressure), Some(PacketProperty::Z), Some(PacketProperty::TimerTick));
    assert!(layout_valid(&[x, y, st]));
    assert!(layout_valid(&[x, y, p, t, st]));
    assert!(!layout_valid(&[x, y]));
    assert!(!layout_valid(&[y, x, st]));
    assert!(!layout_valid(&[x, y, z, p, st]));
    assert!(!layout_valid(&[x, y, None, st]));
    assert!(!layout_valid(&[x, y, z]));
}

#[test]
fn callback_lengths() {
    assert_eq!(callback_len(0, MAX_PACKET_PROPS), Some(0));
    assert_eq!(callback_len(32, MAX_PACKET_PROPS), Some(32));
    assert_eq!(callback_len(33, MAX_PACKET_PROPS), None);
    assert_eq!(callback_len(0x8000, MAX_BATCH_PROPS), None);
}

#[test]
fn button_ids_sort_by_guid_fields() {
    let g = |a: u32, d: u64| ButtonID(Guid { data1: a, data2: 0, data3: 0, data4: d });
    assert!(g(1, 9).precedes(&g(2, 0)));
    assert!(g(1, 1).precedes(&g(1, 2)));
    assert!(!g(1, 2).precedes(&g(1, 2)));
}

#[test]
fn stylus_comes_in_then_goes_down() {
    let mut f = frame_with_tablets(&[7]);
    f.handle_packets(stylus(1), 7, StylusPhase::Touched, vec![]);
    assert!(matches!(f.events[..], [
        Event::Tool { event: ToolEvent::In { tablet: ID::Tablet(7) }, .. },
        Event::Tool { event: ToolEvent::Down, .. },
        Event::Tool { event: ToolEvent::Frame(None), .. },
    ]));
    f.events.clear();
    f.handle_packets(stylus(1), 7, StylusPhase::InAir, vec![Ok((4, None)), Err(InterpretError::TooMuchData), Ok((5, None))]);
    assert!(matches!(f.events[..], [
        Event::Tool { event: ToolEvent::Up, .. },
        Event::Tool { event: ToolEvent::Pose(4), .. },
        Event::Tool { event: ToolEvent::Frame(None), .. },
    ]));
    f.events.clear();
    f.handle_packets(stylus(1), 7, StylusPhase::InAir, vec![Ok((6, Some(FrameTimestamp::from_millis(9))))]);
    assert_eq!(f.events.len(), 2);
    f.events.clear();
    f.stylus_out_of_range(stylus(1));
    assert!(matches!(f.events[..], [Event::Tool { event: ToolEvent::Out, .. }]));
    f.events.clear();
    f.stylus_out_of_range(stylus(1));
    assert!(f.events.is_empty());
}

#[test]
fn touching_stylus_leaves_with_up_then_out() {
    let mut f = frame_with_tablets(&[7]);
    f.handle_packets(stylus(1), 7, StylusPhase::Touched, vec![]);
    f.events.clear();
    f.stylus_out_of_range(stylus(1));
    assert!(matches!(f.events[..], [Event::Tool { event: ToolEvent::Up, .. }, Event::Tool { event: ToolEvent::Out, .. }]));
}

#[test]
fn packets_over_unknown_or_dummy_tablets_are_dropped() {
    let mut f = frame_with_tablets(&[7]);
    f.append_tablet(8, None);
    f.handle_packets(stylus(1), 8, StylusPhase::InAir, vec![Ok((1, None))]);
    f.handle_packets(stylus(1), 9, StylusPhase::InAir, vec![Ok((1, None))]);
    assert!(f.events.is_empty());
    assert!(f.stylus_states.is_empty());
    assert_eq!(f.raw_tablets[1].tcid(), 8);
    assert!(matches!(f.raw_tablets[1], RawTabletSlot::Dummy { tcid: 8 }));
}

#[test]
fn removal_counts_only_live_tablets() {
    let mut f = frame_with_tablets(&[10, 11, 12]);
    assert_eq!(f.delete_tcid_by_idx(1), Ok(1));
    assert!(matches!(f.events[..], [Event::Tablet { tablet: ID::Tablet(11), event: TabletEvent::Removed }]));
    assert_eq!(f.delete_tcid_by_idx(1), Ok(2));
    assert_eq!(f.raw_tablet_deletions, vec![1, 2]);
    assert_eq!(f.delete_tcid_by_idx(1), Err(()));
    assert_eq!(f.delete_tcid_by_idx(-1), Err(()));
    assert!(f.live_slot(11).is_none());
    assert_eq!(f.live_slot(10), Some(0));
    f.frame_end_cleanup();
    assert!(f.events.is_empty());
    assert!(f.raw_tablet_deletions.is_empty());
    assert_eq!(f.raw_tablets.len(), 1);
    assert_eq!(f.raw_tablets[0].tcid(), 10);
    assert_eq!(f.tablets.len(), 1);
    assert_eq!(f.tablets[0].internal_id, InternalID::Ink(ID::Tablet(10)));
}

#[test]
fn deletions_stay_sorted() {
    let mut f = frame_with_tablets(&[1, 2, 3, 4]);
    assert_eq!(f.delete_tcid_by_idx(2), Ok(2));
    assert_eq!(f.delete_tcid_by_idx(0), Ok(0));
    assert_eq!(f.delete_tcid_by_idx(1), Ok(3));
    assert_eq!(f.raw_tablet_deletions, vec![0, 2, 3]);
    f.frame_end_cleanup();
    assert_eq!(f.raw_tablets.len(), 1);
    assert_eq!(f.raw_tablets[0].tcid(), 2);
}

#[test]
fn tools_are_found_by_stylus_id() {
    let mut f = frame_with_tablets(&[]);
    f.tools.push(octotablet::tool::Tool {
        internal_id: InternalID::Ink(ID::Stylus { sid: 4, cursor_id: Some(9) }),
        name: None,
        hardware_id: None,
        wacom_id: None,
        tool_type: None,
        axes: octotablet::axis::FullInfo::default(),
    });
    assert_eq!(f.tool_of_sid(4), Some(0));
    assert_eq!(f.tool_of_sid(5), None);
    f.reset();
    assert!(f.tools.is_empty());
}

#[test]
fn filter_error_messages() {
    assert_eq!(FilterError::NotEnoughData.message(), "property slice empty");
    assert_eq!(FilterError::Value.message(), "bad value parsed");
}

#[test]
fn stylus_tools_come_from_their_cursor() {
    let mut f = frame_with_tablets(&[]);
    let k = f.add_stylus_tool(3, Some(-1), Some("pen".to_string()), Some(true));
    assert_eq!(k, 0);
    let t = &f.tools[0];
    assert_eq!(t.internal_id, InternalID::Ink(ID::Stylus { sid: 3, cursor_id: Some(-1) }));
    assert_eq!(t.hardware_id.map(|h| h.0), Some(u64::MAX));
    assert_eq!(t.tool_type, Some(octotablet::tool::Type::Eraser));
    assert_eq!(t.name.as_deref(), Some("pen"));
    assert!(t.axes.pressure.is_none() && t.axes.tilt.is_none());
    let k = f.add_stylus_tool(4, None, None, Some(false));
    assert_eq!(k, 1);
    assert_eq!(f.tools[1].tool_type, Some(octotablet::tool::Type::Pen));
    assert_eq!(f.tools[1].hardware_id, None);
    assert_eq!(f.tool_of_sid(4), Some(1));
    assert!(f.events.is_empty());
}

#[test]
fn styluses_are_in_range_while_they_have_a_phase() {
    let mut f = frame_with_tablets(&[7]);
    assert!(!f.in_range(stylus(1)));
    f.handle_packets(stylus(1), 7, StylusPhase::InAir, vec![]);
    assert!(f.in_range(stylus(1)));
    assert!(!f.in_range(stylus(2)));
    f.stylus_out_of_range(stylus(1));
    assert!(!f.in_range(stylus(1)));
}

#[test]
fn properties_take_their_slots() {
    let mut i = Interpreter::<()>::empty();
    assert!(i.slots().iter().all(|t| matches!(t, Tristate::NotIncluded)) && !i.timer);
    i.set_property(PacketProperty::YTiltOrientation, Tristate::Valid(()));
    i.set_property(PacketProperty::Height, Tristate::Malformed);
    i.set_property(PacketProperty::X, Tristate::Valid(()));
    assert!(matches!(i.tilt, [Tristate::NotIncluded, Tristate::Valid(())]));
    assert!(matches!(i.contact_size, [Tristate::NotIncluded, Tristate::Malformed]));
    assert!(matches!(i.normal_pressure, Tristate::NotIncluded));
    assert!(!i.timer);
    i.set_property(PacketProperty::TimerTick, Tristate::NotIncluded);
    assert!(i.timer);
}
