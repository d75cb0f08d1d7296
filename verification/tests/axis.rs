use octotablet::axis::{AvailableAxes, Axis, CircularInfo, FullInfo, Granularity, Info, LengthInfo, NormalizedInfo};

#[test]
fn iter_axes_lists_axes_in_declaration_order() {
    let a = AvailableAxes::from(Axis::Tilt).union(AvailableAxes::from(Axis::Pressure));
    assert_eq!(a.iter_axes(), vec![Axis::Pressure, Axis::Tilt]);
}

#[test]
fn all_and_empty() {
    assert_eq!(AvailableAxes::all().iter_axes().len(), 8);
    assert!(AvailableAxes::empty().iter_axes().is_empty());
    assert!(AvailableAxes::all().contains(Axis::ContactSize));
    assert!(!AvailableAxes::empty().contains(Axis::Pressure));
}

#[test]
fn from_bits_truncate_drops_unknown_bits() {
    assert_eq!(AvailableAxes::from_bits_truncate(0xff01).bits(), 0x01);
    assert_eq!(AvailableAxes::from_bits_truncate(0x0100).bits(), 0);
}

#[test]
fn single_axis_flag_holds_only_that_axis() {
    let a = AvailableAxes::from(Axis::Roll);
    assert_eq!(a.iter_axes(), vec![Axis::Roll]);
    assert!(!a.contains(Axis::Wheel));
}

#[test]
fn axis_names() {
    assert_eq!(Axis::ButtonPressure.as_str(), "ButtonPressure");
    assert_eq!(Axis::Pressure.as_str(), "Pressure");
}

#[test]
fn granularity_is_never_zero() {
    assert!(Granularity::new(0).is_none());
    assert_eq!(Granularity::new(7).map(|g| g.get()), Some(7));
}

#[test]
fn info_union_takes_larger_granularity_and_joins_limits() {
    let a: Info<(i32, i32)> = Info { limits: Some((0, 5)), granularity: Granularity::new(3) };
    let b: Info<(i32, i32)> = Info { limits: Some((-2, 4)), granularity: Granularity::new(9) };
    let u = a.union(b, |x: (i32, i32), y: (i32, i32)| (x.0.min(y.0), x.1.max(y.1)));
    assert_eq!(u.granularity.map(|g| g.get()), Some(9));
    assert_eq!(u.limits, Some((-2, 5)));
    let c: Info<(i32, i32)> = Info { limits: None, granularity: None };
    let v = c.union(a, |x: (i32, i32), _y: (i32, i32)| x);
    assert_eq!(v.limits, Some((0, 5)));
    assert_eq!(v.granularity.map(|g| g.get()), Some(3));
}

#[test]
fn full_info_reports_supported_axes() {
    let mut info: FullInfo<f32> = FullInfo::default();
    assert!(info.available().iter_axes().is_empty());
    assert!(info.granularity(Axis::Pressure).is_err());
    info.pressure = Some(NormalizedInfo { granularity: Granularity::new(1024) });
    assert_eq!(info.available().iter_axes(), vec![Axis::Pressure]);
    assert_eq!(info.granularity(Axis::Pressure).unwrap().map(|g| g.get()), Some(1024));
    info.roll = Some(octotablet::axis::CircularInfo { granularity: None });
    assert!(matches!(info.granularity(Axis::Roll), Ok(None)));
}

#[test]
fn full_info_union_keeps_every_axis_either_reports() {
    let join = |a: (i32, i32), b: (i32, i32)| (a.0.min(b.0), a.1.max(b.1));
    let tool = FullInfo::<(i32, i32)> {
        pressure: Some(NormalizedInfo { granularity: Granularity::new(100) }),
        tilt: Some(Info { limits: Some((-5, 5)), granularity: Granularity::new(10) }),
        distance: Some(LengthInfo::Normalized(NormalizedInfo { granularity: None })),
        ..FullInfo::default()
    };
    let tablet = FullInfo::<(i32, i32)> {
        pressure: Some(NormalizedInfo { granularity: Granularity::new(4096) }),
        roll: Some(CircularInfo { granularity: Granularity::new(360) }),
        tilt: Some(Info { limits: Some((-9, 3)), granularity: Granularity::new(7) }),
        distance: Some(LengthInfo::Centimeters(Info { limits: Some((0, 2)), granularity: None })),
        contact_size: Some(LengthInfo::Centimeters(Info { limits: Some((0, 1)), granularity: None })),
        ..FullInfo::default()
    };
    let u = tool.union(tablet, join);
    assert_eq!(u.pressure.unwrap().granularity.unwrap().get(), 4096);
    assert_eq!(u.roll.unwrap().granularity.unwrap().get(), 360);
    let tilt = u.tilt.unwrap();
    assert_eq!(tilt.limits, Some((-9, 5)));
    assert_eq!(tilt.granularity.unwrap().get(), 10);
    // Different units: the first report's description stays.
    assert!(matches!(u.distance, Some(LengthInfo::Normalized(_))));
    assert!(matches!(u.contact_size, Some(LengthInfo::Centimeters(Info { limits: Some((0, 1)), .. }))));
    assert!(u.wheel.is_none() && u.slider.is_none() && u.button_pressure.is_none());
}

#[test]
fn raw_bits_kept_or_checked() {
    assert_eq!(AvailableAxes::from_bits_retain(0x1ff).bits(), 0x1ff);
    assert!(AvailableAxes::from_bits(0x100).is_none());
    assert_eq!(AvailableAxes::from_bits(0x81).unwrap().bits(), 0x81);
    assert!(AvailableAxes::from_bits(0x81).unwrap().contains(Axis::ContactSize));
}
