//! Axes that a tool may report, and descriptions of their capabilities.

use vstd::prelude::*;

verus! {

/// A single axis that a tool may report, other than the X and Y position.
#[derive(Clone, Copy, Debug, PartialEq, Eq, Structural)]
pub enum Axis {
    /// Force perpendicular to the pad surface.
    Pressure,
    /// Absolute left-right and forward-back tilt angles from perpendicular.
    Tilt,
    /// Distance from the pad.
    Distance,
    /// Absolute roll angle around the tool's own axis.
    Roll,
    /// A scroll wheel.
    Wheel,
    /// An absolute linear slider control.
    Slider,
    /// A pressure-sensitive button.
    ButtonPressure,
    /// The size of the surface contact ellipse.
    ContactSize,
}

/// Number of axes that [`Axis`] enumerates.
pub const AXIS_COUNT: usize = 8;

/// The bit that stands for `axis` in an [`AvailableAxes`] mask.
pub open spec fn axis_bit(axis: Axis) -> u16 {
    match axis {
        Axis::Pressure => 1,
        Axis::Tilt => 2,
        Axis::Distance => 4,
        Axis::Roll => 8,
        Axis::Wheel => 16,
        Axis::Slider => 32,
        Axis::ButtonPressure => 64,
        Axis::ContactSize => 128,
    }
}

/// The axes in the order of their bits, lowest first.
pub open spec fn axis_at(i: int) -> Axis {
    if i <= 0 {
        Axis::Pressure
    } else if i == 1 {
        Axis::Tilt
    } else if i == 2 {
        Axis::Distance
    } else if i == 3 {
        Axis::Roll
    } else if i == 4 {
        Axis::Wheel
    } else if i == 5 {
        Axis::Slider
    } else if i == 6 {
        Axis::ButtonPressure
    } else {
        Axis::ContactSize
    }
}

/// The mask of every axis bit.
pub open spec fn all_bits() -> u16 {
    255
}

/// Whether `axis` is set in `bits`.
pub open spec fn has_axis_bit(bits: u16, axis: Axis) -> bool {
    bits & axis_bit(axis) != 0
}

/// The axes set in `bits` among the first `n` axes of the bit order, in that order.
pub open spec fn listed_axes(bits: u16, n: nat) -> Seq<Axis>
    decreases n,
{
    if n == 0 {
        Seq::empty()
    } else {
        let prev = listed_axes(bits, (n - 1) as nat);
        if has_axis_bit(bits, axis_at(n - 1)) {
            prev.push(axis_at(n - 1))
        } else {
            prev
        }
    }
}

impl Axis {
    /// The name of the variant.
    pub fn as_str(&self) -> (name: &'static str)
        ensures
            name@ == axis_name(*self),
    {
        match self {
            Axis::Pressure => "Pressure",
            Axis::Tilt => "Tilt",
            Axis::Distance => "Distance",
            Axis::Roll => "Roll",
            Axis::Wheel => "Wheel",
            Axis::Slider => "Slider",
            Axis::ButtonPressure => "ButtonPressure",
            Axis::ContactSize => "ContactSize",
        }
    }
}

/// The name of each axis variant.
pub open spec fn axis_name(axis: Axis) -> Seq<char> {
    match axis {
        Axis::Pressure => "Pressure"@,
        Axis::Tilt => "Tilt"@,
        Axis::Distance => "Distance"@,
        Axis::Roll => "Roll"@,
        Axis::Wheel => "Wheel"@,
        Axis::Slider => "Slider"@,
        Axis::ButtonPressure => "ButtonPressure"@,
        Axis::ContactSize => "ContactSize"@,
    }
}

/// Bitflags describing all supported axes. See [`Axis`] for descriptions.
///
/// X and Y axes are implicit and always available.
#[derive(Clone, Copy, Debug, PartialEq, Eq, Structural)]
pub struct AvailableAxes {
    bits: u16,
}

impl AvailableAxes {
    /// The raw bit pattern of the mask.
    pub closed spec fn spec_bits(self) -> u16 {
        self.bits
    }

    /// Whether `axis` is present in the mask.
    pub open spec fn has(self, axis: Axis) -> bool {
        has_axis_bit(self.spec_bits(), axis)
    }

    /// The mask with no axes.
    pub fn empty() -> (r: Self)
        ensures
            r.spec_bits() == 0,
            forall|a: Axis| !r.has(a),
    {
        proof {
            assert forall|a: Axis| !has_axis_bit(0u16, a) by {
                let b = axis_bit(a);
                assert(0u16 & b == 0) by (bit_vector);
            }
        }
        AvailableAxes { bits: 0 }
    }

    /// The mask with every axis.
    pub fn all() -> (r: Self)
        ensures
            r.spec_bits() == all_bits(),
            forall|a: Axis| r.has(a),
    {
        proof {
            assert forall|a: Axis| has_axis_bit(255u16, a) by {
                lemma_all_has(a);
            }
        }
        AvailableAxes { bits: 255 }
    }

    /// The raw bit pattern of the mask.
    pub fn bits(&self) -> (b: u16)
        ensures
            b == self.spec_bits(),
    {
        self.bits
    }

    /// Build a mask from raw bits, dropping bits that stand for no axis.
    pub fn from_bits_truncate(bits: u16) -> (r: Self)
        ensures
            r.spec_bits() == bits & all_bits(),
            forall|a: Axis| r.has(a) <==> has_axis_bit(bits, a),
    {
        let r = AvailableAxes { bits: bits & 255 };
        proof {
            assert forall|a: Axis| r.has(a) <==> has_axis_bit(bits, a) by {
                lemma_mask_keeps(bits, a);
            }
        }
        r
    }

    /// Build a mask from raw bits, keeping every bit, also those that stand for no axis.
    pub fn from_bits_retain(bits: u16) -> (r: Self)
        ensures
            r.spec_bits() == bits,
    {
        AvailableAxes { bits }
    }

    /// Build a mask from raw bits if every bit stands for an axis, else `None`.
    pub fn from_bits(bits: u16) -> (r: Option<Self>)
        ensures
            r is Some <==> bits & !all_bits() == 0,
            r matches Some(m) ==> m.spec_bits() == bits,
    {
        if bits & !255u16 == 0 {
            Some(AvailableAxes { bits })
        } else {
            None
        }
    }

    /// Whether `axis` is present in the mask.
    pub fn contains(&self, axis: Axis) -> (b: bool)
        ensures
            b == self.has(axis),
    {
        let bit = AvailableAxes::from(axis).bits;
        self.bits & bit != 0
    }

    /// The union of two masks.
    pub fn union(self, other: Self) -> (r: Self)
        ensures
            r.spec_bits() == self.spec_bits() | other.spec_bits(),
            forall|a: Axis| r.has(a) <==> (self.has(a) || other.has(a)),
    {
        let r = AvailableAxes { bits: self.bits | other.bits };
        proof {
            assert forall|a: Axis| r.has(a) <==> (self.has(a) || other.has(a)) by {
                lemma_or_has(self.bits, other.bits, a);
            }
        }
        r
    }

    /// The axes in the mask, in the order of their bits (the order of [`Axis`]).
    pub fn iter_axes(&self) -> (axes: Vec<Axis>)
        ensures
            axes@ == listed_axes(self.spec_bits(), AXIS_COUNT as nat),
            forall|a: Axis| axes@.contains(a) <==> self.has(a),
            axes@.no_duplicates(),
    {
        let mut axes: Vec<Axis> = Vec::new();
        let mut i: usize = 0;
        while i < AXIS_COUNT
            invariant
                i <= AXIS_COUNT,
                axes@ == listed_axes(self.bits, i as nat),
            decreases AXIS_COUNT - i,
        {
            let axis = axis_from_index(i);
            if self.contains(axis) {
                axes.push(axis);
            }
            i = i + 1;
        }
        proof {
            lemma_listed_complete(self.bits);
        }
        axes
    }
}

/// The axis at position `i` of the bit order.
fn axis_from_index(i: usize) -> (a: Axis)
    requires
        i < AXIS_COUNT,
    ensures
        a == axis_at(i as int),
{
    if i == 0 {
        Axis::Pressure
    } else if i == 1 {
        Axis::Tilt
    } else if i == 2 {
        Axis::Distance
    } else if i == 3 {
        Axis::Roll
    } else if i == 4 {
        Axis::Wheel
    } else if i == 5 {
        Axis::Slider
    } else if i == 6 {
        Axis::ButtonPressure
    } else {
        Axis::ContactSize
    }
}

/// Every axis stands at exactly one position of the bit order.
proof fn lemma_axis_position(a: Axis) -> (i: int)
    ensures
        0 <= i < AXIS_COUNT,
        axis_at(i) == a,
        forall|j: int| 0 <= j < AXIS_COUNT && axis_at(j) == a ==> j == i,
{
    match a {
        Axis::Pressure => 0,
        Axis::Tilt => 1,
        Axis::Distance => 2,
        Axis::Roll => 3,
        Axis::Wheel => 4,
        Axis::Slider => 5,
        Axis::ButtonPressure => 6,
        Axis::ContactSize => 7,
    }
}

/// What `listed_axes` holds: exactly the set axes among the first `n`, each once.
proof fn lemma_listed_members(bits: u16, n: nat)
    requires
        n <= AXIS_COUNT,
    ensures
        forall|a: Axis|
            listed_axes(bits, n).contains(a) <==> (has_axis_bit(bits, a) && exists|j: int|
                0 <= j < n && axis_at(j) == a),
        listed_axes(bits, n).no_duplicates(),
    decreases n,
{
    if n > 0 {
        lemma_listed_members(bits, (n - 1) as nat);
        let prev = listed_axes(bits, (n - 1) as nat);
        let x = axis_at(n - 1);
        assert forall|a: Axis|
            listed_axes(bits, n).contains(a) <==> (has_axis_bit(bits, a) && exists|j: int|
                0 <= j < n && axis_at(j) == a) by {
            let i = lemma_axis_position(a);
            if has_axis_bit(bits, a) && exists|j: int| 0 <= j < n && axis_at(j) == a {
                if i == n - 1 {
                    assert(listed_axes(bits, n) == prev.push(x));
                    assert(listed_axes(bits, n)[prev.len() as int] == a);
                } else {
                    assert(0 <= i < n - 1 && axis_at(i) == a);
                    let k = choose|k: int| 0 <= k < prev.len() && prev[k] == a;
                    if has_axis_bit(bits, x) {
                        assert(listed_axes(bits, n)[k] == a);
                    }
                }
            }
            if listed_axes(bits, n).contains(a) {
                if has_axis_bit(bits, x) && a == x {
                    assert(0 <= n - 1 < n && axis_at(n - 1) == a);
                } else {
                    let k = choose|k: int|
                        0 <= k < listed_axes(bits, n).len() && listed_axes(bits, n)[k] == a;
                    if has_axis_bit(bits, x) {
                        assert(k < prev.len());
                    }
                    assert(prev[k] == a);
                    assert(prev.contains(a));
                    assert(exists|j: int| 0 <= j < (n - 1) as nat && axis_at(j) == a);
                    let j = choose|j: int| 0 <= j < (n - 1) as nat && axis_at(j) == a;
                    assert(0 <= j < n && axis_at(j) == a);
                }
            }
        }
        if has_axis_bit(bits, x) {
            let l = listed_axes(bits, n);
            assert(!prev.contains(x)) by {
                if prev.contains(x) {
                    let j = choose|j: int| 0 <= j < n - 1 && axis_at(j) == x;
                    let i = lemma_axis_position(x);
                    assert(j == i);
                    assert(n - 1 == i);
                }
            }
            assert forall|p: int, q: int| 0 <= p < l.len() && 0 <= q < l.len() && p != q implies l[p]
                != l[q] by {
                if p == prev.len() {
                    assert(prev.contains(l[q]));
                } else if q == prev.len() {
                    assert(prev.contains(l[p]));
                }
            }
        }
    }
}

/// The full listing holds every set axis.
proof fn lemma_listed_complete(bits: u16)
    ensures
        forall|a: Axis| listed_axes(bits, AXIS_COUNT as nat).contains(a) <==> has_axis_bit(bits, a),
        listed_axes(bits, AXIS_COUNT as nat).no_duplicates(),
{
    lemma_listed_members(bits, AXIS_COUNT as nat);
    assert forall|a: Axis| has_axis_bit(bits, a) implies listed_axes(
        bits,
        AXIS_COUNT as nat,
    ).contains(a) by {
        let i = lemma_axis_position(a);
        assert(0 <= i < AXIS_COUNT && axis_at(i) == a);
    }
}

proof fn lemma_all_has(a: Axis)
    ensures
        has_axis_bit(255u16, a),
{
    let b = axis_bit(a);
    assert(b == 1 || b == 2 || b == 4 || b == 8 || b == 16 || b == 32 || b == 64 || b == 128);
    assert((b == 1 || b == 2 || b == 4 || b == 8 || b == 16 || b == 32 || b == 64 || b == 128)
        ==> 255u16 & b != 0) by (bit_vector);
}

proof fn lemma_mask_keeps(bits: u16, a: Axis)
    ensures
        has_axis_bit(bits & 255u16, a) <==> has_axis_bit(bits, a),
{
    let b = axis_bit(a);
    assert(b == 1 || b == 2 || b == 4 || b == 8 || b == 16 || b == 32 || b == 64 || b == 128);
    assert((b == 1 || b == 2 || b == 4 || b == 8 || b == 16 || b == 32 || b == 64 || b == 128)
        ==> ((bits & 255u16) & b != 0 <==> bits & b != 0)) by (bit_vector);
}

proof fn lemma_or_has(x: u16, y: u16, a: Axis)
    ensures
        has_axis_bit(x | y, a) <==> (has_axis_bit(x, a) || has_axis_bit(y, a)),
{
    let b = axis_bit(a);
    assert(b == 1 || b == 2 || b == 4 || b == 8 || b == 16 || b == 32 || b == 64 || b == 128);
    assert((b == 1 || b == 2 || b == 4 || b == 8 || b == 16 || b == 32 || b == 64 || b == 128)
        ==> ((x | y) & b != 0 <==> (x & b != 0 || y & b != 0))) by (bit_vector);
}

proof fn lemma_single_bit(a: Axis, c: Axis)
    ensures
        has_axis_bit(axis_bit(a), c) <==> a == c,
{
    let b = axis_bit(a);
    let d = axis_bit(c);
    assert(b == 1 || b == 2 || b == 4 || b == 8 || b == 16 || b == 32 || b == 64 || b == 128);
    assert(d == 1 || d == 2 || d == 4 || d == 8 || d == 16 || d == 32 || d == 64 || d == 128);
    assert((b == 1 || b == 2 || b == 4 || b == 8 || b == 16 || b == 32 || b == 64 || b == 128)
        && (d == 1 || d == 2 || d == 4 || d == 8 || d == 16 || d == 32 || d == 64 || d == 128)
        ==> (b & d != 0 <==> b == d)) by (bit_vector);
}

impl From<Axis> for AvailableAxes {
    fn from(value: Axis) -> (r: Self) {
        proof {
            assert forall|c: Axis| has_axis_bit(axis_bit(value), c) <==> value == c by {
                lemma_single_bit(value, c);
            }
        }
        match value {
            Axis::Pressure => AvailableAxes { bits: 1 },
            Axis::Tilt => AvailableAxes { bits: 2 },
            Axis::Distance => AvailableAxes { bits: 4 },
            Axis::Roll => AvailableAxes { bits: 8 },
            Axis::Wheel => AvailableAxes { bits: 16 },
            Axis::Slider => AvailableAxes { bits: 32 },
            Axis::ButtonPressure => AvailableAxes { bits: 64 },
            Axis::ContactSize => AvailableAxes { bits: 128 },
        }
    }
}

impl vstd::std_specs::convert::FromSpecImpl<Axis> for AvailableAxes {
    open spec fn obeys_from_spec() -> bool {
        true
    }

    closed spec fn from_spec(v: Axis) -> Self {
        AvailableAxes { bits: axis_bit(v) }
    }
}

/// A mask made from a single axis holds that axis and no other.
pub proof fn lemma_from_axis_single(a: Axis)
    ensures
        <AvailableAxes as vstd::std_specs::convert::FromSpec<Axis>>::from_spec(a).spec_bits()
            == axis_bit(a),
        forall|c: Axis|
            <AvailableAxes as vstd::std_specs::convert::FromSpec<Axis>>::from_spec(a).has(c) <==> a
                == c,
{
    assert forall|c: Axis| has_axis_bit(axis_bit(a), c) <==> a == c by {
        lemma_single_bit(a, c);
    }
}

/// Granularity of an axis. This does not affect the range of values.
/// Describes the number of unique values between `0` and `1` of the associated unit.
///
/// Always nonzero.
#[derive(Clone, Copy, Debug, PartialEq, Eq, Structural)]
pub struct Granularity(u32);

impl Granularity {
    #[verifier::type_invariant]
    closed spec fn nonzero(self) -> bool {
        self.0 != 0
    }

    /// The number of states.
    pub closed spec fn value(self) -> u32 {
        self.0
    }

    /// A granularity of `value` states, or `None` if `value` is zero.
    pub fn new(value: u32) -> (r: Option<Self>)
        ensures
            value == 0 <==> r is None,
            r matches Some(g) ==> g.value() == value,
    {
        if value == 0 {
            None
        } else {
            Some(Granularity(value))
        }
    }

    /// The number of states, always nonzero.
    pub fn get(self) -> (v: u32)
        ensures
            v == self.value(),
            v != 0,
    {
        proof {
            use_type_invariant(&self);
        }
        self.0
    }
}

/// Granularity of a position axis. Since the bounds of the range of positions are not known,
/// this represents "dots per logical pixel" contrary to other axes' [`Granularity`].
///
/// Always nonzero.
#[derive(Clone, Copy, Debug, PartialEq, Eq, Structural)]
pub struct PositionGranularity(u32);

impl PositionGranularity {
    #[verifier::type_invariant]
    closed spec fn nonzero(self) -> bool {
        self.0 != 0
    }

    /// The number of dots per logical pixel.
    pub closed spec fn value(self) -> u32 {
        self.0
    }

    /// A granularity of `value` dots per logical pixel, or `None` if `value` is zero.
    pub fn new(value: u32) -> (r: Option<Self>)
        ensures
            value == 0 <==> r is None,
            r matches Some(g) ==> g.value() == value,
    {
        if value == 0 {
            None
        } else {
            Some(PositionGranularity(value))
        }
    }

    /// The number of dots per logical pixel, always nonzero.
    pub fn get(self) -> (v: u32)
        ensures
            v == self.value(),
            v != 0,
    {
        proof {
            use_type_invariant(&self);
        }
        self.0
    }
}

/// The larger of two optional granularities, where any `Some` is larger than `None`.
pub open spec fn max_granularity(a: Option<Granularity>, b: Option<Granularity>) -> Option<
    Granularity,
> {
    match (a, b) {
        (Some(x), Some(y)) => if x.value() >= y.value() {
            Some(x)
        } else {
            Some(y)
        },
        (Some(x), None) => Some(x),
        (None, y) => y,
    }
}

/// The larger of two optional granularities, where any `Some` is larger than `None`.
pub fn granularity_max(a: Option<Granularity>, b: Option<Granularity>) -> (r: Option<Granularity>)
    ensures
        r == max_granularity(a, b),
{
    match (a, b) {
        (Some(x), Some(y)) => if x.get() >= y.get() {
            Some(x)
        } else {
            Some(y)
        },
        (Some(x), None) => Some(x),
        (None, y) => y,
    }
}

/// Represents a normalized axis, always in the range `0..=1`.
/// Since the min and max are fixed, only the granularity is given, if known.
#[derive(Clone, Copy, Debug, PartialEq, Eq, Structural)]
pub struct NormalizedInfo {
    pub granularity: Option<Granularity>,
}

impl Default for NormalizedInfo {
    fn default() -> (r: Self)
        ensures
            r.granularity is None,
    {
        NormalizedInfo { granularity: None }
    }
}

/// Information about an axis with a dynamic range. `L` holds the limits of the range,
/// as reported by the platform.
#[derive(Clone, Copy, Debug)]
pub struct Info<L> {
    pub limits: Option<L>,
    pub granularity: Option<Granularity>,
}

impl<L: Copy> Info<L> {
    /// Returns a new `Info` with the most extreme properties of each: the larger granularity,
    /// and limits joined by `join` where both have some (otherwise whichever has some).
    pub fn union<F: Fn(L, L) -> L>(self, other: Self, join: F) -> (r: Self)
        requires
            forall|x: L, y: L| join.requires((x, y)),
        ensures
            r.granularity == max_granularity(self.granularity, other.granularity),
            match (self.limits, other.limits) {
                (Some(x), Some(y)) => r.limits matches Some(z) && join.ensures((x, y), z),
                (Some(x), None) => r.limits == Some(x),
                (None, y) => r.limits == y,
            },
    {
        Info {
            granularity: granularity_max(self.granularity, other.granularity),
            limits: match (self.limits, other.limits) {
                (Some(x), Some(y)) => Some(join(x, y)),
                (Some(x), None) => Some(x),
                (None, y) => y,
            },
        }
    }
}

/// Information about a length-like axis. `L` holds the limits of the range.
#[derive(Clone, Copy, Debug)]
pub enum LengthInfo<L> {
    /// The axis reports a `0..=1` range, where the value doesn't necessarily correlate linearly with a
    /// physical unit of distance. The granularity is the total number of states between 0 and 1.
    Normalized(NormalizedInfo),
    /// The axis reports a physical distance in centimeters, within the range of the given
    /// limits. The granularity is "dots per cm".
    Centimeters(Info<L>),
}

/// The granularity of a length axis, whatever its unit.
pub open spec fn length_granularity<L>(info: LengthInfo<L>) -> Option<Granularity> {
    match info {
        LengthInfo::Normalized(n) => n.granularity,
        LengthInfo::Centimeters(c) => c.granularity,
    }
}

impl<L: Copy> LengthInfo<L> {
    /// The granularity of the axis, whatever its unit.
    pub fn granularity(self) -> (g: Option<Granularity>)
        ensures
            g == length_granularity(self),
    {
        match self {
            LengthInfo::Normalized(n) => n.granularity,
            LengthInfo::Centimeters(c) => c.granularity,
        }
    }
}

impl<L> Default for LengthInfo<L> {
    fn default() -> (r: Self)
        ensures
            r == LengthInfo::<L>::Normalized(NormalizedInfo { granularity: None }),
    {
        LengthInfo::Normalized(NormalizedInfo { granularity: None })
    }
}

/// Information about the X and Y axes.
#[derive(Clone, Copy, Debug, PartialEq, Eq, Structural)]
pub struct PositionInfo {
    pub granularity: Option<PositionGranularity>,
}

/// Information about a circular axis, always reporting in the range of `0..TAU`.
#[derive(Clone, Copy, Debug, PartialEq, Eq, Structural)]
pub struct CircularInfo {
    pub granularity: Option<Granularity>,
}

/// Information about a slider axis, always reporting in the range of `-1..=1` with zero being
/// the resting point.
#[derive(Clone, Copy, Debug, PartialEq, Eq, Structural)]
pub struct SliderInfo {
    pub granularity: Option<Granularity>,
}

/// A report of the capabilities of all axes, or `None` where the axis is not supported by the
/// device. `L` holds the limits of dynamic-range axes.
#[derive(Clone, Copy, Debug)]
pub struct FullInfo<L> {
    /// The X and Y axes - always supported, and with units of logical pixels.
    pub position: [PositionInfo; 2],
    /// A unitless normalized value in `[-1, 1]`.
    pub slider: Option<SliderInfo>,
    /// The rotation around the tool's long axis, in radians `0..TAU`.
    pub roll: Option<CircularInfo>,
    pub pressure: Option<NormalizedInfo>,
    pub button_pressure: Option<NormalizedInfo>,
    /// X/Y tilt, in radians from vertical.
    pub tilt: Option<Info<L>>,
    pub wheel: Option<CircularInfo>,
    pub distance: Option<LengthInfo<L>>,
    pub contact_size: Option<LengthInfo<L>>,
}

/// The report of a device whose axes are not known: only the position, with no granularity.
pub open spec fn spec_no_axes<L>() -> FullInfo<L> {
    FullInfo {
        position: [PositionInfo { granularity: None }, PositionInfo { granularity: None }],
        slider: None,
        roll: None,
        pressure: None,
        button_pressure: None,
        tilt: None,
        wheel: None,
        distance: None,
        contact_size: None,
    }
}

impl<L> Default for FullInfo<L> {
    fn default() -> (r: Self)
        ensures
            r == spec_no_axes::<L>(),
            r.position[0].granularity is None,
            r.position[1].granularity is None,
            r.slider is None,
            r.roll is None,
            r.pressure is None,
            r.button_pressure is None,
            r.tilt is None,
            r.wheel is None,
            r.distance is None,
            r.contact_size is None,
    {
        FullInfo {
            position: [PositionInfo { granularity: None }, PositionInfo { granularity: None }],
            slider: None,
            roll: None,
            pressure: None,
            button_pressure: None,
            tilt: None,
            wheel: None,
            distance: None,
            contact_size: None,
        }
    }
}

/// The larger of two optional position granularities, where any `Some` is larger than `None`.
pub open spec fn max_position_granularity(a: Option<PositionGranularity>, b: Option<PositionGranularity>) -> Option<
    PositionGranularity,
> {
    match (a, b) {
        (Some(x), Some(y)) => if x.value() >= y.value() {
            Some(x)
        } else {
            Some(y)
        },
        (Some(x), None) => Some(x),
        (None, y) => y,
    }
}

/// The union of two optional axis reports of one kind: whichever is there, and where both are,
/// the one built by `both`.
pub open spec fn option_union<T>(a: Option<T>, b: Option<T>, both: spec_fn(T, T) -> T) -> Option<T> {
    match (a, b) {
        (Some(x), Some(y)) => Some(both(x, y)),
        (Some(x), None) => Some(x),
        (None, y) => y,
    }
}

/// Whether `r` is the union of two limited axis reports: the larger granularity, and limits
/// joined by `join` where both have some (otherwise whichever has some).
pub open spec fn info_union_of<L, F: Fn(L, L) -> L>(a: Info<L>, b: Info<L>, join: F, r: Info<L>) -> bool {
    &&& r.granularity == max_granularity(a.granularity, b.granularity)
    &&& match (a.limits, b.limits) {
        (Some(x), Some(y)) => r.limits matches Some(z) && join.ensures((x, y), z),
        (Some(x), None) => r.limits == Some(x),
        (None, y) => r.limits == y,
    }
}

/// Whether `r` is the union of two optional limited axis reports.
pub open spec fn opt_info_union_of<L, F: Fn(L, L) -> L>(a: Option<Info<L>>, b: Option<Info<L>>, join: F, r: Option<Info<L>>) -> bool {
    match (a, b) {
        (Some(x), Some(y)) => r matches Some(z) && info_union_of(x, y, join, z),
        (Some(x), None) => r == Some(x),
        (None, y) => r == y,
    }
}

/// Whether `r` is the union of two optional length reports: two of one unit are joined, and
/// where the units differ the first is kept.
pub open spec fn opt_length_union_of<L, F: Fn(L, L) -> L>(
    a: Option<LengthInfo<L>>,
    b: Option<LengthInfo<L>>,
    join: F,
    r: Option<LengthInfo<L>>,
) -> bool {
    match (a, b) {
        (Some(LengthInfo::Centimeters(x)), Some(LengthInfo::Centimeters(y))) => r matches Some(
            LengthInfo::Centimeters(z),
        ) && info_union_of(x, y, join, z),
        (Some(LengthInfo::Normalized(x)), Some(LengthInfo::Normalized(y))) => r == Some(
            LengthInfo::<L>::Normalized(NormalizedInfo { granularity: max_granularity(x.granularity, y.granularity) }),
        ),
        (Some(x), _) => r == Some(x),
        (None, y) => r == y,
    }
}

/// The larger of two optional position granularities.
fn position_granularity_max(a: Option<PositionGranularity>, b: Option<PositionGranularity>) -> (r: Option<
    PositionGranularity,
>)
    ensures
        r == max_position_granularity(a, b),
{
    match (a, b) {
        (Some(x), Some(y)) => if x.get() >= y.get() {
            Some(x)
        } else {
            Some(y)
        },
        (Some(x), None) => Some(x),
        (None, y) => y,
    }
}

/// The union of two optional normalized reports.
fn normalized_union(a: Option<NormalizedInfo>, b: Option<NormalizedInfo>) -> (r: Option<NormalizedInfo>)
    ensures
        r == option_union(
            a,
            b,
            |x: NormalizedInfo, y: NormalizedInfo| NormalizedInfo { granularity: max_granularity(x.granularity, y.granularity) },
        ),
{
    match (a, b) {
        (Some(x), Some(y)) => Some(NormalizedInfo { granularity: granularity_max(x.granularity, y.granularity) }),
        (Some(x), None) => Some(x),
        (None, y) => y,
    }
}

/// The union of two optional circular reports.
fn circular_union(a: Option<CircularInfo>, b: Option<CircularInfo>) -> (r: Option<CircularInfo>)
    ensures
        r == option_union(
            a,
            b,
            |x: CircularInfo, y: CircularInfo| CircularInfo { granularity: max_granularity(x.granularity, y.granularity) },
        ),
{
    match (a, b) {
        (Some(x), Some(y)) => Some(CircularInfo { granularity: granularity_max(x.granularity, y.granularity) }),
        (Some(x), None) => Some(x),
        (None, y) => y,
    }
}

impl<L: Copy> FullInfo<L> {
    /// The capabilities of both reports together: each axis that either supports, with the
    /// larger granularity and limits joined by `join` where both report it. Where the two
    /// describe a length in different units, `self`'s description is kept.
    pub fn union<F: Fn(L, L) -> L>(self, other: Self, join: F) -> (r: Self)
        requires
            forall|x: L, y: L| join.requires((x, y)),
        ensures
            r.position[0].granularity == max_position_granularity(self.position[0].granularity, other.position[0].granularity),
            r.position[1].granularity == max_position_granularity(self.position[1].granularity, other.position[1].granularity),
            r.slider == option_union(
                self.slider,
                other.slider,
                |x: SliderInfo, y: SliderInfo| SliderInfo { granularity: max_granularity(x.granularity, y.granularity) },
            ),
            r.roll == option_union(
                self.roll,
                other.roll,
                |x: CircularInfo, y: CircularInfo| CircularInfo { granularity: max_granularity(x.granularity, y.granularity) },
            ),
            r.wheel == option_union(
                self.wheel,
                other.wheel,
                |x: CircularInfo, y: CircularInfo| CircularInfo { granularity: max_granularity(x.granularity, y.granularity) },
            ),
            r.pressure == option_union(
                self.pressure,
                other.pressure,
                |x: NormalizedInfo, y: NormalizedInfo| NormalizedInfo { granularity: max_granularity(x.granularity, y.granularity) },
            ),
            r.button_pressure == option_union(
                self.button_pressure,
                other.button_pressure,
                |x: NormalizedInfo, y: NormalizedInfo| NormalizedInfo { granularity: max_granularity(x.granularity, y.granularity) },
            ),
            opt_info_union_of(self.tilt, other.tilt, join, r.tilt),
            opt_length_union_of(self.distance, other.distance, join, r.distance),
            opt_length_union_of(self.contact_size, other.contact_size, join, r.contact_size),
    {
        let slider = match (self.slider, other.slider) {
            (Some(x), Some(y)) => Some(SliderInfo { granularity: granularity_max(x.granularity, y.granularity) }),
            (Some(x), None) => Some(x),
            (None, y) => y,
        };
        let tilt = match (self.tilt, other.tilt) {
            (Some(x), Some(y)) => Some(x.union(y, &join)),
            (Some(x), None) => Some(x),
            (None, y) => y,
        };
        let distance = Self::length_union(self.distance, other.distance, &join);
        let contact_size = Self::length_union(self.contact_size, other.contact_size, &join);
        FullInfo {
            position: [
                PositionInfo {
                    granularity: position_granularity_max(self.position[0].granularity, other.position[0].granularity),
                },
                PositionInfo {
                    granularity: position_granularity_max(self.position[1].granularity, other.position[1].granularity),
                },
            ],
            slider,
            roll: circular_union(self.roll, other.roll),
            pressure: normalized_union(self.pressure, other.pressure),
            button_pressure: normalized_union(self.button_pressure, other.button_pressure),
            tilt,
            wheel: circular_union(self.wheel, other.wheel),
            distance,
            contact_size,
        }
    }

    /// The union of two optional length reports.
    fn length_union<F: Fn(L, L) -> L>(a: Option<LengthInfo<L>>, b: Option<LengthInfo<L>>, join: &F) -> (r: Option<
        LengthInfo<L>,
    >)
        requires
            forall|x: L, y: L| join.requires((x, y)),
        ensures
            opt_length_union_of(a, b, *join, r),
    {
        match (a, b) {
            (Some(LengthInfo::Centimeters(x)), Some(LengthInfo::Centimeters(y))) => Some(
                LengthInfo::Centimeters(x.union(y, join)),
            ),
            (Some(LengthInfo::Normalized(x)), Some(LengthInfo::Normalized(y))) => Some(
                LengthInfo::Normalized(NormalizedInfo { granularity: granularity_max(x.granularity, y.granularity) }),
            ),
            (Some(x), _) => Some(x),
            (None, y) => y,
        }
    }
}

/// The error of a query on an axis the device does not support.
#[derive(Debug, Copy, Clone, PartialEq, Eq, Structural)]
pub struct UnsupportedAxisError;

impl<L> FullInfo<L> {
    /// Whether `axis` is supported.
    pub open spec fn supports(self, axis: Axis) -> bool {
        match axis {
            Axis::Pressure => self.pressure is Some,
            Axis::Tilt => self.tilt is Some,
            Axis::Distance => self.distance is Some,
            Axis::Roll => self.roll is Some,
            Axis::Wheel => self.wheel is Some,
            Axis::Slider => self.slider is Some,
            Axis::ButtonPressure => self.button_pressure is Some,
            Axis::ContactSize => self.contact_size is Some,
        }
    }

    /// The granularity reported for a supported `axis`.
    pub open spec fn spec_granularity(self, axis: Axis) -> Option<Granularity> {
        match axis {
            Axis::Pressure => self.pressure.unwrap().granularity,
            Axis::Tilt => self.tilt.unwrap().granularity,
            Axis::Distance => length_granularity(self.distance.unwrap()),
            Axis::Roll => self.roll.unwrap().granularity,
            Axis::Wheel => self.wheel.unwrap().granularity,
            Axis::Slider => self.slider.unwrap().granularity,
            Axis::ButtonPressure => self.button_pressure.unwrap().granularity,
            Axis::ContactSize => length_granularity(self.contact_size.unwrap()),
        }
    }
}

impl<L: Copy> FullInfo<L> {
    /// A bitmask summary of the available axes.
    pub fn available(&self) -> (r: AvailableAxes)
        ensures
            forall|a: Axis| r.has(a) <==> self.supports(a),
            r.spec_bits() & !all_bits() == 0,
    {
        let p: u16 = if self.pressure.is_some() { 1 } else { 0 };
        let t: u16 = if self.tilt.is_some() { 2 } else { 0 };
        let d: u16 = if self.distance.is_some() { 4 } else { 0 };
        let ro: u16 = if self.roll.is_some() { 8 } else { 0 };
        let w: u16 = if self.wheel.is_some() { 16 } else { 0 };
        let sl: u16 = if self.slider.is_some() { 32 } else { 0 };
        let bp: u16 = if self.button_pressure.is_some() { 64 } else { 0 };
        let cs: u16 = if self.contact_size.is_some() { 128 } else { 0 };
        let r = AvailableAxes { bits: p | t | d | ro | w | sl | bp | cs };
        proof {
            lemma_or_eight(p, t, d, ro, w, sl, bp, cs);
            assert forall|c: Axis| r.has(c) <==> self.supports(c) by {
                match c {
                    Axis::Pressure => {},
                    Axis::Tilt => {},
                    Axis::Distance => {},
                    Axis::Roll => {},
                    Axis::Wheel => {},
                    Axis::Slider => {},
                    Axis::ButtonPressure => {},
                    Axis::ContactSize => {},
                }
            }
        }
        r
    }

    /// The granularity of an axis: the total number of states between its minimum and maximum.
    /// `Ok(None)` if the axis is supported but its granularity is unknown,
    /// `Err` if the axis is not supported.
    pub fn granularity(&self, axis: Axis) -> (r: Result<Option<Granularity>, UnsupportedAxisError>)
        ensures
            self.supports(axis) <==> r is Ok,
            r matches Ok(g) ==> g == self.spec_granularity(axis),
    {
        match axis {
            Axis::Pressure => match self.pressure {
                Some(p) => Ok(p.granularity),
                None => Err(UnsupportedAxisError),
            },
            Axis::ButtonPressure => match self.button_pressure {
                Some(p) => Ok(p.granularity),
                None => Err(UnsupportedAxisError),
            },
            Axis::Roll => match self.roll {
                Some(p) => Ok(p.granularity),
                None => Err(UnsupportedAxisError),
            },
            Axis::Wheel => match self.wheel {
                Some(p) => Ok(p.granularity),
                None => Err(UnsupportedAxisError),
            },
            Axis::Slider => match self.slider {
                Some(p) => Ok(p.granularity),
                None => Err(UnsupportedAxisError),
            },
            Axis::Tilt => match self.tilt {
                Some(p) => Ok(p.granularity),
                None => Err(UnsupportedAxisError),
            },
            Axis::Distance => match self.distance {
                Some(p) => Ok(p.granularity()),
                None => Err(UnsupportedAxisError),
            },
            Axis::ContactSize => match self.contact_size {
                Some(p) => Ok(p.granularity()),
                None => Err(UnsupportedAxisError),
            },
        }
    }
}

/// Joining one optional bit per axis keeps each bit readable and no other bit.
proof fn lemma_or_eight(p: u16, t: u16, d: u16, ro: u16, w: u16, sl: u16, bp: u16, cs: u16)
    by (bit_vector)
    requires
        p == 0 || p == 1,
        t == 0 || t == 2,
        d == 0 || d == 4,
        ro == 0 || ro == 8,
        w == 0 || w == 16,
        sl == 0 || sl == 32,
        bp == 0 || bp == 64,
        cs == 0 || cs == 128,
    ensures
        ((p | t | d | ro | w | sl | bp | cs) & 1u16 != 0) == (p != 0),
        ((p | t | d | ro | w | sl | bp | cs) & 2u16 != 0) == (t != 0),
        ((p | t | d | ro | w | sl | bp | cs) & 4u16 != 0) == (d != 0),
        ((p | t | d | ro | w | sl | bp | cs) & 8u16 != 0) == (ro != 0),
        ((p | t | d | ro | w | sl | bp | cs) & 16u16 != 0) == (w != 0),
        ((p | t | d | ro | w | sl | bp | cs) & 32u16 != 0) == (sl != 0),
        ((p | t | d | ro | w | sl | bp | cs) & 64u16 != 0) == (bp != 0),
        ((p | t | d | ro | w | sl | bp | cs) & 128u16 != 0) == (cs != 0),
        (p | t | d | ro | w | sl | bp | cs) & !255u16 == 0,
{
}

} // verus!
