//! The layout of Ink packets.
//!
//! Packets arrive as `[i32]` whose layout varies by device: the properties a tablet reports,
//! and in which order, are known only at runtime. Here the words of a packet are split into
//! the properties they hold; scaling them into physical units is left to the caller.

use vstd::prelude::*;

use crate::axis::Granularity;
use crate::events::FrameTimestamp;

verus! {

/// Describes the state of an optional packet property.
#[derive(Copy, Clone, Debug, PartialEq, Eq, Structural)]
pub enum Tristate<T> {
    /// Don't consume a property value and don't report any value.
    NotIncluded,
    /// Consume the value, but report nothing.
    Malformed,
    /// Consume a property value, scale, then report it.
    Valid(T),
}

impl<T> Tristate<T> {
    /// A new Tristate with the `Valid` value transformed through `f`.
    pub fn map_ok<U, F: FnOnce(T) -> U>(self, f: F) -> (r: Tristate<U>)
        requires
            self matches Tristate::Valid(t) ==> f.requires((t,)),
        ensures
            match self {
                Tristate::Valid(t) => r matches Tristate::Valid(u) && f.ensures((t,), u),
                Tristate::Malformed => r == Tristate::<U>::Malformed,
                Tristate::NotIncluded => r == Tristate::<U>::NotIncluded,
            },
    {
        match self {
            Tristate::Valid(t) => Tristate::Valid(f(t)),
            Tristate::Malformed => Tristate::Malformed,
            Tristate::NotIncluded => Tristate::NotIncluded,
        }
    }

    /// The value of the `Valid` variant.
    pub fn ok(self) -> (r: Option<T>)
        ensures
            r == (match self {
                Tristate::Valid(t) => Some(t),
                _ => None,
            }),
    {
        match self {
            Tristate::Valid(t) => Some(t),
            _ => None,
        }
    }

    /// Whether the property takes a word of the packet.
    pub open spec fn consumes(self) -> bool {
        !(self is NotIncluded)
    }
}

/// An error reading one property.
#[derive(Debug, Clone, Copy, PartialEq, Eq, Structural)]
pub enum FilterError {
    /// The packet ended before the property.
    NotEnoughData,
    /// The word read is not a valid value.
    Value,
}

impl FilterError {
    /// The error's message.
    pub fn message(&self) -> (r: &'static str)
        ensures
            r@ == match self {
                FilterError::NotEnoughData => "property slice empty"@,
                FilterError::Value => "bad value parsed"@,
            },
    {
        match self {
            FilterError::NotEnoughData => "property slice empty",
            FilterError::Value => "bad value parsed",
        }
    }
}

/// An error reading a packet.
#[derive(Debug, Clone, Copy, PartialEq, Eq, Structural)]
pub enum InterpretError {
    /// Words were left after every property was read.
    TooMuchData,
    Filter(FilterError),
}

impl From<FilterError> for InterpretError {
    fn from(e: FilterError) -> (r: InterpretError) {
        InterpretError::Filter(e)
    }
}

impl vstd::std_specs::convert::FromSpecImpl<FilterError> for InterpretError {
    open spec fn obeys_from_spec() -> bool {
        true
    }

    open spec fn from_spec(e: FilterError) -> InterpretError {
        InterpretError::Filter(e)
    }
}

/// The granularity of a property ranging over `[min, max]`, both included: the number of
/// values, `|max - min| + 1`, saturated to `u32::MAX`. Never zero, so always `Some`.
pub fn calc_granularity(min: i32, max: i32) -> (r: Option<Granularity>)
    ensures
        r matches Some(g) && g.value() == (if (if max >= min { max - min } else { min - max }) + 1 > u32::MAX {
            u32::MAX as int
        } else {
            (if max >= min { max - min } else { min - max }) + 1
        }),
{
    let diff: u32 = if max >= min {
        ((max as i64) - (min as i64)) as u32
    } else {
        ((min as i64) - (max as i64)) as u32
    };
    let g = diff.saturating_add(1);
    Granularity::new(g)
}

/// The granularity used when a property is normalized onto a range: the range's width with
/// both ends included, saturated to `u32::MAX`; `None` when `min == max`, where no range can
/// be normalized.
pub fn normalized_granularity(min: i32, max: i32) -> (r: Option<Granularity>)
    ensures
        min == max <==> r is None,
        r matches Some(g) ==> g.value() == (if (if max >= min { max - min } else { min - max }) + 1 > u32::MAX {
            u32::MAX as int
        } else {
            (if max >= min { max - min } else { min - max }) + 1
        }),
{
    if min == max {
        return None;
    }
    calc_granularity(min, max)
}

/// The packet status word: down, inverted, a reserved bit, barrel.
#[derive(Clone, Copy, Debug, PartialEq, Eq, Structural)]
pub struct StatusWord(i32);

impl StatusWord {
    /// The bits a status word keeps.
    pub open spec fn spec_known_bits() -> i32 {
        15
    }

    /// The word's bits.
    pub closed spec fn bits_of(self) -> i32 {
        self.0
    }

    /// The status word of `bits`, dropping unknown bits.
    pub fn from_bits_truncate(bits: i32) -> (r: StatusWord)
        ensures
            r.bits_of() == bits & 15,
    {
        StatusWord(bits & 15)
    }

    /// The word's bits.
    pub fn bits(self) -> (r: i32)
        ensures
            r == self.bits_of(),
    {
        self.0
    }

    /// The tip touches the surface.
    pub fn is_down(self) -> (r: bool)
        ensures
            r == (self.bits_of() & 1 != 0),
    {
        self.0 & 1 != 0
    }

    /// The eraser end is used.
    pub fn is_inverted(self) -> (r: bool)
        ensures
            r == (self.bits_of() & 2 != 0),
    {
        self.0 & 2 != 0
    }

    /// The barrel button is held.
    pub fn is_barrel(self) -> (r: bool)
        ensures
            r == (self.bits_of() & 8 != 0),
    {
        self.0 & 8 != 0
    }
}

/// A packet: the pose the caller read, its timestamp if the tablet reports one, the status.
#[derive(Copy, Clone, Debug)]
pub struct Packet<P> {
    pub pose: P,
    pub timestamp: Option<FrameTimestamp>,
    pub status: StatusWord,
}

/// A packet split into its fields: the position (the first two words), the properties
/// between, and the status word (the last).
#[derive(Clone, Debug)]
pub struct RawPacket {
    pub position: [i32; 2],
    pub props: Vec<i32>,
    pub status: i32,
}

/// The packets of a buffer of words, `props_per_packet` words each, split into their fields.
pub struct PacketIter<'a> {
    props: &'a [i32],
    props_per_packet: usize,
}

/// Proof that a buffer rounded down to whole chunks of `n` words fits in the buffer.
proof fn lemma_whole_chunks(len: int, n: int)
    requires
        0 <= len,
        0 < n,
    ensures
        0 <= (len / n) * n <= len,
{
    vstd::arithmetic::div_mod::lemma_fundamental_div_mod(len, n);
    vstd::arithmetic::mul::lemma_mul_is_commutative(n, len / n);
    vstd::arithmetic::div_mod::lemma_div_pos_is_pos(len, n);
    vstd::arithmetic::mul::lemma_mul_nonnegative(len / n, n);
}

impl<'a> PacketIter<'a> {
    /// The words left, a whole number of packets.
    pub closed spec fn remaining(&self) -> Seq<i32> {
        self.props@
    }

    /// The words in each packet, at least three.
    pub closed spec fn per_packet(&self) -> nat {
        self.props_per_packet as nat
    }

    /// An iterator over the packets of `props`, rounded down to whole packets; `None` if a
    /// packet of `props_per_packet` words cannot hold a position and a status (fewer than
    /// three).
    pub fn new(props: &'a [i32], props_per_packet: usize) -> (r: Option<Self>)
        ensures
            props_per_packet < 3 <==> r is None,
            r matches Some(it) ==> it.per_packet() == props_per_packet && it.remaining()
                == props@.subrange(0, (props@.len() / props_per_packet as nat) * props_per_packet as int),
    {
        if props_per_packet < 3 {
            return None;
        }
        proof {
            lemma_whole_chunks(props@.len() as int, props_per_packet as int);
        }
        let trim = (props.len() / props_per_packet) * props_per_packet;
        let props = vstd::slice::slice_subrange(props, 0, trim);
        Some(PacketIter { props, props_per_packet })
    }

    /// The next packet, if any words are left: the position, the properties, the status.
    pub fn next(&mut self) -> (r: Option<RawPacket>)
        requires
            old(self).per_packet() >= 3,
        ensures
            final(self).per_packet() == old(self).per_packet(),
            old(self).remaining().len() < old(self).per_packet() ==> r is None && final(self).remaining()
                == old(self).remaining(),
            old(self).remaining().len() >= old(self).per_packet() ==> {
                let n = old(self).per_packet() as int;
                let words = old(self).remaining();
                &&& final(self).remaining() == words.subrange(n, words.len() as int)
                &&& r matches Some(p) && p.position == [words[0], words[1]] && p.props@ == words.subrange(2, n - 1)
                    && p.status == words[n - 1]
            },
    {
        let n = self.props_per_packet;
        if self.props.len() < n {
            return None;
        }
        let words = self.props;
        let mut inner: Vec<i32> = Vec::new();
        let mut i: usize = 2;
        while i < n - 1
            invariant
                2 <= i <= n - 1,
                n <= words@.len(),
                inner@ == words@.subrange(2, i as int),
            decreases n - 1 - i,
        {
            inner.push(words[i]);
            proof {
                assert(words@.subrange(2, i + 1) =~= words@.subrange(2, i as int).push(words@[i as int]));
            }
            i = i + 1;
        }
        let packet = RawPacket { position: [words[0], words[1]], props: inner, status: words[n - 1] };
        self.props = vstd::slice::slice_subrange(words, n, words.len());
        Some(packet)
    }
}

/// A chunk of a packet buffer: the status word, which comes last, and the words before it
/// (the position first, then the properties). A chunk too short to hold a position still
/// comes out whole, and reading its words fails.
#[derive(Clone, Debug)]
pub struct RawChunk {
    pub words: Vec<i32>,
    pub status: i32,
}

/// The chunks of a buffer of words, `props_per_packet` words each, to be read with a tablet's
/// interpreter: unlike `PacketIter`, any nonzero packet length is accepted.
pub struct Iter<'a> {
    props: &'a [i32],
    props_per_packet: usize,
}

impl<'a> Iter<'a> {
    /// The words left, a whole number of chunks.
    pub closed spec fn remaining(&self) -> Seq<i32> {
        self.props@
    }

    /// The words in each chunk, never zero.
    pub closed spec fn per_packet(&self) -> nat {
        self.props_per_packet as nat
    }

    /// An iterator over the chunks of `props`, `props_per_packet` words each, a trailing
    /// partial chunk dropped. A length of zero is refused.
    pub fn new(props: &'a [i32], props_per_packet: usize) -> (r: Self)
        requires
            props_per_packet > 0,
        ensures
            r.per_packet() == props_per_packet,
            r.remaining() == props@.subrange(0, (props@.len() / props_per_packet as nat) * props_per_packet as int),
    {
        proof {
            lemma_whole_chunks(props@.len() as int, props_per_packet as int);
        }
        let trim = (props.len() / props_per_packet) * props_per_packet;
        let props = vstd::slice::slice_subrange(props, 0, trim);
        Iter { props, props_per_packet }
    }

    /// The next chunk, if any words are left: its last word is the status, the words before
    /// it the rest.
    pub fn next(&mut self) -> (r: Option<RawChunk>)
        requires
            old(self).per_packet() >= 1,
        ensures
            final(self).per_packet() == old(self).per_packet(),
            old(self).remaining().len() < old(self).per_packet() ==> r is None && final(self).remaining()
                == old(self).remaining(),
            old(self).remaining().len() >= old(self).per_packet() ==> {
                let n = old(self).per_packet() as int;
                let words = old(self).remaining();
                &&& final(self).remaining() == words.subrange(n, words.len() as int)
                &&& r matches Some(p) && p.words@ == words.subrange(0, n - 1) && p.status == words[n - 1]
            },
    {
        let n = self.props_per_packet;
        if self.props.len() < n {
            return None;
        }
        let words = self.props;
        let mut inner: Vec<i32> = Vec::new();
        let mut i: usize = 0;
        while i < n - 1
            invariant
                0 <= i <= n - 1,
                n <= words@.len(),
                inner@ == words@.subrange(0, i as int),
            decreases n - 1 - i,
        {
            inner.push(words[i]);
            proof {
                assert(words@.subrange(0, i + 1) =~= words@.subrange(0, i as int).push(words@[i as int]));
            }
            i = i + 1;
        }
        let chunk = RawChunk { words: inner, status: words[n - 1] };
        self.props = vstd::slice::slice_subrange(words, n, words.len());
        Some(chunk)
    }
}

/// How to read each optional property of a tablet's packets; `S` says how to scale a value.
/// The properties come in this order, after the position and before the status.
#[derive(Clone, Copy, Debug)]
pub struct Interpreter<S> {
    pub normal_pressure: Tristate<S>,
    pub tilt: [Tristate<S>; 2],
    pub z: Tristate<S>,
    pub twist: Tristate<S>,
    pub button_pressure: Tristate<S>,
    pub contact_size: [Tristate<S>; 2],
    /// Whether a timestamp in milliseconds follows the properties.
    pub timer: bool,
}

/// The number of properties that take a word.
pub open spec fn consumed_count<S>(slots: Seq<Tristate<S>>) -> nat
    decreases slots.len(),
{
    if slots.len() == 0 {
        0
    } else {
        consumed_count(slots.drop_last()) + if slots.last().consumes() {
            1nat
        } else {
            0nat
        }
    }
}

proof fn lemma_consumed_step<S>(slots: Seq<Tristate<S>>, j: int)
    requires
        0 <= j < slots.len(),
    ensures
        consumed_count(slots.take(j + 1)) == consumed_count(slots.take(j)) + if slots[j].consumes() {
            1nat
        } else {
            0nat
        },
{
    assert(slots.take(j + 1).drop_last() =~= slots.take(j));
}

proof fn lemma_consumed_mono<S>(slots: Seq<Tristate<S>>, j: int)
    requires
        0 <= j <= slots.len(),
    ensures
        consumed_count(slots.take(j)) <= consumed_count(slots),
    decreases slots.len() - j,
{
    if j < slots.len() {
        lemma_consumed_step(slots, j);
        lemma_consumed_mono(slots, j + 1);
    } else {
        assert(slots.take(j) =~= slots);
    }
}

/// The place of an optional property among an interpreter's slots (`spec_slots`); the
/// position, the timer and the status have none.
pub open spec fn spec_slot_of(p: PacketProperty) -> Option<int> {
    match p {
        PacketProperty::NormalPressure => Some(0),
        PacketProperty::XTiltOrientation => Some(1),
        PacketProperty::YTiltOrientation => Some(2),
        PacketProperty::Z => Some(3),
        PacketProperty::TwistOrientation => Some(4),
        PacketProperty::ButtonPressure => Some(5),
        PacketProperty::Width => Some(6),
        PacketProperty::Height => Some(7),
        _ => None,
    }
}

/// The words of a packet, split into its fields: the position, the word of each property in
/// the interpreter's order (`None` for one that reports nothing), and the timestamp.
#[derive(Clone, Debug)]
pub struct PacketWords {
    pub position: [i32; 2],
    pub values: Vec<Option<i32>>,
    pub timestamp: Option<FrameTimestamp>,
}

impl<S: Copy> Interpreter<S> {
    /// The optional properties, in packet order.
    pub open spec fn spec_slots(&self) -> Seq<Tristate<S>> {
        seq![
            self.normal_pressure,
            self.tilt[0],
            self.tilt[1],
            self.z,
            self.twist,
            self.button_pressure,
            self.contact_size[0],
            self.contact_size[1],
        ]
    }

    /// The number of words of a packet without its status word.
    pub open spec fn words_needed(&self) -> nat {
        2 + consumed_count(self.spec_slots()) + if self.timer {
            1nat
        } else {
            0nat
        }
    }

    /// An interpreter for packets that hold only a position and a status.
    pub fn empty() -> (r: Self)
        ensures
            forall|k: int| 0 <= k < 8 ==> #[trigger] r.spec_slots()[k] is NotIncluded,
            !r.timer,
    {
        Interpreter {
            normal_pressure: Tristate::NotIncluded,
            tilt: [Tristate::NotIncluded, Tristate::NotIncluded],
            z: Tristate::NotIncluded,
            twist: Tristate::NotIncluded,
            button_pressure: Tristate::NotIncluded,
            contact_size: [Tristate::NotIncluded, Tristate::NotIncluded],
            timer: false,
        }
    }

    /// Record that packets hold property `p`, read as `t` says: `t` takes the property's
    /// slot; a timer property marks the timestamp as present (`t` is then not used); the
    /// position and the status change nothing.
    pub fn set_property(&mut self, p: PacketProperty, t: Tristate<S>)
        ensures
            match spec_slot_of(p) {
                Some(k) => final(self).spec_slots() == old(self).spec_slots().update(k, t),
                None => final(self).spec_slots() == old(self).spec_slots(),
            },
            final(self).timer == (old(self).timer || p == PacketProperty::TimerTick),
    {
        match p {
            PacketProperty::NormalPressure => self.normal_pressure = t,
            PacketProperty::XTiltOrientation => self.tilt[0] = t,
            PacketProperty::YTiltOrientation => self.tilt[1] = t,
            PacketProperty::Z => self.z = t,
            PacketProperty::TwistOrientation => self.twist = t,
            PacketProperty::ButtonPressure => self.button_pressure = t,
            PacketProperty::Width => self.contact_size[0] = t,
            PacketProperty::Height => self.contact_size[1] = t,
            PacketProperty::TimerTick => self.timer = true,
            _ => {},
        }
        assert(self.spec_slots() =~= match spec_slot_of(p) {
            Some(k) => old(self).spec_slots().update(k, t),
            None => old(self).spec_slots(),
        });
    }

    /// The optional properties, in packet order.
    pub fn slots(&self) -> (r: Vec<Tristate<S>>)
        ensures
            r@ == self.spec_slots(),
    {
        let r = vec![
            self.normal_pressure,
            self.tilt[0],
            self.tilt[1],
            self.z,
            self.twist,
            self.button_pressure,
            self.contact_size[0],
            self.contact_size[1],
        ];
        assert(r@ =~= self.spec_slots());
        r
    }

    /// Split the words of a packet, status word excluded, into its fields. The position takes
    /// the first two words, then each included property one word in order, then the
    /// timestamp if the tablet reports one. Too few words is `NotEnoughData`, a negative
    /// timestamp is a bad `Value`, and words left over are `TooMuchData`, in that order.
    pub fn read_words(&self, props: &[i32]) -> (r: Result<PacketWords, InterpretError>)
        ensures
            props@.len() < self.words_needed() ==> r == Err::<PacketWords, InterpretError>(
                InterpretError::Filter(FilterError::NotEnoughData),
            ),
            props@.len() >= self.words_needed() && self.timer && props@[self.words_needed() - 1int] < 0 ==> r
                == Err::<PacketWords, InterpretError>(InterpretError::Filter(FilterError::Value)),
            props@.len() > self.words_needed() && !(self.timer && props@[self.words_needed() - 1int] < 0) ==> r
                == Err::<PacketWords, InterpretError>(InterpretError::TooMuchData),
            props@.len() == self.words_needed() && !(self.timer && props@[self.words_needed() - 1int] < 0) ==> (
            r matches Ok(w) && {
                &&& w.position == [props@[0], props@[1]]
                &&& w.values@.len() == 8
                &&& forall|j: int|
                    0 <= j < 8 ==> #[trigger] w.values@[j] == if self.spec_slots()[j] is Valid {
                        Some(props@[2 + consumed_count(self.spec_slots().take(j)) as int])
                    } else {
                        None
                    }
                &&& w.timestamp == if self.timer {
                    Some(FrameTimestamp::at_millis(props@[self.words_needed() - 1int] as u64))
                } else {
                    None
                }
            }),
    {
        let slots = self.slots();
        let ghost sl = self.spec_slots();
        proof {
            lemma_consumed_mono(sl, 0);
        }
        if props.len() < 2 {
            return Err(InterpretError::Filter(FilterError::NotEnoughData));
        }
        let mut values: Vec<Option<i32>> = Vec::new();
        let mut pos: usize = 2;
        let mut j: usize = 0;
        while j < slots.len()
            invariant
                slots@ == sl,
                sl == self.spec_slots(),
                sl.len() == 8,
                j <= 8,
                2 <= pos <= props@.len(),
                pos == 2 + consumed_count(sl.take(j as int)),
                values@.len() == j,
                forall|k: int|
                    0 <= k < j ==> #[trigger] values@[k] == if sl[k] is Valid {
                        Some(props@[2 + consumed_count(sl.take(k)) as int])
                    } else {
                        None
                    },
            decreases 8 - j,
        {
            proof {
                lemma_consumed_step(sl, j as int);
                lemma_consumed_mono(sl, j + 1);
            }
            match slots[j] {
                Tristate::NotIncluded => {
                    values.push(None);
                },
                Tristate::Malformed => {
                    if pos >= props.len() {
                        return Err(InterpretError::Filter(FilterError::NotEnoughData));
                    }
                    values.push(None);
                    pos = pos + 1;
                },
                Tristate::Valid(_) => {
                    if pos >= props.len() {
                        return Err(InterpretError::Filter(FilterError::NotEnoughData));
                    }
                    values.push(Some(props[pos]));
                    pos = pos + 1;
                },
            }
            j = j + 1;
        }
        proof {
            assert(sl.take(8) =~= sl);
        }
        let timestamp = if self.timer {
            if pos >= props.len() {
                return Err(InterpretError::Filter(FilterError::NotEnoughData));
            }
            let t = props[pos];
            if t < 0 {
                return Err(InterpretError::Filter(FilterError::Value));
            }
            pos = pos + 1;
            Some(FrameTimestamp::from_millis(t as u64))
        } else {
            None
        };
        if pos < props.len() {
            return Err(InterpretError::TooMuchData);
        }
        Ok(PacketWords { position: [props[0], props[1]], values, timestamp })
    }
}

/// The packet properties this crate asks tablets for, in the order packets hold them. The
/// position comes first and the status last, whatever else is reported.
#[derive(Clone, Copy, Debug, PartialEq, Eq, Structural)]
pub enum PacketProperty {
    X,
    Y,
    NormalPressure,
    XTiltOrientation,
    YTiltOrientation,
    Z,
    TwistOrientation,
    ButtonPressure,
    Width,
    Height,
    TimerTick,
    PacketStatus,
}

/// The number of properties this crate asks for.
pub const DESIRED_PROPERTY_COUNT: usize = 12;

/// The place of a property in the order packets hold them.
pub open spec fn spec_rank(p: PacketProperty) -> int {
    match p {
        PacketProperty::X => 0,
        PacketProperty::Y => 1,
        PacketProperty::NormalPressure => 2,
        PacketProperty::XTiltOrientation => 3,
        PacketProperty::YTiltOrientation => 4,
        PacketProperty::Z => 5,
        PacketProperty::TwistOrientation => 6,
        PacketProperty::ButtonPressure => 7,
        PacketProperty::Width => 8,
        PacketProperty::Height => 9,
        PacketProperty::TimerTick => 10,
        PacketProperty::PacketStatus => 11,
    }
}

/// The place of a property in the order packets hold them.
pub fn rank(p: PacketProperty) -> (r: u8)
    ensures
        r == spec_rank(p),
{
    match p {
        PacketProperty::X => 0,
        PacketProperty::Y => 1,
        PacketProperty::NormalPressure => 2,
        PacketProperty::XTiltOrientation => 3,
        PacketProperty::YTiltOrientation => 4,
        PacketProperty::Z => 5,
        PacketProperty::TwistOrientation => 6,
        PacketProperty::ButtonPressure => 7,
        PacketProperty::Width => 8,
        PacketProperty::Height => 9,
        PacketProperty::TimerTick => 10,
        PacketProperty::PacketStatus => 11,
    }
}

/// Whether the properties a tablet describes for its packets can be read: no more than this
/// crate asks for, each one of them (`None` stands for any other) and in their order, with
/// the position first and the status last.
pub open spec fn spec_layout_valid(props: Seq<Option<PacketProperty>>) -> bool {
    &&& 3 <= props.len() <= DESIRED_PROPERTY_COUNT
    &&& forall|i: int| 0 <= i < props.len() ==> #[trigger] props[i] is Some
    &&& forall|i: int, j: int|
        0 <= i < j < props.len() ==> spec_rank(props[i]->Some_0) <= spec_rank(props[j]->Some_0)
    &&& props[0] == Some(PacketProperty::X)
    &&& props[1] == Some(PacketProperty::Y)
    &&& props.last() == Some(PacketProperty::PacketStatus)
}

/// Whether the properties a tablet describes for its packets can be read.
pub fn layout_valid(props: &[Option<PacketProperty>]) -> (r: bool)
    ensures
        r == spec_layout_valid(props@),
{
    if props.len() > DESIRED_PROPERTY_COUNT || props.len() < 3 {
        return false;
    }
    let mut last: u8 = 0;
    let mut i: usize = 0;
    while i < props.len()
        invariant
            3 <= props@.len() <= DESIRED_PROPERTY_COUNT,
            i <= props@.len(),
            forall|k: int| 0 <= k < i ==> #[trigger] props@[k] is Some,
            forall|k: int, l: int|
                0 <= k < l < i ==> spec_rank(props@[k]->Some_0) <= spec_rank(props@[l]->Some_0),
            i > 0 ==> last == spec_rank(props@[i - 1]->Some_0),
            i == 0 ==> last == 0,
            forall|k: int| 0 <= k < i ==> spec_rank(#[trigger] props@[k]->Some_0) <= last,
        decreases props@.len() - i,
    {
        let p = match props[i] {
            Some(p) => p,
            None => return false,
        };
        let r = rank(p);
        if r < last {
            assert(!(spec_rank(props@[i as int - 1]->Some_0) <= spec_rank(props@[i as int]->Some_0)));
            return false;
        }
        last = r;
        i = i + 1;
    }
    let first_ok = match props[0] {
        Some(PacketProperty::X) => true,
        _ => false,
    };
    let second_ok = match props[1] {
        Some(PacketProperty::Y) => true,
        _ => false,
    };
    let last_ok = match props[props.len() - 1] {
        Some(PacketProperty::PacketStatus) => true,
        _ => false,
    };
    first_ok && second_ok && last_ok
}

} // verus!
