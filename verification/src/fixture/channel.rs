//! DMX channels of fixture properties: the channel layout of a property
//! (coarse channel plus fine channels), its placement in the absolute DMX
//! address space, and the property types themselves.
use vstd::prelude::*;
use arrayvec::ArrayVec;
use crate::fixture::{ChannelInUniverse, ChannelIndex, ChannelValue, UniverseIndex, MAX_FINE_DEGREES};
use crate::fixture::color::{ColorPropertyType, color_property_of, color_property_name};
use crate::fixture::FixtureError;
use crate::text::{chars_of, eq_lit, range_eq_lit, string_of};

verus! {

#[verifier::external_type_specification]
#[verifier::external_body]
#[verifier::reject_recursive_types(T)]
pub struct ExArrayVec<T, const CAP: usize>(ArrayVec<T, CAP>);

/// The elements that an `ArrayVec` of channel addresses holds, in order.
pub uninterp spec fn slots_of(v: ArrayVec<(u16, usize), 4>) -> Seq<(u16, usize)>;

/// `ArrayVec::new`: an empty vector.
#[verifier::external_body]
fn slots_new() -> (r: ArrayVec<ChannelInUniverse, MAX_FINE_DEGREES>)
    ensures
        slots_of(r) == Seq::<(u16, usize)>::empty(),
{
    ArrayVec::new()
}

/// `ArrayVec::push`: appends one element; it panics when the vector is full,
/// so the vector must hold fewer than its capacity of 4.
#[verifier::external_body]
fn slots_push(v: &mut ArrayVec<ChannelInUniverse, MAX_FINE_DEGREES>, x: ChannelInUniverse)
    requires
        slots_of(*old(v)).len() < 4,
    ensures
        slots_of(*final(v)) == slots_of(*old(v)).push(x),
{
    v.push(x)
}

/// `ArrayVec::len`: the number of elements, never more than the capacity 4.
#[verifier::external_body]
fn slots_len(v: &ArrayVec<ChannelInUniverse, MAX_FINE_DEGREES>) -> (r: usize)
    ensures
        r == slots_of(*v).len(),
        r <= 4,
{
    v.len()
}

/// Indexing through the slice that `ArrayVec` dereferences to.
#[verifier::external_body]
fn slots_get(v: &ArrayVec<ChannelInUniverse, MAX_FINE_DEGREES>, i: usize) -> (r: ChannelInUniverse)
    requires
        i < slots_of(*v).len(),
    ensures
        r == slots_of(*v)[i as int],
{
    v[i]
}

/// Assignment through the mutable slice that `ArrayVec` dereferences to.
#[verifier::external_body]
fn slots_set(v: &mut ArrayVec<ChannelInUniverse, MAX_FINE_DEGREES>, i: usize, x: ChannelInUniverse)
    requires
        i < slots_of(*old(v)).len(),
    ensures
        slots_of(*final(v)) == slots_of(*old(v)).update(i as int, x),
{
    v[i] = x;
}

/// `ArrayVec::clone`: a vector with the same elements.
#[verifier::external_body]
fn slots_clone(v: &ArrayVec<ChannelInUniverse, MAX_FINE_DEGREES>) -> (r: ArrayVec<ChannelInUniverse, MAX_FINE_DEGREES>)
    ensures
        slots_of(r) == slots_of(*v),
{
    v.clone()
}

/// The position of a channel in the absolute DMX address space, where each
/// universe holds 512 channels.
pub open spec fn abs_index(c: ChannelInUniverse) -> int {
    c.1 as int * 512 + c.0 as int
}

/// The channel and universe of an absolute DMX address.
pub open spec fn from_abs(a: int) -> ChannelInUniverse {
    ((a % 512) as u16, (a / 512) as usize)
}

/// Whether a channel lies at or after `old_start`, and the channel that keeps
/// its distance when the start moves to `new_start` still has an address that
/// fits in `usize`: the condition under which moving it does not panic.
pub open spec fn can_move(c: ChannelInUniverse, old_start: ChannelInUniverse, new_start: ChannelInUniverse) -> bool {
    &&& abs_index(c) <= usize::MAX
    &&& abs_index(old_start) <= abs_index(c)
    &&& abs_index(new_start) + abs_index(c) - abs_index(old_start) <= usize::MAX
}

/// The channel at the same distance from `new_start` as `c` is from `old_start`.
pub open spec fn moved(c: ChannelInUniverse, old_start: ChannelInUniverse, new_start: ChannelInUniverse) -> ChannelInUniverse {
    from_abs(abs_index(new_start) + abs_index(c) - abs_index(old_start))
}

/// A normalized channel: its channel index is below 512.
pub open spec fn normalized(c: ChannelInUniverse) -> bool {
    c.0 < 512
}

pub proof fn lemma_from_abs(a: int)
    requires
        0 <= a <= usize::MAX,
    ensures
        abs_index(from_abs(a)) == a,
        normalized(from_abs(a)),
        from_abs(a).1 as int == a / 512,
{
}

/// The layout of one property: the coarse channel followed by its fine
/// channels (fine, ultra, ...), at most `MAX_FINE_DEGREES` in all.
#[derive(Debug)]
pub struct ChannelParameter {
    channel: ArrayVec<ChannelInUniverse, MAX_FINE_DEGREES>,
}

impl View for ChannelParameter {
    type V = Seq<ChannelInUniverse>;

    closed spec fn view(&self) -> Seq<ChannelInUniverse> {
        slots_of(self.channel)
    }
}

impl Clone for ChannelParameter {
    fn clone(&self) -> (r: Self)
        ensures
            r@ == self@,
    {
        ChannelParameter { channel: slots_clone(&self.channel) }
    }
}

impl ChannelParameter {
    /// A layout with only the coarse channel `(channel_index, universe_index)`.
    pub fn new(channel_index: ChannelIndex, universe_index: UniverseIndex) -> (r: Self)
        ensures
            r@ == seq![(channel_index, universe_index)],
    {
        let mut channel = slots_new();
        slots_push(&mut channel, (channel_index, universe_index));
        assert(slots_of(channel) =~= seq![(channel_index, universe_index)]);
        ChannelParameter { channel }
    }

    /// Adds the fine channel of degree `fine_degree` (1 for fine, 2 for
    /// ultra, ...). Degrees must be added in order, each once; a layout holds
    /// at most `MAX_FINE_DEGREES` channels counting the coarse one, so degrees
    /// from `MAX_FINE_DEGREES` on are out of range.
    pub fn add_fine(&mut self, fine_degree: usize, fine_channel_index: ChannelIndex, fine_universe_index: UniverseIndex)
        -> (r: Result<(), ChannelError>)
        ensures
            fine_degree >= MAX_FINE_DEGREES ==> r == Err::<(), ChannelError>(ChannelError::FineDegreeOutOfRange(fine_degree)),
            fine_degree < MAX_FINE_DEGREES && old(self)@.len() == fine_degree ==> r is Ok,
            fine_degree < MAX_FINE_DEGREES && old(self)@.len() > fine_degree
                ==> r == Err::<(), ChannelError>(ChannelError::FineDegreeExists(fine_degree)),
            fine_degree < MAX_FINE_DEGREES && old(self)@.len() < fine_degree
                ==> r == Err::<(), ChannelError>(ChannelError::FineDegreeTooHigh(fine_degree)),
            r is Ok ==> final(self)@ == old(self)@.push((fine_channel_index, fine_universe_index)),
            r is Err ==> final(self)@ == old(self)@,
    {
        if fine_degree >= MAX_FINE_DEGREES {
            return Err(ChannelError::FineDegreeOutOfRange(fine_degree));
        }
        let required_len = fine_degree;
        let len = slots_len(&self.channel);
        if len == required_len {
            slots_push(&mut self.channel, (fine_channel_index, fine_universe_index));
            Ok(())
        } else if len > required_len {
            Err(ChannelError::FineDegreeExists(fine_degree))
        } else {
            Err(ChannelError::FineDegreeTooHigh(fine_degree))
        }
    }

    /// Moves every channel of the layout so that it keeps its distance from
    /// the fixture's start when the start moves from `old_start` to `new_start`.
    pub fn move_indices(&mut self, old_start: ChannelInUniverse, new_start: ChannelInUniverse)
        requires
            forall|i: int| 0 <= i < old(self)@.len() ==> can_move(#[trigger] old(self)@[i], old_start, new_start),
        ensures
            final(self)@.len() == old(self)@.len(),
            forall|i: int| 0 <= i < old(self)@.len()
                ==> #[trigger] final(self)@[i] == moved(old(self)@[i], old_start, new_start),
    {
        let n = slots_len(&self.channel);
        let mut i: usize = 0;
        while i < n
            invariant
                n == old(self)@.len(),
                self@.len() == n,
                i <= n,
                forall|j: int| 0 <= j < n ==> can_move(#[trigger] old(self)@[j], old_start, new_start),
                forall|j: int| 0 <= j < i ==> #[trigger] self@[j] == moved(old(self)@[j], old_start, new_start),
                forall|j: int| i <= j < n ==> #[trigger] self@[j] == old(self)@[j],
            decreases n - i,
        {
            let c = slots_get(&self.channel, i);
            let m = Channel::move_single_channel(c, old_start, new_start);
            slots_set(&mut self.channel, i, m);
            i = i + 1;
        }
    }

    /// A copy of all channel addresses (coarse first, then the fine ones).
    pub fn get_channel_indices(&self) -> (r: ArrayVec<ChannelInUniverse, MAX_FINE_DEGREES>)
        ensures
            slots_of(r) == self@,
    {
        slots_clone(&self.channel)
    }

    /// The number of channels of the layout.
    pub fn channel_count(&self) -> (r: usize)
        ensures
            r == self@.len(),
            r <= MAX_FINE_DEGREES,
    {
        slots_len(&self.channel)
    }

    /// The `i`-th channel address of the layout.
    pub fn channel_at(&self, i: usize) -> (r: ChannelInUniverse)
        requires
            i < self@.len(),
        ensures
            r == self@[i as int],
    {
        slots_get(&self.channel, i)
    }
}

/// The big-endian byte `i` (0 = most significant) of a channel value.
pub open spec fn be_byte(v: ChannelValue, i: int) -> u8 {
    if i == 0 {
        (v >> 24u32) as u8
    } else if i == 1 {
        (v >> 16u32) as u8
    } else if i == 2 {
        (v >> 8u32) as u8
    } else {
        v as u8
    }
}

/// A property's current value together with the DMX channels it is output on.
/// The view is the value and the absolute channel addresses, coarse first.
pub struct Channel {
    pub value: ChannelValue,
    channel: ChannelParameter,
}

impl View for Channel {
    type V = (ChannelValue, Seq<ChannelInUniverse>);

    closed spec fn view(&self) -> (ChannelValue, Seq<ChannelInUniverse>) {
        (self.value, self.channel@)
    }
}

impl Clone for Channel {
    fn clone(&self) -> (r: Self)
        ensures
            r@ == self@,
    {
        Channel { value: self.value, channel: self.channel.clone() }
    }
}

/// The channel values a property writes: byte `i` of the value (big-endian)
/// goes to the `i`-th channel of the layout.
pub open spec fn output_of(c: (ChannelValue, Seq<ChannelInUniverse>)) -> Seq<(ChannelInUniverse, u8)> {
    Seq::new(c.1.len(), |i: int| (c.1[i], be_byte(c.0, i)))
}

impl Channel {
    /// A channel with value `default_value` whose layout, given relative to
    /// the fixture, is placed at the fixture's start `(device_channel, device_universe)`.
    pub fn new(
        channel_numbers: ChannelParameter,
        default_value: ChannelValue,
        device_channel: ChannelIndex,
        device_universe: UniverseIndex,
    ) -> (r: Self)
        requires
            forall|i: int| 0 <= i < channel_numbers@.len()
                ==> can_move(#[trigger] channel_numbers@[i], (0u16, 0usize), (device_channel, device_universe)),
        ensures
            r@.0 == default_value,
            r@.1.len() == channel_numbers@.len(),
            forall|i: int| 0 <= i < channel_numbers@.len()
                ==> #[trigger] r@.1[i] == moved(channel_numbers@[i], (0u16, 0usize), (device_channel, device_universe)),
    {
        let mut channel = channel_numbers.clone();
        channel.move_indices((0, 0), (device_channel, device_universe));
        Channel { value: default_value, channel }
    }

    /// The address at the same distance from `new_start` as `channel` is from
    /// `old_start`, normalized so that the channel index is below 512.
    ///
    /// Panics (and so is not defined here) when `channel` lies before
    /// `old_start` or an address does not fit in `usize`.
    pub fn move_single_channel(
        channel: ChannelInUniverse,
        old_start: ChannelInUniverse,
        new_start: ChannelInUniverse,
    ) -> (r: ChannelInUniverse)
        requires
            can_move(channel, old_start, new_start),
        ensures
            r == moved(channel, old_start, new_start),
            normalized(r),
            abs_index(r) == abs_index(new_start) + abs_index(channel) - abs_index(old_start),
    {
        let max_c: usize = 512;
        let abs_channel = channel.1 * max_c + channel.0 as usize;
        let abs_old_start = old_start.1 * max_c + old_start.0 as usize;
        let abs_new_start = new_start.1 * max_c + new_start.0 as usize;
        let relative_pos = abs_channel - abs_old_start;
        let new_abs_channel = abs_new_start + relative_pos;
        let new_universe = new_abs_channel / max_c;
        let new_channel = (new_abs_channel % max_c) as ChannelIndex;
        proof {
            lemma_from_abs(new_abs_channel as int);
        }
        (new_channel, new_universe)
    }

    /// Moves all channels of this property along with the fixture's start.
    pub fn move_channels(&mut self, old_start: ChannelInUniverse, new_start: ChannelInUniverse)
        requires
            forall|i: int| 0 <= i < old(self)@.1.len() ==> can_move(#[trigger] old(self)@.1[i], old_start, new_start),
        ensures
            final(self)@.0 == old(self)@.0,
            final(self)@.1.len() == old(self)@.1.len(),
            forall|i: int| 0 <= i < old(self)@.1.len()
                ==> #[trigger] final(self)@.1[i] == moved(old(self)@.1[i], old_start, new_start),
    {
        proof {
            assert forall|i: int| 0 <= i < self.channel@.len()
                implies can_move(#[trigger] self.channel@[i], old_start, new_start) by {
                assert(self.channel@[i] == old(self)@.1[i]);
            }
        }
        self.channel.move_indices(old_start, new_start);
    }

    /// The byte written to each channel: the value's big-endian bytes, one per
    /// channel, coarse first.
    pub fn get_all_values(&self) -> (r: Vec<(ChannelInUniverse, u8)>)
        ensures
            r@ == output_of(self@),
    {
        let n = self.channel.channel_count();
        let mut out: Vec<(ChannelInUniverse, u8)> = Vec::new();
        let mut i: usize = 0;
        while i < n
            invariant
                n == self@.1.len(),
                n <= 4,
                i <= n,
                out@ =~= output_of(self@).take(i as int),
            decreases n - i,
        {
            let byte: u8 = if i == 0 {
                (self.value >> 24u32) as u8
            } else if i == 1 {
                (self.value >> 16u32) as u8
            } else if i == 2 {
                (self.value >> 8u32) as u8
            } else {
                self.value as u8
            };
            out.push((self.channel.channel_at(i), byte));
            i = i + 1;
        }
        out
    }

    /// A copy of the channel addresses of this property.
    pub fn get_channel_indices(&self) -> (r: ArrayVec<ChannelInUniverse, MAX_FINE_DEGREES>)
        ensures
            slots_of(r) == self@.1,
    {
        self.channel.get_channel_indices()
    }

    /// The number of channels of this property.
    pub fn channel_count(&self) -> (r: usize)
        ensures
            r == self@.1.len(),
            r <= MAX_FINE_DEGREES,
    {
        self.channel.channel_count()
    }

    /// The `i`-th channel address of this property.
    pub fn channel_at(&self, i: usize) -> (r: ChannelInUniverse)
        requires
            i < self@.1.len(),
        ensures
            r == self@.1[i as int],
    {
        self.channel.channel_at(i)
    }

    /// Replaces the value, keeping the channels.
    pub fn set_value(&mut self, value: ChannelValue)
        ensures
            final(self)@ == (value, old(self)@.1),
    {
        self.value = value;
    }

    /// The value a property starts with: `Pan` and `Tilt` start centered
    /// (`ChannelValue::MAX / 2`), all others at 0.
    pub fn get_default_value(property_type: &SimplePropertyType) -> (r: ChannelValue)
        ensures
            r == default_value_of(*property_type),
    {
        match property_type {
            SimplePropertyType::Pan => ChannelValue::MAX / 2,
            SimplePropertyType::Tilt => ChannelValue::MAX / 2,
            _ => 0,
        }
    }
}

/// See [`Channel::get_default_value`].
pub open spec fn default_value_of(p: SimplePropertyType) -> ChannelValue {
    match p {
        SimplePropertyType::Pan => 2147483647u32,
        SimplePropertyType::Tilt => 2147483647u32,
        _ => 0u32,
    }
}

/// A non-color property of a fixture, each controlling one DMX attribute;
/// `Other` names any manufacturer-specific property.
#[derive(Debug)]
pub enum SimplePropertyType {
    Dimmer,
    Strobe,
    Zoom,
    Focus,
    Frost,
    Prism,
    PrismRotation,
    PrismIndexation,
    GoboRotation,
    GoboRotationSpeed,
    GoboWheelRotation,
    GoboWheelRotationSpeed,
    Pan,
    Tilt,
    FogIntensity,
    FogFanSpeed,
    Shutter,
    UV,
    Speed,
    Other(String),
}

impl Clone for SimplePropertyType {
    fn clone(&self) -> (r: Self)
        ensures
            r == *self,
    {
        match self {
            SimplePropertyType::Dimmer => SimplePropertyType::Dimmer,
            SimplePropertyType::Strobe => SimplePropertyType::Strobe,
            SimplePropertyType::Zoom => SimplePropertyType::Zoom,
            SimplePropertyType::Focus => SimplePropertyType::Focus,
            SimplePropertyType::Frost => SimplePropertyType::Frost,
            SimplePropertyType::Prism => SimplePropertyType::Prism,
            SimplePropertyType::PrismRotation => SimplePropertyType::PrismRotation,
            SimplePropertyType::PrismIndexation => SimplePropertyType::PrismIndexation,
            SimplePropertyType::GoboRotation => SimplePropertyType::GoboRotation,
            SimplePropertyType::GoboRotationSpeed => SimplePropertyType::GoboRotationSpeed,
            SimplePropertyType::GoboWheelRotation => SimplePropertyType::GoboWheelRotation,
            SimplePropertyType::GoboWheelRotationSpeed => SimplePropertyType::GoboWheelRotationSpeed,
            SimplePropertyType::Pan => SimplePropertyType::Pan,
            SimplePropertyType::Tilt => SimplePropertyType::Tilt,
            SimplePropertyType::FogIntensity => SimplePropertyType::FogIntensity,
            SimplePropertyType::FogFanSpeed => SimplePropertyType::FogFanSpeed,
            SimplePropertyType::Shutter => SimplePropertyType::Shutter,
            SimplePropertyType::UV => SimplePropertyType::UV,
            SimplePropertyType::Speed => SimplePropertyType::Speed,
            SimplePropertyType::Other(s) => SimplePropertyType::Other(s.clone()),
        }
    }
}

/// The name of a simple property, as it is written on the command line and
/// displayed (an `Other` property is shown by its own name).
pub open spec fn simple_property_name(p: SimplePropertyType) -> Seq<char> {
    match p {
        SimplePropertyType::Dimmer => "dimmer"@,
        SimplePropertyType::Strobe => "strobe"@,
        SimplePropertyType::Zoom => "zoom"@,
        SimplePropertyType::Focus => "focus"@,
        SimplePropertyType::Frost => "frost"@,
        SimplePropertyType::Prism => "prism"@,
        SimplePropertyType::PrismRotation => "prism-rotation"@,
        SimplePropertyType::PrismIndexation => "prism-index"@,
        SimplePropertyType::GoboRotation => "gobo"@,
        SimplePropertyType::GoboRotationSpeed => "gobo-rotation"@,
        SimplePropertyType::GoboWheelRotation => "gobo-wheel-rotation"@,
        SimplePropertyType::GoboWheelRotationSpeed => "gobo-wheel-speed"@,
        SimplePropertyType::Pan => "pan"@,
        SimplePropertyType::Tilt => "tilt"@,
        SimplePropertyType::FogIntensity => "fog-intensity"@,
        SimplePropertyType::FogFanSpeed => "fog-fan-speed"@,
        SimplePropertyType::Shutter => "shutter"@,
        SimplePropertyType::UV => "uv"@,
        SimplePropertyType::Speed => "speed"@,
        SimplePropertyType::Other(s) => s@,
    }
}

/// What identifies a simple property: its variant, and for `Other` its name.
/// Two properties are the same property exactly when their keys are equal.
pub open spec fn simple_key(p: SimplePropertyType) -> (int, Seq<char>) {
    match p {
        SimplePropertyType::Dimmer => (0, Seq::empty()),
        SimplePropertyType::Strobe => (1, Seq::empty()),
        SimplePropertyType::Zoom => (2, Seq::empty()),
        SimplePropertyType::Focus => (3, Seq::empty()),
        SimplePropertyType::Frost => (4, Seq::empty()),
        SimplePropertyType::Prism => (5, Seq::empty()),
        SimplePropertyType::PrismRotation => (6, Seq::empty()),
        SimplePropertyType::PrismIndexation => (7, Seq::empty()),
        SimplePropertyType::GoboRotation => (8, Seq::empty()),
        SimplePropertyType::GoboRotationSpeed => (9, Seq::empty()),
        SimplePropertyType::GoboWheelRotation => (10, Seq::empty()),
        SimplePropertyType::GoboWheelRotationSpeed => (11, Seq::empty()),
        SimplePropertyType::Pan => (12, Seq::empty()),
        SimplePropertyType::Tilt => (13, Seq::empty()),
        SimplePropertyType::FogIntensity => (14, Seq::empty()),
        SimplePropertyType::FogFanSpeed => (15, Seq::empty()),
        SimplePropertyType::Shutter => (16, Seq::empty()),
        SimplePropertyType::UV => (17, Seq::empty()),
        SimplePropertyType::Speed => (18, Seq::empty()),
        SimplePropertyType::Other(s) => (19, s@),
    }
}

/// The simple property with one of the fixed names, if `s` is one.
pub open spec fn named_simple_property(s: Seq<char>) -> Option<SimplePropertyType> {
    if s == "dimmer"@ { Some(SimplePropertyType::Dimmer) }
    else if s == "strobe"@ { Some(SimplePropertyType::Strobe) }
    else if s == "zoom"@ { Some(SimplePropertyType::Zoom) }
    else if s == "focus"@ { Some(SimplePropertyType::Focus) }
    else if s == "frost"@ { Some(SimplePropertyType::Frost) }
    else if s == "prism"@ { Some(SimplePropertyType::Prism) }
    else if s == "prism-rotation"@ { Some(SimplePropertyType::PrismRotation) }
    else if s == "prism-index"@ { Some(SimplePropertyType::PrismIndexation) }
    else if s == "gobo"@ { Some(SimplePropertyType::GoboRotation) }
    else if s == "gobo-rotation"@ { Some(SimplePropertyType::GoboRotationSpeed) }
    else if s == "gobo-wheel-rotation"@ { Some(SimplePropertyType::GoboWheelRotation) }
    else if s == "gobo-wheel-speed"@ { Some(SimplePropertyType::GoboWheelRotationSpeed) }
    else if s == "pan"@ { Some(SimplePropertyType::Pan) }
    else if s == "tilt"@ { Some(SimplePropertyType::Tilt) }
    else if s == "fog-intensity"@ { Some(SimplePropertyType::FogIntensity) }
    else if s == "fog-fan-speed"@ { Some(SimplePropertyType::FogFanSpeed) }
    else if s == "shutter"@ { Some(SimplePropertyType::Shutter) }
    else if s == "uv"@ { Some(SimplePropertyType::UV) }
    else if s == "speed"@ { Some(SimplePropertyType::Speed) }
    else { None }
}

/// Whether `s` starts with the prefix `other_` of manufacturer-specific properties.
pub open spec fn has_other_prefix(s: Seq<char>) -> bool {
    s.len() >= 6 && s.subrange(0, 6) == "other_"@
}

/// What parsing `s` as a simple property gives: a fixed name, or `Other`
/// with the text after `other_`, or an invalid-property error carrying `s`.
pub open spec fn parses_as_simple(s: Seq<char>, r: Result<SimplePropertyType, FixtureError>) -> bool {
    if named_simple_property(s) is Some {
        r == Ok::<SimplePropertyType, FixtureError>(named_simple_property(s)->0)
    } else if has_other_prefix(s) {
        r matches Ok(SimplePropertyType::Other(x)) && x@ == s.skip(6)
    } else {
        r matches Err(FixtureError::InvalidPropertyType(x)) && x@ == s
    }
}

impl SimplePropertyType {
    /// Parses a simple property name; names that start with `other_` give an
    /// `Other` property named by the rest.
    pub fn from_string(s: &str) -> (r: Result<SimplePropertyType, FixtureError>)
        ensures
            parses_as_simple(s@, r),
    {
        let v = chars_of(s);
        if eq_lit(&v, "dimmer") { Ok(SimplePropertyType::Dimmer) }
        else if eq_lit(&v, "strobe") { Ok(SimplePropertyType::Strobe) }
        else if eq_lit(&v, "zoom") { Ok(SimplePropertyType::Zoom) }
        else if eq_lit(&v, "focus") { Ok(SimplePropertyType::Focus) }
        else if eq_lit(&v, "frost") { Ok(SimplePropertyType::Frost) }
        else if eq_lit(&v, "prism") { Ok(SimplePropertyType::Prism) }
        else if eq_lit(&v, "prism-rotation") { Ok(SimplePropertyType::PrismRotation) }
        else if eq_lit(&v, "prism-index") { Ok(SimplePropertyType::PrismIndexation) }
        else if eq_lit(&v, "gobo") { Ok(SimplePropertyType::GoboRotation) }
        else if eq_lit(&v, "gobo-rotation") { Ok(SimplePropertyType::GoboRotationSpeed) }
        else if eq_lit(&v, "gobo-wheel-rotation") { Ok(SimplePropertyType::GoboWheelRotation) }
        else if eq_lit(&v, "gobo-wheel-speed") { Ok(SimplePropertyType::GoboWheelRotationSpeed) }
        else if eq_lit(&v, "pan") { Ok(SimplePropertyType::Pan) }
        else if eq_lit(&v, "tilt") { Ok(SimplePropertyType::Tilt) }
        else if eq_lit(&v, "fog-intensity") { Ok(SimplePropertyType::FogIntensity) }
        else if eq_lit(&v, "fog-fan-speed") { Ok(SimplePropertyType::FogFanSpeed) }
        else if eq_lit(&v, "shutter") { Ok(SimplePropertyType::Shutter) }
        else if eq_lit(&v, "uv") { Ok(SimplePropertyType::UV) }
        else if eq_lit(&v, "speed") { Ok(SimplePropertyType::Speed) }
        else if v.len() >= 6 && range_eq_lit(&v, 0, 6, "other_") {
            let suffix = string_of(&v, 6, v.len());
            assert(v@.subrange(6, v@.len() as int) =~= s@.skip(6));
            Ok(SimplePropertyType::Other(suffix))
        } else {
            Err(FixtureError::InvalidPropertyType(s.to_owned()))
        }
    }

    /// The property's name (see [`simple_property_name`]).
    pub fn name(&self) -> (r: String)
        ensures
            r@ == simple_property_name(*self),
    {
        match self {
            SimplePropertyType::Dimmer => "dimmer".to_owned(),
            SimplePropertyType::Strobe => "strobe".to_owned(),
            SimplePropertyType::Zoom => "zoom".to_owned(),
            SimplePropertyType::Focus => "focus".to_owned(),
            SimplePropertyType::Frost => "frost".to_owned(),
            SimplePropertyType::Prism => "prism".to_owned(),
            SimplePropertyType::PrismRotation => "prism-rotation".to_owned(),
            SimplePropertyType::PrismIndexation => "prism-index".to_owned(),
            SimplePropertyType::GoboRotation => "gobo".to_owned(),
            SimplePropertyType::GoboRotationSpeed => "gobo-rotation".to_owned(),
            SimplePropertyType::GoboWheelRotation => "gobo-wheel-rotation".to_owned(),
            SimplePropertyType::GoboWheelRotationSpeed => "gobo-wheel-speed".to_owned(),
            SimplePropertyType::Pan => "pan".to_owned(),
            SimplePropertyType::Tilt => "tilt".to_owned(),
            SimplePropertyType::FogIntensity => "fog-intensity".to_owned(),
            SimplePropertyType::FogFanSpeed => "fog-fan-speed".to_owned(),
            SimplePropertyType::Shutter => "shutter".to_owned(),
            SimplePropertyType::UV => "uv".to_owned(),
            SimplePropertyType::Speed => "speed".to_owned(),
            SimplePropertyType::Other(s) => s.clone(),
        }
    }

    /// Whether `self` and `other` are the same property (same key).
    pub fn same_as(&self, other: &SimplePropertyType) -> (r: bool)
        ensures
            r == (simple_key(*self) == simple_key(*other)),
    {
        let t1 = self.tag();
        let t2 = other.tag();
        if t1 != t2 {
            return false;
        }
        match (self, other) {
            (SimplePropertyType::Other(a), SimplePropertyType::Other(b)) => *a == *b,
            _ => {
                assert(t1 != 19);
                true
            }
        }
    }

    fn tag(&self) -> (r: u8)
        ensures
            r as int == simple_key(*self).0,
    {
        match self {
            SimplePropertyType::Dimmer => 0,
            SimplePropertyType::Strobe => 1,
            SimplePropertyType::Zoom => 2,
            SimplePropertyType::Focus => 3,
            SimplePropertyType::Frost => 4,
            SimplePropertyType::Prism => 5,
            SimplePropertyType::PrismRotation => 6,
            SimplePropertyType::PrismIndexation => 7,
            SimplePropertyType::GoboRotation => 8,
            SimplePropertyType::GoboRotationSpeed => 9,
            SimplePropertyType::GoboWheelRotation => 10,
            SimplePropertyType::GoboWheelRotationSpeed => 11,
            SimplePropertyType::Pan => 12,
            SimplePropertyType::Tilt => 13,
            SimplePropertyType::FogIntensity => 14,
            SimplePropertyType::FogFanSpeed => 15,
            SimplePropertyType::Shutter => 16,
            SimplePropertyType::UV => 17,
            SimplePropertyType::Speed => 18,
            SimplePropertyType::Other(_) => 19,
        }
    }
}

/// A fixture property: a simple single-attribute property or a color channel.
#[derive(Debug)]
pub enum PropertyType {
    Simple(SimplePropertyType),
    Color(ColorPropertyType),
}

impl Clone for PropertyType {
    fn clone(&self) -> (r: Self)
        ensures
            r == *self,
    {
        match self {
            PropertyType::Simple(p) => PropertyType::Simple(p.clone()),
            PropertyType::Color(c) => PropertyType::Color(*c),
        }
    }
}

/// The displayed name of a property.
pub open spec fn property_name(p: PropertyType) -> Seq<char> {
    match p {
        PropertyType::Simple(s) => simple_property_name(s),
        PropertyType::Color(c) => color_property_name(c),
    }
}

/// What identifies a property; see [`simple_key`].
pub open spec fn property_key(p: PropertyType) -> (int, Seq<char>) {
    match p {
        PropertyType::Simple(s) => simple_key(s),
        PropertyType::Color(c) => (100 + color_tag(c), Seq::empty()),
    }
}

pub open spec fn color_tag(c: ColorPropertyType) -> int {
    match c {
        ColorPropertyType::Red => 0,
        ColorPropertyType::Green => 1,
        ColorPropertyType::Blue => 2,
        ColorPropertyType::Cyan => 3,
        ColorPropertyType::Magenta => 4,
        ColorPropertyType::Yellow => 5,
        ColorPropertyType::Hue => 6,
        ColorPropertyType::Saturation => 7,
        ColorPropertyType::Value => 8,
    }
}

/// What parsing `s` as a property gives: color names first, then simple
/// properties, else an invalid-property error carrying `s`.
pub open spec fn parses_as_property(s: Seq<char>, r: Result<PropertyType, FixtureError>) -> bool {
    if color_property_of(s) is Some {
        r == Ok::<PropertyType, FixtureError>(PropertyType::Color(color_property_of(s)->0))
    } else if named_simple_property(s) is Some {
        r == Ok::<PropertyType, FixtureError>(PropertyType::Simple(named_simple_property(s)->0))
    } else if has_other_prefix(s) {
        r matches Ok(PropertyType::Simple(SimplePropertyType::Other(x))) && x@ == s.skip(6)
    } else {
        r matches Err(FixtureError::InvalidPropertyType(x)) && x@ == s
    }
}

/// Law: the displayed name of a property other than an `Other` one parses
/// back to the property, and to nothing else.
pub proof fn law_property_name_parses_back(p: PropertyType)
    requires
        !(p matches PropertyType::Simple(SimplePropertyType::Other(_))),
    ensures
        forall|r: Result<PropertyType, FixtureError>| parses_as_property(property_name(p), r)
            <==> r == Ok::<PropertyType, FixtureError>(p),
{
    match p {
        PropertyType::Color(c) => {
            lemma_color_name_parses_back(c);
        }
        PropertyType::Simple(sp) => {
            lemma_simple_name_parses_back(sp);
        }
    }
}

proof fn lemma_color_name_parses_back(c: ColorPropertyType)
    ensures
        color_property_of(color_property_name(c)) == Some(c),
{
    reveal_strlit("red");
    reveal_strlit("green");
    reveal_strlit("blue");
    reveal_strlit("cyan");
    reveal_strlit("magenta");
    reveal_strlit("yellow");
    reveal_strlit("hue");
    reveal_strlit("saturation");
    reveal_strlit("value");
    match c {
        ColorPropertyType::Red => {}
        ColorPropertyType::Green => { assert("green"@.len() != "red"@.len()); }
        ColorPropertyType::Blue => { assert("blue"@.len() != "red"@.len()); assert("blue"@.len() != "green"@.len()); }
        ColorPropertyType::Cyan => { assert("cyan"@.len() != "red"@.len()); assert("cyan"@.len() != "green"@.len()); assert("cyan"@[0] != "blue"@[0]); }
        ColorPropertyType::Magenta => { assert("magenta"@.len() != "red"@.len()); assert("magenta"@.len() != "green"@.len()); assert("magenta"@.len() != "blue"@.len()); assert("magenta"@.len() != "cyan"@.len()); }
        ColorPropertyType::Yellow => { assert("yellow"@.len() != "red"@.len()); assert("yellow"@.len() != "green"@.len()); assert("yellow"@.len() != "blue"@.len()); assert("yellow"@.len() != "cyan"@.len()); assert("yellow"@.len() != "magenta"@.len()); }
        ColorPropertyType::Hue => { assert("hue"@[0] != "red"@[0]); assert("hue"@.len() != "green"@.len()); assert("hue"@.len() != "blue"@.len()); assert("hue"@.len() != "cyan"@.len()); assert("hue"@.len() != "magenta"@.len()); assert("hue"@.len() != "yellow"@.len()); }
        ColorPropertyType::Saturation => { assert("saturation"@.len() != "red"@.len()); assert("saturation"@.len() != "green"@.len()); assert("saturation"@.len() != "blue"@.len()); assert("saturation"@.len() != "cyan"@.len()); assert("saturation"@.len() != "magenta"@.len()); assert("saturation"@.len() != "yellow"@.len()); assert("saturation"@.len() != "hue"@.len()); }
        ColorPropertyType::Value => { assert("value"@.len() != "red"@.len()); assert("value"@[0] != "green"@[0]); assert("value"@.len() != "blue"@.len()); assert("value"@.len() != "cyan"@.len()); assert("value"@.len() != "magenta"@.len()); assert("value"@.len() != "yellow"@.len()); assert("value"@.len() != "hue"@.len()); assert("value"@.len() != "saturation"@.len()); }
    }
}

/// The fixed names of simple properties differ from each other and from the
/// color property names; each parses to its property.
proof fn lemma_simple_name_parses_back(p: SimplePropertyType)
    requires
        !(p is Other),
    ensures
        color_property_of(simple_property_name(p)) is None,
        named_simple_property(simple_property_name(p)) == Some(p),
{
    reveal_strlit("red");
    reveal_strlit("green");
    reveal_strlit("blue");
    reveal_strlit("cyan");
    reveal_strlit("magenta");
    reveal_strlit("yellow");
    reveal_strlit("hue");
    reveal_strlit("saturation");
    reveal_strlit("value");
    reveal_strlit("dimmer");
    reveal_strlit("strobe");
    reveal_strlit("zoom");
    reveal_strlit("focus");
    reveal_strlit("frost");
    reveal_strlit("prism");
    reveal_strlit("prism-rotation");
    reveal_strlit("prism-index");
    reveal_strlit("gobo");
    reveal_strlit("gobo-rotation");
    reveal_strlit("gobo-wheel-rotation");
    reveal_strlit("gobo-wheel-speed");
    reveal_strlit("pan");
    reveal_strlit("tilt");
    reveal_strlit("fog-intensity");
    reveal_strlit("fog-fan-speed");
    reveal_strlit("shutter");
    reveal_strlit("uv");
    reveal_strlit("speed");
    match p {
        SimplePropertyType::Dimmer => {
            assert("dimmer"@.len() != "red"@.len()); assert("dimmer"@.len() != "green"@.len()); assert("dimmer"@.len() != "blue"@.len());
            assert("dimmer"@.len() != "cyan"@.len()); assert("dimmer"@.len() != "magenta"@.len()); assert("dimmer"@[0] != "yellow"@[0]);
            assert("dimmer"@.len() != "hue"@.len()); assert("dimmer"@.len() != "saturation"@.len()); assert("dimmer"@.len() != "value"@.len());
        }
        SimplePropertyType::Strobe => {
            assert("strobe"@.len() != "red"@.len()); assert("strobe"@.len() != "green"@.len()); assert("strobe"@.len() != "blue"@.len());
            assert("strobe"@.len() != "cyan"@.len()); assert("strobe"@.len() != "magenta"@.len()); assert("strobe"@[0] != "yellow"@[0]);
            assert("strobe"@.len() != "hue"@.len()); assert("strobe"@.len() != "saturation"@.len()); assert("strobe"@.len() != "value"@.len());
            assert("strobe"@[0] != "dimmer"@[0]);
        }
        SimplePropertyType::Zoom => {
            assert("zoom"@.len() != "red"@.len()); assert("zoom"@.len() != "green"@.len()); assert("zoom"@[0] != "blue"@[0]);
            assert("zoom"@[0] != "cyan"@[0]); assert("zoom"@.len() != "magenta"@.len()); assert("zoom"@.len() != "yellow"@.len());
            assert("zoom"@.len() != "hue"@.len()); assert("zoom"@.len() != "saturation"@.len()); assert("zoom"@.len() != "value"@.len());
            assert("zoom"@.len() != "dimmer"@.len()); assert("zoom"@.len() != "strobe"@.len());
        }
        SimplePropertyType::Focus => {
            assert("focus"@.len() != "red"@.len()); assert("focus"@[0] != "green"@[0]); assert("focus"@.len() != "blue"@.len());
            assert("focus"@.len() != "cyan"@.len()); assert("focus"@.len() != "magenta"@.len()); assert("focus"@.len() != "yellow"@.len());
            assert("focus"@.len() != "hue"@.len()); assert("focus"@.len() != "saturation"@.len()); assert("focus"@[0] != "value"@[0]);
            assert("focus"@.len() != "dimmer"@.len()); assert("focus"@.len() != "strobe"@.len()); assert("focus"@.len() != "zoom"@.len());
        }
        SimplePropertyType::Frost => {
            assert("frost"@.len() != "red"@.len()); assert("frost"@[0] != "green"@[0]); assert("frost"@.len() != "blue"@.len());
            assert("frost"@.len() != "cyan"@.len()); assert("frost"@.len() != "magenta"@.len()); assert("frost"@.len() != "yellow"@.len());
            assert("frost"@.len() != "hue"@.len()); assert("frost"@.len() != "saturation"@.len()); assert("frost"@[0] != "value"@[0]);
            assert("frost"@.len() != "dimmer"@.len()); assert("frost"@.len() != "strobe"@.len()); assert("frost"@.len() != "zoom"@.len());
            assert("frost"@[1] != "focus"@[1]);
        }
        SimplePropertyType::Prism => {
            assert("prism"@.len() != "red"@.len()); assert("prism"@[0] != "green"@[0]); assert("prism"@.len() != "blue"@.len());
            assert("prism"@.len() != "cyan"@.len()); assert("prism"@.len() != "magenta"@.len()); assert("prism"@.len() != "yellow"@.len());
            assert("prism"@.len() != "hue"@.len()); assert("prism"@.len() != "saturation"@.len()); assert("prism"@[0] != "value"@[0]);
            assert("prism"@.len() != "dimmer"@.len()); assert("prism"@.len() != "strobe"@.len()); assert("prism"@.len() != "zoom"@.len());
            assert("prism"@[0] != "focus"@[0]); assert("prism"@[0] != "frost"@[0]);
        }
        SimplePropertyType::PrismRotation => {
            assert("prism-rotation"@.len() != "red"@.len()); assert("prism-rotation"@.len() != "green"@.len()); assert("prism-rotation"@.len() != "blue"@.len());
            assert("prism-rotation"@.len() != "cyan"@.len()); assert("prism-rotation"@.len() != "magenta"@.len()); assert("prism-rotation"@.len() != "yellow"@.len());
            assert("prism-rotation"@.len() != "hue"@.len()); assert("prism-rotation"@.len() != "saturation"@.len()); assert("prism-rotation"@.len() != "value"@.len());
            assert("prism-rotation"@.len() != "dimmer"@.len()); assert("prism-rotation"@.len() != "strobe"@.len()); assert("prism-rotation"@.len() != "zoom"@.len());
            assert("prism-rotation"@.len() != "focus"@.len()); assert("prism-rotation"@.len() != "frost"@.len()); assert("prism-rotation"@.len() != "prism"@.len());
        }
        SimplePropertyType::PrismIndexation => {
            assert("prism-index"@.len() != "red"@.len()); assert("prism-index"@.len() != "green"@.len()); assert("prism-index"@.len() != "blue"@.len());
            assert("prism-index"@.len() != "cyan"@.len()); assert("prism-index"@.len() != "magenta"@.len()); assert("prism-index"@.len() != "yellow"@.len());
            assert("prism-index"@.len() != "hue"@.len()); assert("prism-index"@.len() != "saturation"@.len()); assert("prism-index"@.len() != "value"@.len());
            assert("prism-index"@.len() != "dimmer"@.len()); assert("prism-index"@.len() != "strobe"@.len()); assert("prism-index"@.len() != "zoom"@.len());
            assert("prism-index"@.len() != "focus"@.len()); assert("prism-index"@.len() != "frost"@.len()); assert("prism-index"@.len() != "prism"@.len());
            assert("prism-index"@.len() != "prism-rotation"@.len());
        }
        SimplePropertyType::GoboRotation => {
            assert("gobo"@.len() != "red"@.len()); assert("gobo"@.len() != "green"@.len()); assert("gobo"@[0] != "blue"@[0]);
            assert("gobo"@[0] != "cyan"@[0]); assert("gobo"@.len() != "magenta"@.len()); assert("gobo"@.len() != "yellow"@.len());
            assert("gobo"@.len() != "hue"@.len()); assert("gobo"@.len() != "saturation"@.len()); assert("gobo"@.len() != "value"@.len());
            assert("gobo"@.len() != "dimmer"@.len()); assert("gobo"@.len() != "strobe"@.len()); assert("gobo"@[0] != "zoom"@[0]);
            assert("gobo"@.len() != "focus"@.len()); assert("gobo"@.len() != "frost"@.len()); assert("gobo"@.len() != "prism"@.len());
            assert("gobo"@.len() != "prism-rotation"@.len()); assert("gobo"@.len() != "prism-index"@.len());
        }
        SimplePropertyType::GoboRotationSpeed => {
            assert("gobo-rotation"@.len() != "red"@.len()); assert("gobo-rotation"@.len() != "green"@.len()); assert("gobo-rotation"@.len() != "blue"@.len());
            assert("gobo-rotation"@.len() != "cyan"@.len()); assert("gobo-rotation"@.len() != "magenta"@.len()); assert("gobo-rotation"@.len() != "yellow"@.len());
            assert("gobo-rotation"@.len() != "hue"@.len()); assert("gobo-rotation"@.len() != "saturation"@.len()); assert("gobo-rotation"@.len() != "value"@.len());
            assert("gobo-rotation"@.len() != "dimmer"@.len()); assert("gobo-rotation"@.len() != "strobe"@.len()); assert("gobo-rotation"@.len() != "zoom"@.len());
            assert("gobo-rotation"@.len() != "focus"@.len()); assert("gobo-rotation"@.len() != "frost"@.len()); assert("gobo-rotation"@.len() != "prism"@.len());
            assert("gobo-rotation"@.len() != "prism-rotation"@.len()); assert("gobo-rotation"@.len() != "prism-index"@.len()); assert("gobo-rotation"@.len() != "gobo"@.len());
        }
        SimplePropertyType::GoboWheelRotation => {
            assert("gobo-wheel-rotation"@.len() != "red"@.len()); assert("gobo-wheel-rotation"@.len() != "green"@.len()); assert("gobo-wheel-rotation"@.len() != "blue"@.len());
            assert("gobo-wheel-rotation"@.len() != "cyan"@.len()); assert("gobo-wheel-rotation"@.len() != "magenta"@.len()); assert("gobo-wheel-rotation"@.len() != "yellow"@.len());
            assert("gobo-wheel-rotation"@.len() != "hue"@.len()); assert("gobo-wheel-rotation"@.len() != "saturation"@.len()); assert("gobo-wheel-rotation"@.len() != "value"@.len());
            assert("gobo-wheel-rotation"@.len() != "dimmer"@.len()); assert("gobo-wheel-rotation"@.len() != "strobe"@.len()); assert("gobo-wheel-rotation"@.len() != "zoom"@.len());
            assert("gobo-wheel-rotation"@.len() != "focus"@.len()); assert("gobo-wheel-rotation"@.len() != "frost"@.len()); assert("gobo-wheel-rotation"@.len() != "prism"@.len());
            assert("gobo-wheel-rotation"@.len() != "prism-rotation"@.len()); assert("gobo-wheel-rotation"@.len() != "prism-index"@.len()); assert("gobo-wheel-rotation"@.len() != "gobo"@.len());
            assert("gobo-wheel-rotation"@.len() != "gobo-rotation"@.len());
        }
        SimplePropertyType::GoboWheelRotationSpeed => {
            assert("gobo-wheel-speed"@.len() != "red"@.len()); assert("gobo-wheel-speed"@.len() != "green"@.len()); assert("gobo-wheel-speed"@.len() != "blue"@.len());
            assert("gobo-wheel-speed"@.len() != "cyan"@.len()); assert("gobo-wheel-speed"@.len() != "magenta"@.len()); assert("gobo-wheel-speed"@.len() != "yellow"@.len());
            assert("gobo-wheel-speed"@.len() != "hue"@.len()); assert("gobo-wheel-speed"@.len() != "saturation"@.len()); assert("gobo-wheel-speed"@.len() != "value"@.len());
            assert("gobo-wheel-speed"@.len() != "dimmer"@.len()); assert("gobo-wheel-speed"@.len() != "strobe"@.len()); assert("gobo-wheel-speed"@.len() != "zoom"@.len());
            assert("gobo-wheel-speed"@.len() != "focus"@.len()); assert("gobo-wheel-speed"@.len() != "frost"@.len()); assert("gobo-wheel-speed"@.len() != "prism"@.len());
            assert("gobo-wheel-speed"@.len() != "prism-rotation"@.len()); assert("gobo-wheel-speed"@.len() != "prism-index"@.len()); assert("gobo-wheel-speed"@.len() != "gobo"@.len());
            assert("gobo-wheel-speed"@.len() != "gobo-rotation"@.len()); assert("gobo-wheel-speed"@.len() != "gobo-wheel-rotation"@.len());
        }
        SimplePropertyType::Pan => {
            assert("pan"@[0] != "red"@[0]); assert("pan"@.len() != "green"@.len()); assert("pan"@.len() != "blue"@.len());
            assert("pan"@.len() != "cyan"@.len()); assert("pan"@.len() != "magenta"@.len()); assert("pan"@.len() != "yellow"@.len());
            assert("pan"@[0] != "hue"@[0]); assert("pan"@.len() != "saturation"@.len()); assert("pan"@.len() != "value"@.len());
            assert("pan"@.len() != "dimmer"@.len()); assert("pan"@.len() != "strobe"@.len()); assert("pan"@.len() != "zoom"@.len());
            assert("pan"@.len() != "focus"@.len()); assert("pan"@.len() != "frost"@.len()); assert("pan"@.len() != "prism"@.len());
            assert("pan"@.len() != "prism-rotation"@.len()); assert("pan"@.len() != "prism-index"@.len()); assert("pan"@.len() != "gobo"@.len());
            assert("pan"@.len() != "gobo-rotation"@.len()); assert("pan"@.len() != "gobo-wheel-rotation"@.len()); assert("pan"@.len() != "gobo-wheel-speed"@.len());
        }
        SimplePropertyType::Tilt => {
            assert("tilt"@.len() != "red"@.len()); assert("tilt"@.len() != "green"@.len()); assert("tilt"@[0] != "blue"@[0]);
            assert("tilt"@[0] != "cyan"@[0]); assert("tilt"@.len() != "magenta"@.len()); assert("tilt"@.len() != "yellow"@.len());
            assert("tilt"@.len() != "hue"@.len()); assert("tilt"@.len() != "saturation"@.len()); assert("tilt"@.len() != "value"@.len());
            assert("tilt"@.len() != "dimmer"@.len()); assert("tilt"@.len() != "strobe"@.len()); assert("tilt"@[0] != "zoom"@[0]);
            assert("tilt"@.len() != "focus"@.len()); assert("tilt"@.len() != "frost"@.len()); assert("tilt"@.len() != "prism"@.len());
            assert("tilt"@.len() != "prism-rotation"@.len()); assert("tilt"@.len() != "prism-index"@.len()); assert("tilt"@[0] != "gobo"@[0]);
            assert("tilt"@.len() != "gobo-rotation"@.len()); assert("tilt"@.len() != "gobo-wheel-rotation"@.len()); assert("tilt"@.len() != "gobo-wheel-speed"@.len());
            assert("tilt"@.len() != "pan"@.len());
        }
        SimplePropertyType::FogIntensity => {
            assert("fog-intensity"@.len() != "red"@.len()); assert("fog-intensity"@.len() != "green"@.len()); assert("fog-intensity"@.len() != "blue"@.len());
            assert("fog-intensity"@.len() != "cyan"@.len()); assert("fog-intensity"@.len() != "magenta"@.len()); assert("fog-intensity"@.len() != "yellow"@.len());
            assert("fog-intensity"@.len() != "hue"@.len()); assert("fog-intensity"@.len() != "saturation"@.len()); assert("fog-intensity"@.len() != "value"@.len());
            assert("fog-intensity"@.len() != "dimmer"@.len()); assert("fog-intensity"@.len() != "strobe"@.len()); assert("fog-intensity"@.len() != "zoom"@.len());
            assert("fog-intensity"@.len() != "focus"@.len()); assert("fog-intensity"@.len() != "frost"@.len()); assert("fog-intensity"@.len() != "prism"@.len());
            assert("fog-intensity"@.len() != "prism-rotation"@.len()); assert("fog-intensity"@.len() != "prism-index"@.len()); assert("fog-intensity"@.len() != "gobo"@.len());
            assert("fog-intensity"@[0] != "gobo-rotation"@[0]); assert("fog-intensity"@.len() != "gobo-wheel-rotation"@.len()); assert("fog-intensity"@.len() != "gobo-wheel-speed"@.len());
            assert("fog-intensity"@.len() != "pan"@.len()); assert("fog-intensity"@.len() != "tilt"@.len());
        }
        SimplePropertyType::FogFanSpeed => {
            assert("fog-fan-speed"@.len() != "red"@.len()); assert("fog-fan-speed"@.len() != "green"@.len()); assert("fog-fan-speed"@.len() != "blue"@.len());
            assert("fog-fan-speed"@.len() != "cyan"@.len()); assert("fog-fan-speed"@.len() != "magenta"@.len()); assert("fog-fan-speed"@.len() != "yellow"@.len());
            assert("fog-fan-speed"@.len() != "hue"@.len()); assert("fog-fan-speed"@.len() != "saturation"@.len()); assert("fog-fan-speed"@.len() != "value"@.len());
            assert("fog-fan-speed"@.len() != "dimmer"@.len()); assert("fog-fan-speed"@.len() != "strobe"@.len()); assert("fog-fan-speed"@.len() != "zoom"@.len());
            assert("fog-fan-speed"@.len() != "focus"@.len()); assert("fog-fan-speed"@.len() != "frost"@.len()); assert("fog-fan-speed"@.len() != "prism"@.len());
            assert("fog-fan-speed"@.len() != "prism-rotation"@.len()); assert("fog-fan-speed"@.len() != "prism-index"@.len()); assert("fog-fan-speed"@.len() != "gobo"@.len());
            assert("fog-fan-speed"@[0] != "gobo-rotation"@[0]); assert("fog-fan-speed"@.len() != "gobo-wheel-rotation"@.len()); assert("fog-fan-speed"@.len() != "gobo-wheel-speed"@.len());
            assert("fog-fan-speed"@.len() != "pan"@.len()); assert("fog-fan-speed"@.len() != "tilt"@.len()); assert("fog-fan-speed"@[4] != "fog-intensity"@[4]);
        }
        SimplePropertyType::Shutter => {
            assert("shutter"@.len() != "red"@.len()); assert("shutter"@.len() != "green"@.len()); assert("shutter"@.len() != "blue"@.len());
            assert("shutter"@.len() != "cyan"@.len()); assert("shutter"@[0] != "magenta"@[0]); assert("shutter"@.len() != "yellow"@.len());
            assert("shutter"@.len() != "hue"@.len()); assert("shutter"@.len() != "saturation"@.len()); assert("shutter"@.len() != "value"@.len());
            assert("shutter"@.len() != "dimmer"@.len()); assert("shutter"@.len() != "strobe"@.len()); assert("shutter"@.len() != "zoom"@.len());
            assert("shutter"@.len() != "focus"@.len()); assert("shutter"@.len() != "frost"@.len()); assert("shutter"@.len() != "prism"@.len());
            assert("shutter"@.len() != "prism-rotation"@.len()); assert("shutter"@.len() != "prism-index"@.len()); assert("shutter"@.len() != "gobo"@.len());
            assert("shutter"@.len() != "gobo-rotation"@.len()); assert("shutter"@.len() != "gobo-wheel-rotation"@.len()); assert("shutter"@.len() != "gobo-wheel-speed"@.len());
            assert("shutter"@.len() != "pan"@.len()); assert("shutter"@.len() != "tilt"@.len()); assert("shutter"@.len() != "fog-intensity"@.len());
            assert("shutter"@.len() != "fog-fan-speed"@.len());
        }
        SimplePropertyType::UV => {
            assert("uv"@.len() != "red"@.len()); assert("uv"@.len() != "green"@.len()); assert("uv"@.len() != "blue"@.len());
            assert("uv"@.len() != "cyan"@.len()); assert("uv"@.len() != "magenta"@.len()); assert("uv"@.len() != "yellow"@.len());
            assert("uv"@.len() != "hue"@.len()); assert("uv"@.len() != "saturation"@.len()); assert("uv"@.len() != "value"@.len());
            assert("uv"@.len() != "dimmer"@.len()); assert("uv"@.len() != "strobe"@.len()); assert("uv"@.len() != "zoom"@.len());
            assert("uv"@.len() != "focus"@.len()); assert("uv"@.len() != "frost"@.len()); assert("uv"@.len() != "prism"@.len());
            assert("uv"@.len() != "prism-rotation"@.len()); assert("uv"@.len() != "prism-index"@.len()); assert("uv"@.len() != "gobo"@.len());
            assert("uv"@.len() != "gobo-rotation"@.len()); assert("uv"@.len() != "gobo-wheel-rotation"@.len()); assert("uv"@.len() != "gobo-wheel-speed"@.len());
            assert("uv"@.len() != "pan"@.len()); assert("uv"@.len() != "tilt"@.len()); assert("uv"@.len() != "fog-intensity"@.len());
            assert("uv"@.len() != "fog-fan-speed"@.len()); assert("uv"@.len() != "shutter"@.len());
        }
        SimplePropertyType::Speed => {
            assert("speed"@.len() != "red"@.len()); assert("speed"@[0] != "green"@[0]); assert("speed"@.len() != "blue"@.len());
            assert("speed"@.len() != "cyan"@.len()); assert("speed"@.len() != "magenta"@.len()); assert("speed"@.len() != "yellow"@.len());
            assert("speed"@.len() != "hue"@.len()); assert("speed"@.len() != "saturation"@.len()); assert("speed"@[0] != "value"@[0]);
            assert("speed"@.len() != "dimmer"@.len()); assert("speed"@.len() != "strobe"@.len()); assert("speed"@.len() != "zoom"@.len());
            assert("speed"@[0] != "focus"@[0]); assert("speed"@[0] != "frost"@[0]); assert("speed"@[0] != "prism"@[0]);
            assert("speed"@.len() != "prism-rotation"@.len()); assert("speed"@.len() != "prism-index"@.len()); assert("speed"@.len() != "gobo"@.len());
            assert("speed"@.len() != "gobo-rotation"@.len()); assert("speed"@.len() != "gobo-wheel-rotation"@.len()); assert("speed"@.len() != "gobo-wheel-speed"@.len());
            assert("speed"@.len() != "pan"@.len()); assert("speed"@.len() != "tilt"@.len()); assert("speed"@.len() != "fog-intensity"@.len());
            assert("speed"@.len() != "fog-fan-speed"@.len()); assert("speed"@.len() != "shutter"@.len()); assert("speed"@.len() != "uv"@.len());
        }
        SimplePropertyType::Other(_) => {}
    }
}

impl PropertyType {
    /// Parses a property name: color properties are tried first, then simple
    /// ones.
    pub fn from_str(property_type: &str) -> (r: Result<PropertyType, FixtureError>)
        ensures
            parses_as_property(property_type@, r),
    {
        if let Ok(p) = ColorPropertyType::from_string(property_type) {
            Ok(PropertyType::Color(p))
        } else if let Ok(p) = SimplePropertyType::from_string(property_type) {
            Ok(PropertyType::Simple(p))
        } else {
            Err(FixtureError::InvalidPropertyType(property_type.to_owned()))
        }
    }

    /// The property's displayed name.
    pub fn name(&self) -> (r: String)
        ensures
            r@ == property_name(*self),
    {
        match self {
            PropertyType::Simple(p) => p.name(),
            PropertyType::Color(c) => c.name(),
        }
    }

    /// Whether `self` and `other` are the same property.
    pub fn same_as(&self, other: &PropertyType) -> (r: bool)
        ensures
            r == (property_key(*self) == property_key(*other)),
    {
        match (self, other) {
            (PropertyType::Simple(a), PropertyType::Simple(b)) => {
                let r = a.same_as(b);
                proof {
                    assert(simple_key(*a).0 < 100);
                    assert(simple_key(*b).0 < 100);
                }
                r
            }
            (PropertyType::Color(a), PropertyType::Color(b)) => *a == *b,
            (PropertyType::Simple(a), PropertyType::Color(_)) => {
                assert(simple_key(*a).0 < 100);
                false
            }
            (PropertyType::Color(_), PropertyType::Simple(b)) => {
                assert(simple_key(*b).0 < 100);
                false
            }
        }
    }
}

/// Errors when laying out, reserving or addressing DMX channels.
#[derive(Debug)]
pub enum ChannelError {
    /// The channel number exceeds `MAX_CHANNEL`.
    ChannelOutOfRange,
    /// The universe does not exist.
    UniverseOutOfRange,
    /// The channel is already reserved; the text names the holder.
    ChannelAlreadyInUse(String),
    /// A fine channel of this degree has already been added.
    FineDegreeExists(usize),
    /// A lower fine degree has not been added yet.
    FineDegreeTooHigh(usize),
    /// The degree exceeds `MAX_FINE_DEGREES`.
    FineDegreeOutOfRange(usize),
}

impl Clone for ChannelError {
    fn clone(&self) -> (r: Self)
        ensures
            r == *self,
    {
        match self {
            ChannelError::ChannelOutOfRange => ChannelError::ChannelOutOfRange,
            ChannelError::UniverseOutOfRange => ChannelError::UniverseOutOfRange,
            ChannelError::ChannelAlreadyInUse(s) => ChannelError::ChannelAlreadyInUse(s.clone()),
            ChannelError::FineDegreeExists(d) => ChannelError::FineDegreeExists(*d),
            ChannelError::FineDegreeTooHigh(d) => ChannelError::FineDegreeTooHigh(*d),
            ChannelError::FineDegreeOutOfRange(d) => ChannelError::FineDegreeOutOfRange(*d),
        }
    }
}


/// The absolute address of a channel, computed without overflow.
fn abs_index_wide(c: ChannelInUniverse) -> (r: u128)
    ensures
        r as int == abs_index(c),
{
    (c.1 as u128) * 512 + (c.0 as u128)
}

/// Whether `c` keeps fitting in `usize` when moved from `old_start` to `new_start`.
pub open spec fn shiftable(c: ChannelInUniverse, old_start: ChannelInUniverse, new_start: ChannelInUniverse) -> bool {
    abs_index(new_start) + abs_index(c) - abs_index(old_start) <= usize::MAX
}

/// Whether every address of the list keeps fitting when moved.
pub open spec fn all_shiftable(addrs: Seq<ChannelInUniverse>, old_start: ChannelInUniverse, new_start: ChannelInUniverse) -> bool {
    forall|j: int| 0 <= j < addrs.len() ==> shiftable(#[trigger] addrs[j], old_start, new_start)
}

/// Whether every address of the list can be moved (see [`can_move`]).
pub open spec fn all_can_move(addrs: Seq<ChannelInUniverse>, old_start: ChannelInUniverse, new_start: ChannelInUniverse) -> bool {
    forall|j: int| 0 <= j < addrs.len() ==> can_move(#[trigger] addrs[j], old_start, new_start)
}

/// Decides [`shiftable`].
fn shiftable_exec(c: ChannelInUniverse, old_start: ChannelInUniverse, new_start: ChannelInUniverse) -> (r: bool)
    ensures
        r == shiftable(c, old_start, new_start),
{
    let a = abs_index_wide(c);
    let o = abs_index_wide(old_start);
    let n = abs_index_wide(new_start);
    if n + a < o {
        true
    } else {
        n + a - o <= usize::MAX as u128
    }
}

/// Decides [`can_move`].
fn can_move_exec(c: ChannelInUniverse, old_start: ChannelInUniverse, new_start: ChannelInUniverse) -> (r: bool)
    ensures
        r == can_move(c, old_start, new_start),
{
    let a = abs_index_wide(c);
    let o = abs_index_wide(old_start);
    let n = abs_index_wide(new_start);
    a <= usize::MAX as u128 && o <= a && n + a - o <= usize::MAX as u128
}

impl ChannelParameter {
    /// Whether every channel of the layout can be moved from `old_start` to `new_start`.
    pub fn can_move_all(&self, old_start: ChannelInUniverse, new_start: ChannelInUniverse) -> (r: bool)
        ensures
            r == all_can_move(self@, old_start, new_start),
    {
        let n = self.channel_count();
        let mut j: usize = 0;
        while j < n
            invariant
                n == self@.len(),
                j <= n,
                forall|x: int| 0 <= x < j ==> can_move(#[trigger] self@[x], old_start, new_start),
            decreases n - j,
        {
            if !can_move_exec(self.channel_at(j), old_start, new_start) {
                return false;
            }
            j = j + 1;
        }
        true
    }
}

impl Channel {
    /// Whether every address keeps fitting when moved from `old_start` to `new_start`.
    pub fn all_shiftable(&self, old_start: ChannelInUniverse, new_start: ChannelInUniverse) -> (r: bool)
        ensures
            r == all_shiftable(self@.1, old_start, new_start),
    {
        let n = self.channel_count();
        let mut j: usize = 0;
        while j < n
            invariant
                n == self@.1.len(),
                j <= n,
                forall|x: int| 0 <= x < j ==> shiftable(#[trigger] self@.1[x], old_start, new_start),
            decreases n - j,
        {
            if !shiftable_exec(self.channel_at(j), old_start, new_start) {
                return false;
            }
            j = j + 1;
        }
        true
    }
}

/// Whether the layout channel `c`, placed with the layout's start at channel
/// `sc`, stays inside its universe.
pub open spec fn within_universe(c: ChannelInUniverse, sc: ChannelIndex) -> bool {
    sc + c.0 < 512
}

/// Whether every channel of the layout, placed at channel `sc`, stays inside its universe.
pub open spec fn all_within_universe(addrs: Seq<ChannelInUniverse>, sc: ChannelIndex) -> bool {
    forall|j: int| 0 <= j < addrs.len() ==> within_universe(#[trigger] addrs[j], sc)
}

/// Whether `c`, moved from `old_start` to `new_start`, stays inside the new
/// start's universe: it lies at or after the old start channel, and its
/// channel offset from the start, added to the new start channel, stays below
/// 512.
pub open spec fn stays_in_universe(c: ChannelInUniverse, old_start: ChannelInUniverse, new_start: ChannelInUniverse) -> bool {
    old_start.0 <= c.0 && new_start.0 + c.0 - old_start.0 < 512
}

/// A channel that stays inside the new start's universe keeps its channel
/// offset and its universe offset from the start when moved.
pub proof fn lemma_moved_offsets(c: ChannelInUniverse, old_start: ChannelInUniverse, new_start: ChannelInUniverse)
    requires
        stays_in_universe(c, old_start, new_start),
        abs_index(old_start) <= abs_index(c),
        abs_index(new_start) + abs_index(c) - abs_index(old_start) <= usize::MAX,
    ensures
        moved(c, old_start, new_start).0 == new_start.0 + c.0 - old_start.0,
        moved(c, old_start, new_start).1 == new_start.1 + c.1 - old_start.1,
{
    let a = abs_index(new_start) + abs_index(c) - abs_index(old_start);
    let q = new_start.1 + c.1 - old_start.1;
    let r = new_start.0 + c.0 - old_start.0;
    assert(a == q * 512 + r);
    vstd::arithmetic::div_mod::lemma_fundamental_div_mod_converse(a, 512, q, r);
    lemma_from_abs(a);
}

/// Whether every address of the list stays inside the new start's universe when moved.
pub open spec fn all_stay_in_universe(addrs: Seq<ChannelInUniverse>, old_start: ChannelInUniverse,
    new_start: ChannelInUniverse) -> bool {
    forall|j: int| 0 <= j < addrs.len() ==> stays_in_universe(#[trigger] addrs[j], old_start, new_start)
}

/// Decides [`stays_in_universe`].
fn stays_in_universe_exec(c: ChannelInUniverse, old_start: ChannelInUniverse, new_start: ChannelInUniverse) -> (r: bool)
    ensures
        r == stays_in_universe(c, old_start, new_start),
{
    old_start.0 <= c.0 && (new_start.0 as u32) + (c.0 as u32) < 512 + (old_start.0 as u32)
}

impl ChannelParameter {
    /// Whether every channel of the layout, placed at channel `sc`, stays inside its universe.
    pub fn all_within_universe(&self, sc: ChannelIndex) -> (r: bool)
        ensures
            r == all_within_universe(self@, sc),
    {
        let n = self.channel_count();
        let mut j: usize = 0;
        while j < n
            invariant
                n == self@.len(),
                j <= n,
                forall|x: int| 0 <= x < j ==> within_universe(#[trigger] self@[x], sc),
            decreases n - j,
        {
            let c = self.channel_at(j);
            if (sc as u32) + (c.0 as u32) >= 512 {
                return false;
            }
            j = j + 1;
        }
        true
    }
}

impl Channel {
    /// Whether every address stays inside the new start's universe when moved
    /// from `old_start` to `new_start`.
    pub fn all_stay_in_universe(&self, old_start: ChannelInUniverse, new_start: ChannelInUniverse) -> (r: bool)
        ensures
            r == all_stay_in_universe(self@.1, old_start, new_start),
    {
        let n = self.channel_count();
        let mut j: usize = 0;
        while j < n
            invariant
                n == self@.1.len(),
                j <= n,
                forall|x: int| 0 <= x < j ==> stays_in_universe(#[trigger] self@.1[x], old_start, new_start),
            decreases n - j,
        {
            if !stays_in_universe_exec(self.channel_at(j), old_start, new_start) {
                return false;
            }
            j = j + 1;
        }
        true
    }
}

/// Law: pan and tilt start centered, at half the largest value; every other
/// simple property starts at 0.
pub proof fn law_default_values(p: SimplePropertyType)
    ensures
        (p is Pan || p is Tilt) ==> default_value_of(p) == ChannelValue::MAX / 2,
        !(p is Pan || p is Tilt) ==> default_value_of(p) == 0,
{
}

} // verus!
