//! Lighting fixtures: fixture types (templates of property channel layouts),
//! fixture instances placed in the DMX address space, and the DMX output
//! they produce.
pub mod channel;
pub mod color;
pub mod fixture_type;

use vstd::prelude::*;
pub use crate::fixture::channel::{ChannelError, ChannelParameter, PropertyType, SimplePropertyType, Channel};
pub use crate::fixture::color::{ColorPropertyType, ColorType, Color, OutputType, ColorModelInput};
pub use crate::fixture::fixture_type::{FixtureType, FixtureTypeRegistry};
use crate::fixture::channel::{abs_index, can_move, moved, normalized, output_of, simple_key, lemma_from_abs,
    default_value_of, shiftable, within_universe, stays_in_universe, lemma_moved_offsets};
use crate::fixture::color::{ColorView, color_channels, conversion_for, after_rgb, after_hsv, fits_at,
    initial_color, can_shift, shifted, opt_shiftable, opt_within_universe, opt_stay_in_universe};
use crate::fixture::fixture_type::{FixtureTypeView, has_type, registry_wf, type_wf, lists_distinct, layout_lists, opt_list,
    slot_lists};

verus! {

/// The raw value of a property.
pub type ChannelValue = u32;

/// The largest number of channels of one property (coarse, fine, ultra, uber).
pub const MAX_FINE_DEGREES: usize = 4;

/// The index of a channel within a universe.
pub type ChannelIndex = u16;

/// The number of channels of a DMX universe.
pub const MAX_CHANNEL: ChannelIndex = 512;

/// The index of a DMX universe.
pub type UniverseIndex = usize;

/// A channel of a universe.
pub type ChannelInUniverse = (ChannelIndex, UniverseIndex);

/// Errors of fixture and fixture type management.
#[derive(Debug)]
pub enum FixtureError {
    /// The name is neither a simple nor a color property.
    InvalidPropertyType(String),
    /// A fixture type mixes color models.
    MultipleColorOutputTypes(String),
    /// A fixture with this name exists.
    FixtureNameAlreadyInUse(String),
    /// A fixture type with this name exists.
    FixtureTypeNameAlreadyInUse(String),
    /// No fixture type has this name.
    InvalidFixtureType(String),
    /// No fixture has this name.
    InvalidFixture(String),
    /// The fixture does not have this property.
    MissingProperty(PropertyType),
    /// The channel reservations and the fixtures disagree.
    DmxStateDesync,
    /// A channel operation failed.
    ChannelError(ChannelError),
}

impl Clone for FixtureError {
    fn clone(&self) -> (r: Self)
        ensures
            r == *self,
    {
        match self {
            FixtureError::InvalidPropertyType(s) => FixtureError::InvalidPropertyType(s.clone()),
            FixtureError::MultipleColorOutputTypes(s) => FixtureError::MultipleColorOutputTypes(s.clone()),
            FixtureError::FixtureNameAlreadyInUse(s) => FixtureError::FixtureNameAlreadyInUse(s.clone()),
            FixtureError::FixtureTypeNameAlreadyInUse(s) => FixtureError::FixtureTypeNameAlreadyInUse(s.clone()),
            FixtureError::InvalidFixtureType(s) => FixtureError::InvalidFixtureType(s.clone()),
            FixtureError::InvalidFixture(s) => FixtureError::InvalidFixture(s.clone()),
            FixtureError::MissingProperty(p) => FixtureError::MissingProperty(p.clone()),
            FixtureError::DmxStateDesync => FixtureError::DmxStateDesync,
            FixtureError::ChannelError(e) => FixtureError::ChannelError(e.clone()),
        }
    }
}

/// A fixture placed in the DMX address space: the name of its type, its
/// color state (if its type has colors), the value and channels of each simple
/// property, its start channel and universe, and its name.
pub struct Fixture {
    fixture_type: String,
    color: Option<Color>,
    properties: Vec<(SimplePropertyType, Channel)>,
    start_channel: ChannelIndex,
    universe: UniverseIndex,
    name: String,
}

/// The abstract fixture.
pub struct FixtureView {
    pub fixture_type: Seq<char>,
    pub color: Option<ColorView>,
    pub properties: Seq<(SimplePropertyType, (ChannelValue, Seq<ChannelInUniverse>))>,
    pub start_channel: ChannelIndex,
    pub universe: UniverseIndex,
    pub name: Seq<char>,
}

pub open spec fn color_view(c: Option<Color>) -> Option<ColorView> {
    match c {
        Some(x) => Some(x@),
        None => None,
    }
}

impl View for Fixture {
    type V = FixtureView;

    closed spec fn view(&self) -> FixtureView {
        FixtureView {
            fixture_type: self.fixture_type@,
            color: color_view(self.color),
            properties: self.properties@.map_values(|p: (SimplePropertyType, Channel)| (p.0, p.1@)),
            start_channel: self.start_channel,
            universe: self.universe,
            name: self.name@,
        }
    }
}

/// All properties of a fixture with their value and channels: the simple
/// properties in order, then the color channels.
pub open spec fn fixture_channels(f: FixtureView) -> Seq<(PropertyType, (ChannelValue, Seq<ChannelInUniverse>))> {
    f.properties.map_values(|p: (SimplePropertyType, (ChannelValue, Seq<ChannelInUniverse>))| (PropertyType::Simple(p.0), p.1))
        + match f.color {
            Some(c) => color_channels(c),
            None => Seq::empty(),
        }
}

/// The fixture's start address.
pub open spec fn start_of(f: FixtureView) -> ChannelInUniverse {
    (f.start_channel, f.universe)
}

/// A channel address of a fixture is normalized, lies at or after the
/// fixture's start, and fits in `usize`.
pub open spec fn address_ok(f: FixtureView, c: ChannelInUniverse) -> bool {
    &&& normalized(c)
    &&& abs_index(start_of(f)) <= abs_index(c) <= usize::MAX
}

/// Every address of an output channel satisfies [`address_ok`].
pub open spec fn slot_ok(f: FixtureView, c: Option<(ChannelValue, Seq<ChannelInUniverse>)>) -> bool {
    c matches Some(ch) ==> forall|j: int| 0 <= j < ch.1.len() ==> address_ok(f, #[trigger] ch.1[j])
}

/// A well-formed fixture: distinct simple properties, every channel address
/// normalized and at or after the start, and the start channel at most
/// `MAX_CHANNEL`.
pub open spec fn fixture_wf(f: FixtureView) -> bool {
    &&& forall|i: int, j: int| 0 <= i < j < f.properties.len()
        ==> simple_key(#[trigger] f.properties[i].0) != simple_key(#[trigger] f.properties[j].0)
    &&& forall|i: int, j: int| 0 <= i < f.properties.len() && 0 <= j < f.properties[i].1.1.len()
        ==> address_ok(f, #[trigger] f.properties[i].1.1[j])
    &&& (f.color matches Some(c) ==> {
        &&& slot_ok(f, c.color1)
        &&& slot_ok(f, c.color2)
        &&& slot_ok(f, c.color3)
    })
    &&& f.start_channel <= MAX_CHANNEL
}

/// Whether all channels of type `t` can be placed at `start`.
pub open spec fn type_fits(t: FixtureTypeView, start: ChannelInUniverse) -> bool {
    &&& forall|i: int, j: int| 0 <= i < t.properties.len() && 0 <= j < t.properties[i].1.len()
        ==> can_move(#[trigger] t.properties[i].1[j], (0u16, 0usize), start)
    &&& (t.color matches Some(c) ==> {
        &&& fits_at(c.color1, start)
        &&& fits_at(c.color2, start)
        &&& fits_at(c.color3, start)
    })
}

/// Whether all channels of type `t`, placed at start channel `sc`, stay inside
/// the universe: each one's channel offset added to `sc` stays below 512.
pub open spec fn type_in_universe(t: FixtureTypeView, sc: ChannelIndex) -> bool {
    &&& forall|i: int, j: int| 0 <= i < t.properties.len() && 0 <= j < t.properties[i].1.len()
        ==> within_universe(#[trigger] t.properties[i].1[j], sc)
    &&& (t.color matches Some(c) ==> {
        &&& opt_within_universe(c.color1, sc)
        &&& opt_within_universe(c.color2, sc)
        &&& opt_within_universe(c.color3, sc)
    })
}

/// The registered type named `name` (meaningful when there is one).
pub open spec fn type_named(types: Seq<FixtureTypeView>, name: Seq<char>) -> FixtureTypeView {
    types[choose|i: int| 0 <= i < types.len() && (#[trigger] types[i]).name == name]
}

/// A fixture of type `t` placed at `start`: each simple property at its
/// default value, the colors at their initial state.
pub open spec fn instantiate(t: FixtureTypeView, start: ChannelInUniverse, name: Seq<char>) -> FixtureView {
    FixtureView {
        fixture_type: t.name,
        color: match t.color {
            Some(c) => Some(initial_color(c, start)),
            None => None,
        },
        properties: t.properties.map_values(|p: (SimplePropertyType, Seq<ChannelInUniverse>)|
            (p.0, (default_value_of(p.0), p.1.map_values(|c: ChannelInUniverse| moved(c, (0u16, 0usize), start))))),
        start_channel: start.0,
        universe: start.1,
        name,
    }
}

/// Whether an address keeps fitting in `usize` when the start of `f` moves to `new_start`.
pub open spec fn address_movable(f: FixtureView, new_start: ChannelInUniverse, c: ChannelInUniverse) -> bool {
    shiftable(c, start_of(f), new_start)
}

pub open spec fn slot_movable(f: FixtureView, new_start: ChannelInUniverse, c: Option<(ChannelValue, Seq<ChannelInUniverse>)>) -> bool {
    opt_shiftable(c, start_of(f), new_start)
}

/// Whether every channel of `f` can move with the start moving to `new_start`.
pub open spec fn fits_move(f: FixtureView, new_start: ChannelInUniverse) -> bool {
    &&& forall|i: int, j: int| 0 <= i < f.properties.len() && 0 <= j < f.properties[i].1.1.len()
        ==> address_movable(f, new_start, #[trigger] f.properties[i].1.1[j])
    &&& (f.color matches Some(c) ==> {
        &&& slot_movable(f, new_start, c.color1)
        &&& slot_movable(f, new_start, c.color2)
        &&& slot_movable(f, new_start, c.color3)
    })
}

/// Whether every channel of `f`, moved with its start to `new_start`, stays
/// inside the universe of the new start.
pub open spec fn move_in_universe(f: FixtureView, new_start: ChannelInUniverse) -> bool {
    &&& forall|i: int, j: int| 0 <= i < f.properties.len() && 0 <= j < f.properties[i].1.1.len()
        ==> stays_in_universe(#[trigger] f.properties[i].1.1[j], start_of(f), new_start)
    &&& (f.color matches Some(c) ==> {
        &&& opt_stay_in_universe(c.color1, start_of(f), new_start)
        &&& opt_stay_in_universe(c.color2, start_of(f), new_start)
        &&& opt_stay_in_universe(c.color3, start_of(f), new_start)
    })
}

/// Whether the fixture lies inside the universe of its start: every channel
/// at or after the start channel, before the end of the universe.
pub open spec fn in_own_universe(f: FixtureView) -> bool {
    move_in_universe(f, start_of(f))
}

/// The fixture with its start moved to `new_start` and every channel moved along.
pub open spec fn moved_fixture(f: FixtureView, new_start: ChannelInUniverse) -> FixtureView {
    FixtureView {
        color: match f.color {
            Some(c) => Some(ColorView {
                color1: shifted(c.color1, start_of(f), new_start),
                color2: shifted(c.color2, start_of(f), new_start),
                color3: shifted(c.color3, start_of(f), new_start),
                ..c
            }),
            None => None,
        },
        properties: f.properties.map_values(|p: (SimplePropertyType, (ChannelValue, Seq<ChannelInUniverse>))|
            (p.0, (p.1.0, p.1.1.map_values(|c: ChannelInUniverse| moved(c, start_of(f), new_start))))),
        start_channel: new_start.0,
        universe: new_start.1,
        ..f
    }
}

/// The position of the simple property with the key of `p`, if the fixture has it.
pub open spec fn has_simple(f: FixtureView, p: SimplePropertyType) -> bool {
    exists|i: int| 0 <= i < f.properties.len() && simple_key((#[trigger] f.properties[i]).0) == simple_key(p)
}

pub open spec fn simple_index(f: FixtureView, p: SimplePropertyType) -> int {
    choose|i: int| 0 <= i < f.properties.len() && simple_key((#[trigger] f.properties[i]).0) == simple_key(p)
}

/// The fixture with simple property `p` set to `value`.
pub open spec fn with_simple_value(f: FixtureView, p: SimplePropertyType, value: ChannelValue) -> FixtureView {
    let i = simple_index(f, p);
    FixtureView { properties: f.properties.update(i, (f.properties[i].0, (value, f.properties[i].1.1))), ..f }
}

/// The bytes a list of properties writes, property by property.
pub open spec fn outputs_of(chs: Seq<(PropertyType, (ChannelValue, Seq<ChannelInUniverse>))>) -> Seq<(ChannelInUniverse, u8)>
    decreases chs.len(),
{
    if chs.len() == 0 {
        Seq::empty()
    } else {
        outputs_of(chs.drop_last()) + output_of(chs.last().1)
    }
}

/// The bytes a fixture writes.
pub open spec fn fixture_output(f: FixtureView) -> Seq<(ChannelInUniverse, u8)> {
    outputs_of(fixture_channels(f))
}

/// Each byte a list of properties writes goes to one of the addresses its channels name.
pub proof fn lemma_outputs_addresses(chs: Seq<(PropertyType, (ChannelValue, Seq<ChannelInUniverse>))>, k: int)
    requires
        0 <= k < outputs_of(chs).len(),
    ensures
        exists|i: int, j: int| 0 <= i < chs.len() && 0 <= j < chs[i].1.1.len()
            && #[trigger] outputs_of(chs)[k].0 == chs[i].1.1[j],
    decreases chs.len(),
{
    let init = chs.drop_last();
    let n = outputs_of(init).len();
    if k < n {
        lemma_outputs_addresses(init, k);
        let (i, j) = choose|i: int, j: int| 0 <= i < init.len() && 0 <= j < init[i].1.1.len()
            && #[trigger] outputs_of(init)[k].0 == init[i].1.1[j];
        assert(chs[i] == init[i]);
    } else {
        let j = k - n;
        assert(outputs_of(chs)[k] == output_of(chs.last().1)[j]);
        assert(outputs_of(chs)[k].0 == chs[chs.len() - 1].1.1[j]);
    }
}

impl Clone for Fixture {
    fn clone(&self) -> (r: Self)
        ensures
            r@ == self@,
    {
        let color = match &self.color {
            Some(c) => Some(c.clone()),
            None => None,
        };
        let mut properties: Vec<(SimplePropertyType, Channel)> = Vec::new();
        let mut i: usize = 0;
        while i < self.properties.len()
            invariant
                i <= self.properties@.len(),
                properties@.len() == i,
                forall|j: int| 0 <= j < i ==> (#[trigger] properties@[j]).0 == self.properties@[j].0
                    && properties@[j].1@ == self.properties@[j].1@,
            decreases self.properties.len() - i,
        {
            properties.push((self.properties[i].0.clone(), self.properties[i].1.clone()));
            i = i + 1;
        }
        let r = Fixture {
            fixture_type: self.fixture_type.clone(),
            color,
            properties,
            start_channel: self.start_channel,
            universe: self.universe,
            name: self.name.clone(),
        };
        assert(r@.properties =~= self@.properties);
        r
    }
}

impl Fixture {
    /// A fixture named `name` of the registered type `fixture_type_name`,
    /// placed at `start_channel` of `universe`.
    ///
    /// Fails when the start channel exceeds `MAX_CHANNEL` or no type has that
    /// name. Channels that run past the end of the universe continue in the
    /// next one; such a fixture does not lie inside its own universe.
    pub fn new(
        registry: &FixtureTypeRegistry,
        fixture_type_name: String,
        start_channel: ChannelIndex,
        universe: UniverseIndex,
        name: String,
    ) -> (r: Result<Fixture, FixtureError>)
        requires
            registry_wf(registry@),
            start_channel <= MAX_CHANNEL && has_type(registry@, fixture_type_name@)
                ==> type_fits(type_named(registry@, fixture_type_name@), (start_channel, universe)),
        ensures
            start_channel > MAX_CHANNEL ==> r == Err::<Fixture, FixtureError>(FixtureError::ChannelError(ChannelError::ChannelOutOfRange)),
            start_channel <= MAX_CHANNEL && !has_type(registry@, fixture_type_name@)
                ==> (r matches Err(FixtureError::InvalidFixtureType(x)) && x@ == fixture_type_name@),
            start_channel <= MAX_CHANNEL && has_type(registry@, fixture_type_name@) ==> (r matches Ok(f)
                && f@ == instantiate(type_named(registry@, fixture_type_name@), (start_channel, universe), name@)
                && fixture_wf(f@)
                && (type_in_universe(type_named(registry@, fixture_type_name@), start_channel) ==> in_own_universe(f@))),
    {
        if start_channel > MAX_CHANNEL {
            return Err(FixtureError::ChannelError(ChannelError::ChannelOutOfRange));
        }
        let idx = match registry.find(&fixture_type_name) {
            Some(i) => i,
            None => return Err(FixtureError::InvalidFixtureType(fixture_type_name.clone())),
        };
        let fixture_type = registry.get(idx);
        let ghost t = fixture_type@;
        let ghost start = (start_channel, universe);
        proof {
            let k = choose|i: int| 0 <= i < registry@.len() && (#[trigger] registry@[i]).name == fixture_type_name@;
            assert(registry@[idx as int].name == registry@[k].name);
            assert(t == type_named(registry@, fixture_type_name@));
            assert(type_wf(t));
        }
        let color = match fixture_type.color() {
            Some(c) => Some(Color::new(c, start_channel, universe)),
            None => None,
        };
        let type_properties = fixture_type.properties();
        let mut properties: Vec<(SimplePropertyType, Channel)> = Vec::new();
        let mut i: usize = 0;
        while i < type_properties.len()
            invariant
                i <= type_properties@.len(),
                t.properties == type_properties@.map_values(|p: (SimplePropertyType, ChannelParameter)| (p.0, p.1@)),
                type_fits(t, start),
                start == (start_channel, universe),
                properties@.len() == i,
                forall|j: int| 0 <= j < i ==> (#[trigger] properties@[j]).0 == t.properties[j].0
                    && properties@[j].1@ == (default_value_of(t.properties[j].0),
                        t.properties[j].1.map_values(|c: ChannelInUniverse| moved(c, (0u16, 0usize), start))),
            decreases type_properties.len() - i,
        {
            let property_type = type_properties[i].0.clone();
            let default_value = Channel::get_default_value(&property_type);
            proof {
                assert forall|j: int| 0 <= j < type_properties@[i as int].1@.len()
                    implies can_move(#[trigger] type_properties@[i as int].1@[j], (0u16, 0usize), start) by {
                    assert(t.properties[i as int].1[j] == type_properties@[i as int].1@[j]);
                }
            }
            let param = type_properties[i].1.clone();
            proof {
                assert(t.properties[i as int] == (type_properties@[i as int].0, type_properties@[i as int].1@));
                assert forall|j: int| 0 <= j < param@.len()
                    implies can_move(#[trigger] param@[j], (0u16, 0usize), start) by {
                    assert(0 <= i < t.properties.len());
                    assert(0 <= j < t.properties[i as int].1.len());
                    assert(t.properties[i as int].1[j] == param@[j]);
                    assert(can_move(t.properties[i as int].1[j], (0u16, 0usize), start));
                }
            }
            assert(forall|j: int| 0 <= j < param@.len() ==> can_move(#[trigger] param@[j], (0u16, 0usize), (start_channel, universe)));
            let channel = Channel::new(param, default_value, start_channel, universe);
            assert(channel@.1 =~= t.properties[i as int].1.map_values(|c: ChannelInUniverse| moved(c, (0u16, 0usize), start)));
            properties.push((property_type, channel));
            i = i + 1;
        }
        let f = Fixture {
            fixture_type: fixture_type.name().clone(),
            color,
            properties,
            start_channel,
            universe,
            name,
        };
        proof {
            let inst = instantiate(t, start, f@.name);
            assert(f@.properties =~= inst.properties);
            assert(f@ == inst);
            lemma_instantiate_wf(t, start, f@.name);
            if type_in_universe(t, start_channel) {
                lemma_instantiate_in_universe(t, start, f@.name);
            }
        }
        Ok(f)
    }

    /// All properties with their channels: simple ones in order, then colors.
    pub fn iter_over_properties(&self) -> (r: Vec<(PropertyType, Channel)>)
        ensures
            r@.len() == fixture_channels(self@).len(),
            forall|i: int| 0 <= i < r@.len() ==> (#[trigger] r@[i]).0 == fixture_channels(self@)[i].0
                && r@[i].1@ == fixture_channels(self@)[i].1,
    {
        let ghost simple = self@.properties.map_values(|p: (SimplePropertyType, (ChannelValue, Seq<ChannelInUniverse>))|
            (PropertyType::Simple(p.0), p.1));
        let mut out: Vec<(PropertyType, Channel)> = Vec::new();
        let mut i: usize = 0;
        while i < self.properties.len()
            invariant
                i <= self.properties@.len(),
                simple.len() == self.properties@.len(),
                simple == self@.properties.map_values(|p: (SimplePropertyType, (ChannelValue, Seq<ChannelInUniverse>))|
                    (PropertyType::Simple(p.0), p.1)),
                out@.len() == i,
                forall|j: int| 0 <= j < i ==> (#[trigger] out@[j]).0 == simple[j].0 && out@[j].1@ == simple[j].1,
            decreases self.properties.len() - i,
        {
            out.push((PropertyType::Simple(self.properties[i].0.clone()), self.properties[i].1.clone()));
            i = i + 1;
        }
        if let Some(c) = &self.color {
            let extra = c.get_channels();
            let ghost before = out@;
            let mut k: usize = 0;
            while k < extra.len()
                invariant
                    k <= extra@.len(),
                    before.len() == simple.len(),
                    forall|j: int| 0 <= j < before.len() ==> (#[trigger] before[j]).0 == simple[j].0 && before[j].1@ == simple[j].1,
                    out@.len() == before.len() + k,
                    forall|j: int| 0 <= j < before.len() ==> out@[j] == before[j],
                    forall|j: int| 0 <= j < k ==> (#[trigger] out@[before.len() + j]).0 == extra@[j].0
                        && out@[before.len() + j].1@ == extra@[j].1@,
                decreases extra.len() - k,
            {
                out.push((extra[k].0.clone(), extra[k].1.clone()));
                k = k + 1;
            }
            proof {
                let all = fixture_channels(self@);
                assert forall|i: int| 0 <= i < out@.len() implies (#[trigger] out@[i]).0 == all[i].0 && out@[i].1@ == all[i].1 by {
                    if i < before.len() {
                        assert(out@[i] == before[i]);
                    } else {
                        assert(out@[before.len() + (i - before.len())] == out@[i]);
                    }
                }
            }
        } else {
            proof {
                assert(fixture_channels(self@) =~= simple);
            }
        }
        out
    }

    /// Moves the fixture to start at `new_channel` of `new_universe`; every
    /// channel keeps its distance from the start. Fails, leaving the fixture
    /// unchanged, if the new start channel exceeds `MAX_CHANNEL` or a moved
    /// channel would lie at or past the end of the new universe.
    pub fn move_to_channel(&mut self, new_channel: ChannelIndex, new_universe: UniverseIndex) -> (r: Result<(), FixtureError>)
        requires
            fixture_wf(old(self)@),
            new_channel <= MAX_CHANNEL && move_in_universe(old(self)@, (new_channel, new_universe))
                ==> fits_move(old(self)@, (new_channel, new_universe)),
        ensures
            new_channel > MAX_CHANNEL || !move_in_universe(old(self)@, (new_channel, new_universe))
                ==> r == Err::<(), FixtureError>(FixtureError::ChannelError(ChannelError::ChannelOutOfRange))
                && final(self)@ == old(self)@,
            new_channel <= MAX_CHANNEL && move_in_universe(old(self)@, (new_channel, new_universe))
                ==> r is Ok && final(self)@ == moved_fixture(old(self)@, (new_channel, new_universe))
                && fixture_wf(final(self)@) && in_own_universe(final(self)@),
    {
        if new_channel > MAX_CHANNEL {
            return Err(FixtureError::ChannelError(ChannelError::ChannelOutOfRange));
        }
        if !self.move_stays_in_universe((new_channel, new_universe)) {
            return Err(FixtureError::ChannelError(ChannelError::ChannelOutOfRange));
        }
        let old_start = (self.start_channel, self.universe);
        let new_start = (new_channel, new_universe);
        let ghost f0 = self@;
        let ghost simple0 = self@.properties;
        proof {
            lemma_channels_movable(f0, new_start);
        }
        let n = self.properties.len();
        let mut i: usize = 0;
        while i < n
            invariant
                n == simple0.len(),
                self.properties@.len() == n,
                i <= n,
                forall|a: int, j: int| 0 <= a < simple0.len() && 0 <= j < simple0[a].1.1.len()
                    ==> can_move(#[trigger] simple0[a].1.1[j], old_start, new_start),
                forall|a: int| 0 <= a < i ==> (#[trigger] self.properties@[a]).0 == simple0[a].0
                    && self.properties@[a].1@ == (simple0[a].1.0, simple0[a].1.1.map_values(|c: ChannelInUniverse| moved(c, old_start, new_start))),
                forall|a: int| i <= a < n ==> (#[trigger] self.properties@[a]).0 == simple0[a].0
                    && self.properties@[a].1@ == simple0[a].1,
                self.color == old(self).color,
                self.start_channel == old(self).start_channel,
                self.universe == old(self).universe,
                self.name == old(self).name,
                self.fixture_type == old(self).fixture_type,
                old_start == start_of(f0),
                f0 == old(self)@,
            decreases n - i,
        {
            let mut entry = self.properties.remove(i);
            proof {
                assert forall|j: int| 0 <= j < entry.1@.1.len() implies can_move(#[trigger] entry.1@.1[j], old_start, new_start) by {
                    assert(entry.1@.1[j] == simple0[i as int].1.1[j]);
                }
            }
            entry.1.move_channels(old_start, new_start);
            assert(entry.1@.1 =~= simple0[i as int].1.1.map_values(|c: ChannelInUniverse| moved(c, old_start, new_start)));
            self.properties.insert(i, entry);
            i = i + 1;
        }
        if let Some(c) = &mut self.color {
            c.move_channels(old_start, new_start);
        }
        self.start_channel = new_channel;
        self.universe = new_universe;
        proof {
            assert(self@.properties =~= moved_fixture(f0, new_start).properties);
            assert(self@ == moved_fixture(f0, new_start));
            lemma_moved_wf(f0, new_start);
            lemma_move_back(f0, new_start);
        }
        Ok(())
    }

    /// Sets a property. A simple property takes `value` at once; a color
    /// property is only prepared: the result is the conversion the change needs
    /// ([`conversion_for`]), and [`Fixture::set_color_rgb`] or
    /// [`Fixture::set_color_hsv`] completes it. Fails, leaving the fixture
    /// unchanged, if the fixture lacks the property.
    pub fn set(&mut self, property_type: PropertyType, value: ChannelValue) -> (r: Result<Option<ColorModelInput>, FixtureError>)
        requires
            fixture_wf(old(self)@),
        ensures
            fixture_wf(final(self)@),
            in_own_universe(old(self)@) ==> in_own_universe(final(self)@),
            property_type is Simple && has_simple(old(self)@, property_type->Simple_0)
                ==> r == Ok::<Option<ColorModelInput>, FixtureError>(None)
                && final(self)@ == with_simple_value(old(self)@, property_type->Simple_0, value),
            property_type is Simple && !has_simple(old(self)@, property_type->Simple_0)
                ==> r == Err::<Option<ColorModelInput>, FixtureError>(FixtureError::MissingProperty(property_type)) && final(self)@ == old(self)@,
            property_type is Color && old(self)@.color is Some
                ==> r == Ok::<Option<ColorModelInput>, FixtureError>(Some(conversion_for(old(self)@.color->0, property_type->Color_0, value)))
                && final(self)@ == old(self)@,
            property_type is Color && old(self)@.color is None
                ==> r == Err::<Option<ColorModelInput>, FixtureError>(FixtureError::MissingProperty(property_type)) && final(self)@ == old(self)@,
    {
        match &property_type {
            PropertyType::Simple(p) => {
                let mut i: usize = 0;
                while i < self.properties.len()
                    invariant
                        *self == *old(self),
                        property_type == PropertyType::Simple(*p),
                        fixture_wf(self@),
                        i <= self.properties@.len(),
                        forall|j: int| 0 <= j < i ==> simple_key(#[trigger] self.properties@[j].0) != simple_key(*p),
                    decreases self.properties.len() - i,
                {
                    if self.properties[i].0.same_as(p) {
                        let ghost f0 = self@;
                        proof {
                            assert(f0.properties[i as int].0 == self.properties@[i as int].0);
                            assert(simple_key(f0.properties[i as int].0) == simple_key(*p));
                            assert(has_simple(f0, *p));
                            let k = simple_index(f0, *p);
                            if k != i as int {
                                if k < i as int {
                                    assert(simple_key(f0.properties[k].0) != simple_key(f0.properties[i as int].0));
                                } else {
                                    assert(simple_key(f0.properties[i as int].0) != simple_key(f0.properties[k].0));
                                }
                            }
                        }
                        let mut entry = self.properties.remove(i);
                        entry.1.set_value(value);
                        self.properties.insert(i, entry);
                        proof {
                            assert(self@.properties =~= f0.properties.update(i as int, (f0.properties[i as int].0, (value, f0.properties[i as int].1.1))));
                            lemma_set_value_wf(f0, i as int, value);
                            if in_own_universe(f0) {
                                lemma_set_value_in_universe(f0, i as int, value);
                            }
                        }
                        return Ok(None);
                    }
                    i = i + 1;
                }
                proof {
                    assert(!has_simple(self@, *p));
                }
                Err(FixtureError::MissingProperty(property_type))
            }
            PropertyType::Color(ct) => {
                match &self.color {
                    Some(c) => {
                        let conv = c.prepare_set(*ct, value);
                        assert(self@.color == Some(c@));
                        Ok(Some(conv))
                    }
                    None => Err(FixtureError::MissingProperty(property_type)),
                }
            }
        }
    }

    /// Completes a color change from red, green and blue (see [`Color::set_rgb`]).
    pub fn set_color_rgb(&mut self, red: ChannelValue, green: ChannelValue, blue: ChannelValue,
        hue: ChannelValue, saturation: ChannelValue)
        requires
            fixture_wf(old(self)@),
            old(self)@.color is Some,
        ensures
            fixture_wf(final(self)@),
            final(self)@ == (FixtureView { color: Some(after_rgb(old(self)@.color->0, red, green, blue, hue, saturation)), ..old(self)@ }),
            in_own_universe(old(self)@) ==> in_own_universe(final(self)@),
    {
        let ghost f0 = self@;
        if let Some(c) = &mut self.color {
            c.set_rgb(red, green, blue, hue, saturation);
        }
        proof {
            lemma_color_values_wf(f0, self@);
            if in_own_universe(f0) {
                lemma_color_values_in_universe(f0, self@);
            }
        }
    }

    /// Completes a color change from hue, saturation and value (see [`Color::set_hsv`]).
    pub fn set_color_hsv(&mut self, hue: ChannelValue, saturation: ChannelValue, value: ChannelValue,
        red: ChannelValue, green: ChannelValue, blue: ChannelValue)
        requires
            fixture_wf(old(self)@),
            old(self)@.color is Some,
        ensures
            fixture_wf(final(self)@),
            final(self)@ == (FixtureView { color: Some(after_hsv(old(self)@.color->0, hue, saturation, value, red, green, blue)), ..old(self)@ }),
            in_own_universe(old(self)@) ==> in_own_universe(final(self)@),
    {
        let ghost f0 = self@;
        if let Some(c) = &mut self.color {
            c.set_hsv(hue, saturation, value, red, green, blue);
        }
        proof {
            lemma_color_values_wf(f0, self@);
            if in_own_universe(f0) {
                lemma_color_values_in_universe(f0, self@);
            }
        }
    }

    /// The bytes the fixture writes: its properties' bytes, simple ones first.
    pub fn get_channel_values(&self) -> (r: Vec<(ChannelInUniverse, u8)>)
        ensures
            r@ == fixture_output(self@),
    {
        let chs = self.iter_over_properties();
        let ghost all = fixture_channels(self@);
        let mut out: Vec<(ChannelInUniverse, u8)> = Vec::new();
        let mut i: usize = 0;
        while i < chs.len()
            invariant
                i <= chs@.len(),
                chs@.len() == all.len(),
                forall|j: int| 0 <= j < chs@.len() ==> (#[trigger] chs@[j]).1@ == all[j].1,
                out@ == outputs_of(all.take(i as int)),
            decreases chs.len() - i,
        {
            let mut v = chs[i].1.get_all_values();
            out.append(&mut v);
            proof {
                assert(all.take(i as int + 1).drop_last() =~= all.take(i as int));
                assert(all.take(i as int + 1).last() == all[i as int]);
            }
            i = i + 1;
        }
        assert(all.take(chs@.len() as int) =~= all);
        out
    }

    /// The name of the fixture's type.
    pub fn get_fixture_type(&self) -> (r: String)
        ensures
            r@ == self@.fixture_type,
    {
        self.fixture_type.clone()
    }

    /// The fixture's name.
    pub fn get_name(&self) -> (r: &str)
        ensures
            r@ == self@.name,
    {
        self.name.as_str()
    }

    /// Whether every channel of the fixture stays inside the universe of
    /// `new_start` when its start moves there.
    pub fn move_stays_in_universe(&self, new_start: ChannelInUniverse) -> (r: bool)
        ensures
            r == move_in_universe(self@, new_start),
    {
        let old_start = (self.start_channel, self.universe);
        let mut i: usize = 0;
        while i < self.properties.len()
            invariant
                old_start == start_of(self@),
                i <= self.properties@.len(),
                forall|a: int, j: int| 0 <= a < i && 0 <= j < self@.properties[a].1.1.len()
                    ==> stays_in_universe(#[trigger] self@.properties[a].1.1[j], start_of(self@), new_start),
            decreases self.properties.len() - i,
        {
            assert(self.properties@[i as int].1@ == self@.properties[i as int].1);
            if !self.properties[i].1.all_stay_in_universe(old_start, new_start) {
                return false;
            }
            i = i + 1;
        }
        match &self.color {
            Some(c) => {
                assert(self@.color == Some(c@));
                c.stays_in_universe(old_start, new_start)
            }
            None => true,
        }
    }

    /// Whether every channel of the fixture keeps fitting in `usize` when its
    /// start moves to `new_start`.
    pub fn fits_move_to(&self, new_start: ChannelInUniverse) -> (r: bool)
        ensures
            r == fits_move(self@, new_start),
    {
        let old_start = (self.start_channel, self.universe);
        let mut i: usize = 0;
        while i < self.properties.len()
            invariant
                old_start == start_of(self@),
                i <= self.properties@.len(),
                forall|a: int, j: int| 0 <= a < i && 0 <= j < self@.properties[a].1.1.len()
                    ==> address_movable(self@, new_start, #[trigger] self@.properties[a].1.1[j]),
            decreases self.properties.len() - i,
        {
            assert(self.properties@[i as int].1@ == self@.properties[i as int].1);
            if !self.properties[i].1.all_shiftable(old_start, new_start) {
                return false;
            }
            i = i + 1;
        }
        match &self.color {
            Some(c) => {
                assert(self@.color == Some(c@));
                c.shiftable(old_start, new_start)
            }
            None => true,
        }
    }

    /// Whether the fixture has color channels.
    pub fn has_color(&self) -> (r: bool)
        ensures
            r == self@.color is Some,
    {
        self.color.is_some()
    }

    /// The fixture's start channel and universe.
    pub fn get_start(&self) -> (r: ChannelInUniverse)
        ensures
            r == start_of(self@),
    {
        (self.start_channel, self.universe)
    }
}

/// The bytes all fixtures write, fixture by fixture.
pub open spec fn all_writes(fs: Seq<FixtureView>) -> Seq<(ChannelInUniverse, u8)>
    decreases fs.len(),
{
    if fs.len() == 0 {
        Seq::empty()
    } else {
        all_writes(fs.drop_last()) + fixture_output(fs.last())
    }
}

/// The byte a channel holds after a sequence of writes: the last write to it,
/// or 0 if there is none.
pub open spec fn last_write(writes: Seq<(ChannelInUniverse, u8)>, a: ChannelInUniverse) -> u8
    decreases writes.len(),
{
    if writes.len() == 0 {
        0
    } else if writes.last().0 == a {
        writes.last().1
    } else {
        last_write(writes.drop_last(), a)
    }
}

pub open spec fn fixture_views(fs: Seq<Fixture>) -> Seq<FixtureView> {
    fs.map_values(|f: Fixture| f@)
}

/// One frame per universe: channel `c` of universe `u` holds the byte the
/// fixtures wrote last to `(c, u)`, or 0. Writes to universes at or beyond
/// `universe_count` are dropped.
pub fn calculate_dmx_values(universe_count: usize, fixture_list: &[Fixture]) -> (r: Vec<[u8; 512]>)
    requires
        forall|i: int| 0 <= i < fixture_list@.len() ==> fixture_wf(#[trigger] fixture_list@[i]@),
    ensures
        r@.len() == universe_count,
        forall|u: int, c: int| 0 <= u < universe_count && 0 <= c < 512
            ==> #[trigger] r@[u]@[c] == last_write(all_writes(fixture_views(fixture_list@)), (c as u16, u as usize)),
{
    let ghost fs = fixture_views(fixture_list@);
    let mut output: Vec<[u8; 512]> = Vec::new();
    while output.len() < universe_count
        invariant
            output@.len() <= universe_count,
            forall|u: int, c: int| 0 <= u < output@.len() && 0 <= c < 512 ==> #[trigger] output@[u]@[c] == 0,
        decreases universe_count - output.len(),
    {
        output.push([0u8; 512]);
    }
    proof {
        assert(fs.take(0) =~= Seq::<FixtureView>::empty());
    }
    let mut i: usize = 0;
    while i < fixture_list.len()
        invariant
            fs == fixture_views(fixture_list@),
            forall|k: int| 0 <= k < fixture_list@.len() ==> fixture_wf(#[trigger] fixture_list@[k]@),
            i <= fixture_list@.len(),
            output@.len() == universe_count,
            forall|u: int, c: int| 0 <= u < universe_count && 0 <= c < 512
                ==> #[trigger] output@[u]@[c] == last_write(all_writes(fs.take(i as int)), (c as u16, u as usize)),
        decreases fixture_list.len() - i,
    {
        let fixture = &fixture_list[i];
        let writes = fixture.get_channel_values();
        let ghost before = all_writes(fs.take(i as int));
        proof {
            assert(fs.take(i as int + 1).drop_last() =~= fs.take(i as int));
            assert(fs[i as int] == fixture@);
            assert(all_writes(fs.take(i as int + 1)) == before + writes@);
        }
        let mut k: usize = 0;
        while k < writes.len()
            invariant
                k <= writes@.len(),
                writes@ == fixture_output(fixture@),
                fixture_wf(fixture@),
                output@.len() == universe_count,
                forall|u: int, c: int| 0 <= u < universe_count && 0 <= c < 512
                    ==> #[trigger] output@[u]@[c] == last_write(before + writes@.take(k as int), (c as u16, u as usize)),
            decreases writes.len() - k,
        {
            let (address, value) = writes[k];
            proof {
                lemma_output_address_ok(fixture@, k as int);
                assert((before + writes@.take(k as int + 1)).drop_last() =~= before + writes@.take(k as int));
                assert((before + writes@.take(k as int + 1)).last() == writes@[k as int]);
            }
            if address.1 < universe_count {
                let mut frame = output[address.1];
                frame[address.0 as usize] = value;
                output.set(address.1, frame);
            }
            proof {
                let all = before + writes@.take(k as int + 1);
                assert forall|u: int, c: int| 0 <= u < universe_count && 0 <= c < 512
                    implies #[trigger] output@[u]@[c] == last_write(all, (c as u16, u as usize)) by {
                    let a = (c as u16, u as usize);
                    assert(last_write(all, a) == if address == a { value } else { last_write(before + writes@.take(k as int), a) });
                }
            }
            k = k + 1;
        }
        proof {
            assert(writes@.take(writes@.len() as int) =~= writes@);
        }
        i = i + 1;
    }
    proof {
        assert(fs.take(fixture_list@.len() as int) =~= fs);
    }
    output
}

proof fn lemma_output_address_ok(f: FixtureView, k: int)
    requires
        fixture_wf(f),
        0 <= k < fixture_output(f).len(),
    ensures
        normalized(fixture_output(f)[k].0),
{
    lemma_outputs_addresses(fixture_channels(f), k);
    lemma_wf_channels(f);
}

/// Every channel address of a well-formed fixture satisfies [`address_ok`].
pub proof fn lemma_wf_channels(f: FixtureView)
    requires
        fixture_wf(f),
    ensures
        forall|i: int, j: int| 0 <= i < fixture_channels(f).len() && 0 <= j < fixture_channels(f)[i].1.1.len()
            ==> address_ok(f, #[trigger] fixture_channels(f)[i].1.1[j]),
{
    let simple = f.properties.map_values(|p: (SimplePropertyType, (ChannelValue, Seq<ChannelInUniverse>))| (PropertyType::Simple(p.0), p.1));
    let chs = fixture_channels(f);
    assert forall|i: int, j: int| 0 <= i < chs.len() && 0 <= j < chs[i].1.1.len()
        implies address_ok(f, #[trigger] chs[i].1.1[j]) by {
        if i < simple.len() {
            assert(chs[i] == simple[i]);
            assert(f.properties[i].1.1[j] == chs[i].1.1[j]);
        } else {
            let c = f.color->0;
            let k = i - simple.len();
            assert(chs[i] == color_channels(c)[k]);
            let n1: int = if c.color1 is Some { 1 } else { 0 };
            let n2: int = if c.color2 is Some { 1 } else { 0 };
            if k < n1 {
                assert(chs[i].1 == c.color1->0);
            } else if k < n1 + n2 {
                assert(chs[i].1 == c.color2->0);
            } else {
                assert(chs[i].1 == c.color3->0);
            }
        }
    }
}

/// A property entry with every address moved with the start from `os` to `ns`.
pub open spec fn moved_entry(e: (PropertyType, (ChannelValue, Seq<ChannelInUniverse>)), os: ChannelInUniverse,
    ns: ChannelInUniverse) -> (PropertyType, (ChannelValue, Seq<ChannelInUniverse>)) {
    (e.0, (e.1.0, e.1.1.map_values(|c: ChannelInUniverse| moved(c, os, ns))))
}

/// The properties of a moved fixture are its properties with their addresses moved.
pub proof fn lemma_moved_channels(f: FixtureView, ns: ChannelInUniverse)
    ensures
        fixture_channels(moved_fixture(f, ns))
            == fixture_channels(f).map_values(|e: (PropertyType, (ChannelValue, Seq<ChannelInUniverse>))|
                moved_entry(e, start_of(f), ns)),
{
    let g = moved_fixture(f, ns);
    let os = start_of(f);
    let simple_f = f.properties.map_values(|p: (SimplePropertyType, (ChannelValue, Seq<ChannelInUniverse>))| (PropertyType::Simple(p.0), p.1));
    let simple_g = g.properties.map_values(|p: (SimplePropertyType, (ChannelValue, Seq<ChannelInUniverse>))| (PropertyType::Simple(p.0), p.1));
    assert(simple_g =~= simple_f.map_values(|e: (PropertyType, (ChannelValue, Seq<ChannelInUniverse>))| moved_entry(e, os, ns)));
    let cf = match f.color { Some(c) => color_channels(c), None => Seq::empty() };
    let cg = match g.color { Some(c) => color_channels(c), None => Seq::empty() };
    assert(cg =~= cf.map_values(|e: (PropertyType, (ChannelValue, Seq<ChannelInUniverse>))| moved_entry(e, os, ns)));
    assert(fixture_channels(g) =~= fixture_channels(f).map_values(|e: (PropertyType, (ChannelValue, Seq<ChannelInUniverse>))|
        moved_entry(e, os, ns)));
}

/// Every address of a fixture that fits a move to `ns` keeps fitting.
pub proof fn lemma_channels_shiftable(f: FixtureView, ns: ChannelInUniverse)
    requires
        fits_move(f, ns),
    ensures
        forall|i: int, j: int| 0 <= i < fixture_channels(f).len() && 0 <= j < fixture_channels(f)[i].1.1.len()
            ==> shiftable(#[trigger] fixture_channels(f)[i].1.1[j], start_of(f), ns),
{
    let simple = f.properties.map_values(|p: (SimplePropertyType, (ChannelValue, Seq<ChannelInUniverse>))| (PropertyType::Simple(p.0), p.1));
    let chs = fixture_channels(f);
    assert forall|i: int, j: int| 0 <= i < chs.len() && 0 <= j < chs[i].1.1.len()
        implies shiftable(#[trigger] chs[i].1.1[j], start_of(f), ns) by {
        if i < simple.len() {
            assert(chs[i] == simple[i]);
            assert(f.properties[i].1.1[j] == chs[i].1.1[j]);
            assert(address_movable(f, ns, f.properties[i].1.1[j]));
        } else {
            let c = f.color->0;
            let k = i - simple.len();
            assert(chs[i] == color_channels(c)[k]);
            let n1: int = if c.color1 is Some { 1 } else { 0 };
            let n2: int = if c.color2 is Some { 1 } else { 0 };
            if k < n1 {
                assert(chs[i].1 == c.color1->0);
                assert(slot_movable(f, ns, c.color1));
            } else if k < n1 + n2 {
                assert(chs[i].1 == c.color2->0);
                assert(slot_movable(f, ns, c.color2));
            } else {
                assert(chs[i].1 == c.color3->0);
                assert(slot_movable(f, ns, c.color3));
            }
        }
    }
}

proof fn lemma_placed_ok(f: FixtureView, p: Option<Seq<ChannelInUniverse>>, v: ChannelValue, start: ChannelInUniverse)
    requires
        fits_at(p, start),
        start == start_of(f),
    ensures
        slot_ok(f, crate::fixture::color::placed(p, v, start)),
{
    if let Some(s) = p {
        let q = (crate::fixture::color::placed(p, v, start)->0).1;
        assert forall|j: int| 0 <= j < q.len() implies address_ok(f, #[trigger] q[j]) by {
            assert(can_move(s[j], (0u16, 0usize), start));
            lemma_from_abs(abs_index(start) + abs_index(s[j]));
        }
    }
}

/// A fixture made from a well-formed type at a start where the type fits is well-formed.
pub proof fn lemma_instantiate_wf(t: FixtureTypeView, start: ChannelInUniverse, name: Seq<char>)
    requires
        type_wf(t),
        type_fits(t, start),
        start.0 <= MAX_CHANNEL,
    ensures
        fixture_wf(instantiate(t, start, name)),
{
    let f = instantiate(t, start, name);
    assert forall|i: int, j: int| 0 <= i < j < f.properties.len()
        implies simple_key(#[trigger] f.properties[i].0) != simple_key(#[trigger] f.properties[j].0) by {
        assert(simple_key(t.properties[i].0) != simple_key(t.properties[j].0));
    }
    assert forall|i: int, j: int| 0 <= i < f.properties.len() && 0 <= j < f.properties[i].1.1.len()
        implies address_ok(f, #[trigger] f.properties[i].1.1[j]) by {
        assert(can_move(t.properties[i].1[j], (0u16, 0usize), start));
        lemma_from_abs(abs_index(start) + abs_index(t.properties[i].1[j]));
    }
    if let Some(c) = t.color {
        let v = crate::fixture::color::initial_channel_value(c.output_type->0);
        lemma_placed_ok(f, c.color1, v, start);
        lemma_placed_ok(f, c.color2, v, start);
        lemma_placed_ok(f, c.color3, v, start);
    }
}

proof fn lemma_slot_movable(f: FixtureView, new_start: ChannelInUniverse, c: Option<(ChannelValue, Seq<ChannelInUniverse>)>)
    requires
        slot_ok(f, c),
        slot_movable(f, new_start, c),
    ensures
        can_shift(c, start_of(f), new_start),
{
    if let Some(ch) = c {
        assert forall|j: int| 0 <= j < ch.1.len() implies can_move(#[trigger] ch.1[j], start_of(f), new_start) by {
            assert(address_ok(f, ch.1[j]));
            assert(address_movable(f, new_start, ch.1[j]));
        }
    }
}

proof fn lemma_channels_movable(f: FixtureView, new_start: ChannelInUniverse)
    requires
        fixture_wf(f),
        fits_move(f, new_start),
    ensures
        forall|a: int, j: int| 0 <= a < f.properties.len() && 0 <= j < f.properties[a].1.1.len()
            ==> can_move(#[trigger] f.properties[a].1.1[j], start_of(f), new_start),
        f.color matches Some(c) ==> {
            &&& can_shift(c.color1, start_of(f), new_start)
            &&& can_shift(c.color2, start_of(f), new_start)
            &&& can_shift(c.color3, start_of(f), new_start)
        },
{
    assert forall|a: int, j: int| 0 <= a < f.properties.len() && 0 <= j < f.properties[a].1.1.len()
        implies can_move(#[trigger] f.properties[a].1.1[j], start_of(f), new_start) by {
        assert(address_ok(f, f.properties[a].1.1[j]));
        assert(address_movable(f, new_start, f.properties[a].1.1[j]));
    }
    if let Some(c) = f.color {
        lemma_slot_movable(f, new_start, c.color1);
        lemma_slot_movable(f, new_start, c.color2);
        lemma_slot_movable(f, new_start, c.color3);
    }
}

proof fn lemma_shifted_ok(f: FixtureView, new_start: ChannelInUniverse, c: Option<(ChannelValue, Seq<ChannelInUniverse>)>,
    g: FixtureView)
    requires
        slot_ok(f, c),
        slot_movable(f, new_start, c),
        start_of(g) == new_start,
    ensures
        slot_ok(g, shifted(c, start_of(f), new_start)),
{
    if let Some(ch) = c {
        let q = (shifted(c, start_of(f), new_start)->0).1;
        assert forall|j: int| 0 <= j < q.len() implies address_ok(g, #[trigger] q[j]) by {
            assert(address_ok(f, ch.1[j]));
            assert(address_movable(f, new_start, ch.1[j]));
            lemma_from_abs(abs_index(new_start) + abs_index(ch.1[j]) - abs_index(start_of(f)));
        }
    }
}

/// Moving a well-formed fixture to a start where it fits keeps it well-formed.
pub proof fn lemma_moved_wf(f: FixtureView, new_start: ChannelInUniverse)
    requires
        fixture_wf(f),
        fits_move(f, new_start),
        new_start.0 <= MAX_CHANNEL,
    ensures
        fixture_wf(moved_fixture(f, new_start)),
{
    let g = moved_fixture(f, new_start);
    assert forall|i: int, j: int| 0 <= i < j < g.properties.len()
        implies simple_key(#[trigger] g.properties[i].0) != simple_key(#[trigger] g.properties[j].0) by {
        assert(simple_key(f.properties[i].0) != simple_key(f.properties[j].0));
    }
    assert forall|i: int, j: int| 0 <= i < g.properties.len() && 0 <= j < g.properties[i].1.1.len()
        implies address_ok(g, #[trigger] g.properties[i].1.1[j]) by {
        let c = f.properties[i].1.1[j];
        assert(address_ok(f, c));
        assert(address_movable(f, new_start, c));
        lemma_from_abs(abs_index(new_start) + abs_index(c) - abs_index(start_of(f)));
    }
    if let Some(c) = f.color {
        lemma_shifted_ok(f, new_start, c.color1, g);
        lemma_shifted_ok(f, new_start, c.color2, g);
        lemma_shifted_ok(f, new_start, c.color3, g);
    }
}

proof fn lemma_set_value_wf(f: FixtureView, i: int, value: ChannelValue)
    requires
        fixture_wf(f),
        0 <= i < f.properties.len(),
    ensures
        fixture_wf(FixtureView { properties: f.properties.update(i, (f.properties[i].0, (value, f.properties[i].1.1))), ..f }),
{
    let g = FixtureView { properties: f.properties.update(i, (f.properties[i].0, (value, f.properties[i].1.1))), ..f };
    assert forall|a: int, b: int| 0 <= a < b < g.properties.len()
        implies simple_key(#[trigger] g.properties[a].0) != simple_key(#[trigger] g.properties[b].0) by {
        assert(simple_key(f.properties[a].0) != simple_key(f.properties[b].0));
    }
    assert forall|a: int, j: int| 0 <= a < g.properties.len() && 0 <= j < g.properties[a].1.1.len()
        implies address_ok(g, #[trigger] g.properties[a].1.1[j]) by {
        assert(address_ok(f, f.properties[a].1.1[j]));
    }

    if let Some(c) = f.color {
        assert(slot_ok(g, c.color1));
        assert(slot_ok(g, c.color2));
        assert(slot_ok(g, c.color3));
    }
}

proof fn lemma_slot_values(f: FixtureView, c: Option<(ChannelValue, Seq<ChannelInUniverse>)>, d: Option<(ChannelValue, Seq<ChannelInUniverse>)>)
    requires
        slot_ok(f, c),
        c is Some <==> d is Some,
        c is Some ==> (c->0).1 == (d->0).1,
    ensures
        slot_ok(f, d),
{
}

proof fn lemma_color_values_wf(f: FixtureView, g: FixtureView)
    requires
        fixture_wf(f),
        f.color is Some,
        g.color is Some,
        g.properties == f.properties,
        g.start_channel == f.start_channel,
        g.universe == f.universe,
        channel_addresses(g.color->0) == channel_addresses(f.color->0),
    ensures
        fixture_wf(g),
{
    let c = f.color->0;
    let d = g.color->0;
    assert(slot_ok(g, c.color1));
    assert(slot_ok(g, c.color2));
    assert(slot_ok(g, c.color3));
    lemma_slot_values(g, c.color1, d.color1);
    lemma_slot_values(g, c.color2, d.color2);
    lemma_slot_values(g, c.color3, d.color3);
}

/// Changing a value keeps a fixture inside its own universe.
proof fn lemma_set_value_in_universe(f: FixtureView, i: int, value: ChannelValue)
    requires
        in_own_universe(f),
        0 <= i < f.properties.len(),
    ensures
        in_own_universe(FixtureView { properties: f.properties.update(i, (f.properties[i].0, (value, f.properties[i].1.1))), ..f }),
{
    let g = FixtureView { properties: f.properties.update(i, (f.properties[i].0, (value, f.properties[i].1.1))), ..f };
    assert forall|a: int, j: int| 0 <= a < g.properties.len() && 0 <= j < g.properties[a].1.1.len()
        implies stays_in_universe(#[trigger] g.properties[a].1.1[j], start_of(g), start_of(g)) by {
        assert(g.properties[a].1.1 == f.properties[a].1.1);
    }
}

/// Changing the color values keeps a fixture inside its own universe.
proof fn lemma_color_values_in_universe(f: FixtureView, g: FixtureView)
    requires
        in_own_universe(f),
        f.color is Some,
        g.color is Some,
        g.properties == f.properties,
        g.start_channel == f.start_channel,
        g.universe == f.universe,
        channel_addresses(g.color->0) == channel_addresses(f.color->0),
    ensures
        in_own_universe(g),
{
    let c = f.color->0;
    let d = g.color->0;
    assert(opt_stay_in_universe(d.color1, start_of(g), start_of(g)));
    assert(opt_stay_in_universe(d.color2, start_of(g), start_of(g)));
    assert(opt_stay_in_universe(d.color3, start_of(g), start_of(g)));
}

pub open spec fn channel_addresses(c: ColorView) -> (Option<Seq<ChannelInUniverse>>, Option<Seq<ChannelInUniverse>>, Option<Seq<ChannelInUniverse>>) {
    (
        match c.color1 { Some(ch) => Some(ch.1), None => None },
        match c.color2 { Some(ch) => Some(ch.1), None => None },
        match c.color3 { Some(ch) => Some(ch.1), None => None },
    )
}


/// One address moved from `os` to `ns` inside the universe: it lands inside
/// the new universe, at or after the new start, and moving it back gives it back.
proof fn lemma_address_round_trip(x: ChannelInUniverse, os: ChannelInUniverse, ns: ChannelInUniverse)
    requires
        normalized(x),
        abs_index(os) <= abs_index(x) <= usize::MAX,
        stays_in_universe(x, os, ns),
        shiftable(x, os, ns),
    ensures
        stays_in_universe(moved(x, os, ns), ns, ns),
        stays_in_universe(moved(x, os, ns), ns, os),
        shiftable(moved(x, os, ns), ns, os),
        abs_index(ns) <= abs_index(moved(x, os, ns)),
        moved(moved(x, os, ns), ns, os) == x,
{
    lemma_moved_offsets(x, os, ns);
    let y = moved(x, os, ns);
    assert(abs_index(y) - abs_index(ns) == abs_index(x) - abs_index(os));
    lemma_moved_offsets(y, ns, os);
}

/// The address moves of one output channel, as [`lemma_address_round_trip`].
proof fn lemma_slot_round_trip(f: FixtureView, ns: ChannelInUniverse, c: Option<(ChannelValue, Seq<ChannelInUniverse>)>)
    requires
        slot_ok(f, c),
        opt_stay_in_universe(c, start_of(f), ns),
        opt_shiftable(c, start_of(f), ns),
    ensures
        opt_stay_in_universe(shifted(c, start_of(f), ns), ns, ns),
        opt_stay_in_universe(shifted(c, start_of(f), ns), ns, start_of(f)),
        opt_shiftable(shifted(c, start_of(f), ns), ns, start_of(f)),
        shifted(shifted(c, start_of(f), ns), ns, start_of(f)) == c,
{
    let os = start_of(f);
    if let Some(ch) = c {
        let q = (shifted(c, os, ns)->0).1;
        assert forall|j: int| 0 <= j < q.len() implies {
            &&& stays_in_universe(#[trigger] q[j], ns, ns)
            &&& stays_in_universe(q[j], ns, os)
            &&& shiftable(q[j], ns, os)
            &&& moved(q[j], ns, os) == ch.1[j]
        } by {
            assert(address_ok(f, ch.1[j]));
            assert(stays_in_universe(ch.1[j], os, ns));
            assert(shiftable(ch.1[j], os, ns));
            lemma_address_round_trip(ch.1[j], os, ns);
        }
        assert(q.map_values(|x: ChannelInUniverse| moved(x, ns, os)) =~= ch.1);
    }
}

/// A fixture placed by [`instantiate`] where its type stays inside the
/// universe lies inside its own universe.
proof fn lemma_instantiate_in_universe(t: FixtureTypeView, start: ChannelInUniverse, name: Seq<char>)
    requires
        type_in_universe(t, start.0),
        type_fits(t, start),
    ensures
        in_own_universe(instantiate(t, start, name)),
{
    let f = instantiate(t, start, name);
    assert forall|i: int, j: int| 0 <= i < f.properties.len() && 0 <= j < f.properties[i].1.1.len()
        implies stays_in_universe(#[trigger] f.properties[i].1.1[j], start_of(f), start_of(f)) by {
        let c = t.properties[i].1[j];
        assert(within_universe(c, start.0));
        assert(can_move(c, (0u16, 0usize), start));
        lemma_moved_offsets(c, (0u16, 0usize), start);
    }
    if let Some(ct) = t.color {
        let c = initial_color(ct, start);
        assert(f.color == Some(c));
        lemma_placed_in_universe(ct.color1, start, c.color1);
        lemma_placed_in_universe(ct.color2, start, c.color2);
        lemma_placed_in_universe(ct.color3, start, c.color3);
    }
}

proof fn lemma_placed_in_universe(p: Option<Seq<ChannelInUniverse>>, start: ChannelInUniverse,
    q: Option<(ChannelValue, Seq<ChannelInUniverse>)>)
    requires
        opt_within_universe(p, start.0),
        fits_at(p, start),
        p is Some <==> q is Some,
        p is Some ==> (q->0).1 == (p->0).map_values(|c: ChannelInUniverse| moved(c, (0u16, 0usize), start)),
    ensures
        opt_stay_in_universe(q, start, start),
{
    if let Some(s) = p {
        let m = (q->0).1;
        assert forall|j: int| 0 <= j < m.len() implies stays_in_universe(#[trigger] m[j], start, start) by {
            assert(within_universe(s[j], start.0));
            assert(can_move(s[j], (0u16, 0usize), start));
            lemma_moved_offsets(s[j], (0u16, 0usize), start);
        }
    }
}

/// Moving a fixture inside the universe of the new start: the moved fixture
/// lies inside its own universe, can move back to the old start, and moving
/// it back gives the fixture back.
proof fn lemma_move_back(f: FixtureView, ns: ChannelInUniverse)
    requires
        fixture_wf(f),
        move_in_universe(f, ns),
        fits_move(f, ns),
    ensures
        in_own_universe(moved_fixture(f, ns)),
        move_in_universe(moved_fixture(f, ns), start_of(f)),
        fits_move(moved_fixture(f, ns), start_of(f)),
        moved_fixture(moved_fixture(f, ns), start_of(f)) == f,
{
    let os = start_of(f);
    let g = moved_fixture(f, ns);
    assert forall|i: int, j: int| 0 <= i < g.properties.len() && 0 <= j < g.properties[i].1.1.len() implies {
        &&& stays_in_universe(#[trigger] g.properties[i].1.1[j], ns, ns)
        &&& stays_in_universe(g.properties[i].1.1[j], ns, os)
        &&& address_movable(g, os, g.properties[i].1.1[j])
        &&& moved(g.properties[i].1.1[j], ns, os) == f.properties[i].1.1[j]
    } by {
        let x = f.properties[i].1.1[j];
        assert(address_ok(f, x));
        assert(address_movable(f, ns, x));
        assert(stays_in_universe(x, os, ns));
        lemma_address_round_trip(x, os, ns);
    }
    let h = moved_fixture(g, os);
    assert forall|i: int| 0 <= i < f.properties.len() implies #[trigger] h.properties[i] == f.properties[i] by {
        assert(h.properties[i].1.1 =~= f.properties[i].1.1);
    }
    assert(h.properties =~= f.properties);
    if let Some(c) = f.color {
        lemma_slot_round_trip(f, ns, c.color1);
        lemma_slot_round_trip(f, ns, c.color2);
        lemma_slot_round_trip(f, ns, c.color3);
    }
}

/// Law: moving a fixture and then moving it back to its old start gives the
/// fixture back, and the move back is allowed: with the contract of
/// [`Fixture::move_to_channel`], a move that succeeds is undone by the move to
/// the old start.
pub proof fn law_move_round_trip(f: FixtureView, ns: ChannelInUniverse)
    requires
        fixture_wf(f),
        ns.0 <= MAX_CHANNEL,
        move_in_universe(f, ns),
        fits_move(f, ns),
    ensures
        fixture_wf(moved_fixture(f, ns)),
        move_in_universe(moved_fixture(f, ns), start_of(f)),
        fits_move(moved_fixture(f, ns), start_of(f)),
        moved_fixture(moved_fixture(f, ns), start_of(f)) == f,
{
    lemma_moved_wf(f, ns);
    lemma_move_back(f, ns);
}

/// Law: moving a fixture that lies inside its own universe to its own start
/// is allowed and changes nothing.
pub proof fn law_move_in_place(f: FixtureView)
    requires
        fixture_wf(f),
        in_own_universe(f),
    ensures
        fits_move(f, start_of(f)),
        moved_fixture(f, start_of(f)) == f,
{
    let os = start_of(f);
    assert forall|i: int, j: int| 0 <= i < f.properties.len() && 0 <= j < f.properties[i].1.1.len() implies {
        &&& address_movable(f, os, #[trigger] f.properties[i].1.1[j])
        &&& moved(f.properties[i].1.1[j], os, os) == f.properties[i].1.1[j]
    } by {
        let x = f.properties[i].1.1[j];
        assert(address_ok(f, x));
        assert(stays_in_universe(x, os, os));
        lemma_moved_offsets(x, os, os);
    }
    let g = moved_fixture(f, os);
    assert forall|i: int| 0 <= i < f.properties.len() implies #[trigger] g.properties[i] == f.properties[i] by {
        assert(g.properties[i].1.1 =~= f.properties[i].1.1);
    }
    assert(g.properties =~= f.properties);
    if let Some(c) = f.color {
        lemma_slot_in_place(f, c.color1);
        lemma_slot_in_place(f, c.color2);
        lemma_slot_in_place(f, c.color3);
    }
}

proof fn lemma_slot_in_place(f: FixtureView, c: Option<(ChannelValue, Seq<ChannelInUniverse>)>)
    requires
        slot_ok(f, c),
        opt_stay_in_universe(c, start_of(f), start_of(f)),
    ensures
        opt_shiftable(c, start_of(f), start_of(f)),
        shifted(c, start_of(f), start_of(f)) == c,
{
    let os = start_of(f);
    if let Some(ch) = c {
        assert forall|j: int| 0 <= j < ch.1.len() implies {
            &&& shiftable(#[trigger] ch.1[j], os, os)
            &&& moved(ch.1[j], os, os) == ch.1[j]
        } by {
            assert(address_ok(f, ch.1[j]));
            assert(stays_in_universe(ch.1[j], os, os));
            lemma_moved_offsets(ch.1[j], os, os);
        }
        assert(ch.1.map_values(|x: ChannelInUniverse| moved(x, os, os)) =~= ch.1);
    }
}

/// A layout channel placed at `start`.
pub open spec fn place(c: ChannelInUniverse, start: ChannelInUniverse) -> ChannelInUniverse {
    moved(c, (0u16, 0usize), start)
}

/// The channel lists of a placed fixture are its type's lists, placed.
proof fn lemma_instantiate_lists(t: FixtureTypeView, start: ChannelInUniverse, name: Seq<char>)
    ensures
        fixture_channels(instantiate(t, start, name)).map_values(|e: (PropertyType, (ChannelValue, Seq<ChannelInUniverse>))| e.1.1)
            =~= layout_lists(t).map_values(|l: Seq<ChannelInUniverse>| l.map_values(|c: ChannelInUniverse| place(c, start))),
{
    let f = instantiate(t, start, name);
    let g = |e: (PropertyType, (ChannelValue, Seq<ChannelInUniverse>))| e.1.1;
    let h = |l: Seq<ChannelInUniverse>| l.map_values(|c: ChannelInUniverse| place(c, start));
    let fp = f.properties.map_values(|p: (SimplePropertyType, (ChannelValue, Seq<ChannelInUniverse>))| (PropertyType::Simple(p.0), p.1));
    let tp = t.properties.map_values(|p: (SimplePropertyType, Seq<ChannelInUniverse>)| p.1);
    assert forall|a: int| 0 <= a < tp.len() implies #[trigger] fp.map_values(g)[a] == tp.map_values(h)[a] by {
        assert(fp.map_values(g)[a] =~= tp.map_values(h)[a]);
    }
    assert(fp.map_values(g) =~= tp.map_values(h));
    match t.color {
        Some(ct) => {
            let c = initial_color(ct, start);
            let v = crate::fixture::color::initial_channel_value(ct.output_type->0);
            lemma_slot_entry(ct.color1, v, start, PropertyType::Color(crate::fixture::color::property_in_slot(1, c.output_type)->0));
            lemma_slot_entry(ct.color2, v, start, PropertyType::Color(crate::fixture::color::property_in_slot(2, c.output_type)->0));
            lemma_slot_entry(ct.color3, v, start, PropertyType::Color(crate::fixture::color::property_in_slot(3, c.output_type)->0));
            let cc = color_channels(c);
            let s1 = match c.color1 {
                Some(ch) => seq![(PropertyType::Color(crate::fixture::color::property_in_slot(1, c.output_type)->0), ch)],
                None => Seq::empty(),
            };
            let s2 = match c.color2 {
                Some(ch) => seq![(PropertyType::Color(crate::fixture::color::property_in_slot(2, c.output_type)->0), ch)],
                None => Seq::empty(),
            };
            let s3 = match c.color3 {
                Some(ch) => seq![(PropertyType::Color(crate::fixture::color::property_in_slot(3, c.output_type)->0), ch)],
                None => Seq::empty(),
            };
            assert(cc == s1 + s2 + s3);
            assert((s1 + s2 + s3).map_values(g) =~= s1.map_values(g) + s2.map_values(g) + s3.map_values(g));
            let o1 = opt_list(ct.color1);
            let o2 = opt_list(ct.color2);
            let o3 = opt_list(ct.color3);
            assert((o1 + o2 + o3).map_values(h) =~= o1.map_values(h) + o2.map_values(h) + o3.map_values(h));
            assert(cc.map_values(g) =~= slot_lists(ct).map_values(h));
            assert(fixture_channels(f) == fp + cc);
            assert((fp + cc).map_values(g) =~= fp.map_values(g) + cc.map_values(g));
            assert(layout_lists(t).map_values(h) =~= tp.map_values(h) + slot_lists(ct).map_values(h));
        }
        None => {
            assert(fixture_channels(f) =~= fp);
            assert(layout_lists(t) =~= tp);
        }
    }
}

proof fn lemma_slot_entry(p: Option<Seq<ChannelInUniverse>>, v: ChannelValue, start: ChannelInUniverse, ty: PropertyType)
    ensures
        (match crate::fixture::color::placed(p, v, start) {
            Some(ch) => seq![(ty, ch)],
            None => Seq::<(PropertyType, (ChannelValue, Seq<ChannelInUniverse>))>::empty(),
        }).map_values(|e: (PropertyType, (ChannelValue, Seq<ChannelInUniverse>))| e.1.1)
            =~= opt_list(p).map_values(|l: Seq<ChannelInUniverse>| l.map_values(|c: ChannelInUniverse| place(c, start))),
{
    if let Some(l) = p {
        assert(l.map_values(|c: ChannelInUniverse| moved(c, (0u16, 0usize), start))
            =~= l.map_values(|c: ChannelInUniverse| place(c, start)));
    }
}

/// Every channel of the lists of a type that fits and stays inside the
/// universe at `start` can be placed there, inside the universe.
proof fn lemma_layout_placeable(t: FixtureTypeView, start: ChannelInUniverse)
    requires
        type_in_universe(t, start.0),
        type_fits(t, start),
    ensures
        forall|a: int, j: int| 0 <= a < layout_lists(t).len() && 0 <= j < layout_lists(t)[a].len()
            ==> within_universe(#[trigger] layout_lists(t)[a][j], start.0)
                && can_move(layout_lists(t)[a][j], (0u16, 0usize), start),
{
    let l = layout_lists(t);
    let tp = t.properties.map_values(|p: (SimplePropertyType, Seq<ChannelInUniverse>)| p.1);
    let np = tp.len() as int;
    assert forall|a: int, j: int| 0 <= a < l.len() && 0 <= j < l[a].len()
        implies within_universe(#[trigger] l[a][j], start.0) && can_move(l[a][j], (0u16, 0usize), start) by {
        if a < np {
            assert(l[a] == t.properties[a].1);
        } else {
            let ct = t.color->0;
            let o1 = opt_list(ct.color1);
            let o2 = opt_list(ct.color2);
            let k = a - np;
            if k < o1.len() {
                assert(l[a] == ct.color1->0);
            } else if k < o1.len() + o2.len() {
                assert(l[a] == ct.color2->0);
            } else {
                assert(l[a] == ct.color3->0);
            }
        }
    }
}

/// A type whose channel lists are distinct, placed where it fits inside the
/// universe, gives a fixture whose channel addresses are all distinct.
pub proof fn lemma_instantiate_distinct(t: FixtureTypeView, start: ChannelInUniverse, name: Seq<char>)
    requires
        lists_distinct(layout_lists(t)),
        type_in_universe(t, start.0),
        type_fits(t, start),
    ensures
        lists_distinct(fixture_channels(instantiate(t, start, name))
            .map_values(|e: (PropertyType, (ChannelValue, Seq<ChannelInUniverse>))| e.1.1)),
{
    lemma_instantiate_lists(t, start, name);
    lemma_layout_placeable(t, start);
    let l = layout_lists(t);
    let m = l.map_values(|q: Seq<ChannelInUniverse>| q.map_values(|c: ChannelInUniverse| place(c, start)));
    assert forall|a: int, j1: int, b: int, j2: int|
        0 <= a < m.len() && 0 <= b < m.len() && 0 <= j1 < m[a].len() && 0 <= j2 < m[b].len()
        && (a != b || j1 != j2) implies #[trigger] m[a][j1] != #[trigger] m[b][j2] by {
        let x = l[a][j1];
        let y = l[b][j2];
        assert(x != y);
        lemma_moved_offsets(x, (0u16, 0usize), start);
        lemma_moved_offsets(y, (0u16, 0usize), start);
        assert(m[a][j1] == place(x, start));
        assert(m[b][j2] == place(y, start));
    }
}

/// Law: a newly placed fixture starts with pan and tilt centered, at half
/// the largest value, and every other simple property at 0; its color starts
/// black (red, green, blue, hue, saturation and value 0; cyan, magenta and
/// yellow full), with its output channels full on a CMY fixture and at 0
/// otherwise.
pub proof fn law_placed_fixture_starts(t: FixtureTypeView, start: ChannelInUniverse, name: Seq<char>)
    ensures
        ({
            let f = instantiate(t, start, name);
            &&& f.properties.len() == t.properties.len()
            &&& forall|i: int| 0 <= i < t.properties.len() ==> {
                &&& (#[trigger] f.properties[i]).0 == t.properties[i].0
                &&& (t.properties[i].0 is Pan || t.properties[i].0 is Tilt) ==> f.properties[i].1.0 == ChannelValue::MAX / 2
                &&& !(t.properties[i].0 is Pan || t.properties[i].0 is Tilt) ==> f.properties[i].1.0 == 0
            }
            &&& (t.color is Some <==> f.color is Some)
            &&& f.color matches Some(c) ==> {
                &&& c.red == 0 && c.green == 0 && c.blue == 0
                &&& c.hue == 0 && c.saturation == 0 && c.value == 0
                &&& c.cyan == ChannelValue::MAX && c.magenta == ChannelValue::MAX && c.yellow == ChannelValue::MAX
                &&& (c.color1 matches Some(x) ==> x.0 == (if c.output_type == OutputType::CMY { ChannelValue::MAX } else { 0 }))
                &&& (c.color2 matches Some(x) ==> x.0 == (if c.output_type == OutputType::CMY { ChannelValue::MAX } else { 0 }))
                &&& (c.color3 matches Some(x) ==> x.0 == (if c.output_type == OutputType::CMY { ChannelValue::MAX } else { 0 }))
            }
        }),
{
    let f = instantiate(t, start, name);
    assert forall|i: int| 0 <= i < t.properties.len() implies {
        &&& (#[trigger] f.properties[i]).0 == t.properties[i].0
        &&& (t.properties[i].0 is Pan || t.properties[i].0 is Tilt) ==> f.properties[i].1.0 == ChannelValue::MAX / 2
        &&& !(t.properties[i].0 is Pan || t.properties[i].0 is Tilt) ==> f.properties[i].1.0 == 0
    } by {
        crate::fixture::channel::law_default_values(t.properties[i].0);
    }
}

} // verus!
