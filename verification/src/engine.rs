//! The fixture engine: the registry of fixtures and the reservation of DMX
//! channels across universes.
//!
//! Every channel of every universe holds a [`ChannelReservation`]. Adding,
//! moving and removing fixtures reserve and free channels in passes over the
//! fixture's channels ([`pass`]): a pending pass claims the channels, a
//! finalizing pass turns the claims into reservations, a clearing pass frees
//! them. A pass stops at the first channel it cannot handle; channels handled
//! before stay as the pass left them.
pub mod laws;
use vstd::prelude::*;
use crate::fixture::{ChannelIndex, ChannelInUniverse, ChannelValue, UniverseIndex, Fixture, FixtureError,
    FixtureTypeRegistry, ColorModelInput, MAX_CHANNEL};
use crate::fixture::{FixtureView, instantiate, type_named, type_fits, moved_fixture, fits_move, address_ok,
    type_in_universe, move_in_universe, in_own_universe};
use crate::fixture::fixture_type::{FixtureTypeView, has_type, registry_wf};
use crate::fixture::channel::{ChannelError, PropertyType, abs_index, normalized, property_name, lemma_from_abs};
use crate::fixture::fixture_wf;
use crate::text::join;
use crate::networking::subscription::{DMXConfigurationForClient, ClientCellView};
use crate::fixture::{has_simple, with_simple_value, fixture_channels};
use crate::fixture::color::{conversion_for, after_rgb, after_hsv};
use crate::engine::laws::{consistent, law_new_fixture_keeps_consistent, law_move_fixture_keeps_consistent,
    law_remove_fixture_keeps_consistent, law_set_property_consistent};
use std::hash::{DefaultHasher, Hash, Hasher};
use vstd::std_specs::hash::DefaultHasherAdditionalSpecFns;

verus! {

/// The reservation state of one DMX channel.
#[derive(Debug)]
pub enum ChannelReservation {
    /// Not in use.
    Empty,
    /// Claimed by the named fixture, not yet reserved.
    Pending(String),
    /// Reserved by the named fixture for a property, with the fine degree of
    /// the channel (0 for the coarse channel).
    Reserved(String, PropertyType, usize),
}

/// The abstract reservation of a channel.
pub enum ResView {
    Empty,
    Pending(Seq<char>),
    Reserved(Seq<char>, PropertyType, usize),
}

impl View for ChannelReservation {
    type V = ResView;

    open spec fn view(&self) -> ResView {
        match self {
            ChannelReservation::Empty => ResView::Empty,
            ChannelReservation::Pending(n) => ResView::Pending(n@),
            ChannelReservation::Reserved(n, p, d) => ResView::Reserved(n@, *p, *d),
        }
    }
}

/// One channel of a fixture: its property, its fine degree and its address.
pub type Slot = (PropertyType, usize, ChannelInUniverse);

/// The channels of a list of properties, property by property, coarse first.
pub open spec fn slots_of_channels(chs: Seq<(PropertyType, (ChannelValue, Seq<ChannelInUniverse>))>) -> Seq<Slot>
    decreases chs.len(),
{
    if chs.len() == 0 {
        Seq::empty()
    } else {
        slots_of_channels(chs.drop_last())
            + Seq::new(chs.last().1.1.len(), |j: int| (chs.last().0, j as usize, chs.last().1.1[j]))
    }
}

/// The channels of a fixture, in the order the engine handles them.
pub open spec fn fixture_slots(f: FixtureView) -> Seq<Slot> {
    slots_of_channels(crate::fixture::fixture_channels(f))
}

/// What a pass does with each channel.
#[derive(Debug, PartialEq, Eq, Structural, Copy, Clone)]
pub enum PassMode {
    /// Adding a fixture: claim every channel not reserved; a reserved one is a conflict.
    Claim,
    /// Moving a fixture: like `Claim`, but channels the fixture itself reserves are kept.
    ClaimForMove,
    /// Adding a fixture: reserve every channel the fixture claimed.
    Finalize,
    /// Moving a fixture: reserve every channel the fixture claimed or that is empty.
    FinalizeForMove,
    /// Removing a fixture: free every channel the fixture reserves.
    Clear,
}

/// Why a pass stopped.
pub enum PassError {
    /// The channel is reserved by another fixture for this property.
    Conflict(Seq<char>, PropertyType),
    /// The channel's universe does not exist.
    NoUniverse,
    /// The channel is not in the state the pass expects.
    Desync,
}

/// The state of a pass: still running over the reservations, or stopped.
pub enum PassState {
    Running(Seq<ResView>),
    Stopped(Seq<ResView>, PassError),
}

/// The index of an address in the flat list of reservations.
pub open spec fn cell(a: ChannelInUniverse) -> int {
    abs_index(a)
}

/// What a pass does with one channel.
pub open spec fn pass_step(mode: PassMode, c: Seq<ResView>, s: Slot, name: Seq<char>) -> PassState {
    let a = s.2;
    if a.1 as int >= c.len() / 512 {
        PassState::Stopped(c, PassError::NoUniverse)
    } else {
        let x = c[cell(a)];
        match mode {
            PassMode::Claim => match x {
                ResView::Reserved(e, q, _) => PassState::Stopped(c, PassError::Conflict(e, q)),
                _ => PassState::Running(c.update(cell(a), ResView::Pending(name))),
            },
            PassMode::ClaimForMove => match x {
                ResView::Reserved(e, q, _) => if e == name {
                    PassState::Running(c)
                } else {
                    PassState::Stopped(c, PassError::Conflict(e, q))
                },
                _ => PassState::Running(c.update(cell(a), ResView::Pending(name))),
            },
            PassMode::Finalize => match x {
                ResView::Pending(e) => if e == name {
                    PassState::Running(c.update(cell(a), ResView::Reserved(name, s.0, s.1)))
                } else {
                    PassState::Stopped(c, PassError::Desync)
                },
                _ => PassState::Stopped(c, PassError::Desync),
            },
            PassMode::FinalizeForMove => match x {
                ResView::Pending(e) => if e == name {
                    PassState::Running(c.update(cell(a), ResView::Reserved(name, s.0, s.1)))
                } else {
                    PassState::Stopped(c, PassError::Desync)
                },
                ResView::Empty => PassState::Running(c.update(cell(a), ResView::Reserved(name, s.0, s.1))),
                _ => PassState::Stopped(c, PassError::Desync),
            },
            PassMode::Clear => match x {
                ResView::Reserved(e, _, _) => if e == name {
                    PassState::Running(c.update(cell(a), ResView::Empty))
                } else {
                    PassState::Stopped(c, PassError::Desync)
                },
                _ => PassState::Stopped(c, PassError::Desync),
            },
        }
    }
}

/// A pass over the channels `slots`, in order, stopping at the first failure.
pub open spec fn pass(mode: PassMode, c: Seq<ResView>, slots: Seq<Slot>, name: Seq<char>) -> PassState
    decreases slots.len(),
{
    if slots.len() == 0 {
        PassState::Running(c)
    } else {
        match pass(mode, c, slots.drop_last(), name) {
            PassState::Running(c1) => pass_step(mode, c1, slots.last(), name),
            stopped => stopped,
        }
    }
}

/// The reservations a pass leaves.
pub open spec fn pass_config(p: PassState) -> Seq<ResView> {
    match p {
        PassState::Running(c) => c,
        PassState::Stopped(c, _) => c,
    }
}

/// The abstract error of a fixture operation.
pub enum ErrorView {
    InvalidFixtureType(Seq<char>),
    InvalidFixture(Seq<char>),
    FixtureNameAlreadyInUse(Seq<char>),
    ChannelOutOfRange,
    UniverseOutOfRange,
    ChannelAlreadyInUse(Seq<char>),
    MissingProperty(PropertyType),
    DmxStateDesync,
    InvalidPropertyType(Seq<char>),
    MultipleColorOutputTypes(Seq<char>),
    FixtureTypeNameAlreadyInUse(Seq<char>),
    FineDegreeExists(usize),
    FineDegreeTooHigh(usize),
    FineDegreeOutOfRange(usize),
}

/// The abstract form of a fixture error.
pub open spec fn error_view(e: FixtureError) -> ErrorView {
    match e {
        FixtureError::InvalidFixtureType(s) => ErrorView::InvalidFixtureType(s@),
        FixtureError::InvalidFixture(s) => ErrorView::InvalidFixture(s@),
        FixtureError::FixtureNameAlreadyInUse(s) => ErrorView::FixtureNameAlreadyInUse(s@),
        FixtureError::ChannelError(ChannelError::ChannelOutOfRange) => ErrorView::ChannelOutOfRange,
        FixtureError::ChannelError(ChannelError::UniverseOutOfRange) => ErrorView::UniverseOutOfRange,
        FixtureError::ChannelError(ChannelError::ChannelAlreadyInUse(s)) => ErrorView::ChannelAlreadyInUse(s@),
        FixtureError::MissingProperty(p) => ErrorView::MissingProperty(p),
        FixtureError::DmxStateDesync => ErrorView::DmxStateDesync,
        FixtureError::InvalidPropertyType(s) => ErrorView::InvalidPropertyType(s@),
        FixtureError::MultipleColorOutputTypes(s) => ErrorView::MultipleColorOutputTypes(s@),
        FixtureError::FixtureTypeNameAlreadyInUse(s) => ErrorView::FixtureTypeNameAlreadyInUse(s@),
        FixtureError::ChannelError(ChannelError::FineDegreeExists(d)) => ErrorView::FineDegreeExists(d),
        FixtureError::ChannelError(ChannelError::FineDegreeTooHigh(d)) => ErrorView::FineDegreeTooHigh(d),
        FixtureError::ChannelError(ChannelError::FineDegreeOutOfRange(d)) => ErrorView::FineDegreeOutOfRange(d),
    }
}

/// The error a stopped pass reports: a conflict names the holder and its
/// property as `"<holder>, <property>"`.
pub open spec fn pass_error(e: PassError) -> ErrorView {
    match e {
        PassError::Conflict(n, q) => ErrorView::ChannelAlreadyInUse(n + ", "@ + property_name(q)),
        PassError::NoUniverse => ErrorView::UniverseOutOfRange,
        PassError::Desync => ErrorView::DmxStateDesync,
    }
}

pub open spec fn result_view(r: Result<(), FixtureError>) -> Result<(), ErrorView> {
    match r {
        Ok(()) => Ok(()),
        Err(e) => Err(error_view(e)),
    }
}

pub open spec fn pass_result(p: PassState) -> Result<(), ErrorView> {
    match p {
        PassState::Running(_) => Ok(()),
        PassState::Stopped(_, e) => Err(pass_error(e)),
    }
}

/// The reservations extended with empty universes up to `size` universes.
pub open spec fn grown(c: Seq<ResView>, size: int) -> Seq<ResView> {
    if size * 512 > c.len() {
        c + Seq::new((size * 512 - c.len()) as nat, |i: int| ResView::Empty)
    } else {
        c
    }
}

pub open spec fn max_int(a: int, b: int) -> int {
    if a >= b { a } else { b }
}

/// The highest universe of the channels, or `default` when there are none.
pub open spec fn max_universe(slots: Seq<Slot>, default: UniverseIndex) -> int
    decreases slots.len(),
{
    if slots.len() == 0 {
        default as int
    } else if slots.len() == 1 {
        slots[0].2.1 as int
    } else {
        max_int(max_universe(slots.drop_last(), default), slots.last().2.1 as int)
    }
}

/// The fixture engine: the fixtures, and the reservation of every channel of
/// every universe (universe `u`, channel `c` at position `u * 512 + c`).
pub struct FixtureEngine {
    fixtures: Vec<Fixture>,
    dmx_config: Vec<ChannelReservation>,
}

/// The abstract engine.
pub struct EngineView {
    pub fixtures: Seq<FixtureView>,
    pub config: Seq<ResView>,
}

impl View for FixtureEngine {
    type V = EngineView;

    closed spec fn view(&self) -> EngineView {
        EngineView {
            fixtures: self.fixtures@.map_values(|f: Fixture| f@),
            config: self.dmx_config@.map_values(|r: ChannelReservation| r@),
        }
    }
}

/// Whether a fixture with this name exists.
pub open spec fn has_fixture(fs: Seq<FixtureView>, name: Seq<char>) -> bool {
    exists|i: int| 0 <= i < fs.len() && (#[trigger] fs[i]).name == name
}

/// The position of the fixture with this name (meaningful when there is one).
pub open spec fn fixture_index(fs: Seq<FixtureView>, name: Seq<char>) -> int {
    choose|i: int| 0 <= i < fs.len() && (#[trigger] fs[i]).name == name
}

/// The number of universes.
pub open spec fn universe_total(v: EngineView) -> int {
    v.config.len() as int / 512
}

/// What the engine always keeps: whole universes, distinct fixture names,
/// well-formed fixtures that lie inside the universe of their start, and
/// every fixture channel in an existing universe.
pub open spec fn engine_wf(v: EngineView) -> bool {
    &&& v.config.len() % 512 == 0
    &&& forall|i: int, j: int| 0 <= i < j < v.fixtures.len() ==> (#[trigger] v.fixtures[i]).name != (#[trigger] v.fixtures[j]).name
    &&& forall|i: int| 0 <= i < v.fixtures.len() ==> fixture_wf(#[trigger] v.fixtures[i])
    &&& forall|i: int| 0 <= i < v.fixtures.len() ==> in_own_universe(#[trigger] v.fixtures[i])
    &&& forall|i: int, k: int| 0 <= i < v.fixtures.len() && 0 <= k < fixture_slots(v.fixtures[i]).len()
        ==> (#[trigger] fixture_slots(v.fixtures[i])[k]).2.1 < universe_total(v)
}

/// Every channel of a fixture: its slots are normalized and fit.
pub open spec fn slots_ok(slots: Seq<Slot>) -> bool {
    forall|k: int| 0 <= k < slots.len() ==> normalized((#[trigger] slots[k]).2) && abs_index(slots[k].2) <= usize::MAX
}

/// Whether the universes up to the highest one of these channels can be created.
pub open spec fn universes_fit(slots: Seq<Slot>, default: UniverseIndex) -> bool {
    (max_universe(slots, default) + 1) * 512 <= usize::MAX
}

/// Once a pass stops, later channels do not change it.
proof fn lemma_pass_stuck(mode: PassMode, c: Seq<ResView>, slots: Seq<Slot>, name: Seq<char>, k: int)
    requires
        0 <= k <= slots.len(),
        pass(mode, c, slots.take(k), name) is Stopped,
    ensures
        pass(mode, c, slots, name) == pass(mode, c, slots.take(k), name),
    decreases slots.len() - k,
{
    if k < slots.len() {
        assert(slots.take(k + 1).drop_last() =~= slots.take(k));
        lemma_pass_stuck(mode, c, slots, name, k + 1);
    } else {
        assert(slots.take(k) =~= slots);
    }
}

proof fn lemma_pass_next(mode: PassMode, c: Seq<ResView>, slots: Seq<Slot>, name: Seq<char>, k: int)
    requires
        0 <= k < slots.len(),
    ensures
        pass(mode, c, slots.take(k + 1), name) == match pass(mode, c, slots.take(k), name) {
            PassState::Running(c1) => pass_step(mode, c1, slots[k], name),
            stopped => stopped,
        },
{
    assert(slots.take(k + 1).drop_last() =~= slots.take(k));
    assert(slots.take(k + 1).last() == slots[k]);
}

/// The channels of a fixture, in the order the engine handles them.
pub fn slot_list(f: &Fixture) -> (r: Vec<Slot>)
    ensures
        r@ == fixture_slots(f@),
{
    let chs = f.iter_over_properties();
    let ghost all = crate::fixture::fixture_channels(f@);
    let mut out: Vec<Slot> = Vec::new();
    let mut i: usize = 0;
    while i < chs.len()
        invariant
            i <= chs@.len(),
            chs@.len() == all.len(),
            forall|j: int| 0 <= j < chs@.len() ==> (#[trigger] chs@[j]).0 == all[j].0 && chs@[j].1@ == all[j].1,
            out@ == slots_of_channels(all.take(i as int)),
        decreases chs.len() - i,
    {
        let ghost before = out@;
        let n = chs[i].1.channel_count();
        let mut j: usize = 0;
        while j < n
            invariant
                i < chs@.len(),
                chs@.len() == all.len(),
                (chs@[i as int]).0 == all[i as int].0 && chs@[i as int].1@ == all[i as int].1,
                n == all[i as int].1.1.len(),
                j <= n,
                out@ == before + Seq::new(j as nat, |x: int| (all[i as int].0, x as usize, all[i as int].1.1[x])),
            decreases n - j,
        {
            out.push((chs[i].0.clone(), j, chs[i].1.channel_at(j)));
            assert(out@ =~= before + Seq::new((j + 1) as nat, |x: int| (all[i as int].0, x as usize, all[i as int].1.1[x])));
            j = j + 1;
        }
        proof {
            assert(all.take(i as int + 1).drop_last() =~= all.take(i as int));
            assert(all.take(i as int + 1).last() == all[i as int]);
        }
        i = i + 1;
    }
    assert(all.take(chs@.len() as int) =~= all);
    out
}

/// The highest universe of the channels, or `default` when there are none.
fn max_universe_of(slots: &Vec<Slot>, default: UniverseIndex) -> (r: UniverseIndex)
    ensures
        r as int == max_universe(slots@, default),
{
    if slots.len() == 0 {
        return default;
    }
    let mut m = slots[0].2.1;
    let mut k: usize = 1;
    proof {
        assert(slots@.take(1).drop_last() =~= Seq::<Slot>::empty());
    }
    while k < slots.len()
        invariant
            1 <= k <= slots@.len(),
            m as int == max_universe(slots@.take(k as int), default),
        decreases slots.len() - k,
    {
        if slots[k].2.1 > m {
            m = slots[k].2.1;
        }
        proof {
            assert(slots@.take(k as int + 1).drop_last() =~= slots@.take(k as int));
        }
        k = k + 1;
    }
    assert(slots@.take(slots@.len() as int) =~= slots@);
    m
}

/// Whether the fixture of type `type_label` placed at `start` fits the
/// address space: its channels fit in `usize`, and the universes up to its
/// highest one can be created. Outside this the operation would overflow.
pub open spec fn placement_fits(types: Seq<FixtureTypeView>, type_label: Seq<char>, start: ChannelInUniverse, name: Seq<char>) -> bool {
    start.0 <= MAX_CHANNEL && has_type(types, type_label) && type_in_universe(type_named(types, type_label), start.0) ==> {
        &&& type_fits(type_named(types, type_label), start)
        &&& universes_fit(fixture_slots(instantiate(type_named(types, type_label), start, name)), start.1)
    }
}

/// Adding a fixture named `name` of type `type_label` at `(sc, su)`: the
/// resulting engine and outcome.
///
/// The fixture is built (failing on a start channel above `MAX_CHANNEL`, an
/// unknown type, or a channel that would lie at or past the end of the
/// universe); the universes up to its highest one are created; its
/// channels are claimed (failing on a channel reserved by any fixture, with
/// the holder and its property); the name is checked (failing if taken); the
/// fixture is added and its claims are turned into reservations (failing, with
/// the fixture already added, on a channel that is no longer claimed by it).
pub open spec fn spec_new_fixture(v: EngineView, types: Seq<FixtureTypeView>, name: Seq<char>, type_label: Seq<char>,
    sc: ChannelIndex, su: UniverseIndex) -> (EngineView, Result<(), ErrorView>) {
    if sc > MAX_CHANNEL {
        (v, Err(ErrorView::ChannelOutOfRange))
    } else if !has_type(types, type_label) {
        (v, Err(ErrorView::InvalidFixtureType(type_label)))
    } else if !type_in_universe(type_named(types, type_label), sc) {
        (v, Err(ErrorView::ChannelOutOfRange))
    } else {
        let f = instantiate(type_named(types, type_label), (sc, su), name);
        let sl = fixture_slots(f);
        let c0 = grown(v.config, max_universe(sl, su) + 1);
        match pass(PassMode::Claim, c0, sl, name) {
            PassState::Stopped(c1, e) => (EngineView { config: c1, ..v }, Err(pass_error(e))),
            PassState::Running(c1) => if has_fixture(v.fixtures, name) {
                (EngineView { config: c1, ..v }, Err(ErrorView::FixtureNameAlreadyInUse(name)))
            } else {
                let p = pass(PassMode::Finalize, c1, sl, name);
                (EngineView { fixtures: v.fixtures.push(f), config: pass_config(p) }, pass_result(p))
            },
        }
    }
}

/// Moving the fixture `name` to start at `(nc, nu)`: the resulting engine and
/// outcome.
///
/// The fixture must exist, the start channel be at most `MAX_CHANNEL`, and
/// every moved channel lie before the end of the new universe;
/// the universes up to the moved fixture's highest one are created; the new
/// channels are claimed (a channel the fixture itself reserves is kept, one
/// reserved by another fixture is a conflict); the old reservations are
/// freed; the new channels are reserved; and the fixture is replaced by the
/// moved one. A failing step leaves the reservations as the passes left them
/// and the fixture where it was.
pub open spec fn spec_move_fixture(v: EngineView, name: Seq<char>, nc: ChannelIndex, nu: UniverseIndex)
    -> (EngineView, Result<(), ErrorView>) {
    if !has_fixture(v.fixtures, name) {
        (v, Err(ErrorView::InvalidFixture(name)))
    } else if nc > MAX_CHANNEL || !move_in_universe(v.fixtures[fixture_index(v.fixtures, name)], (nc, nu)) {
        (v, Err(ErrorView::ChannelOutOfRange))
    } else {
        let i = fixture_index(v.fixtures, name);
        let f = v.fixtures[i];
        let g = moved_fixture(f, (nc, nu));
        let sl = fixture_slots(g);
        let c0 = grown(v.config, max_universe(sl, nu) + 1);
        match pass(PassMode::ClaimForMove, c0, sl, name) {
            PassState::Stopped(c1, e) => (EngineView { config: c1, ..v }, Err(pass_error(e))),
            PassState::Running(c1) => match pass(PassMode::Clear, c1, fixture_slots(f), name) {
                PassState::Stopped(c2, e) => (EngineView { config: c2, ..v }, Err(pass_error(e))),
                PassState::Running(c2) => match pass(PassMode::FinalizeForMove, c2, sl, name) {
                    PassState::Stopped(c3, e) => (EngineView { config: c3, ..v }, Err(pass_error(e))),
                    PassState::Running(c3) => (EngineView { fixtures: v.fixtures.update(i, g), config: c3 }, Ok(())),
                },
            },
        }
    }
}

/// Removing the fixture `name`: its reservations are freed and it is removed;
/// if a channel is not reserved by it, the fixture stays, and channels freed
/// before stay free.
pub open spec fn spec_remove_fixture(v: EngineView, name: Seq<char>) -> (EngineView, Result<(), ErrorView>) {
    if !has_fixture(v.fixtures, name) {
        (v, Err(ErrorView::InvalidFixture(name)))
    } else {
        let i = fixture_index(v.fixtures, name);
        match pass(PassMode::Clear, v.config, fixture_slots(v.fixtures[i]), name) {
            PassState::Running(c) => (EngineView { fixtures: v.fixtures.remove(i), config: c }, Ok(())),
            PassState::Stopped(c, e) => (EngineView { config: c, ..v }, Err(pass_error(e))),
        }
    }
}

/// Whether moving the fixture `name` to `(nc, nu)` fits the address space;
/// outside this the operation would overflow.
pub open spec fn move_fits(v: EngineView, name: Seq<char>, nc: ChannelIndex, nu: UniverseIndex) -> bool {
    has_fixture(v.fixtures, name) && nc <= MAX_CHANNEL ==> {
        let f = v.fixtures[fixture_index(v.fixtures, name)];
        move_in_universe(f, (nc, nu)) ==> {
            &&& fits_move(f, (nc, nu))
            &&& universes_fit(fixture_slots(moved_fixture(f, (nc, nu))), nu)
        }
    }
}

/// Each slot of a list of properties is one of the addresses its channels name.
pub proof fn lemma_slots_addresses(chs: Seq<(PropertyType, (ChannelValue, Seq<ChannelInUniverse>))>, k: int)
    requires
        0 <= k < slots_of_channels(chs).len(),
    ensures
        exists|i: int, j: int| 0 <= i < chs.len() && 0 <= j < chs[i].1.1.len()
            && #[trigger] slots_of_channels(chs)[k] == (chs[i].0, j as usize, chs[i].1.1[j]),
    decreases chs.len(),
{
    let init = chs.drop_last();
    let n = slots_of_channels(init).len();
    if k < n {
        lemma_slots_addresses(init, k);
        let (i, j) = choose|i: int, j: int| 0 <= i < init.len() && 0 <= j < init[i].1.1.len()
            && #[trigger] slots_of_channels(init)[k] == (init[i].0, j as usize, init[i].1.1[j]);
        assert(chs[i] == init[i]);
    } else {
        let j = k - n;
        assert(slots_of_channels(chs)[k] == (chs[chs.len() - 1].0, j as usize, chs[chs.len() - 1].1.1[j]));
    }
}

/// The slots of a well-formed fixture are normalized and at or after its start.
pub proof fn lemma_fixture_slots_ok(f: FixtureView)
    requires
        fixture_wf(f),
    ensures
        slots_ok(fixture_slots(f)),
        forall|k: int| 0 <= k < fixture_slots(f).len() ==> address_ok(f, (#[trigger] fixture_slots(f)[k]).2),
{
    crate::fixture::lemma_wf_channels(f);
    let chs = crate::fixture::fixture_channels(f);
    assert forall|k: int| 0 <= k < fixture_slots(f).len() implies address_ok(f, (#[trigger] fixture_slots(f)[k]).2) by {
        lemma_slots_addresses(chs, k);
    }
}

/// No slot lies in a universe above [`max_universe`].
pub proof fn lemma_max_universe(slots: Seq<Slot>, d: UniverseIndex)
    ensures
        forall|k: int| 0 <= k < slots.len() ==> (#[trigger] slots[k]).2.1 <= max_universe(slots, d),
        slots.len() == 0 ==> max_universe(slots, d) == d,
        max_universe(slots, d) >= 0,
    decreases slots.len(),
{
    if slots.len() > 1 {
        lemma_max_universe(slots.drop_last(), d);
        assert forall|k: int| 0 <= k < slots.len() implies (#[trigger] slots[k]).2.1 <= max_universe(slots, d) by {
            if k < slots.len() - 1 {
                assert(slots[k] == slots.drop_last()[k]);
            }
        }
    }
}

/// A pass over normalized channels keeps the number of reservations.
pub proof fn lemma_pass_len(mode: PassMode, c: Seq<ResView>, slots: Seq<Slot>, name: Seq<char>)
    requires
        c.len() % 512 == 0,
        slots_ok(slots),
    ensures
        pass_config(pass(mode, c, slots, name)).len() == c.len(),
    decreases slots.len(),
{
    if slots.len() > 0 {
        let init = slots.drop_last();
        assert(slots_ok(init)) by {
            assert forall|k: int| 0 <= k < init.len() implies normalized((#[trigger] init[k]).2) && abs_index(init[k].2) <= usize::MAX by {
                assert(init[k] == slots[k]);
            }
        }
        lemma_pass_len(mode, c, init, name);
        assert(normalized(slots[slots.len() - 1].2));
    }
}

/// The action one step of a pass takes on a channel.
enum StepAction {
    Keep,
    Write(ChannelReservation),
    Fail(FixtureError),
}

impl FixtureEngine {
    /// Runs a pass over `slots` for the fixture `name`; see [`pass`].
    fn run_pass(&mut self, mode: PassMode, slots: &Vec<Slot>, name: &String) -> (r: Result<(), FixtureError>)
        requires
            old(self)@.config.len() % 512 == 0,
            slots_ok(slots@),
        ensures
            final(self)@.fixtures == old(self)@.fixtures,
            final(self)@.config == pass_config(pass(mode, old(self)@.config, slots@, name@)),
            result_view(r) == pass_result(pass(mode, old(self)@.config, slots@, name@)),
    {
        let ghost c0 = self@.config;
        let mut k: usize = 0;
        proof {
            assert(slots@.take(0) =~= Seq::<Slot>::empty());
        }
        while k < slots.len()
            invariant
                self.fixtures == old(self).fixtures,
                c0 == old(self)@.config,
                self@.config.len() == c0.len(),
                c0.len() % 512 == 0,
                slots_ok(slots@),
                k <= slots@.len(),
                pass(mode, c0, slots@.take(k as int), name@) == PassState::Running(self@.config),
            decreases slots.len() - k,
        {
            proof {
                lemma_pass_next(mode, c0, slots@, name@, k as int);
            }
            let a = slots[k].2;
            let universes = self.dmx_config.len() / 512;
            if a.1 >= universes {
                proof {
                    lemma_pass_stuck(mode, c0, slots@, name@, k as int + 1);
                }
                return Err(FixtureError::ChannelError(ChannelError::UniverseOutOfRange));
            }
            assert(normalized(slots@[k as int].2));
            let idx = a.1 * 512 + a.0 as usize;
            assert(idx as int == cell(a));
            let action = match mode {
                PassMode::Claim => match &self.dmx_config[idx] {
                    ChannelReservation::Reserved(e, q, _) => StepAction::Fail(FixtureError::ChannelError(
                        ChannelError::ChannelAlreadyInUse(join(join(e.clone(), ", "), q.name().as_str())))),
                    _ => StepAction::Write(ChannelReservation::Pending(name.clone())),
                },
                PassMode::ClaimForMove => match &self.dmx_config[idx] {
                    ChannelReservation::Reserved(e, q, _) => if *e == *name {
                        StepAction::Keep
                    } else {
                        StepAction::Fail(FixtureError::ChannelError(
                            ChannelError::ChannelAlreadyInUse(join(join(e.clone(), ", "), q.name().as_str()))))
                    },
                    _ => StepAction::Write(ChannelReservation::Pending(name.clone())),
                },
                PassMode::Finalize => match &self.dmx_config[idx] {
                    ChannelReservation::Pending(e) => if *e == *name {
                        StepAction::Write(ChannelReservation::Reserved(name.clone(), slots[k].0.clone(), slots[k].1))
                    } else {
                        StepAction::Fail(FixtureError::DmxStateDesync)
                    },
                    _ => StepAction::Fail(FixtureError::DmxStateDesync),
                },
                PassMode::FinalizeForMove => match &self.dmx_config[idx] {
                    ChannelReservation::Pending(e) => if *e == *name {
                        StepAction::Write(ChannelReservation::Reserved(name.clone(), slots[k].0.clone(), slots[k].1))
                    } else {
                        StepAction::Fail(FixtureError::DmxStateDesync)
                    },
                    ChannelReservation::Empty =>
                        StepAction::Write(ChannelReservation::Reserved(name.clone(), slots[k].0.clone(), slots[k].1)),
                    _ => StepAction::Fail(FixtureError::DmxStateDesync),
                },
                PassMode::Clear => match &self.dmx_config[idx] {
                    ChannelReservation::Reserved(e, _, _) => if *e == *name {
                        StepAction::Write(ChannelReservation::Empty)
                    } else {
                        StepAction::Fail(FixtureError::DmxStateDesync)
                    },
                    _ => StepAction::Fail(FixtureError::DmxStateDesync),
                },
            };
            match action {
                StepAction::Keep => {}
                StepAction::Write(x) => {
                    let ghost before = self@.config;
                    self.dmx_config.set(idx, x);
                    assert(self@.config =~= before.update(idx as int, x@));
                }
                StepAction::Fail(e) => {
                    proof {
                        lemma_pass_stuck(mode, c0, slots@, name@, k as int + 1);
                    }
                    return Err(e);
                }
            }
            k = k + 1;
        }
        proof {
            assert(slots@.take(slots@.len() as int) =~= slots@);
        }
        Ok(())
    }

    /// An engine without fixtures or universes.
    pub fn new() -> (r: Self)
        ensures
            r@.fixtures.len() == 0,
            r@.config.len() == 0,
            engine_wf(r@),
    {
        FixtureEngine { fixtures: Vec::new(), dmx_config: Vec::new() }
    }

    /// The position of the fixture named `name`.
    fn find_fixture(&self, name: &String) -> (r: Option<usize>)
        ensures
            r is None <==> !has_fixture(self@.fixtures, name@),
            r matches Some(i) ==> i < self@.fixtures.len() && self@.fixtures[i as int].name == name@,
    {
        let mut i: usize = 0;
        while i < self.fixtures.len()
            invariant
                i <= self.fixtures@.len(),
                forall|j: int| 0 <= j < i ==> self@.fixtures[j].name != name@,
            decreases self.fixtures.len() - i,
        {
            let n = self.fixtures[i].get_name();
            if crate::text::str_eq(n, name.as_str()) {
                return Some(i);
            }
            i = i + 1;
        }
        None
    }

    /// Grows the reservations to at least `size` universes, new channels empty.
    pub fn ensure_universe_size(&mut self, size: usize)
        requires
            old(self)@.config.len() % 512 == 0,
            size * 512 <= usize::MAX,
        ensures
            final(self)@ == (EngineView { config: grown(old(self)@.config, size as int), ..old(self)@ }),
    {
        let target = size * 512;
        if target > self.dmx_config.len() {
            let ghost c0 = self@.config;
            while self.dmx_config.len() < target
                invariant
                    self.fixtures == old(self).fixtures,
                    c0 == old(self)@.config,
                    c0.len() <= self.dmx_config@.len() <= target,
                    self@.config =~= c0 + Seq::new((self.dmx_config@.len() - c0.len()) as nat, |i: int| ResView::Empty),
                decreases target - self.dmx_config.len(),
            {
                let ghost prev = self@.config;
                self.dmx_config.push(ChannelReservation::Empty);
                assert(self@.config =~= prev.push(ResView::Empty));
            }
        }
        proof {
            assert(self@.config =~= grown(old(self)@.config, size as int));
        }
    }
}


/// With distinct names, the fixture at `i` is the one `fixture_index` names.
proof fn lemma_index_unique(v: EngineView, i: int)
    requires
        engine_wf(v),
        0 <= i < v.fixtures.len(),
    ensures
        has_fixture(v.fixtures, v.fixtures[i].name),
        fixture_index(v.fixtures, v.fixtures[i].name) == i,
{
    let name = v.fixtures[i].name;
    assert(has_fixture(v.fixtures, name));
    let j = fixture_index(v.fixtures, name);
    if j < i {
        assert(v.fixtures[j].name != v.fixtures[i].name);
    } else if j > i {
        assert(v.fixtures[i].name != v.fixtures[j].name);
    }
}

/// Growing the reservations by whole universes keeps the engine well formed.
proof fn lemma_wf_config(v: EngineView, config: Seq<ResView>)
    requires
        engine_wf(v),
        config.len() >= v.config.len(),
        config.len() % 512 == 0,
    ensures
        engine_wf(EngineView { config, ..v }),
{
    let w = EngineView { config, ..v };
    assert(universe_total(w) >= universe_total(v));
}

/// Adding a well-formed fixture with a new name whose channels lie in
/// existing universes keeps the engine well formed.
proof fn lemma_wf_push(v: EngineView, f: FixtureView)
    requires
        engine_wf(v),
        !has_fixture(v.fixtures, f.name),
        fixture_wf(f),
        in_own_universe(f),
        forall|k: int| 0 <= k < fixture_slots(f).len() ==> (#[trigger] fixture_slots(f)[k]).2.1 < universe_total(v),
    ensures
        engine_wf(EngineView { fixtures: v.fixtures.push(f), ..v }),
{
    let fs = v.fixtures.push(f);
    assert forall|i: int, j: int| 0 <= i < j < fs.len() implies (#[trigger] fs[i]).name != (#[trigger] fs[j]).name by {
        if j == v.fixtures.len() {
            assert(fs[i] == v.fixtures[i]);
        } else {
            assert(fs[i] == v.fixtures[i] && fs[j] == v.fixtures[j]);
        }
    }
    assert forall|i: int| 0 <= i < fs.len() implies fixture_wf(#[trigger] fs[i]) && in_own_universe(fs[i]) by {
        if i < v.fixtures.len() {
            assert(fs[i] == v.fixtures[i]);
        }
    }
    assert forall|i: int, k: int| 0 <= i < fs.len() && 0 <= k < fixture_slots(fs[i]).len()
        implies (#[trigger] fixture_slots(fs[i])[k]).2.1 < universe_total(v) by {
        if i < v.fixtures.len() {
            assert(fs[i] == v.fixtures[i]);
        }
    }
}

/// Replacing a fixture by a well-formed one of the same name whose channels
/// lie in existing universes keeps the engine well formed.
proof fn lemma_wf_update(v: EngineView, i: int, g: FixtureView)
    requires
        engine_wf(v),
        0 <= i < v.fixtures.len(),
        g.name == v.fixtures[i].name,
        fixture_wf(g),
        in_own_universe(g),
        forall|k: int| 0 <= k < fixture_slots(g).len() ==> (#[trigger] fixture_slots(g)[k]).2.1 < universe_total(v),
    ensures
        engine_wf(EngineView { fixtures: v.fixtures.update(i, g), ..v }),
{
    let fs = v.fixtures.update(i, g);
    assert forall|a: int, b: int| 0 <= a < b < fs.len() implies (#[trigger] fs[a]).name != (#[trigger] fs[b]).name by {
        assert(fs[a].name == v.fixtures[a].name && fs[b].name == v.fixtures[b].name);
    }
    assert forall|a: int| 0 <= a < fs.len() implies fixture_wf(#[trigger] fs[a]) && in_own_universe(fs[a]) by {
        if a != i {
            assert(fs[a] == v.fixtures[a]);
        }
    }
    assert forall|a: int, k: int| 0 <= a < fs.len() && 0 <= k < fixture_slots(fs[a]).len()
        implies (#[trigger] fixture_slots(fs[a])[k]).2.1 < universe_total(v) by {
        if a != i {
            assert(fs[a] == v.fixtures[a]);
        }
    }
}

/// Removing a fixture keeps the engine well formed.
proof fn lemma_wf_remove(v: EngineView, i: int)
    requires
        engine_wf(v),
        0 <= i < v.fixtures.len(),
    ensures
        engine_wf(EngineView { fixtures: v.fixtures.remove(i), ..v }),
{
    let fs = v.fixtures.remove(i);
    assert forall|a: int, b: int| 0 <= a < b < fs.len() implies (#[trigger] fs[a]).name != (#[trigger] fs[b]).name by {
        let a0 = if a < i { a } else { a + 1 };
        let b0 = if b < i { b } else { b + 1 };
        assert(fs[a] == v.fixtures[a0] && fs[b] == v.fixtures[b0]);
    }
    assert forall|a: int| 0 <= a < fs.len() implies fixture_wf(#[trigger] fs[a]) && in_own_universe(fs[a]) by {
        let a0 = if a < i { a } else { a + 1 };
        assert(fs[a] == v.fixtures[a0]);
    }
    assert forall|a: int, k: int| 0 <= a < fs.len() && 0 <= k < fixture_slots(fs[a]).len()
        implies (#[trigger] fixture_slots(fs[a])[k]).2.1 < universe_total(v) by {
        let a0 = if a < i { a } else { a + 1 };
        assert(fs[a] == v.fixtures[a0]);
    }
}

impl FixtureEngine {
    /// Adds a fixture named `name` of the registered type
    /// `fixture_type_name` at `start_channel` of `start_universe`, creating
    /// the universes it needs and reserving its channels; see
    /// [`spec_new_fixture`].
    pub fn new_fixture(&mut self, registry: &FixtureTypeRegistry, name: String, fixture_type_name: String,
        start_channel: ChannelIndex, start_universe: UniverseIndex) -> (r: Result<(), FixtureError>)
        requires
            engine_wf(old(self)@),
            registry_wf(registry@),
            placement_fits(registry@, fixture_type_name@, (start_channel, start_universe), name@),
        ensures
            engine_wf(final(self)@),
            (final(self)@, result_view(r)) == spec_new_fixture(old(self)@, registry@, name@, fixture_type_name@,
                start_channel, start_universe),
    {
        let ghost v0 = self@;
        let ghost type_label = fixture_type_name@;
        if start_channel <= MAX_CHANNEL {
            if let Some(idx) = registry.find(&fixture_type_name) {
                proof {
                    let k = choose|i: int| 0 <= i < registry@.len() && (#[trigger] registry@[i]).name == type_label;
                    assert(registry@[idx as int].name == registry@[k].name);
                    assert(registry@[idx as int] == type_named(registry@, type_label));
                }
                if !registry.get(idx).within_universe_at(start_channel) {
                    return Err(FixtureError::ChannelError(ChannelError::ChannelOutOfRange));
                }
            }
        }
        let fixture = match Fixture::new(registry, fixture_type_name, start_channel, start_universe, name.clone()) {
            Ok(f) => f,
            Err(e) => return Err(e),
        };
        let slots = slot_list(&fixture);
        proof {
            lemma_fixture_slots_ok(fixture@);
            lemma_max_universe(slots@, start_universe);
        }
        let max_u = max_universe_of(&slots, start_universe);
        self.ensure_universe_size(max_u + 1);
        let ghost v1 = self@;
        proof {
            lemma_wf_config(v0, v1.config);
        }
        let claimed = self.run_pass(PassMode::Claim, &slots, &name);
        proof {
            lemma_pass_len(PassMode::Claim, v1.config, slots@, name@);
            lemma_wf_config(v0, self@.config);
        }
        if let Err(e) = claimed {
            return Err(e);
        }
        if let Some(_) = self.find_fixture(&name) {
            return Err(FixtureError::FixtureNameAlreadyInUse(name));
        }
        let ghost v2 = self@;
        proof {
            lemma_wf_push(v2, fixture@);
        }
        self.fixtures.push(fixture);
        assert(self@.fixtures =~= v2.fixtures.push(fixture@));
        let ghost v3 = self@;
        let finalized = self.run_pass(PassMode::Finalize, &slots, &name);
        proof {
            lemma_pass_len(PassMode::Finalize, v3.config, slots@, name@);
            lemma_wf_config(v3, self@.config);
        }
        finalized
    }

    /// Moves the fixture `name` to start at `new_channel` of `new_universe`,
    /// moving its reservations along; see [`spec_move_fixture`].
    pub fn move_fixture(&mut self, name: String, new_channel: ChannelIndex, new_universe: UniverseIndex)
        -> (r: Result<(), FixtureError>)
        requires
            engine_wf(old(self)@),
            move_fits(old(self)@, name@, new_channel, new_universe),
        ensures
            engine_wf(final(self)@),
            (final(self)@, result_view(r)) == spec_move_fixture(old(self)@, name@, new_channel, new_universe),
    {
        let ghost v0 = self@;
        let i = match self.find_fixture(&name) {
            Some(i) => i,
            None => return Err(FixtureError::InvalidFixture(name)),
        };
        proof {
            lemma_index_unique(v0, i as int);
        }
        let ghost f0 = v0.fixtures[i as int];
        assert(self.fixtures@[i as int]@ == f0);
        let old_slots = slot_list(&self.fixtures[i]);
        let mut moved = self.fixtures[i].clone();
        if let Err(e) = moved.move_to_channel(new_channel, new_universe) {
            return Err(e);
        }
        let slots = slot_list(&moved);
        proof {
            lemma_fixture_slots_ok(f0);
            lemma_fixture_slots_ok(moved@);
            lemma_max_universe(slots@, new_universe);
        }
        let max_u = max_universe_of(&slots, new_universe);
        self.ensure_universe_size(max_u + 1);
        let ghost v1 = self@;
        proof {
            lemma_wf_config(v0, v1.config);
        }
        let claimed = self.run_pass(PassMode::ClaimForMove, &slots, &name);
        proof {
            lemma_pass_len(PassMode::ClaimForMove, v1.config, slots@, name@);
            lemma_wf_config(v0, self@.config);
        }
        if let Err(e) = claimed {
            return Err(e);
        }
        let ghost v2 = self@;
        let cleared = self.run_pass(PassMode::Clear, &old_slots, &name);
        proof {
            lemma_pass_len(PassMode::Clear, v2.config, old_slots@, name@);
            lemma_wf_config(v0, self@.config);
        }
        if let Err(e) = cleared {
            return Err(e);
        }
        let ghost v3 = self@;
        let finalized = self.run_pass(PassMode::FinalizeForMove, &slots, &name);
        proof {
            lemma_pass_len(PassMode::FinalizeForMove, v3.config, slots@, name@);
            lemma_wf_config(v0, self@.config);
        }
        if let Err(e) = finalized {
            return Err(e);
        }
        let ghost v4 = self@;
        proof {
            lemma_wf_update(v4, i as int, moved@);
        }
        self.fixtures.set(i, moved);
        assert(self@.fixtures =~= v4.fixtures.update(i as int, moved@));
        Ok(())
    }

    /// Removes the fixture `name` and frees its reservations; see
    /// [`spec_remove_fixture`].
    pub fn remove_fixture(&mut self, name: String) -> (r: Result<(), FixtureError>)
        requires
            engine_wf(old(self)@),
        ensures
            engine_wf(final(self)@),
            (final(self)@, result_view(r)) == spec_remove_fixture(old(self)@, name@),
    {
        let ghost v0 = self@;
        let i = match self.find_fixture(&name) {
            Some(i) => i,
            None => return Err(FixtureError::InvalidFixture(name)),
        };
        proof {
            lemma_index_unique(v0, i as int);
            lemma_fixture_slots_ok(v0.fixtures[i as int]);
        }
        let fixture = self.fixtures.remove(i);
        assert(fixture@ == v0.fixtures[i as int]);
        assert(self@.fixtures =~= v0.fixtures.remove(i as int));
        let slots = slot_list(&fixture);
        let ghost v1 = self@;
        let cleared = self.run_pass(PassMode::Clear, &slots, &name);
        proof {
            lemma_pass_len(PassMode::Clear, v1.config, slots@, name@);
        }
        match cleared {
            Ok(()) => {
                proof {
                    lemma_wf_remove(v0, i as int);
                    lemma_wf_config(EngineView { fixtures: v0.fixtures.remove(i as int), ..v0 }, self@.config);
                }
                Ok(())
            }
            Err(e) => {
                let ghost v2 = self@;
                let ghost before = self.fixtures@;
                assert(self@.fixtures == v1.fixtures);
                self.fixtures.insert(i, fixture);
                assert(self.fixtures@ =~= before.insert(i as int, fixture));
                assert(self@.fixtures =~= v1.fixtures.insert(i as int, fixture@));
                assert(self@.fixtures =~= v0.fixtures);
                proof {
                    lemma_wf_config(v0, self@.config);
                }
                Err(e)
            }
        }
    }
}


/// The layout of a list of properties: each property with its channel
/// addresses, values left out.
pub open spec fn layout_of(chs: Seq<(PropertyType, (ChannelValue, Seq<ChannelInUniverse>))>) -> Seq<(PropertyType, Seq<ChannelInUniverse>)> {
    chs.map_values(|x: (PropertyType, (ChannelValue, Seq<ChannelInUniverse>))| (x.0, x.1.1))
}

/// The channels of a list of properties depend on their layout alone.
pub proof fn lemma_slots_layout(a: Seq<(PropertyType, (ChannelValue, Seq<ChannelInUniverse>))>,
    b: Seq<(PropertyType, (ChannelValue, Seq<ChannelInUniverse>))>)
    requires
        layout_of(a) == layout_of(b),
    ensures
        slots_of_channels(a) == slots_of_channels(b),
    decreases a.len(),
{
    assert(a.len() == layout_of(a).len() && b.len() == layout_of(b).len());
    if a.len() > 0 {
        assert(layout_of(a.drop_last()) =~= layout_of(b.drop_last())) by {
            assert forall|i: int| 0 <= i < a.len() - 1 implies layout_of(a.drop_last())[i] == layout_of(b.drop_last())[i] by {
                assert(layout_of(a)[i] == layout_of(b)[i]);
            }
        }
        lemma_slots_layout(a.drop_last(), b.drop_last());
        assert(layout_of(a)[a.len() - 1] == layout_of(b)[a.len() - 1]);
    }
}

/// What setting `property` of fixture `f` to `value` gives: the fixture after
/// and the outcome. A simple property takes the value; a color component
/// yields the conversion the new color needs and leaves the fixture as it is.
pub open spec fn set_outcome(f: FixtureView, property: PropertyType, value: ChannelValue)
    -> (FixtureView, Result<Option<ColorModelInput>, ErrorView>) {
    match property {
        PropertyType::Simple(p) => if has_simple(f, p) {
            (with_simple_value(f, p, value), Ok(None))
        } else {
            (f, Err(ErrorView::MissingProperty(property)))
        },
        PropertyType::Color(c) => match f.color {
            Some(col) => (f, Ok(Some(conversion_for(col, c, value)))),
            None => (f, Err(ErrorView::MissingProperty(property))),
        },
    }
}

/// Setting `property` of the fixture `name` to `value`: the resulting engine
/// and outcome. The reservations never change.
pub open spec fn spec_set_property(v: EngineView, name: Seq<char>, property: PropertyType, value: ChannelValue)
    -> (EngineView, Result<Option<ColorModelInput>, ErrorView>) {
    if !has_fixture(v.fixtures, name) {
        (v, Err(ErrorView::InvalidFixture(name)))
    } else {
        let i = fixture_index(v.fixtures, name);
        let (g, r) = set_outcome(v.fixtures[i], property, value);
        (EngineView { fixtures: v.fixtures.update(i, g), ..v }, r)
    }
}

pub open spec fn opt_result_view(r: Result<Option<ColorModelInput>, FixtureError>) -> Result<Option<ColorModelInput>, ErrorView> {
    match r {
        Ok(x) => Ok(x),
        Err(e) => Err(error_view(e)),
    }
}

/// Completing a color change of the fixture `name` with the new color state
/// `c`: the resulting engine and outcome.
pub open spec fn spec_set_color(v: EngineView, name: Seq<char>, c: spec_fn(crate::fixture::color::ColorView) -> crate::fixture::color::ColorView)
    -> (EngineView, Result<(), ErrorView>) {
    if !has_fixture(v.fixtures, name) {
        (v, Err(ErrorView::InvalidFixture(name)))
    } else {
        let i = fixture_index(v.fixtures, name);
        let f = v.fixtures[i];
        match f.color {
            Some(col) => (EngineView { fixtures: v.fixtures.update(i, FixtureView { color: Some(c(col)), ..f }), ..v }, Ok(())),
            None => (v, Err(ErrorView::MissingProperty(PropertyType::Color(crate::fixture::ColorPropertyType::Red)))),
        }
    }
}

/// The color change from red, green and blue, with the hue and saturation of that color.
pub open spec fn rgb_change(red: ChannelValue, green: ChannelValue, blue: ChannelValue, hue: ChannelValue,
    saturation: ChannelValue) -> spec_fn(crate::fixture::color::ColorView) -> crate::fixture::color::ColorView {
    |c: crate::fixture::color::ColorView| after_rgb(c, red, green, blue, hue, saturation)
}

/// The color change from hue, saturation and value, with the red, green and blue of that color.
pub open spec fn hsv_change(hue: ChannelValue, saturation: ChannelValue, value: ChannelValue, red: ChannelValue,
    green: ChannelValue, blue: ChannelValue) -> spec_fn(crate::fixture::color::ColorView) -> crate::fixture::color::ColorView {
    |c: crate::fixture::color::ColorView| after_hsv(c, hue, saturation, value, red, green, blue)
}

/// How a client shows a reservation: a reservation by a known fixture as
/// that fixture's property and fine degree, anything else as empty.
pub open spec fn client_cell(v: EngineView, x: ResView) -> ClientCellView {
    match x {
        ResView::Reserved(n, p, d) => if has_fixture(v.fixtures, n) {
            ClientCellView::Reserved(n, p, d)
        } else {
            ClientCellView::Empty
        },
        _ => ClientCellView::Empty,
    }
}

/// The type name of the fixture holding a reservation (meaningful for a
/// reservation by a known fixture).
pub open spec fn holder_type(v: EngineView, x: ResView) -> Seq<char> {
    match x {
        ResView::Reserved(n, _, _) => v.fixtures[fixture_index(v.fixtures, n)].fixture_type,
        _ => Seq::empty(),
    }
}

/// A client cell reserved by a fixture carries the hash of that fixture's type name.
pub open spec fn hash_matches(v: EngineView, x: ResView, d: DMXConfigurationForClient) -> bool {
    d matches DMXConfigurationForClient::Reserved { fixture_type_hash: h, .. } ==> h == type_name_hash(holder_type(v, x))
}

/// The state of a default hasher after `Hash::hash` of a `String` with text
/// `s` fed it from state `state`. `Hash` promises that equal values hash
/// alike, so the state after depends on the state before and the text alone.
pub uninterp spec fn string_hashed(state: Seq<Seq<u8>>, s: Seq<char>) -> Seq<Seq<u8>>;

/// Feeds `s` into `state` with `Hash::hash` of `String`: the hasher's state
/// after is [`string_hashed`] of its state before and the text. Which bytes
/// the hash writes is left unstated.
#[verifier::external_body]
fn hash_string(s: &String, state: &mut DefaultHasher)
    ensures
        final(state)@ == string_hashed(old(state)@, s@),
{
    s.hash(state);
}

/// The colour-coding hash of a fixture type name: the digest, modulo 256, of
/// a new default hasher fed the name.
pub open spec fn type_name_hash(name: Seq<char>) -> u8 {
    (DefaultHasher::spec_finish(string_hashed(Seq::empty(), name)) % 256) as u8
}

/// The hash of a fixture type name that clients use for color coding: the
/// default hasher's digest of the name, modulo 256.
fn fixture_type_hash(fixture_type: &String) -> (r: u8)
    ensures
        r == type_name_hash(fixture_type@),
{
    let mut hasher = DefaultHasher::new();
    hash_string(fixture_type, &mut hasher);
    let full: u64 = hasher.finish();
    (full % 256) as u8
}

impl FixtureEngine {
    /// Sets `property` of the fixture `name` to `value`; see [`spec_set_property`].
    /// For a color component the result is the conversion the new color
    /// needs; [`FixtureEngine::set_color_rgb`] or [`FixtureEngine::set_color_hsv`]
    /// completes it.
    pub fn set_property(&mut self, name: String, property: PropertyType, value: ChannelValue)
        -> (r: Result<Option<ColorModelInput>, FixtureError>)
        requires
            engine_wf(old(self)@),
        ensures
            engine_wf(final(self)@),
            (final(self)@, opt_result_view(r)) == spec_set_property(old(self)@, name@, property, value),
    {
        let ghost v0 = self@;
        let i = match self.find_fixture(&name) {
            Some(i) => i,
            None => return Err(FixtureError::InvalidFixture(name)),
        };
        proof {
            lemma_index_unique(v0, i as int);
        }
        let ghost f0 = v0.fixtures[i as int];
        let mut f = self.fixtures.remove(i);
        assert(f@ == f0);
        let r = f.set(property, value);
        let ghost before = self.fixtures@;
        self.fixtures.insert(i, f);
        assert(self.fixtures@ =~= before.insert(i as int, f));
        assert(self@.fixtures =~= v0.fixtures.update(i as int, f@));
        proof {
            assert(layout_of(fixture_channels(f@)) =~= layout_of(fixture_channels(f0)));
            lemma_slots_layout(fixture_channels(f@), fixture_channels(f0));
            assert forall|k: int| 0 <= k < fixture_slots(f@).len()
                implies (#[trigger] fixture_slots(f@)[k]).2.1 < universe_total(v0) by {
                assert(fixture_slots(v0.fixtures[i as int])[k] == fixture_slots(f@)[k]);
            }
            lemma_wf_update(v0, i as int, f@);
        }
        r
    }

    /// Completes a color change of the fixture `name` from red, green and
    /// blue, with the hue and saturation of that color.
    pub fn set_color_rgb(&mut self, name: String, red: ChannelValue, green: ChannelValue, blue: ChannelValue,
        hue: ChannelValue, saturation: ChannelValue) -> (r: Result<(), FixtureError>)
        requires
            engine_wf(old(self)@),
        ensures
            engine_wf(final(self)@),
            (final(self)@, result_view(r)) == spec_set_color(old(self)@, name@, rgb_change(red, green, blue, hue, saturation)),
    {
        let ghost v0 = self@;
        let i = match self.find_fixture(&name) {
            Some(i) => i,
            None => return Err(FixtureError::InvalidFixture(name)),
        };
        proof {
            lemma_index_unique(v0, i as int);
        }
        let ghost f0 = v0.fixtures[i as int];
        if !self.fixtures[i].has_color() {
            return Err(FixtureError::MissingProperty(PropertyType::Color(crate::fixture::ColorPropertyType::Red)));
        }
        let mut f = self.fixtures.remove(i);
        assert(f@ == f0);
        f.set_color_rgb(red, green, blue, hue, saturation);
        let ghost before = self.fixtures@;
        self.fixtures.insert(i, f);
        assert(self.fixtures@ =~= before.insert(i as int, f));
        assert(self@.fixtures =~= v0.fixtures.update(i as int, f@));
        proof {
            assert(layout_of(fixture_channels(f@)) =~= layout_of(fixture_channels(f0)));
            lemma_slots_layout(fixture_channels(f@), fixture_channels(f0));
            assert forall|k: int| 0 <= k < fixture_slots(f@).len()
                implies (#[trigger] fixture_slots(f@)[k]).2.1 < universe_total(v0) by {
                assert(fixture_slots(v0.fixtures[i as int])[k] == fixture_slots(f@)[k]);
            }
            lemma_wf_update(v0, i as int, f@);
        }
        Ok(())
    }

    /// Completes a color change of the fixture `name` from hue, saturation
    /// and value, with the red, green and blue of that color.
    pub fn set_color_hsv(&mut self, name: String, hue: ChannelValue, saturation: ChannelValue, value: ChannelValue,
        red: ChannelValue, green: ChannelValue, blue: ChannelValue) -> (r: Result<(), FixtureError>)
        requires
            engine_wf(old(self)@),
        ensures
            engine_wf(final(self)@),
            (final(self)@, result_view(r)) == spec_set_color(old(self)@, name@, hsv_change(hue, saturation, value, red, green, blue)),
    {
        let ghost v0 = self@;
        let i = match self.find_fixture(&name) {
            Some(i) => i,
            None => return Err(FixtureError::InvalidFixture(name)),
        };
        proof {
            lemma_index_unique(v0, i as int);
        }
        let ghost f0 = v0.fixtures[i as int];
        if !self.fixtures[i].has_color() {
            return Err(FixtureError::MissingProperty(PropertyType::Color(crate::fixture::ColorPropertyType::Red)));
        }
        let mut f = self.fixtures.remove(i);
        assert(f@ == f0);
        f.set_color_hsv(hue, saturation, value, red, green, blue);
        let ghost before = self.fixtures@;
        self.fixtures.insert(i, f);
        assert(self.fixtures@ =~= before.insert(i as int, f));
        assert(self@.fixtures =~= v0.fixtures.update(i as int, f@));
        proof {
            assert(layout_of(fixture_channels(f@)) =~= layout_of(fixture_channels(f0)));
            lemma_slots_layout(fixture_channels(f@), fixture_channels(f0));
            assert forall|k: int| 0 <= k < fixture_slots(f@).len()
                implies (#[trigger] fixture_slots(f@)[k]).2.1 < universe_total(v0) by {
                assert(fixture_slots(v0.fixtures[i as int])[k] == fixture_slots(f@)[k]);
            }
            lemma_wf_update(v0, i as int, f@);
        }
        Ok(())
    }

    /// The type name of the fixture `name`.
    pub fn get_fixture_type_from_string(&self, name: String) -> (r: Result<String, FixtureError>)
        requires
            engine_wf(self@),
        ensures
            !has_fixture(self@.fixtures, name@) ==> (r matches Err(FixtureError::InvalidFixture(n)) && n@ == name@),
            has_fixture(self@.fixtures, name@) ==> (r matches Ok(t)
                && t@ == self@.fixtures[fixture_index(self@.fixtures, name@)].fixture_type),
    {
        match self.find_fixture(&name) {
            Some(i) => {
                proof {
                    lemma_index_unique(self@, i as int);
                }
                assert(self.fixtures@[i as int]@ == self@.fixtures[i as int]);
                Ok(self.fixtures[i].get_fixture_type())
            }
            None => Err(FixtureError::InvalidFixture(name)),
        }
    }

    /// The number of universes.
    pub fn universe_count(&self) -> (r: usize)
        ensures
            r == universe_total(self@),
    {
        self.dmx_config.len() / 512
    }

    /// A copy of the fixtures.
    pub fn fixture_list(&self) -> (r: Vec<Fixture>)
        ensures
            crate::fixture::fixture_views(r@) == self@.fixtures,
    {
        let mut out: Vec<Fixture> = Vec::new();
        let mut i: usize = 0;
        while i < self.fixtures.len()
            invariant
                i <= self.fixtures@.len(),
                crate::fixture::fixture_views(out@) =~= self@.fixtures.take(i as int),
            decreases self.fixtures.len() - i,
        {
            let f = self.fixtures[i].clone();
            let ghost before = out@;
            out.push(f);
            proof {
                assert(out@ =~= before.push(f));
                assert(crate::fixture::fixture_views(out@) =~= crate::fixture::fixture_views(before).push(f@));
                assert(self.fixtures@[i as int]@ == self@.fixtures[i as int]);
                assert(self@.fixtures.take(i as int + 1) =~= self@.fixtures.take(i as int).push(self@.fixtures[i as int]));
            }
            i = i + 1;
        }
        assert(self@.fixtures.take(self.fixtures@.len() as int) =~= self@.fixtures);
        out
    }

    /// The reservations as clients show them, universe by universe: each
    /// channel reserved by a known fixture carries the fixture's name, the
    /// property, the fine degree and a hash of the fixture's type name;
    /// every other channel is empty.
    pub fn get_dmx_config_for_client(&self) -> (r: Vec<Vec<DMXConfigurationForClient>>)
        requires
            engine_wf(self@),
        ensures
            r@.len() == universe_total(self@),
            forall|u: int| 0 <= u < r@.len() ==> (#[trigger] r@[u])@.len() == 512,
            forall|u: int, c: int| 0 <= u < r@.len() && 0 <= c < 512
                ==> (#[trigger] r@[u]@[c]).cell_view() == client_cell(self@, self@.config[u * 512 + c])
                && hash_matches(self@, self@.config[u * 512 + c], r@[u]@[c]),
    {
        let total = self.dmx_config.len();
        let n = total / 512;
        let mut out: Vec<Vec<DMXConfigurationForClient>> = Vec::new();
        let mut u: usize = 0;
        while u < n
            invariant
                n == universe_total(self@),
                total == self@.config.len(),
                self@.config.len() % 512 == 0,
                u <= n,
                out@.len() == u,
                forall|x: int| 0 <= x < u ==> (#[trigger] out@[x])@.len() == 512,
                forall|x: int, c: int| 0 <= x < u && 0 <= c < 512
                    ==> (#[trigger] out@[x]@[c]).cell_view() == client_cell(self@, self@.config[x * 512 + c])
                    && hash_matches(self@, self@.config[x * 512 + c], out@[x]@[c]),
                engine_wf(self@),
            decreases n - u,
        {
            let mut row: Vec<DMXConfigurationForClient> = Vec::new();
            let mut c: usize = 0;
            while c < 512
                invariant
                    n == universe_total(self@),
                    total == self@.config.len(),
                    self@.config.len() % 512 == 0,
                    u < n,
                    c <= 512,
                    row@.len() == c,
                    forall|y: int| 0 <= y < c ==> (#[trigger] row@[y]).cell_view() == client_cell(self@, self@.config[u * 512 + y])
                        && hash_matches(self@, self@.config[u * 512 + y], row@[y]),
                    engine_wf(self@),
                decreases 512 - c,
            {
                assert(u * 512 + c < self@.config.len()) by (nonlinear_arith)
                    requires
                        u < self@.config.len() / 512,
                        c < 512,
                        self@.config.len() % 512 == 0,
                ;
                let idx = u * 512 + c;
                assert(self.dmx_config@[idx as int]@ == self@.config[idx as int]);
                let cell = match &self.dmx_config[idx] {
                    ChannelReservation::Reserved(fixture, property, fine_degree) => match self.find_fixture(fixture) {
                        Some(i) => {
                            proof {
                                lemma_index_unique(self@, i as int);
                            }
                            assert(self.fixtures@[i as int]@ == self@.fixtures[i as int]);
                            let fixture_type = self.fixtures[i].get_fixture_type();
                            DMXConfigurationForClient::Reserved {
                                fixture_name: fixture.clone(),
                                property_type: property.clone(),
                                fine_degree: *fine_degree,
                                fixture_type_hash: fixture_type_hash(&fixture_type),
                            }
                        }
                        None => DMXConfigurationForClient::Empty,
                    },
                    _ => DMXConfigurationForClient::Empty,
                };
                row.push(cell);
                c = c + 1;
            }
            out.push(row);
            u = u + 1;
        }
        out
    }
}


/// Whether [`FixtureEngine::new_fixture`] can be called with these arguments:
/// decides [`placement_fits`].
pub fn placement_fits_check(registry: &FixtureTypeRegistry, fixture_type_name: &String,
    start_channel: ChannelIndex, start_universe: UniverseIndex, name: &String) -> (r: bool)
    requires
        registry_wf(registry@),
    ensures
        r == placement_fits(registry@, fixture_type_name@, (start_channel, start_universe), name@),
{
    if start_channel > MAX_CHANNEL {
        return true;
    }
    let idx = match registry.find(fixture_type_name) {
        Some(i) => i,
        None => return true,
    };
    proof {
        let k = choose|i: int| 0 <= i < registry@.len() && (#[trigger] registry@[i]).name == fixture_type_name@;
        assert(registry@[idx as int].name == registry@[k].name);
        assert(registry@[idx as int] == type_named(registry@, fixture_type_name@));
    }
    if !registry.get(idx).within_universe_at(start_channel) {
        return true;
    }
    if !registry.get(idx).fits_at_start((start_channel, start_universe)) {
        return false;
    }
    match Fixture::new(registry, fixture_type_name.clone(), start_channel, start_universe, name.clone()) {
        Ok(f) => {
            let slots = slot_list(&f);
            let m = max_universe_of(&slots, start_universe);
            proof {
                lemma_max_universe(slots@, start_universe);
            }
            assert((m + 1) * 512 <= usize::MAX <==> m < usize::MAX / 512) by (nonlinear_arith);
            m < usize::MAX / 512
        }
        Err(_) => true,
    }
}

/// Decides [`move_fits`]: whether [`FixtureEngine::move_fixture`] can be
/// called with these arguments.
pub fn move_fits_check(engine: &FixtureEngine, name: &String, new_channel: ChannelIndex, new_universe: UniverseIndex)
    -> (r: bool)
    requires
        engine_wf(engine@),
    ensures
        r == move_fits(engine@, name@, new_channel, new_universe),
{
    let i = match engine.find_fixture(name) {
        Some(i) => i,
        None => return true,
    };
    if new_channel > MAX_CHANNEL {
        return true;
    }
    proof {
        lemma_index_unique(engine@, i as int);
    }
    let f = &engine.fixtures[i];
    assert(f@ == engine@.fixtures[i as int]);
    if !f.move_stays_in_universe((new_channel, new_universe)) {
        return true;
    }
    if !f.fits_move_to((new_channel, new_universe)) {
        return false;
    }
    let mut g = f.clone();
    proof {
        assert(fixture_wf(g@));
    }
    match g.move_to_channel(new_channel, new_universe) {
        Ok(()) => {
            let slots = slot_list(&g);
            let m = max_universe_of(&slots, new_universe);
            assert((m + 1) * 512 <= usize::MAX <==> m < usize::MAX / 512) by (nonlinear_arith);
            m < usize::MAX / 512
        }
        Err(_) => true,
    }
}

/// A request to the fixture engine.
#[derive(Debug)]
pub enum FixtureCommand {
    /// Add a fixture; see [`FixtureEngine::new_fixture`].
    SpawnFixture {
        name: String,
        fixture_type_name: String,
        start_channel: ChannelIndex,
        start_universe: UniverseIndex,
    },
    /// Move a fixture; see [`FixtureEngine::move_fixture`].
    MoveFixture {
        name: String,
        new_channel: ChannelIndex,
        new_universe: UniverseIndex,
    },
    /// Remove a fixture; see [`FixtureEngine::remove_fixture`].
    RemoveFixture {
        name: String,
    },
    /// Set a property; see [`FixtureEngine::set_property`].
    SetProperty {
        fixture_name: String,
        property: PropertyType,
        value: ChannelValue,
    },
    /// Ask for a fixture's type; see [`FixtureEngine::get_fixture_type_from_string`].
    GetType {
        fixture_name: String,
    },
}

/// The engine's reply to a command.
#[derive(Debug)]
pub enum CommandReply {
    /// The outcome of adding, moving or removing a fixture.
    Done(Result<(), FixtureError>),
    /// The outcome of setting a property (with the color conversion it needs).
    Property(Result<Option<ColorModelInput>, FixtureError>),
    /// A fixture's type name.
    Type(Result<String, FixtureError>),
}

/// What handling a command did: the reply, whether the reservations changed
/// (clients are then sent the new allocation) and whether the output values
/// may have changed (the output is then recomputed).
#[derive(Debug)]
pub struct CommandOutcome {
    pub reply: CommandReply,
    pub config_changed: bool,
    pub values_changed: bool,
}

/// Whether a command can be handled: the placement or move fits the address space.
pub open spec fn command_fits(v: EngineView, types: Seq<FixtureTypeView>, cmd: FixtureCommand) -> bool {
    match cmd {
        FixtureCommand::SpawnFixture { name, fixture_type_name, start_channel, start_universe } =>
            placement_fits(types, fixture_type_name@, (start_channel, start_universe), name@),
        FixtureCommand::MoveFixture { name, new_channel, new_universe } =>
            move_fits(v, name@, new_channel, new_universe),
        _ => true,
    }
}

impl FixtureEngine {
    /// Handles one command: performs it and reports what changed. The
    /// reservations change only when adding, moving or removing succeeds;
    /// the values may change then and when setting a property succeeds.
    /// Reservations in agreement with the fixtures stay so, whatever the
    /// command and its outcome.
    pub fn handle_command(&mut self, registry: &FixtureTypeRegistry, cmd: FixtureCommand) -> (r: CommandOutcome)
        requires
            engine_wf(old(self)@),
            registry_wf(registry@),
            command_fits(old(self)@, registry@, cmd),
        ensures
            engine_wf(final(self)@),
            consistent(old(self)@) ==> consistent(final(self)@),
            r.values_changed == (r.config_changed || (r.reply matches CommandReply::Property(x) && x is Ok)),
            match cmd {
                FixtureCommand::SpawnFixture { name, fixture_type_name, start_channel, start_universe } =>
                    r.reply matches CommandReply::Done(x) && r.config_changed == x is Ok
                    && (final(self)@, result_view(x)) == spec_new_fixture(old(self)@, registry@, name@,
                        fixture_type_name@, start_channel, start_universe),
                FixtureCommand::MoveFixture { name, new_channel, new_universe } =>
                    r.reply matches CommandReply::Done(x) && r.config_changed == x is Ok
                    && (final(self)@, result_view(x)) == spec_move_fixture(old(self)@, name@, new_channel, new_universe),
                FixtureCommand::RemoveFixture { name } =>
                    r.reply matches CommandReply::Done(x) && r.config_changed == x is Ok
                    && (final(self)@, result_view(x)) == spec_remove_fixture(old(self)@, name@),
                FixtureCommand::SetProperty { fixture_name, property, value } =>
                    r.reply matches CommandReply::Property(x) && !r.config_changed
                    && (final(self)@, opt_result_view(x)) == spec_set_property(old(self)@, fixture_name@, property, value),
                FixtureCommand::GetType { fixture_name } =>
                    r.reply matches CommandReply::Type(x) && !r.config_changed && final(self)@ == old(self)@
                    && (!has_fixture(old(self)@.fixtures, fixture_name@) ==> (x matches Err(FixtureError::InvalidFixture(n)) && n@ == fixture_name@))
                    && (has_fixture(old(self)@.fixtures, fixture_name@) ==> (x matches Ok(t)
                        && t@ == old(self)@.fixtures[fixture_index(old(self)@.fixtures, fixture_name@)].fixture_type)),
            },
    {
        match cmd {
            FixtureCommand::SpawnFixture { name, fixture_type_name, start_channel, start_universe } => {
                proof {
                    if consistent(self@) {
                        law_new_fixture_keeps_consistent(self@, registry@, name@, fixture_type_name@, start_channel, start_universe);
                    }
                }
                let x = self.new_fixture(registry, name, fixture_type_name, start_channel, start_universe);
                let ok = x.is_ok();
                CommandOutcome { reply: CommandReply::Done(x), config_changed: ok, values_changed: ok }
            }
            FixtureCommand::MoveFixture { name, new_channel, new_universe } => {
                proof {
                    if consistent(self@) {
                        law_move_fixture_keeps_consistent(self@, name@, new_channel, new_universe);
                    }
                }
                let x = self.move_fixture(name, new_channel, new_universe);
                let ok = x.is_ok();
                CommandOutcome { reply: CommandReply::Done(x), config_changed: ok, values_changed: ok }
            }
            FixtureCommand::RemoveFixture { name } => {
                proof {
                    if consistent(self@) {
                        law_remove_fixture_keeps_consistent(self@, name@);
                    }
                }
                let x = self.remove_fixture(name);
                let ok = x.is_ok();
                CommandOutcome { reply: CommandReply::Done(x), config_changed: ok, values_changed: ok }
            }
            FixtureCommand::SetProperty { fixture_name, property, value } => {
                proof {
                    if consistent(self@) {
                        law_set_property_consistent(self@, fixture_name@, property, value);
                    }
                }
                let x = self.set_property(fixture_name, property, value);
                let ok = x.is_ok();
                CommandOutcome { reply: CommandReply::Property(x), config_changed: false, values_changed: ok }
            }
            FixtureCommand::GetType { fixture_name } => {
                let x = self.get_fixture_type_from_string(fixture_name);
                CommandOutcome { reply: CommandReply::Type(x), config_changed: false, values_changed: false }
            }
        }
    }
}

/// Adds a fixture to `engine`; see [`FixtureEngine::new_fixture`].
pub fn new_fixture(engine: &mut FixtureEngine, registry: &FixtureTypeRegistry, name: String, fixture_type_name: String,
    start_channel: ChannelIndex, start_universe: UniverseIndex) -> (r: Result<(), FixtureError>)
    requires
        engine_wf(old(engine)@),
        registry_wf(registry@),
        placement_fits(registry@, fixture_type_name@, (start_channel, start_universe), name@),
    ensures
        engine_wf(final(engine)@),
        (final(engine)@, result_view(r)) == spec_new_fixture(old(engine)@, registry@, name@, fixture_type_name@,
            start_channel, start_universe),
{
    engine.new_fixture(registry, name, fixture_type_name, start_channel, start_universe)
}

/// Moves a fixture of `engine`; see [`FixtureEngine::move_fixture`].
pub fn move_fixture(engine: &mut FixtureEngine, name: String, new_channel: ChannelIndex, new_universe: UniverseIndex)
    -> (r: Result<(), FixtureError>)
    requires
        engine_wf(old(engine)@),
        move_fits(old(engine)@, name@, new_channel, new_universe),
    ensures
        engine_wf(final(engine)@),
        (final(engine)@, result_view(r)) == spec_move_fixture(old(engine)@, name@, new_channel, new_universe),
{
    engine.move_fixture(name, new_channel, new_universe)
}

/// Removes a fixture of `engine`; see [`FixtureEngine::remove_fixture`].
pub fn remove_fixture(engine: &mut FixtureEngine, name: String) -> (r: Result<(), FixtureError>)
    requires
        engine_wf(old(engine)@),
    ensures
        engine_wf(final(engine)@),
        (final(engine)@, result_view(r)) == spec_remove_fixture(old(engine)@, name@),
{
    engine.remove_fixture(name)
}

/// Sets a property of a fixture of `engine`; see [`FixtureEngine::set_property`].
pub fn set_property(engine: &mut FixtureEngine, fixture_name: String, property: PropertyType, value: ChannelValue)
    -> (r: Result<Option<ColorModelInput>, FixtureError>)
    requires
        engine_wf(old(engine)@),
    ensures
        engine_wf(final(engine)@),
        (final(engine)@, opt_result_view(r)) == spec_set_property(old(engine)@, fixture_name@, property, value),
{
    engine.set_property(fixture_name, property, value)
}

/// The type name of a fixture of `engine`; see
/// [`FixtureEngine::get_fixture_type_from_string`].
pub fn get_fixture_type(engine: &FixtureEngine, fixture_name: String) -> (r: Result<String, FixtureError>)
    requires
        engine_wf(engine@),
    ensures
        !has_fixture(engine@.fixtures, fixture_name@) ==> (r matches Err(FixtureError::InvalidFixture(n)) && n@ == fixture_name@),
        has_fixture(engine@.fixtures, fixture_name@) ==> (r matches Ok(t)
            && t@ == engine@.fixtures[fixture_index(engine@.fixtures, fixture_name@)].fixture_type),
{
    engine.get_fixture_type_from_string(fixture_name)
}

} // verus!
