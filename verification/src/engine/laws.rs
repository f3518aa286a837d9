//! What the reservation passes do, and the laws of the fixture engine that
//! follow: every operation, successful or not, keeps every fixture's channels
//! reserved by it and nothing else reserved, so fixtures never share a channel; removing a
//! fixture that was just added gives the engine back, and so does moving a
//! fixture back after a move; a move in place changes nothing; adding on free
//! channels succeeds; a fixture's type reads the same until it is removed; and
//! in such an engine the fatal errors (a missing universe, reservations out of
//! step) never occur.
use vstd::prelude::*;
use crate::engine::{PassMode, PassState, PassError, ErrorView, ResView, Slot, EngineView, cell, pass, pass_step, pass_config, slots_ok,
    fixture_slots, engine_wf, has_fixture, fixture_index, grown, max_universe, spec_new_fixture,
    spec_move_fixture, spec_remove_fixture, placement_fits, move_fits, lemma_pass_len, universe_total,
    spec_set_property, set_outcome, layout_of, lemma_slots_layout, client_cell, spec_set_color};
use crate::fixture::{ChannelValue, fixture_channels};
use crate::fixture::channel::PropertyType;
use crate::networking::subscription::ClientCellView;
use crate::fixture::channel::{normalized, abs_index};
use crate::fixture::{FixtureView, ChannelIndex, UniverseIndex, MAX_CHANNEL, fixture_wf, instantiate, type_named,
    type_in_universe, move_in_universe, law_move_in_place, law_move_round_trip,
    lemma_instantiate_wf, moved_fixture, lemma_moved_wf, lemma_instantiate_distinct};
use crate::fixture::fixture_type::{FixtureTypeView, has_type, registry_wf, type_wf, lists_distinct};
use crate::engine::{lemma_fixture_slots_ok, slots_of_channels, lemma_slots_addresses};
use crate::fixture::{ChannelInUniverse, moved_entry, lemma_moved_channels, lemma_channels_shiftable, lemma_wf_channels,
    address_ok, start_of, fits_move};
use crate::fixture::channel::{moved, shiftable, lemma_from_abs};

verus! {

/// Whether some channel of `sl` sits at position `x` of the reservations.
pub open spec fn in_slots(sl: Seq<Slot>, x: int) -> bool {
    exists|k: int| 0 <= k < sl.len() && #[trigger] cell(sl[k].2) == x
}

/// How a successful pass leaves the reservation of one of its channels,
/// given what it was before the pass.
pub open spec fn step_ok(mode: PassMode, before: ResView, after: ResView, s: Slot, n: Seq<char>) -> bool {
    match mode {
        PassMode::Claim => !(before is Reserved) && after == ResView::Pending(n),
        PassMode::ClaimForMove => (!(before is Reserved) && after == ResView::Pending(n))
            || (before is Reserved && before->Reserved_0 == n && after == before),
        PassMode::Finalize => before == ResView::Pending(n) && after == ResView::Reserved(n, s.0, s.1),
        PassMode::FinalizeForMove => (before == ResView::Pending(n) || before == ResView::Empty)
            && after == ResView::Reserved(n, s.0, s.1),
        PassMode::Clear => before is Reserved && before->Reserved_0 == n && after == ResView::Empty,
    }
}

/// The passes that succeed only if no two of their channels share a position.
pub open spec fn visits_once(mode: PassMode) -> bool {
    mode is Finalize || mode is FinalizeForMove || mode is Clear
}

/// Every channel of `sl` lies in one of the universes of reservations of length `len`.
pub open spec fn slots_within(sl: Seq<Slot>, len: int) -> bool {
    forall|k: int| 0 <= k < sl.len() ==> (#[trigger] sl[k]).2.1 < len / 512
}

/// What a successful pass does: channels outside it keep their reservation;
/// each of its channels ends as [`step_ok`] says; the passes of
/// [`visits_once`] visit distinct positions.
pub proof fn lemma_pass_effect(mode: PassMode, c: Seq<ResView>, sl: Seq<Slot>, n: Seq<char>)
    requires
        c.len() % 512 == 0,
        slots_ok(sl),
        pass(mode, c, sl, n) is Running,
    ensures
        pass_config(pass(mode, c, sl, n)).len() == c.len(),
        slots_within(sl, c.len() as int),
        forall|k: int| 0 <= k < sl.len() ==> 0 <= #[trigger] cell(sl[k].2) < c.len(),
        forall|x: int| 0 <= x < c.len() && !in_slots(sl, x) ==> #[trigger] pass_config(pass(mode, c, sl, n))[x] == c[x],
        forall|k: int| 0 <= k < sl.len() ==> step_ok(mode, c[cell(sl[k].2)],
            pass_config(pass(mode, c, sl, n))[#[trigger] cell(sl[k].2)], sl[k], n),
        visits_once(mode) ==> forall|k1: int, k2: int| 0 <= k1 < k2 < sl.len()
            ==> #[trigger] cell(sl[k1].2) != #[trigger] cell(sl[k2].2),
    decreases sl.len(),
{
    if sl.len() == 0 {
        return;
    }
    let init = sl.drop_last();
    let s = sl.last();
    let last = sl.len() - 1;
    assert(slots_ok(init)) by {
        assert forall|k: int| 0 <= k < init.len() implies normalized((#[trigger] init[k]).2) && abs_index(init[k].2) <= usize::MAX by {
            assert(init[k] == sl[k]);
        }
    }
    let c1 = pass_config(pass(mode, c, init, n));
    assert(pass(mode, c, init, n) is Running);
    lemma_pass_effect(mode, c, init, n);
    let a = cell(s.2);
    assert(normalized(s.2));
    assert(s.2.1 < c1.len() / 512);
    assert(0 <= a < c.len()) by (nonlinear_arith)
        requires
            a == s.2.1 * 512 + s.2.0,
            s.2.0 < 512,
            s.2.1 < c.len() / 512,
            c.len() % 512 == 0,
            c.len() >= 0,
    ;
    let c2 = pass_config(pass(mode, c, sl, n));
    assert(pass(mode, c, sl, n) == pass_step(mode, c1, s, n));
    assert(forall|k: int| 0 <= k < init.len() ==> #[trigger] init[k] == sl[k]);
    // The write of this step.
    assert(c2 == c1 || c2 == c1.update(a, c2[a]));
    assert(c2.len() == c1.len());
    assert forall|k: int| 0 <= k < sl.len() implies (#[trigger] sl[k]).2.1 < c.len() / 512 by {
        if k < last {
            assert(init[k] == sl[k]);
        }
    }
    assert forall|k: int| 0 <= k < sl.len() implies 0 <= #[trigger] cell(sl[k].2) < c.len() by {
        if k < last {
            assert(init[k] == sl[k]);
        }
    }
    assert forall|x: int| 0 <= x < c.len() && !in_slots(sl, x) implies #[trigger] c2[x] == c[x] by {
        if in_slots(init, x) {
            let k = choose|k: int| 0 <= k < init.len() && #[trigger] cell(init[k].2) == x;
            assert(cell(sl[k].2) == x);
        }
        assert(cell(sl[last].2) == a);
        assert(x != a);
    }
    if in_slots(init, a) {
        let k0 = choose|k: int| 0 <= k < init.len() && #[trigger] cell(init[k].2) == a;
        assert(step_ok(mode, c[a], c1[a], init[k0], n));
        assert(cell(sl[k0].2) == a);
        assert(!visits_once(mode));
    } else {
        assert(c1[a] == c[a]);
    }
    assert forall|k: int| 0 <= k < sl.len() implies step_ok(mode, c[cell(sl[k].2)], c2[#[trigger] cell(sl[k].2)], sl[k], n) by {
        if k < last && cell(sl[k].2) != a {
            assert(step_ok(mode, c[cell(init[k].2)], c1[cell(init[k].2)], init[k], n));
        } else if k < last {
            assert(step_ok(mode, c[cell(init[k].2)], c1[cell(init[k].2)], init[k], n));
            assert(!visits_once(mode));
        }
    }
    if visits_once(mode) {
        assert forall|k1: int, k2: int| 0 <= k1 < k2 < sl.len() implies #[trigger] cell(sl[k1].2) != #[trigger] cell(sl[k2].2) by {
            if k2 < last {
                assert(cell(init[k1].2) != cell(init[k2].2));
            } else {
                if cell(sl[k1].2) == a {
                    assert(cell(init[k1].2) == a);
                    assert(in_slots(init, a));
                }
            }
        }
    }
}


/// Every channel of every fixture is reserved by that fixture, for the
/// channel's property and fine degree.
pub open spec fn reserved_by_fixtures(v: EngineView) -> bool {
    forall|i: int, k: int| 0 <= i < v.fixtures.len() && 0 <= k < fixture_slots(v.fixtures[i]).len()
        ==> v.config[cell((#[trigger] fixture_slots(v.fixtures[i])[k]).2)]
            == ResView::Reserved(v.fixtures[i].name, fixture_slots(v.fixtures[i])[k].0, fixture_slots(v.fixtures[i])[k].1)
}

/// Every reserved channel is a channel of some fixture.
pub open spec fn reservations_owned(v: EngineView) -> bool {
    forall|x: int| 0 <= x < v.config.len() && (#[trigger] v.config[x]) is Reserved
        ==> exists|i: int, k: int| 0 <= i < v.fixtures.len() && 0 <= k < fixture_slots(v.fixtures[i]).len()
            && #[trigger] cell(fixture_slots(v.fixtures[i])[k].2) == x
}

/// No two channels of the list are at the same position.
pub open spec fn distinct_cells(sl: Seq<Slot>) -> bool {
    forall|k1: int, k2: int| 0 <= k1 < k2 < sl.len() ==> #[trigger] cell(sl[k1].2) != #[trigger] cell(sl[k2].2)
}

/// No fixture has two channels at the same position.
pub open spec fn fixtures_distinct(v: EngineView) -> bool {
    forall|i: int| 0 <= i < v.fixtures.len() ==> distinct_cells(fixture_slots(#[trigger] v.fixtures[i]))
}

/// The reservations agree with the fixtures: each channel of a fixture,
/// at a position of its own, is reserved by it, and nothing else is reserved.
pub open spec fn consistent(v: EngineView) -> bool {
    reserved_by_fixtures(v) && reservations_owned(v) && fixtures_distinct(v)
}

/// The channels of the fixtures of a well-formed engine lie within the reservations.
proof fn lemma_fixture_cells(v: EngineView, i: int)
    requires
        engine_wf(v),
        0 <= i < v.fixtures.len(),
    ensures
        slots_ok(fixture_slots(v.fixtures[i])),
        forall|k: int| 0 <= k < fixture_slots(v.fixtures[i]).len()
            ==> 0 <= #[trigger] cell(fixture_slots(v.fixtures[i])[k].2) < v.config.len(),
{
    lemma_fixture_slots_ok(v.fixtures[i]);
    assert forall|k: int| 0 <= k < fixture_slots(v.fixtures[i]).len()
        implies 0 <= #[trigger] cell(fixture_slots(v.fixtures[i])[k].2) < v.config.len() by {
        let s = fixture_slots(v.fixtures[i])[k];
        assert(normalized(s.2));
        assert(s.2.1 < v.config.len() / 512);
        assert(0 <= cell(s.2) < v.config.len()) by (nonlinear_arith)
            requires
                cell(s.2) == s.2.1 * 512 + s.2.0,
                s.2.0 < 512,
                s.2.1 < v.config.len() / 512,
                v.config.len() % 512 == 0,
        ;
    }
}

/// Growing keeps the existing reservations and adds empty ones.
proof fn lemma_grown(c: Seq<ResView>, size: int)
    requires
        c.len() % 512 == 0,
        size >= 0,
    ensures
        grown(c, size).len() % 512 == 0,
        grown(c, size).len() >= c.len(),
        grown(c, size).len() >= size * 512,
        forall|x: int| 0 <= x < c.len() ==> #[trigger] grown(c, size)[x] == c[x],
        forall|x: int| c.len() <= x < grown(c, size).len() ==> #[trigger] grown(c, size)[x] == ResView::Empty,
{
    if size * 512 > c.len() {
        assert((size * 512) % 512 == 0) by (nonlinear_arith);
    }
}

/// Law: adding a fixture successfully keeps the reservations in agreement
/// with the fixtures.
pub proof fn law_new_fixture_consistent(v: EngineView, types: Seq<FixtureTypeView>, name: Seq<char>,
    type_label: Seq<char>, sc: ChannelIndex, su: UniverseIndex)
    requires
        engine_wf(v),
        consistent(v),
        registry_wf(types),
        placement_fits(types, type_label, (sc, su), name),
        spec_new_fixture(v, types, name, type_label, sc, su).1 is Ok,
    ensures
        consistent(spec_new_fixture(v, types, name, type_label, sc, su).0),
{
    let t = type_named(types, type_label);
    let k0 = choose|i: int| 0 <= i < types.len() && (#[trigger] types[i]).name == type_label;
    assert(type_wf(types[k0]));
    lemma_instantiate_wf(t, (sc, su), name);
    let f = instantiate(t, (sc, su), name);
    lemma_fixture_slots_ok(f);
    let sl = fixture_slots(f);
    let c0 = grown(v.config, max_universe(sl, su) + 1);
    crate::engine::lemma_max_universe(sl, su);
    lemma_grown(v.config, max_universe(sl, su) + 1);
    assert(pass(PassMode::Claim, c0, sl, name) is Running);
    let c1 = pass_config(pass(PassMode::Claim, c0, sl, name));
    lemma_pass_effect(PassMode::Claim, c0, sl, name);
    assert(!has_fixture(v.fixtures, name));
    assert(pass(PassMode::Finalize, c1, sl, name) is Running);
    lemma_pass_effect(PassMode::Finalize, c1, sl, name);
    let c3 = pass_config(pass(PassMode::Finalize, c1, sl, name));
    let w = spec_new_fixture(v, types, name, type_label, sc, su).0;
    assert(w.fixtures == v.fixtures.push(f) && w.config == c3);
    let n = v.fixtures.len() as int;
    assert forall|i: int, k: int| 0 <= i < w.fixtures.len() && 0 <= k < fixture_slots(w.fixtures[i]).len()
        implies w.config[cell((#[trigger] fixture_slots(w.fixtures[i])[k]).2)]
            == ResView::Reserved(w.fixtures[i].name, fixture_slots(w.fixtures[i])[k].0, fixture_slots(w.fixtures[i])[k].1) by {
        if i < n {
            assert(w.fixtures[i] == v.fixtures[i]);
            lemma_fixture_cells(v, i);
            let x = cell(fixture_slots(v.fixtures[i])[k].2);
            assert(c0[x] == v.config[x]);
            if in_slots(sl, x) {
                let j = choose|j: int| 0 <= j < sl.len() && #[trigger] cell(sl[j].2) == x;
                assert(step_ok(PassMode::Claim, c0[cell(sl[j].2)], c1[cell(sl[j].2)], sl[j], name));
            }
            assert(c1[x] == c0[x]);
            if in_slots(sl, x) {
                let j = choose|j: int| 0 <= j < sl.len() && #[trigger] cell(sl[j].2) == x;
                assert(step_ok(PassMode::Finalize, c1[cell(sl[j].2)], c3[cell(sl[j].2)], sl[j], name));
            }
            assert(c3[x] == c1[x]);
        } else {
            assert(w.fixtures[i] == f);
            assert(step_ok(PassMode::Finalize, c1[cell(sl[k].2)], c3[cell(sl[k].2)], sl[k], name));
        }
    }
    assert forall|x: int| 0 <= x < w.config.len() && (#[trigger] w.config[x]) is Reserved
        implies exists|i: int, k: int| 0 <= i < w.fixtures.len() && 0 <= k < fixture_slots(w.fixtures[i]).len()
            && #[trigger] cell(fixture_slots(w.fixtures[i])[k].2) == x by {
        if in_slots(sl, x) {
            let j = choose|j: int| 0 <= j < sl.len() && #[trigger] cell(sl[j].2) == x;
            assert(w.fixtures[n] == f);
            assert(cell(fixture_slots(w.fixtures[n])[j].2) == x);
        } else {
            assert(c3[x] == c1[x] && c1[x] == c0[x]);
            assert(x < v.config.len());
            assert(v.config[x] is Reserved);
            let (i, k) = choose|i: int, k: int| 0 <= i < v.fixtures.len() && 0 <= k < fixture_slots(v.fixtures[i]).len()
                && #[trigger] cell(fixture_slots(v.fixtures[i])[k].2) == x;
            assert(w.fixtures[i] == v.fixtures[i]);
            assert(cell(fixture_slots(w.fixtures[i])[k].2) == x);
        }
    }
}

/// Law: in an engine whose reservations agree with its fixtures, no two
/// fixtures share a channel.
pub proof fn law_no_shared_channel(v: EngineView, i: int, j: int, k: int, l: int)
    requires
        engine_wf(v),
        consistent(v),
        0 <= i < v.fixtures.len(),
        0 <= j < v.fixtures.len(),
        i != j,
        0 <= k < fixture_slots(v.fixtures[i]).len(),
        0 <= l < fixture_slots(v.fixtures[j]).len(),
    ensures
        cell(fixture_slots(v.fixtures[i])[k].2) != cell(fixture_slots(v.fixtures[j])[l].2),
{
    if i < j {
        assert(v.fixtures[i].name != v.fixtures[j].name);
    } else {
        assert(v.fixtures[j].name != v.fixtures[i].name);
    }
}


/// Law: moving a fixture successfully keeps the reservations in agreement
/// with the fixtures.
pub proof fn law_move_fixture_consistent(v: EngineView, name: Seq<char>, nc: ChannelIndex, nu: UniverseIndex)
    requires
        engine_wf(v),
        consistent(v),
        move_fits(v, name, nc, nu),
        spec_move_fixture(v, name, nc, nu).1 is Ok,
    ensures
        consistent(spec_move_fixture(v, name, nc, nu).0),
{
    let i = fixture_index(v.fixtures, name);
    let f = v.fixtures[i];
    assert(f.name == name);
    lemma_moved_wf(f, (nc, nu));
    let g = moved_fixture(f, (nc, nu));
    lemma_fixture_slots_ok(g);
    lemma_fixture_cells(v, i);
    let sl = fixture_slots(g);
    let osl = fixture_slots(f);
    let c0 = grown(v.config, max_universe(sl, nu) + 1);
    crate::engine::lemma_max_universe(sl, nu);
    lemma_grown(v.config, max_universe(sl, nu) + 1);
    assert(pass(PassMode::ClaimForMove, c0, sl, name) is Running);
    let c1 = pass_config(pass(PassMode::ClaimForMove, c0, sl, name));
    lemma_pass_effect(PassMode::ClaimForMove, c0, sl, name);
    assert(pass(PassMode::Clear, c1, osl, name) is Running);
    let c2 = pass_config(pass(PassMode::Clear, c1, osl, name));
    lemma_pass_effect(PassMode::Clear, c1, osl, name);
    assert(pass(PassMode::FinalizeForMove, c2, sl, name) is Running);
    let c3 = pass_config(pass(PassMode::FinalizeForMove, c2, sl, name));
    lemma_pass_effect(PassMode::FinalizeForMove, c2, sl, name);
    let w = spec_move_fixture(v, name, nc, nu).0;
    assert(w.fixtures == v.fixtures.update(i, g) && w.config == c3);
    assert(g.name == name);
    assert forall|a: int, k: int| 0 <= a < w.fixtures.len() && 0 <= k < fixture_slots(w.fixtures[a]).len()
        implies w.config[cell((#[trigger] fixture_slots(w.fixtures[a])[k]).2)]
            == ResView::Reserved(w.fixtures[a].name, fixture_slots(w.fixtures[a])[k].0, fixture_slots(w.fixtures[a])[k].1) by {
        if a != i {
            assert(w.fixtures[a] == v.fixtures[a]);
            if a < i {
                assert(v.fixtures[a].name != v.fixtures[i].name);
            } else {
                assert(v.fixtures[i].name != v.fixtures[a].name);
            }
            lemma_fixture_cells(v, a);
            let x = cell(fixture_slots(v.fixtures[a])[k].2);
            assert(c0[x] == v.config[x]);
            if in_slots(sl, x) {
                let j = choose|j: int| 0 <= j < sl.len() && #[trigger] cell(sl[j].2) == x;
                assert(step_ok(PassMode::ClaimForMove, c0[cell(sl[j].2)], c1[cell(sl[j].2)], sl[j], name));
            }
            assert(c1[x] == c0[x]);
            if in_slots(osl, x) {
                let j = choose|j: int| 0 <= j < osl.len() && #[trigger] cell(osl[j].2) == x;
                assert(step_ok(PassMode::Clear, c1[cell(osl[j].2)], c2[cell(osl[j].2)], osl[j], name));
            }
            assert(c2[x] == c1[x]);
            if in_slots(sl, x) {
                let j = choose|j: int| 0 <= j < sl.len() && #[trigger] cell(sl[j].2) == x;
                assert(step_ok(PassMode::FinalizeForMove, c2[cell(sl[j].2)], c3[cell(sl[j].2)], sl[j], name));
            }
            assert(c3[x] == c2[x]);
        } else {
            assert(w.fixtures[a] == g);
            assert(step_ok(PassMode::FinalizeForMove, c2[cell(sl[k].2)], c3[cell(sl[k].2)], sl[k], name));
        }
    }
    assert forall|x: int| 0 <= x < w.config.len() && (#[trigger] w.config[x]) is Reserved
        implies exists|a: int, k: int| 0 <= a < w.fixtures.len() && 0 <= k < fixture_slots(w.fixtures[a]).len()
            && #[trigger] cell(fixture_slots(w.fixtures[a])[k].2) == x by {
        if in_slots(sl, x) {
            let j = choose|j: int| 0 <= j < sl.len() && #[trigger] cell(sl[j].2) == x;
            assert(w.fixtures[i] == g);
            assert(cell(fixture_slots(w.fixtures[i])[j].2) == x);
        } else {
            assert(c3[x] == c2[x]);
            if in_slots(osl, x) {
                let j = choose|j: int| 0 <= j < osl.len() && #[trigger] cell(osl[j].2) == x;
                assert(step_ok(PassMode::Clear, c1[cell(osl[j].2)], c2[cell(osl[j].2)], osl[j], name));
            }
            assert(c2[x] == c1[x] && c1[x] == c0[x]);
            assert(x < v.config.len());
            assert(v.config[x] is Reserved);
            let (a, k) = choose|a: int, k: int| 0 <= a < v.fixtures.len() && 0 <= k < fixture_slots(v.fixtures[a]).len()
                && #[trigger] cell(fixture_slots(v.fixtures[a])[k].2) == x;
            if a == i {
                assert(cell(osl[k].2) == x);
                assert(in_slots(osl, x));
            }
            assert(w.fixtures[a] == v.fixtures[a]);
            assert(cell(fixture_slots(w.fixtures[a])[k].2) == x);
        }
    }
}

/// Law: removing a fixture successfully keeps the reservations in agreement
/// with the fixtures.
pub proof fn law_remove_fixture_consistent(v: EngineView, name: Seq<char>)
    requires
        engine_wf(v),
        consistent(v),
        spec_remove_fixture(v, name).1 is Ok,
    ensures
        consistent(spec_remove_fixture(v, name).0),
{
    let i = fixture_index(v.fixtures, name);
    let f = v.fixtures[i];
    assert(f.name == name);
    lemma_fixture_cells(v, i);
    let osl = fixture_slots(f);
    assert(pass(PassMode::Clear, v.config, osl, name) is Running);
    let c = pass_config(pass(PassMode::Clear, v.config, osl, name));
    lemma_pass_effect(PassMode::Clear, v.config, osl, name);
    let w = spec_remove_fixture(v, name).0;
    assert(w.fixtures == v.fixtures.remove(i) && w.config == c);
    assert forall|b: int, k: int| 0 <= b < w.fixtures.len() && 0 <= k < fixture_slots(w.fixtures[b]).len()
        implies w.config[cell((#[trigger] fixture_slots(w.fixtures[b])[k]).2)]
            == ResView::Reserved(w.fixtures[b].name, fixture_slots(w.fixtures[b])[k].0, fixture_slots(w.fixtures[b])[k].1) by {
        let a = if b < i { b } else { b + 1 };
        assert(w.fixtures[b] == v.fixtures[a]);
        if a < i {
            assert(v.fixtures[a].name != v.fixtures[i].name);
        } else {
            assert(v.fixtures[i].name != v.fixtures[a].name);
        }
        lemma_fixture_cells(v, a);
        let x = cell(fixture_slots(v.fixtures[a])[k].2);
        if in_slots(osl, x) {
            let j = choose|j: int| 0 <= j < osl.len() && #[trigger] cell(osl[j].2) == x;
            assert(step_ok(PassMode::Clear, v.config[cell(osl[j].2)], c[cell(osl[j].2)], osl[j], name));
        }
        assert(c[x] == v.config[x]);
    }
    assert forall|x: int| 0 <= x < w.config.len() && (#[trigger] w.config[x]) is Reserved
        implies exists|b: int, k: int| 0 <= b < w.fixtures.len() && 0 <= k < fixture_slots(w.fixtures[b]).len()
            && #[trigger] cell(fixture_slots(w.fixtures[b])[k].2) == x by {
        if in_slots(osl, x) {
            let j = choose|j: int| 0 <= j < osl.len() && #[trigger] cell(osl[j].2) == x;
            assert(step_ok(PassMode::Clear, v.config[cell(osl[j].2)], c[cell(osl[j].2)], osl[j], name));
        }
        assert(c[x] == v.config[x]);
        let (a, k) = choose|a: int, k: int| 0 <= a < v.fixtures.len() && 0 <= k < fixture_slots(v.fixtures[a]).len()
            && #[trigger] cell(fixture_slots(v.fixtures[a])[k].2) == x;
        if a == i {
            assert(cell(osl[k].2) == x);
            assert(in_slots(osl, x));
        }
        let b = if a < i { a } else { a - 1 };
        assert(w.fixtures[b] == v.fixtures[a]);
        assert(cell(fixture_slots(w.fixtures[b])[k].2) == x);
    }
}

/// No channel is claimed without being reserved.
pub open spec fn no_pending(v: EngineView) -> bool {
    forall|x: int| 0 <= x < v.config.len() ==> !(#[trigger] v.config[x] is Pending)
}

/// A clearing pass over distinct channels all reserved by `n` succeeds.
proof fn lemma_clear_runs(c: Seq<ResView>, sl: Seq<Slot>, n: Seq<char>)
    requires
        c.len() % 512 == 0,
        slots_ok(sl),
        slots_within(sl, c.len() as int),
        forall|k1: int, k2: int| 0 <= k1 < k2 < sl.len() ==> #[trigger] cell(sl[k1].2) != #[trigger] cell(sl[k2].2),
        forall|k: int| 0 <= k < sl.len() ==> (#[trigger] c[cell(sl[k].2)]) is Reserved && c[cell(sl[k].2)]->Reserved_0 == n,
    ensures
        pass(PassMode::Clear, c, sl, n) is Running,
    decreases sl.len(),
{
    if sl.len() > 0 {
        let init = sl.drop_last();
        let last = sl.len() - 1;
        assert(forall|k: int| 0 <= k < init.len() ==> #[trigger] init[k] == sl[k]);
        assert(slots_ok(init));
        assert(slots_within(init, c.len() as int));
        assert forall|k: int| 0 <= k < init.len() implies (#[trigger] c[cell(init[k].2)]) is Reserved
            && c[cell(init[k].2)]->Reserved_0 == n by {
            assert(c[cell(sl[k].2)] is Reserved);
        }
        lemma_clear_runs(c, init, n);
        lemma_pass_effect(PassMode::Clear, c, init, n);
        let a = cell(sl[last].2);
        if in_slots(init, a) {
            let j = choose|j: int| 0 <= j < init.len() && #[trigger] cell(init[j].2) == a;
            assert(cell(sl[j].2) == cell(sl[last].2));
        }
        assert(sl[last].2.1 < c.len() / 512);
        assert(normalized(sl[last].2));
        assert(0 <= a < c.len()) by (nonlinear_arith)
            requires
                a == sl[last].2.1 * 512 + sl[last].2.0,
                sl[last].2.0 < 512,
                sl[last].2.1 < c.len() / 512,
                c.len() % 512 == 0,
        ;
        assert(c[cell(sl[last].2)] is Reserved);
        assert(pass(PassMode::Clear, c, sl, n) == pass_step(PassMode::Clear,
            pass_config(pass(PassMode::Clear, c, init, n)), sl.last(), n));
    }
}

/// Law: removing a fixture right after adding it gives back the fixtures and
/// every reservation, when no channel was left claimed; the universes the
/// fixture made the engine create stay, empty.
pub proof fn law_remove_undoes_new(v: EngineView, types: Seq<FixtureTypeView>, name: Seq<char>,
    type_label: Seq<char>, sc: ChannelIndex, su: UniverseIndex)
    requires
        engine_wf(v),
        no_pending(v),
        registry_wf(types),
        placement_fits(types, type_label, (sc, su), name),
        spec_new_fixture(v, types, name, type_label, sc, su).1 is Ok,
    ensures
        ({
            let w = spec_new_fixture(v, types, name, type_label, sc, su).0;
            spec_remove_fixture(w, name) == (EngineView { fixtures: v.fixtures, config: grown(v.config, universe_total(w)) }, Ok::<(), crate::engine::ErrorView>(()))
        }),
{
    let t = type_named(types, type_label);
    let k0 = choose|i: int| 0 <= i < types.len() && (#[trigger] types[i]).name == type_label;
    assert(type_wf(types[k0]));
    lemma_instantiate_wf(t, (sc, su), name);
    let f = instantiate(t, (sc, su), name);
    lemma_fixture_slots_ok(f);
    let sl = fixture_slots(f);
    let size = max_universe(sl, su) + 1;
    let c0 = grown(v.config, size);
    crate::engine::lemma_max_universe(sl, su);
    lemma_grown(v.config, size);
    let c1 = pass_config(pass(PassMode::Claim, c0, sl, name));
    lemma_pass_effect(PassMode::Claim, c0, sl, name);
    lemma_pass_effect(PassMode::Finalize, c1, sl, name);
    let c3 = pass_config(pass(PassMode::Finalize, c1, sl, name));
    let w = spec_new_fixture(v, types, name, type_label, sc, su).0;
    let n = v.fixtures.len() as int;
    assert(w.fixtures == v.fixtures.push(f) && w.config == c3);
    assert(w.fixtures[n].name == name);
    assert(has_fixture(w.fixtures, name));
    let j0 = fixture_index(w.fixtures, name);
    if j0 < n {
        assert(w.fixtures[j0] == v.fixtures[j0]);
        assert(has_fixture(v.fixtures, name));
    }
    assert(j0 == n);
    assert forall|k: int| 0 <= k < sl.len() implies (#[trigger] c3[cell(sl[k].2)]) is Reserved
        && c3[cell(sl[k].2)]->Reserved_0 == name by {
        assert(step_ok(PassMode::Finalize, c1[cell(sl[k].2)], c3[cell(sl[k].2)], sl[k], name));
    }
    lemma_clear_runs(c3, sl, name);
    lemma_pass_effect(PassMode::Clear, c3, sl, name);
    let c4 = pass_config(pass(PassMode::Clear, c3, sl, name));
    assert(universe_total(w) == c0.len() / 512);
    assert(grown(v.config, universe_total(w)) =~= c0) by {
        if size * 512 > v.config.len() {
            assert(c0.len() == size * 512);
            assert((size * 512) / 512 == size) by (nonlinear_arith);
        } else {
            assert(c0 == v.config);
            assert((v.config.len() / 512) * 512 == v.config.len()) by (nonlinear_arith)
                requires v.config.len() % 512 == 0;
        }
    }
    assert forall|x: int| 0 <= x < c0.len() implies #[trigger] c4[x] == c0[x] by {
        if in_slots(sl, x) {
            let j = choose|j: int| 0 <= j < sl.len() && #[trigger] cell(sl[j].2) == x;
            assert(step_ok(PassMode::Clear, c3[cell(sl[j].2)], c4[cell(sl[j].2)], sl[j], name));
            assert(step_ok(PassMode::Claim, c0[cell(sl[j].2)], c1[cell(sl[j].2)], sl[j], name));
            if x < v.config.len() {
                assert(!(v.config[x] is Pending));
            }
        }
    }
    assert(c4 =~= c0);
    assert(w.fixtures.remove(n) =~= v.fixtures);
}


/// Replacing a fixture by one with the same name and the same channels keeps
/// the reservations in agreement with the fixtures.
proof fn lemma_same_slots_consistent(v: EngineView, i: int, g: FixtureView)
    requires
        consistent(v),
        0 <= i < v.fixtures.len(),
        g.name == v.fixtures[i].name,
        fixture_slots(g) == fixture_slots(v.fixtures[i]),
    ensures
        consistent(EngineView { fixtures: v.fixtures.update(i, g), ..v }),
{
    let w = EngineView { fixtures: v.fixtures.update(i, g), ..v };
    assert forall|a: int, k: int| 0 <= a < w.fixtures.len() && 0 <= k < fixture_slots(w.fixtures[a]).len()
        implies w.config[cell((#[trigger] fixture_slots(w.fixtures[a])[k]).2)]
            == ResView::Reserved(w.fixtures[a].name, fixture_slots(w.fixtures[a])[k].0, fixture_slots(w.fixtures[a])[k].1) by {
        assert(fixture_slots(w.fixtures[a]) == fixture_slots(v.fixtures[a]) && w.fixtures[a].name == v.fixtures[a].name);
    }
    assert forall|x: int| 0 <= x < w.config.len() && (#[trigger] w.config[x]) is Reserved
        implies exists|a: int, k: int| 0 <= a < w.fixtures.len() && 0 <= k < fixture_slots(w.fixtures[a]).len()
            && #[trigger] cell(fixture_slots(w.fixtures[a])[k].2) == x by {
        let (a, k) = choose|a: int, k: int| 0 <= a < v.fixtures.len() && 0 <= k < fixture_slots(v.fixtures[a]).len()
            && #[trigger] cell(fixture_slots(v.fixtures[a])[k].2) == x;
        assert(fixture_slots(w.fixtures[a]) == fixture_slots(v.fixtures[a]));
        assert(cell(fixture_slots(w.fixtures[a])[k].2) == x);
    }
}

/// Law: setting a property never changes the reservations, and keeps them in
/// agreement with the fixtures.
pub proof fn law_set_property_consistent(v: EngineView, name: Seq<char>, property: PropertyType, value: ChannelValue)
    requires
        consistent(v),
    ensures
        spec_set_property(v, name, property, value).0.config == v.config,
        consistent(spec_set_property(v, name, property, value).0),
{
    if has_fixture(v.fixtures, name) {
        let i = fixture_index(v.fixtures, name);
        let f = v.fixtures[i];
        let g = set_outcome(f, property, value).0;
        assert(layout_of(fixture_channels(g)) =~= layout_of(fixture_channels(f)));
        lemma_slots_layout(fixture_channels(g), fixture_channels(f));
        lemma_same_slots_consistent(v, i, g);
    }
}

/// Law: when the reservations agree with the fixtures, clients are shown
/// exactly the reservations: a reserved channel with its fixture, property
/// and fine degree, every other channel as empty.
pub proof fn law_client_view_exact(v: EngineView, x: int)
    requires
        consistent(v),
        0 <= x < v.config.len(),
    ensures
        client_cell(v, v.config[x]) == match v.config[x] {
            ResView::Reserved(n, p, d) => ClientCellView::Reserved(n, p, d),
            _ => ClientCellView::Empty,
        },
{
    if v.config[x] is Reserved {
        let (i, k) = choose|i: int, k: int| 0 <= i < v.fixtures.len() && 0 <= k < fixture_slots(v.fixtures[i]).len()
            && #[trigger] cell(fixture_slots(v.fixtures[i])[k].2) == x;
        assert(v.config[cell(fixture_slots(v.fixtures[i])[k].2)] == ResView::Reserved(v.fixtures[i].name,
            fixture_slots(v.fixtures[i])[k].0, fixture_slots(v.fixtures[i])[k].1));
        assert(has_fixture(v.fixtures, v.fixtures[i].name));
    }
}

/// Law: an engine without fixtures or reservations is consistent.
pub proof fn law_empty_consistent(v: EngineView)
    requires
        v.fixtures.len() == 0,
        forall|x: int| 0 <= x < v.config.len() ==> #[trigger] v.config[x] == ResView::Empty,
    ensures
        consistent(v),
{
}

/// Whether a pass can handle a channel holding `x`.
pub open spec fn can_step(mode: PassMode, x: ResView, n: Seq<char>) -> bool {
    match mode {
        PassMode::Claim => !(x is Reserved),
        PassMode::ClaimForMove => !(x is Reserved) || x->Reserved_0 == n,
        PassMode::Finalize => x == ResView::Pending(n),
        PassMode::FinalizeForMove => x == ResView::Pending(n) || x == ResView::Empty,
        PassMode::Clear => x is Reserved && x->Reserved_0 == n,
    }
}

/// The error a pass of this mode can stop with, its channels lying in
/// existing universes: claiming passes stop only on a channel reserved by
/// another fixture, the others only on a channel in an unexpected state.
pub open spec fn expected_stop(mode: PassMode, e: PassError) -> bool {
    if mode is Claim || mode is ClaimForMove { e is Conflict } else { e is Desync }
}

/// A pass over channels in existing universes runs through or stops with an
/// error its mode allows; never for a missing universe.
proof fn lemma_pass_outcome(mode: PassMode, c: Seq<ResView>, sl: Seq<Slot>, n: Seq<char>)
    requires
        c.len() % 512 == 0,
        slots_ok(sl),
        slots_within(sl, c.len() as int),
    ensures
        pass(mode, c, sl, n) matches PassState::Stopped(_, e) ==> expected_stop(mode, e),
    decreases sl.len(),
{
    if sl.len() > 0 {
        let init = sl.drop_last();
        assert(forall|k: int| 0 <= k < init.len() ==> #[trigger] init[k] == sl[k]);
        assert(slots_ok(init));
        assert(slots_within(init, c.len() as int));
        lemma_pass_outcome(mode, c, init, n);
        lemma_pass_len(mode, c, init, n);
        assert(sl[sl.len() - 1].2.1 < c.len() / 512);
    }
}

/// A pass visiting distinct channels in existing universes, each of which it
/// can handle, runs through.
proof fn lemma_pass_runs(mode: PassMode, c: Seq<ResView>, sl: Seq<Slot>, n: Seq<char>)
    requires
        c.len() % 512 == 0,
        slots_ok(sl),
        slots_within(sl, c.len() as int),
        distinct_cells(sl),
        forall|k: int| 0 <= k < sl.len() ==> can_step(mode, #[trigger] c[cell(sl[k].2)], n),
    ensures
        pass(mode, c, sl, n) is Running,
    decreases sl.len(),
{
    if sl.len() > 0 {
        let init = sl.drop_last();
        let last = sl.len() - 1;
        assert(forall|k: int| 0 <= k < init.len() ==> #[trigger] init[k] == sl[k]);
        assert(slots_ok(init));
        assert(slots_within(init, c.len() as int));
        assert forall|k: int| 0 <= k < init.len() implies can_step(mode, #[trigger] c[cell(init[k].2)], n) by {
            assert(can_step(mode, c[cell(sl[k].2)], n));
        }
        lemma_pass_runs(mode, c, init, n);
        lemma_pass_effect(mode, c, init, n);
        let a = cell(sl[last].2);
        if in_slots(init, a) {
            let j = choose|j: int| 0 <= j < init.len() && #[trigger] cell(init[j].2) == a;
            assert(cell(sl[j].2) == cell(sl[last].2));
        }
        assert(sl[last].2.1 < c.len() / 512);
        assert(normalized(sl[last].2));
        assert(0 <= a < c.len()) by (nonlinear_arith)
            requires
                a == sl[last].2.1 * 512 + sl[last].2.0,
                sl[last].2.0 < 512,
                sl[last].2.1 < c.len() / 512,
                c.len() % 512 == 0,
        ;
        assert(can_step(mode, c[cell(sl[last].2)], n));
        assert(pass(mode, c, sl, n) == pass_step(mode, pass_config(pass(mode, c, init, n)), sl.last(), n));
    }
}

/// The channels of a fixture lie in the universes up to its highest one.
proof fn lemma_within_grown(c: Seq<ResView>, sl: Seq<Slot>, d: UniverseIndex)
    requires
        c.len() % 512 == 0,
        max_universe(sl, d) >= 0,
    ensures
        slots_within(sl, grown(c, max_universe(sl, d) + 1).len() as int),
{
    let size = max_universe(sl, d) + 1;
    lemma_grown(c, size);
    crate::engine::lemma_max_universe(sl, d);
    let len = grown(c, size).len() as int;
    assert(len / 512 >= size) by (nonlinear_arith)
        requires len >= size * 512, size >= 0;
}

/// Law: in a consistent engine, removing an existing fixture succeeds; the
/// fatal errors (a missing universe, reservations out of step) never occur.
pub proof fn law_remove_existing_succeeds(v: EngineView, name: Seq<char>)
    requires
        engine_wf(v),
        consistent(v),
        has_fixture(v.fixtures, name),
    ensures
        spec_remove_fixture(v, name).1 is Ok,
{
    let i = fixture_index(v.fixtures, name);
    let f = v.fixtures[i];
    lemma_fixture_cells(v, i);
    let osl = fixture_slots(f);
    assert(distinct_cells(osl));
    assert forall|k: int| 0 <= k < osl.len() implies can_step(PassMode::Clear, #[trigger] v.config[cell(osl[k].2)], name) by {
        assert(v.config[cell(fixture_slots(v.fixtures[i])[k].2)] == ResView::Reserved(f.name, osl[k].0, osl[k].1));
    }
    lemma_pass_runs(PassMode::Clear, v.config, osl, name);
}

/// The errors a fixture operation reports to a user; the others are fatal.
pub open spec fn not_fatal(r: Result<(), ErrorView>) -> bool {
    r matches Err(e) ==> !(e is UniverseOutOfRange) && !(e is DmxStateDesync)
}

/// Law: adding a fixture fails only for a reason of the user's (the start
/// channel, the type, a channel past the end of the universe, a channel in
/// use, the name): never for a missing universe or reservations out of step.
pub proof fn law_new_fixture_not_fatal(v: EngineView, types: Seq<FixtureTypeView>, name: Seq<char>,
    type_label: Seq<char>, sc: ChannelIndex, su: UniverseIndex)
    requires
        engine_wf(v),
        registry_wf(types),
        placement_fits(types, type_label, (sc, su), name),
    ensures
        not_fatal(spec_new_fixture(v, types, name, type_label, sc, su).1),
{
    if sc <= MAX_CHANNEL && has_type(types, type_label) && type_in_universe(type_named(types, type_label), sc) {
        let t = type_named(types, type_label);
        let k0 = choose|i: int| 0 <= i < types.len() && (#[trigger] types[i]).name == type_label;
        assert(type_wf(types[k0]));
        lemma_instantiate_wf(t, (sc, su), name);
        let f = instantiate(t, (sc, su), name);
        lemma_fixture_slots_ok(f);
        lemma_instantiate_distinct(t, (sc, su), name);
        lemma_distinct_slots(fixture_channels(f));
        let sl = fixture_slots(f);
        let c0 = grown(v.config, max_universe(sl, su) + 1);
        crate::engine::lemma_max_universe(sl, su);
        lemma_grown(v.config, max_universe(sl, su) + 1);
        lemma_within_grown(v.config, sl, su);
        lemma_pass_outcome(PassMode::Claim, c0, sl, name);
        if pass(PassMode::Claim, c0, sl, name) is Running && !has_fixture(v.fixtures, name) {
            let c1 = pass_config(pass(PassMode::Claim, c0, sl, name));
            lemma_pass_effect(PassMode::Claim, c0, sl, name);
            assert forall|k: int| 0 <= k < sl.len() implies can_step(PassMode::Finalize, #[trigger] c1[cell(sl[k].2)], name) by {
                assert(step_ok(PassMode::Claim, c0[cell(sl[k].2)], c1[cell(sl[k].2)], sl[k], name));
            }
            lemma_pass_runs(PassMode::Finalize, c1, sl, name);
        }
    }
}

/// The channels of properties whose addresses all moved are the channels
/// with their addresses moved.
proof fn lemma_slots_moved(chs: Seq<(PropertyType, (ChannelValue, Seq<ChannelInUniverse>))>, os: ChannelInUniverse,
    ns: ChannelInUniverse)
    ensures
        ({
            let m = chs.map_values(|e: (PropertyType, (ChannelValue, Seq<ChannelInUniverse>))| moved_entry(e, os, ns));
            &&& slots_of_channels(m).len() == slots_of_channels(chs).len()
            &&& forall|k: int| 0 <= k < slots_of_channels(chs).len() ==> #[trigger] slots_of_channels(m)[k]
                == (slots_of_channels(chs)[k].0, slots_of_channels(chs)[k].1, moved(slots_of_channels(chs)[k].2, os, ns))
        }),
    decreases chs.len(),
{
    let m = chs.map_values(|e: (PropertyType, (ChannelValue, Seq<ChannelInUniverse>))| moved_entry(e, os, ns));
    if chs.len() > 0 {
        let init = chs.drop_last();
        lemma_slots_moved(init, os, ns);
        assert(m.drop_last() =~= init.map_values(|e: (PropertyType, (ChannelValue, Seq<ChannelInUniverse>))| moved_entry(e, os, ns)));
        assert(m.last() == moved_entry(chs.last(), os, ns));
    }
}

/// Law: in a consistent engine, moving a fixture fails only for a reason of
/// the user's (no such fixture, the start channel, a channel past the end of
/// the universe, a channel in use): never
/// for a missing universe or reservations out of step.
pub proof fn law_move_fixture_not_fatal(v: EngineView, name: Seq<char>, nc: ChannelIndex, nu: UniverseIndex)
    requires
        engine_wf(v),
        consistent(v),
        move_fits(v, name, nc, nu),
    ensures
        not_fatal(spec_move_fixture(v, name, nc, nu).1),
{
    if has_fixture(v.fixtures, name) && nc <= MAX_CHANNEL
        && move_in_universe(v.fixtures[fixture_index(v.fixtures, name)], (nc, nu)) {
        let i = fixture_index(v.fixtures, name);
        let f = v.fixtures[i];
        let os = start_of(f);
        let ns = (nc, nu);
        assert(f.name == name);
        lemma_moved_wf(f, ns);
        let g = moved_fixture(f, ns);
        lemma_fixture_slots_ok(g);
        lemma_fixture_cells(v, i);
        let sl = fixture_slots(g);
        let osl = fixture_slots(f);
        // The moved channels sit at the old positions shifted alike.
        lemma_moved_channels(f, ns);
        lemma_slots_moved(fixture_channels(f), os, ns);
        lemma_channels_shiftable(f, ns);
        lemma_wf_channels(f);
        assert forall|k: int| 0 <= k < sl.len() implies #[trigger] cell(sl[k].2)
            == abs_index(ns) + cell(osl[k].2) - abs_index(os) by {
            lemma_slots_addresses(fixture_channels(f), k);
            let (a, j) = choose|a: int, j: int| 0 <= a < fixture_channels(f).len() && 0 <= j < fixture_channels(f)[a].1.1.len()
                && #[trigger] slots_of_channels(fixture_channels(f))[k] == (fixture_channels(f)[a].0, j as usize, fixture_channels(f)[a].1.1[j]);
            let x = fixture_channels(f)[a].1.1[j];
            assert(address_ok(f, x));
            assert(shiftable(x, os, ns));
            lemma_from_abs(abs_index(ns) + abs_index(x) - abs_index(os));
        }
        assert(distinct_cells(osl));
        assert(distinct_cells(sl)) by {
            assert forall|k1: int, k2: int| 0 <= k1 < k2 < sl.len() implies #[trigger] cell(sl[k1].2) != #[trigger] cell(sl[k2].2) by {
                assert(cell(osl[k1].2) != cell(osl[k2].2));
            }
        }
        let c0 = grown(v.config, max_universe(sl, nu) + 1);
        crate::engine::lemma_max_universe(sl, nu);
        lemma_grown(v.config, max_universe(sl, nu) + 1);
        lemma_within_grown(v.config, sl, nu);
        lemma_pass_outcome(PassMode::ClaimForMove, c0, sl, name);
        if pass(PassMode::ClaimForMove, c0, sl, name) is Running {
            let c1 = pass_config(pass(PassMode::ClaimForMove, c0, sl, name));
            lemma_pass_effect(PassMode::ClaimForMove, c0, sl, name);
            // The old channels are still reserved by the fixture.
            assert forall|k: int| 0 <= k < osl.len() implies can_step(PassMode::Clear, #[trigger] c1[cell(osl[k].2)], name) by {
                let x = cell(osl[k].2);
                assert(v.config[cell(fixture_slots(v.fixtures[i])[k].2)] == ResView::Reserved(f.name, osl[k].0, osl[k].1));
                assert(c0[x] == v.config[x]);
                if in_slots(sl, x) {
                    let j = choose|j: int| 0 <= j < sl.len() && #[trigger] cell(sl[j].2) == x;
                    assert(step_ok(PassMode::ClaimForMove, c0[cell(sl[j].2)], c1[cell(sl[j].2)], sl[j], name));
                }
            }
            assert(slots_within(osl, c1.len() as int)) by {
                assert forall|k: int| 0 <= k < osl.len() implies (#[trigger] osl[k]).2.1 < c1.len() / 512 by {
                    assert(osl[k].2.1 < universe_total(v));
                    assert(c1.len() >= v.config.len());
                    assert(v.config.len() / 512 <= c1.len() / 512) by (nonlinear_arith)
                        requires v.config.len() <= c1.len();
                }
            }
            lemma_pass_runs(PassMode::Clear, c1, osl, name);
            let c2 = pass_config(pass(PassMode::Clear, c1, osl, name));
            lemma_pass_effect(PassMode::Clear, c1, osl, name);
            // Each new channel is now claimed by the fixture or free.
            assert forall|k: int| 0 <= k < sl.len() implies can_step(PassMode::FinalizeForMove, #[trigger] c2[cell(sl[k].2)], name) by {
                let x = cell(sl[k].2);
                assert(step_ok(PassMode::ClaimForMove, c0[x], c1[x], sl[k], name));
                if in_slots(osl, x) {
                    let j = choose|j: int| 0 <= j < osl.len() && #[trigger] cell(osl[j].2) == x;
                    assert(step_ok(PassMode::Clear, c1[cell(osl[j].2)], c2[cell(osl[j].2)], osl[j], name));
                } else {
                    assert(c2[x] == c1[x]);
                    if c1[x] is Reserved {
                        assert(c0[x] is Reserved);
                        assert(x < v.config.len());
                        assert(v.config[x] is Reserved);
                        let (a, k2) = choose|a: int, k2: int| 0 <= a < v.fixtures.len() && 0 <= k2 < fixture_slots(v.fixtures[a]).len()
                            && #[trigger] cell(fixture_slots(v.fixtures[a])[k2].2) == x;
                        assert(v.config[cell(fixture_slots(v.fixtures[a])[k2].2)] == ResView::Reserved(v.fixtures[a].name,
                            fixture_slots(v.fixtures[a])[k2].0, fixture_slots(v.fixtures[a])[k2].1));
                        if a != i {
                            if a < i {
                                assert(v.fixtures[a].name != v.fixtures[i].name);
                            } else {
                                assert(v.fixtures[i].name != v.fixtures[a].name);
                            }
                        }
                        assert(cell(osl[k2].2) == x);
                        assert(in_slots(osl, x));
                    }
                }
            }
            lemma_pass_runs(PassMode::FinalizeForMove, c2, sl, name);
        }
    }
}

/// The type name that reading the type of the fixture `n` gives, if there is
/// such a fixture.
pub open spec fn type_of(fs: Seq<FixtureView>, n: Seq<char>) -> Option<Seq<char>> {
    if has_fixture(fs, n) { Some(fs[fixture_index(fs, n)].fixture_type) } else { None }
}

pub open spec fn names_distinct(fs: Seq<FixtureView>) -> bool {
    forall|i: int, j: int| 0 <= i < j < fs.len() ==> (#[trigger] fs[i]).name != (#[trigger] fs[j]).name
}

proof fn lemma_type_of_at(fs: Seq<FixtureView>, i: int)
    requires
        names_distinct(fs),
        0 <= i < fs.len(),
    ensures
        type_of(fs, fs[i].name) == Some(fs[i].fixture_type),
{
    assert(has_fixture(fs, fs[i].name));
    let k = fixture_index(fs, fs[i].name);
    if k < i {
        assert(fs[k].name != fs[i].name);
    } else if k > i {
        assert(fs[i].name != fs[k].name);
    }
}

proof fn lemma_type_of_update(fs: Seq<FixtureView>, i: int, g: FixtureView)
    requires
        names_distinct(fs),
        0 <= i < fs.len(),
        g.name == fs[i].name,
        g.fixture_type == fs[i].fixture_type,
    ensures
        names_distinct(fs.update(i, g)),
        forall|n: Seq<char>| #[trigger] type_of(fs.update(i, g), n) == type_of(fs, n),
{
    let u = fs.update(i, g);
    assert(names_distinct(u)) by {
        assert forall|a: int, b: int| 0 <= a < b < u.len() implies (#[trigger] u[a]).name != (#[trigger] u[b]).name by {
            assert(fs[a].name != fs[b].name);
        }
    }
    assert forall|n: Seq<char>| #[trigger] type_of(u, n) == type_of(fs, n) by {
        if has_fixture(fs, n) {
            let k = fixture_index(fs, n);
            lemma_type_of_at(fs, k);
            lemma_type_of_at(u, k);
        } else if has_fixture(u, n) {
            let k = fixture_index(u, n);
            assert(fs[k].name == n);
        }
    }
}

proof fn lemma_type_of_push(fs: Seq<FixtureView>, f: FixtureView)
    requires
        names_distinct(fs),
        !has_fixture(fs, f.name),
    ensures
        names_distinct(fs.push(f)),
        type_of(fs.push(f), f.name) == Some(f.fixture_type),
        forall|n: Seq<char>| n != f.name ==> #[trigger] type_of(fs.push(f), n) == type_of(fs, n),
{
    let u = fs.push(f);
    assert(names_distinct(u)) by {
        assert forall|a: int, b: int| 0 <= a < b < u.len() implies (#[trigger] u[a]).name != (#[trigger] u[b]).name by {
            if b < fs.len() {
                assert(fs[a].name != fs[b].name);
            } else {
                assert(u[a] == fs[a]);
            }
        }
    }
    lemma_type_of_at(u, fs.len() as int);
    assert forall|n: Seq<char>| n != f.name implies #[trigger] type_of(u, n) == type_of(fs, n) by {
        if has_fixture(fs, n) {
            let k = fixture_index(fs, n);
            lemma_type_of_at(fs, k);
            lemma_type_of_at(u, k);
        } else if has_fixture(u, n) {
            let k = fixture_index(u, n);
            assert(k < fs.len());
            assert(fs[k].name == n);
        }
    }
}

proof fn lemma_type_of_remove(fs: Seq<FixtureView>, i: int)
    requires
        names_distinct(fs),
        0 <= i < fs.len(),
    ensures
        names_distinct(fs.remove(i)),
        forall|n: Seq<char>| n != fs[i].name ==> #[trigger] type_of(fs.remove(i), n) == type_of(fs, n),
{
    let u = fs.remove(i);
    assert(names_distinct(u)) by {
        assert forall|a: int, b: int| 0 <= a < b < u.len() implies (#[trigger] u[a]).name != (#[trigger] u[b]).name by {
            let a0 = if a < i { a } else { a + 1 };
            let b0 = if b < i { b } else { b + 1 };
            assert(u[a] == fs[a0]);
            assert(u[b] == fs[b0]);
            assert(fs[a0].name != fs[b0].name);
        }
    }
    assert forall|n: Seq<char>| n != fs[i].name implies #[trigger] type_of(u, n) == type_of(fs, n) by {
        if has_fixture(fs, n) {
            let k = fixture_index(fs, n);
            assert(k != i);
            let k2 = if k < i { k } else { k - 1 };
            assert(u[k2] == fs[k]);
            lemma_type_of_at(fs, k);
            lemma_type_of_at(u, k2);
        } else if has_fixture(u, n) {
            let k = fixture_index(u, n);
            let k0 = if k < i { k } else { k + 1 };
            assert(u[k] == fs[k0]);
        }
    }
}

/// Law: adding a fixture leaves the type of every existing fixture as it
/// reads, and once the fixture is added its type reads as the type it was
/// added with.
pub proof fn law_new_fixture_keeps_types(v: EngineView, types: Seq<FixtureTypeView>, name: Seq<char>,
    type_label: Seq<char>, sc: ChannelIndex, su: UniverseIndex)
    requires
        names_distinct(v.fixtures),
    ensures
        ({
            let (w, r) = spec_new_fixture(v, types, name, type_label, sc, su);
            &&& names_distinct(w.fixtures)
            &&& forall|n: Seq<char>| has_fixture(v.fixtures, n) ==> #[trigger] type_of(w.fixtures, n) == type_of(v.fixtures, n)
            &&& r is Ok ==> type_of(w.fixtures, name) == Some(type_label)
        }),
{
    let (w, r) = spec_new_fixture(v, types, name, type_label, sc, su);
    if w.fixtures != v.fixtures {
        let f = instantiate(type_named(types, type_label), (sc, su), name);
        assert(w.fixtures == v.fixtures.push(f));
        lemma_type_of_push(v.fixtures, f);
        let k = choose|i: int| 0 <= i < types.len() && (#[trigger] types[i]).name == type_label;
        assert(type_named(types, type_label).name == type_label);
    }
}

/// Law: moving a fixture, whatever the outcome, leaves the type of every
/// fixture as it reads.
pub proof fn law_move_fixture_keeps_types(v: EngineView, name: Seq<char>, nc: ChannelIndex, nu: UniverseIndex)
    requires
        names_distinct(v.fixtures),
    ensures
        names_distinct(spec_move_fixture(v, name, nc, nu).0.fixtures),
        forall|n: Seq<char>| #[trigger] type_of(spec_move_fixture(v, name, nc, nu).0.fixtures, n) == type_of(v.fixtures, n),
{
    let w = spec_move_fixture(v, name, nc, nu).0;
    if w.fixtures != v.fixtures {
        let i = fixture_index(v.fixtures, name);
        lemma_type_of_update(v.fixtures, i, moved_fixture(v.fixtures[i], (nc, nu)));
    }
}

/// Law: setting a property, whatever the outcome, leaves the type of every
/// fixture as it reads.
pub proof fn law_set_property_keeps_types(v: EngineView, name: Seq<char>, property: PropertyType, value: ChannelValue)
    requires
        names_distinct(v.fixtures),
    ensures
        names_distinct(spec_set_property(v, name, property, value).0.fixtures),
        forall|n: Seq<char>| #[trigger] type_of(spec_set_property(v, name, property, value).0.fixtures, n)
            == type_of(v.fixtures, n),
{
    if has_fixture(v.fixtures, name) {
        let i = fixture_index(v.fixtures, name);
        lemma_type_of_update(v.fixtures, i, set_outcome(v.fixtures[i], property, value).0);
    }
}

/// Law: completing a color change, whatever the outcome, leaves the type of
/// every fixture as it reads.
pub proof fn law_set_color_keeps_types(v: EngineView, name: Seq<char>,
    c: spec_fn(crate::fixture::color::ColorView) -> crate::fixture::color::ColorView)
    requires
        names_distinct(v.fixtures),
    ensures
        names_distinct(spec_set_color(v, name, c).0.fixtures),
        forall|n: Seq<char>| #[trigger] type_of(spec_set_color(v, name, c).0.fixtures, n) == type_of(v.fixtures, n),
{
    if has_fixture(v.fixtures, name) {
        let i = fixture_index(v.fixtures, name);
        let f = v.fixtures[i];
        if let Some(col) = f.color {
            lemma_type_of_update(v.fixtures, i, FixtureView { color: Some(c(col)), ..f });
        }
    }
}

/// Law: removing the fixture `name` leaves the type of every other fixture as
/// it reads; a removal that fails changes no fixture.
pub proof fn law_remove_fixture_keeps_types(v: EngineView, name: Seq<char>)
    requires
        names_distinct(v.fixtures),
    ensures
        names_distinct(spec_remove_fixture(v, name).0.fixtures),
        forall|n: Seq<char>| n != name ==> #[trigger] type_of(spec_remove_fixture(v, name).0.fixtures, n)
            == type_of(v.fixtures, n),
        spec_remove_fixture(v, name).1 is Err ==> spec_remove_fixture(v, name).0.fixtures == v.fixtures,
{
    if has_fixture(v.fixtures, name) {
        let i = fixture_index(v.fixtures, name);
        lemma_type_of_remove(v.fixtures, i);
    }
}

/// Whether `w` is what one engine operation makes of `v` (adding, moving or
/// removing a fixture, setting a property, completing a color change), other
/// than a successful removal of the fixture `n`.
pub open spec fn step_keeping(v: EngineView, w: EngineView, n: Seq<char>) -> bool {
    ||| exists|types: Seq<FixtureTypeView>, name: Seq<char>, t: Seq<char>, sc: ChannelIndex, su: UniverseIndex|
        w == (#[trigger] spec_new_fixture(v, types, name, t, sc, su)).0
    ||| exists|name: Seq<char>, nc: ChannelIndex, nu: UniverseIndex| w == (#[trigger] spec_move_fixture(v, name, nc, nu)).0
    ||| exists|name: Seq<char>, p: PropertyType, x: ChannelValue| w == (#[trigger] spec_set_property(v, name, p, x)).0
    ||| exists|name: Seq<char>, c: spec_fn(crate::fixture::color::ColorView) -> crate::fixture::color::ColorView|
        w == (#[trigger] spec_set_color(v, name, c)).0
    ||| exists|name: Seq<char>| w == (#[trigger] spec_remove_fixture(v, name)).0
        && (name != n || spec_remove_fixture(v, name).1 is Err)
}

proof fn lemma_step_keeps_type(v: EngineView, w: EngineView, n: Seq<char>)
    requires
        names_distinct(v.fixtures),
        has_fixture(v.fixtures, n),
        step_keeping(v, w, n),
    ensures
        names_distinct(w.fixtures),
        type_of(w.fixtures, n) == type_of(v.fixtures, n),
{
    if exists|types: Seq<FixtureTypeView>, name: Seq<char>, t: Seq<char>, sc: ChannelIndex, su: UniverseIndex|
        w == (#[trigger] spec_new_fixture(v, types, name, t, sc, su)).0 {
        let (types, name, t, sc, su) = choose|types: Seq<FixtureTypeView>, name: Seq<char>, t: Seq<char>, sc: ChannelIndex,
            su: UniverseIndex| w == (#[trigger] spec_new_fixture(v, types, name, t, sc, su)).0;
        law_new_fixture_keeps_types(v, types, name, t, sc, su);
    } else if exists|name: Seq<char>, nc: ChannelIndex, nu: UniverseIndex| w == (#[trigger] spec_move_fixture(v, name, nc, nu)).0 {
        let (name, nc, nu) = choose|name: Seq<char>, nc: ChannelIndex, nu: UniverseIndex|
            w == (#[trigger] spec_move_fixture(v, name, nc, nu)).0;
        law_move_fixture_keeps_types(v, name, nc, nu);
    } else if exists|name: Seq<char>, p: PropertyType, x: ChannelValue| w == (#[trigger] spec_set_property(v, name, p, x)).0 {
        let (name, p, x) = choose|name: Seq<char>, p: PropertyType, x: ChannelValue|
            w == (#[trigger] spec_set_property(v, name, p, x)).0;
        law_set_property_keeps_types(v, name, p, x);
    } else if exists|name: Seq<char>, c: spec_fn(crate::fixture::color::ColorView) -> crate::fixture::color::ColorView|
        w == (#[trigger] spec_set_color(v, name, c)).0 {
        let (name, c) = choose|name: Seq<char>, c: spec_fn(crate::fixture::color::ColorView) -> crate::fixture::color::ColorView|
            w == (#[trigger] spec_set_color(v, name, c)).0;
        law_set_color_keeps_types(v, name, c);
    } else {
        let name = choose|name: Seq<char>| w == (#[trigger] spec_remove_fixture(v, name)).0
            && (name != n || spec_remove_fixture(v, name).1 is Err);
        law_remove_fixture_keeps_types(v, name);
    }
}

/// Law: once a fixture has been added, its type reads as the type it was
/// added with after any run of engine operations that does not remove it.
pub proof fn law_type_stays_readable(v0: EngineView, types: Seq<FixtureTypeView>, n: Seq<char>, t: Seq<char>,
    sc: ChannelIndex, su: UniverseIndex, states: Seq<EngineView>)
    requires
        names_distinct(v0.fixtures),
        spec_new_fixture(v0, types, n, t, sc, su).1 is Ok,
        states.len() >= 1,
        states[0] == spec_new_fixture(v0, types, n, t, sc, su).0,
        forall|i: int| 0 <= i < states.len() - 1 ==> step_keeping(#[trigger] states[i], states[i + 1], n),
    ensures
        type_of(states.last().fixtures, n) == Some(t),
{
    law_new_fixture_keeps_types(v0, types, n, t, sc, su);
    lemma_run_keeps_type(states, n, states.len() - 1);
}

proof fn lemma_run_keeps_type(states: Seq<EngineView>, n: Seq<char>, k: int)
    requires
        0 <= k < states.len(),
        names_distinct(states[0].fixtures),
        has_fixture(states[0].fixtures, n),
        forall|i: int| 0 <= i < states.len() - 1 ==> step_keeping(#[trigger] states[i], states[i + 1], n),
    ensures
        names_distinct(states[k].fixtures),
        type_of(states[k].fixtures, n) == type_of(states[0].fixtures, n),
    decreases k,
{
    if k > 0 {
        lemma_run_keeps_type(states, n, k - 1);
        assert(step_keeping(states[k - 1], states[k], n));
        lemma_step_keeps_type(states[k - 1], states[k], n);
    }
}

/// Whether no channel of `sl` is reserved in `v` (channels past the last
/// universe are free).
pub open spec fn channels_free(v: EngineView, sl: Seq<Slot>) -> bool {
    forall|k: int| 0 <= k < sl.len() && cell((#[trigger] sl[k]).2) < v.config.len()
        ==> !(v.config[cell(sl[k].2)] is Reserved)
}

/// Law: adding a fixture succeeds when the start channel is in range, the
/// type is known and its channels stay inside the universe, the name is new
/// and the fixture's channels are free.
pub proof fn law_new_fixture_succeeds(v: EngineView, types: Seq<FixtureTypeView>, name: Seq<char>,
    type_label: Seq<char>, sc: ChannelIndex, su: UniverseIndex)
    requires
        engine_wf(v),
        registry_wf(types),
        placement_fits(types, type_label, (sc, su), name),
        sc <= MAX_CHANNEL,
        has_type(types, type_label),
        type_in_universe(type_named(types, type_label), sc),
        !has_fixture(v.fixtures, name),
        channels_free(v, fixture_slots(instantiate(type_named(types, type_label), (sc, su), name))),
    ensures
        spec_new_fixture(v, types, name, type_label, sc, su).1 is Ok,
{
    let t = type_named(types, type_label);
    let k0 = choose|i: int| 0 <= i < types.len() && (#[trigger] types[i]).name == type_label;
    assert(type_wf(types[k0]));
    lemma_instantiate_wf(t, (sc, su), name);
    let f = instantiate(t, (sc, su), name);
    lemma_fixture_slots_ok(f);
    lemma_instantiate_distinct(t, (sc, su), name);
    lemma_distinct_slots(fixture_channels(f));
    let sl = fixture_slots(f);
    let c0 = grown(v.config, max_universe(sl, su) + 1);
    crate::engine::lemma_max_universe(sl, su);
    lemma_grown(v.config, max_universe(sl, su) + 1);
    lemma_within_grown(v.config, sl, su);
    assert forall|k: int| 0 <= k < sl.len() implies can_step(PassMode::Claim, #[trigger] c0[cell(sl[k].2)], name) by {
        assert(sl[k].2.1 < c0.len() / 512);
        assert(normalized(sl[k].2));
        assert(0 <= cell(sl[k].2) < c0.len()) by (nonlinear_arith)
            requires
                cell(sl[k].2) == sl[k].2.1 * 512 + sl[k].2.0,
                sl[k].2.0 < 512,
                sl[k].2.1 < c0.len() / 512,
                c0.len() % 512 == 0,
        ;
    }
    lemma_pass_runs(PassMode::Claim, c0, sl, name);
    let c1 = pass_config(pass(PassMode::Claim, c0, sl, name));
    lemma_pass_effect(PassMode::Claim, c0, sl, name);
    assert forall|k: int| 0 <= k < sl.len() implies can_step(PassMode::Finalize, #[trigger] c1[cell(sl[k].2)], name) by {
        assert(step_ok(PassMode::Claim, c0[cell(sl[k].2)], c1[cell(sl[k].2)], sl[k], name));
    }
    lemma_pass_len(PassMode::Claim, c0, sl, name);
    lemma_pass_runs(PassMode::Finalize, c1, sl, name);
}

/// The reservations `d` are `c` followed by empty universes.
proof fn lemma_grown_to(c: Seq<ResView>, d: Seq<ResView>)
    requires
        c.len() % 512 == 0,
        d.len() % 512 == 0,
        d.len() >= c.len(),
        forall|x: int| 0 <= x < c.len() ==> #[trigger] d[x] == c[x],
        forall|x: int| c.len() <= x < d.len() ==> #[trigger] d[x] == ResView::Empty,
    ensures
        grown(c, d.len() as int / 512) == d,
{
    let s = d.len() as int / 512;
    assert(s * 512 == d.len()) by (nonlinear_arith)
        requires d.len() % 512 == 0, s == d.len() as int / 512;
    lemma_grown(c, s);
    assert(grown(c, s) =~= d);
}

/// Law: in a consistent engine, moving a fixture to its own start succeeds
/// and changes neither the fixtures nor any reservation; only the universes up
/// to the fixture's may be added, empty (which happens for a fixture without
/// channels whose universe does not exist yet).
pub proof fn law_move_in_place_changes_nothing(v: EngineView, name: Seq<char>)
    requires
        engine_wf(v),
        consistent(v),
        has_fixture(v.fixtures, name),
    ensures
        ({
            let f = v.fixtures[fixture_index(v.fixtures, name)];
            let (w, r) = spec_move_fixture(v, name, f.start_channel, f.universe);
            &&& r is Ok
            &&& w.fixtures == v.fixtures
            &&& w.config == grown(v.config, universe_total(w))
        }),
{
    let i = fixture_index(v.fixtures, name);
    let f = v.fixtures[i];
    let os = start_of(f);
    assert(fixture_wf(f));
    law_move_in_place(f);
    assert(moved_fixture(f, os) == f);
    assert(f.name == name);
    let sl = fixture_slots(f);
    lemma_fixture_cells(v, i);
    let size = max_universe(sl, f.universe) + 1;
    crate::engine::lemma_max_universe(sl, f.universe);
    lemma_grown(v.config, size);
    let c0 = grown(v.config, size);
    assert(distinct_cells(sl));
    assert(slots_within(sl, c0.len() as int)) by {
        assert forall|k: int| 0 <= k < sl.len() implies (#[trigger] sl[k]).2.1 < c0.len() / 512 by {
            assert(fixture_slots(v.fixtures[i])[k].2.1 < universe_total(v));
            assert(v.config.len() / 512 <= c0.len() / 512) by (nonlinear_arith)
                requires v.config.len() <= c0.len();
        }
    }
    assert forall|k: int| 0 <= k < sl.len() implies #[trigger] c0[cell(sl[k].2)]
        == ResView::Reserved(name, sl[k].0, sl[k].1) by {
        assert(v.config[cell(fixture_slots(v.fixtures[i])[k].2)]
            == ResView::Reserved(v.fixtures[i].name, fixture_slots(v.fixtures[i])[k].0, fixture_slots(v.fixtures[i])[k].1));
        assert(c0[cell(sl[k].2)] == v.config[cell(sl[k].2)]);
    }
    // claiming keeps the fixture's own reservations
    assert forall|k: int| 0 <= k < sl.len() implies can_step(PassMode::ClaimForMove, #[trigger] c0[cell(sl[k].2)], name) by {
        assert(c0[cell(sl[k].2)] == ResView::Reserved(name, sl[k].0, sl[k].1));
    }
    lemma_pass_runs(PassMode::ClaimForMove, c0, sl, name);
    lemma_pass_effect(PassMode::ClaimForMove, c0, sl, name);
    let c1 = pass_config(pass(PassMode::ClaimForMove, c0, sl, name));
    assert forall|x: int| 0 <= x < c0.len() implies #[trigger] c1[x] == c0[x] by {
        if in_slots(sl, x) {
            let j = choose|j: int| 0 <= j < sl.len() && #[trigger] cell(sl[j].2) == x;
            assert(step_ok(PassMode::ClaimForMove, c0[cell(sl[j].2)], c1[cell(sl[j].2)], sl[j], name));
            assert(c0[cell(sl[j].2)] == ResView::Reserved(name, sl[j].0, sl[j].1));
        }
    }
    assert(c1 =~= c0);
    // clearing frees them
    assert forall|k: int| 0 <= k < sl.len() implies can_step(PassMode::Clear, #[trigger] c1[cell(sl[k].2)], name) by {
        assert(c1[cell(sl[k].2)] == ResView::Reserved(name, sl[k].0, sl[k].1));
    }
    lemma_pass_runs(PassMode::Clear, c1, sl, name);
    lemma_pass_effect(PassMode::Clear, c1, sl, name);
    let c2 = pass_config(pass(PassMode::Clear, c1, sl, name));
    // reserving them again restores them
    assert forall|k: int| 0 <= k < sl.len() implies can_step(PassMode::FinalizeForMove, #[trigger] c2[cell(sl[k].2)], name) by {
        assert(step_ok(PassMode::Clear, c1[cell(sl[k].2)], c2[cell(sl[k].2)], sl[k], name));
    }
    lemma_pass_runs(PassMode::FinalizeForMove, c2, sl, name);
    lemma_pass_effect(PassMode::FinalizeForMove, c2, sl, name);
    let c3 = pass_config(pass(PassMode::FinalizeForMove, c2, sl, name));
    assert forall|x: int| 0 <= x < c0.len() implies #[trigger] c3[x] == c0[x] by {
        if in_slots(sl, x) {
            let j = choose|j: int| 0 <= j < sl.len() && #[trigger] cell(sl[j].2) == x;
            assert(step_ok(PassMode::FinalizeForMove, c2[cell(sl[j].2)], c3[cell(sl[j].2)], sl[j], name));
            assert(c0[cell(sl[j].2)] == ResView::Reserved(name, sl[j].0, sl[j].1));
        }
    }
    assert(c3 =~= c0);
    assert(v.fixtures.update(i, f) =~= v.fixtures);
    lemma_grown_to(v.config, c3);
}

proof fn lemma_index_of(fs: Seq<FixtureView>, i: int)
    requires
        names_distinct(fs),
        0 <= i < fs.len(),
    ensures
        has_fixture(fs, fs[i].name),
        fixture_index(fs, fs[i].name) == i,
{
    assert(has_fixture(fs, fs[i].name));
    let k = fixture_index(fs, fs[i].name);
    if k < i {
        assert(fs[k].name != fs[i].name);
    } else if k > i {
        assert(fs[i].name != fs[k].name);
    }
}

/// Law: in a consistent engine with no channel left claimed, a successful
/// move of a fixture is undone by moving it back to its old start: the move
/// back succeeds, and the fixtures and every reservation are as before;
/// universes created on the way stay, empty.
pub proof fn law_move_back_undoes_move(v: EngineView, name: Seq<char>, nc: ChannelIndex, nu: UniverseIndex)
    requires
        engine_wf(v),
        consistent(v),
        no_pending(v),
        has_fixture(v.fixtures, name),
        move_fits(v, name, nc, nu),
        spec_move_fixture(v, name, nc, nu).1 is Ok,
    ensures
        ({
            let f = v.fixtures[fixture_index(v.fixtures, name)];
            let w = spec_move_fixture(v, name, nc, nu).0;
            let (w2, r2) = spec_move_fixture(w, name, f.start_channel, f.universe);
            &&& r2 is Ok
            &&& w2.fixtures == v.fixtures
            &&& w2.config == grown(v.config, universe_total(w2))
        }),
{
    let i = fixture_index(v.fixtures, name);
    let f = v.fixtures[i];
    let os = start_of(f);
    let ns = (nc, nu);
    assert(fixture_wf(f));
    assert(f.name == name);
    assert(nc <= MAX_CHANNEL && move_in_universe(f, ns));
    law_move_round_trip(f, ns);
    let g = moved_fixture(f, ns);
    lemma_fixture_slots_ok(g);
    lemma_fixture_cells(v, i);
    let osl = fixture_slots(f);
    let sl = fixture_slots(g);
    assert(distinct_cells(osl));
    let size = max_universe(sl, nu) + 1;
    crate::engine::lemma_max_universe(sl, nu);
    lemma_grown(v.config, size);
    let c0 = grown(v.config, size);
    lemma_pass_effect(PassMode::ClaimForMove, c0, sl, name);
    let c1 = pass_config(pass(PassMode::ClaimForMove, c0, sl, name));
    lemma_pass_effect(PassMode::Clear, c1, osl, name);
    let c2 = pass_config(pass(PassMode::Clear, c1, osl, name));
    lemma_pass_effect(PassMode::FinalizeForMove, c2, sl, name);
    let c3 = pass_config(pass(PassMode::FinalizeForMove, c2, sl, name));
    let w = spec_move_fixture(v, name, nc, nu).0;
    assert(w.fixtures == v.fixtures.update(i, g) && w.config == c3);
    assert(names_distinct(w.fixtures)) by {
        assert forall|a: int, b: int| 0 <= a < b < w.fixtures.len() implies
            (#[trigger] w.fixtures[a]).name != (#[trigger] w.fixtures[b]).name by {
            assert(v.fixtures[a].name != v.fixtures[b].name);
        }
    }
    lemma_index_of(w.fixtures, i);
    assert(w.fixtures[i] == g);
    assert(start_of(g) == ns);
    // the old channels: reserved by the fixture before, freed by the clear
    assert forall|k: int| 0 <= k < osl.len() implies #[trigger] v.config[cell(osl[k].2)]
        == ResView::Reserved(name, osl[k].0, osl[k].1) && c2[cell(osl[k].2)] == ResView::Empty by {
        assert(v.config[cell(fixture_slots(v.fixtures[i])[k].2)]
            == ResView::Reserved(v.fixtures[i].name, fixture_slots(v.fixtures[i])[k].0, fixture_slots(v.fixtures[i])[k].1));
        assert(step_ok(PassMode::Clear, c1[cell(osl[k].2)], c2[cell(osl[k].2)], osl[k], name));
    }
    // the new channels: reserved by the fixture after the move
    assert forall|k: int| 0 <= k < sl.len() implies #[trigger] c3[cell(sl[k].2)]
        == ResView::Reserved(name, sl[k].0, sl[k].1) by {
        assert(step_ok(PassMode::FinalizeForMove, c2[cell(sl[k].2)], c3[cell(sl[k].2)], sl[k], name));
    }
    // the move back may create the universes up to the fixture's own
    let size2 = max_universe(osl, f.universe) + 1;
    crate::engine::lemma_max_universe(osl, f.universe);
    assert(c3.len() == c0.len());
    lemma_grown(c3, size2);
    let d3 = grown(c3, size2);
    assert(moved_fixture(g, os) == f);
    assert(slots_within(osl, d3.len() as int)) by {
        assert forall|k: int| 0 <= k < osl.len() implies (#[trigger] osl[k]).2.1 < d3.len() / 512 by {
            assert(fixture_slots(v.fixtures[i])[k].2.1 < universe_total(v));
            assert(v.config.len() / 512 <= d3.len() / 512) by (nonlinear_arith)
                requires v.config.len() <= d3.len();
        }
    }
    // claiming the old channels again
    assert forall|k: int| 0 <= k < osl.len() implies can_step(PassMode::ClaimForMove, #[trigger] d3[cell(osl[k].2)], name) by {
        let x = cell(osl[k].2);
        if in_slots(sl, x) {
            let j = choose|j: int| 0 <= j < sl.len() && #[trigger] cell(sl[j].2) == x;
            assert(d3[cell(sl[j].2)] == ResView::Reserved(name, sl[j].0, sl[j].1));
        } else {
            assert(c2[x] == ResView::Empty);
        }
    }
    lemma_pass_runs(PassMode::ClaimForMove, d3, osl, name);
    lemma_pass_effect(PassMode::ClaimForMove, d3, osl, name);
    let c4 = pass_config(pass(PassMode::ClaimForMove, d3, osl, name));
    // clearing the new channels
    assert forall|k: int| 0 <= k < sl.len() implies (#[trigger] c4[cell(sl[k].2)]) is Reserved
        && c4[cell(sl[k].2)]->Reserved_0 == name by {
        let y = cell(sl[k].2);
        assert(d3[y] == ResView::Reserved(name, sl[k].0, sl[k].1));
        if in_slots(osl, y) {
            let j = choose|j: int| 0 <= j < osl.len() && #[trigger] cell(osl[j].2) == y;
            assert(step_ok(PassMode::ClaimForMove, d3[cell(osl[j].2)], c4[cell(osl[j].2)], osl[j], name));
        }
    }
    lemma_clear_runs(c4, sl, name);
    lemma_pass_effect(PassMode::Clear, c4, sl, name);
    let c5 = pass_config(pass(PassMode::Clear, c4, sl, name));
    // reserving the old channels again
    assert forall|k: int| 0 <= k < osl.len() implies can_step(PassMode::FinalizeForMove, #[trigger] c5[cell(osl[k].2)], name) by {
        let x = cell(osl[k].2);
        assert(step_ok(PassMode::ClaimForMove, d3[x], c4[x], osl[k], name));
        if in_slots(sl, x) {
            let j = choose|j: int| 0 <= j < sl.len() && #[trigger] cell(sl[j].2) == x;
            assert(step_ok(PassMode::Clear, c4[cell(sl[j].2)], c5[cell(sl[j].2)], sl[j], name));
        } else {
            assert(c2[x] == ResView::Empty);
        }
    }
    lemma_pass_runs(PassMode::FinalizeForMove, c5, osl, name);
    lemma_pass_effect(PassMode::FinalizeForMove, c5, osl, name);
    let c6 = pass_config(pass(PassMode::FinalizeForMove, c5, osl, name));
    assert(universe_total(w) == c0.len() / 512);
    assert(grown(v.config, universe_total(w)) =~= c0) by {
        if size * 512 > v.config.len() {
            assert(c0.len() == size * 512);
            assert((size * 512) / 512 == size) by (nonlinear_arith);
        } else {
            assert(c0 == v.config);
            assert((v.config.len() / 512) * 512 == v.config.len()) by (nonlinear_arith)
                requires v.config.len() % 512 == 0;
        }
    }
    assert forall|x: int| 0 <= x < c0.len() implies #[trigger] c6[x] == c0[x] by {
        if in_slots(osl, x) {
            let j = choose|j: int| 0 <= j < osl.len() && #[trigger] cell(osl[j].2) == x;
            assert(step_ok(PassMode::FinalizeForMove, c5[cell(osl[j].2)], c6[cell(osl[j].2)], osl[j], name));
            assert(v.config[cell(osl[j].2)] == ResView::Reserved(name, osl[j].0, osl[j].1));
        } else if in_slots(sl, x) {
            let j = choose|j: int| 0 <= j < sl.len() && #[trigger] cell(sl[j].2) == x;
            assert(step_ok(PassMode::Clear, c4[cell(sl[j].2)], c5[cell(sl[j].2)], sl[j], name));
            assert(step_ok(PassMode::ClaimForMove, c0[cell(sl[j].2)], c1[cell(sl[j].2)], sl[j], name));
            if x < v.config.len() {
                assert(c0[x] == v.config[x]);
                assert(!(v.config[x] is Pending));
                if v.config[x] is Reserved {
                    assert(v.config[x]->Reserved_0 == name);
                    let (a, k) = choose|a: int, k: int| 0 <= a < v.fixtures.len() && 0 <= k < fixture_slots(v.fixtures[a]).len()
                        && #[trigger] cell(fixture_slots(v.fixtures[a])[k].2) == x;
                    assert(v.config[cell(fixture_slots(v.fixtures[a])[k].2)]
                        == ResView::Reserved(v.fixtures[a].name, fixture_slots(v.fixtures[a])[k].0, fixture_slots(v.fixtures[a])[k].1));
                    if a < i {
                        assert(v.fixtures[a].name != v.fixtures[i].name);
                    } else if a > i {
                        assert(v.fixtures[i].name != v.fixtures[a].name);
                    }
                    assert(cell(osl[k].2) == x);
                }
            }
        }
    }
    assert(w.fixtures.update(i, f) =~= v.fixtures);
    assert(d3.len() >= c0.len());
    assert forall|x: int| c0.len() <= x < c6.len() implies #[trigger] c6[x] == ResView::Empty by {
        if in_slots(osl, x) {
            let j = choose|j: int| 0 <= j < osl.len() && #[trigger] cell(osl[j].2) == x;
            assert(cell(osl[j].2) < c1.len());
        }
        if in_slots(sl, x) {
            let j = choose|j: int| 0 <= j < sl.len() && #[trigger] cell(sl[j].2) == x;
            assert(cell(sl[j].2) < c2.len());
        }
        assert(d3[x] == ResView::Empty);
        assert(c4[x] == d3[x]);
        assert(c5[x] == c4[x]);
    }
    assert forall|x: int| 0 <= x < v.config.len() implies #[trigger] c6[x] == v.config[x] by {
        assert(c6[x] == c0[x]);
    }
    assert forall|x: int| v.config.len() <= x < c6.len() implies #[trigger] c6[x] == ResView::Empty by {
        if x < c0.len() {
            assert(c6[x] == c0[x]);
        }
    }
    lemma_grown_to(v.config, c6);
}

/// The slots of channel lists whose addresses are all distinct and
/// normalized lie at distinct positions.
proof fn lemma_distinct_slots(chs: Seq<(PropertyType, (ChannelValue, Seq<ChannelInUniverse>))>)
    requires
        lists_distinct(chs.map_values(|e: (PropertyType, (ChannelValue, Seq<ChannelInUniverse>))| e.1.1)),
        slots_ok(slots_of_channels(chs)),
    ensures
        distinct_cells(slots_of_channels(chs)),
    decreases chs.len(),
{
    if chs.len() > 0 {
        let ls = chs.map_values(|e: (PropertyType, (ChannelValue, Seq<ChannelInUniverse>))| e.1.1);
        let init = chs.drop_last();
        let last = chs.len() - 1;
        let il = init.map_values(|e: (PropertyType, (ChannelValue, Seq<ChannelInUniverse>))| e.1.1);
        let sl = slots_of_channels(chs);
        let isl = slots_of_channels(init);
        let n = isl.len() as int;
        assert forall|k: int| 0 <= k < n implies #[trigger] isl[k] == sl[k] by {}
        assert(slots_ok(isl)) by {
            assert forall|k: int| 0 <= k < isl.len() implies normalized((#[trigger] isl[k]).2) && abs_index(isl[k].2) <= usize::MAX by {
                assert(isl[k] == sl[k]);
            }
        }
        assert(lists_distinct(il)) by {
            assert forall|a: int, j1: int, b: int, j2: int|
                0 <= a < il.len() && 0 <= b < il.len() && 0 <= j1 < il[a].len() && 0 <= j2 < il[b].len()
                && (a != b || j1 != j2) implies #[trigger] il[a][j1] != #[trigger] il[b][j2] by {
                assert(il[a] == ls[a] && il[b] == ls[b]);
            }
        }
        lemma_distinct_slots(init);
        assert forall|k1: int, k2: int| 0 <= k1 < k2 < sl.len() implies #[trigger] cell(sl[k1].2) != #[trigger] cell(sl[k2].2) by {
            assert(normalized(sl[k1].2) && normalized(sl[k2].2));
            if k2 < n {
                assert(cell(isl[k1].2) != cell(isl[k2].2));
            } else if k1 >= n {
                assert(sl[k1].2 == chs[last].1.1[k1 - n]);
                assert(sl[k2].2 == chs[last].1.1[k2 - n]);
                assert(ls[last][k1 - n] != ls[last][k2 - n]);
            } else {
                lemma_slots_addresses(init, k1);
                let (a, j) = choose|a: int, j: int| 0 <= a < init.len() && 0 <= j < init[a].1.1.len()
                    && #[trigger] slots_of_channels(init)[k1] == (init[a].0, j as usize, init[a].1.1[j]);
                assert(sl[k1].2 == ls[a][j]);
                assert(sl[k2].2 == ls[last][k2 - n]);
                assert(ls[a][j] != ls[last][k2 - n]);
            }
        }
    }
}

/// Whether `d` keeps the reservations of `c`: it is at least as long, each
/// position of `c` reserved in either holds the same reservation in both, and
/// the positions added are not reserved.
pub open spec fn keeps_reservations(c: Seq<ResView>, d: Seq<ResView>) -> bool {
    &&& d.len() >= c.len()
    &&& forall|x: int| 0 <= x < c.len() && (c[x] is Reserved || d[x] is Reserved) ==> #[trigger] d[x] == c[x]
    &&& forall|x: int| c.len() <= x < d.len() ==> !(#[trigger] d[x] is Reserved)
}

proof fn lemma_keeps_trans(c: Seq<ResView>, d: Seq<ResView>, e: Seq<ResView>)
    requires
        keeps_reservations(c, d),
        keeps_reservations(d, e),
    ensures
        keeps_reservations(c, e),
{
    assert forall|x: int| 0 <= x < c.len() && (c[x] is Reserved || e[x] is Reserved) implies #[trigger] e[x] == c[x] by {
        if e[x] is Reserved {
            assert(e[x] == d[x]);
        } else {
            assert(d[x] == c[x]);
        }
    }
    assert forall|x: int| c.len() <= x < e.len() implies !(#[trigger] e[x] is Reserved) by {
        if x < d.len() {
            if e[x] is Reserved {
                assert(e[x] == d[x]);
            }
        }
    }
}

/// A claiming pass only claims positions not reserved.
proof fn lemma_claim_keeps(mode: PassMode, c: Seq<ResView>, sl: Seq<Slot>, n: Seq<char>)
    requires
        mode is Claim || mode is ClaimForMove,
        c.len() % 512 == 0,
        slots_ok(sl),
    ensures
        keeps_reservations(c, pass_config(pass(mode, c, sl, n))),
    decreases sl.len(),
{
    if sl.len() > 0 {
        let init = sl.drop_last();
        assert(forall|k: int| 0 <= k < init.len() ==> #[trigger] init[k] == sl[k]);
        assert(slots_ok(init));
        lemma_claim_keeps(mode, c, init, n);
        lemma_pass_len(mode, c, init, n);
        if let PassState::Running(c1) = pass(mode, c, init, n) {
            let a = sl.last().2;
            assert(normalized(a));
            if a.1 < c1.len() / 512 {
                assert(0 <= cell(a) < c1.len()) by (nonlinear_arith)
                    requires
                        cell(a) == a.1 * 512 + a.0,
                        a.0 < 512,
                        a.1 < c1.len() / 512,
                        c1.len() % 512 == 0,
                ;
                let c2 = pass_config(pass_step(mode, c1, sl.last(), n));
                assert(keeps_reservations(c1, c2));
                lemma_keeps_trans(c, c1, c2);
            }
        }
    }
}

/// Growing the reservations keeps them.
proof fn lemma_grown_keeps(c: Seq<ResView>, size: int)
    requires
        c.len() % 512 == 0,
        size >= 0,
    ensures
        keeps_reservations(c, grown(c, size)),
{
    lemma_grown(c, size);
}

/// Reservations kept from a consistent engine's keep it consistent.
proof fn lemma_consistent_kept(v: EngineView, d: Seq<ResView>)
    requires
        engine_wf(v),
        consistent(v),
        keeps_reservations(v.config, d),
    ensures
        consistent(EngineView { config: d, ..v }),
{
    let w = EngineView { config: d, ..v };
    assert forall|i: int, k: int| 0 <= i < w.fixtures.len() && 0 <= k < fixture_slots(w.fixtures[i]).len()
        implies w.config[cell((#[trigger] fixture_slots(w.fixtures[i])[k]).2)]
            == ResView::Reserved(w.fixtures[i].name, fixture_slots(w.fixtures[i])[k].0, fixture_slots(w.fixtures[i])[k].1) by {
        lemma_fixture_cells(v, i);
        assert(v.config[cell(fixture_slots(v.fixtures[i])[k].2)]
            == ResView::Reserved(v.fixtures[i].name, fixture_slots(v.fixtures[i])[k].0, fixture_slots(v.fixtures[i])[k].1));
    }
    assert forall|x: int| 0 <= x < w.config.len() && (#[trigger] w.config[x]) is Reserved
        implies exists|i: int, k: int| 0 <= i < w.fixtures.len() && 0 <= k < fixture_slots(w.fixtures[i]).len()
            && #[trigger] cell(fixture_slots(w.fixtures[i])[k].2) == x by {
        assert(x < v.config.len());
        assert(d[x] == v.config[x]);
    }
}

/// A pass that reserves or frees stops only for a missing universe or
/// reservations out of step.
proof fn lemma_update_errors(mode: PassMode, c: Seq<ResView>, sl: Seq<Slot>, n: Seq<char>)
    requires
        !(mode is Claim || mode is ClaimForMove),
    ensures
        pass(mode, c, sl, n) matches PassState::Stopped(_, e) ==> !(e is Conflict),
    decreases sl.len(),
{
    if sl.len() > 0 {
        lemma_update_errors(mode, c, sl.drop_last(), n);
    }
}

/// Law: in a consistent engine, adding a fixture keeps the reservations in
/// agreement with the fixtures, whether it succeeds or fails.
pub proof fn law_new_fixture_keeps_consistent(v: EngineView, types: Seq<FixtureTypeView>, name: Seq<char>,
    type_label: Seq<char>, sc: ChannelIndex, su: UniverseIndex)
    requires
        engine_wf(v),
        consistent(v),
        registry_wf(types),
        placement_fits(types, type_label, (sc, su), name),
    ensures
        consistent(spec_new_fixture(v, types, name, type_label, sc, su).0),
{
    let (w, r) = spec_new_fixture(v, types, name, type_label, sc, su);
    if r is Ok {
        law_new_fixture_consistent(v, types, name, type_label, sc, su);
    } else if sc <= MAX_CHANNEL && has_type(types, type_label) && type_in_universe(type_named(types, type_label), sc) {
        let t = type_named(types, type_label);
        let k0 = choose|i: int| 0 <= i < types.len() && (#[trigger] types[i]).name == type_label;
        assert(type_wf(types[k0]));
        lemma_instantiate_wf(t, (sc, su), name);
        let f = instantiate(t, (sc, su), name);
        lemma_fixture_slots_ok(f);
        let sl = fixture_slots(f);
        let size = max_universe(sl, su) + 1;
        crate::engine::lemma_max_universe(sl, su);
        lemma_grown(v.config, size);
        let c0 = grown(v.config, size);
        lemma_grown_keeps(v.config, size);
        lemma_claim_keeps(PassMode::Claim, c0, sl, name);
        let c1 = pass_config(pass(PassMode::Claim, c0, sl, name));
        lemma_keeps_trans(v.config, c0, c1);
        if pass(PassMode::Claim, c0, sl, name) is Running && !has_fixture(v.fixtures, name) {
            law_new_fixture_not_fatal(v, types, name, type_label, sc, su);
            lemma_update_errors(PassMode::Finalize, c1, sl, name);
        } else {
            lemma_consistent_kept(v, c1);
        }
    }
}

/// Law: in a consistent engine, moving a fixture keeps the reservations in
/// agreement with the fixtures, whether it succeeds or fails.
pub proof fn law_move_fixture_keeps_consistent(v: EngineView, name: Seq<char>, nc: ChannelIndex, nu: UniverseIndex)
    requires
        engine_wf(v),
        consistent(v),
        move_fits(v, name, nc, nu),
    ensures
        consistent(spec_move_fixture(v, name, nc, nu).0),
{
    let (w, r) = spec_move_fixture(v, name, nc, nu);
    if r is Ok {
        law_move_fixture_consistent(v, name, nc, nu);
    } else if has_fixture(v.fixtures, name) && nc <= MAX_CHANNEL
        && move_in_universe(v.fixtures[fixture_index(v.fixtures, name)], (nc, nu)) {
        let i = fixture_index(v.fixtures, name);
        let f = v.fixtures[i];
        assert(fixture_wf(f));
        lemma_moved_wf(f, (nc, nu));
        let g = moved_fixture(f, (nc, nu));
        lemma_fixture_slots_ok(g);
        lemma_fixture_cells(v, i);
        let sl = fixture_slots(g);
        let osl = fixture_slots(f);
        let size = max_universe(sl, nu) + 1;
        crate::engine::lemma_max_universe(sl, nu);
        lemma_grown(v.config, size);
        let c0 = grown(v.config, size);
        lemma_grown_keeps(v.config, size);
        lemma_claim_keeps(PassMode::ClaimForMove, c0, sl, name);
        let c1 = pass_config(pass(PassMode::ClaimForMove, c0, sl, name));
        lemma_keeps_trans(v.config, c0, c1);
        law_move_fixture_not_fatal(v, name, nc, nu);
        if pass(PassMode::ClaimForMove, c0, sl, name) is Running {
            lemma_update_errors(PassMode::Clear, c1, osl, name);
            if pass(PassMode::Clear, c1, osl, name) is Running {
                let c2 = pass_config(pass(PassMode::Clear, c1, osl, name));
                lemma_update_errors(PassMode::FinalizeForMove, c2, sl, name);
            }
        } else {
            lemma_consistent_kept(v, c1);
        }
    }
}

/// Law: in a consistent engine, removing a fixture keeps the reservations in
/// agreement with the fixtures, whether it succeeds or fails.
pub proof fn law_remove_fixture_keeps_consistent(v: EngineView, name: Seq<char>)
    requires
        engine_wf(v),
        consistent(v),
    ensures
        consistent(spec_remove_fixture(v, name).0),
{
    if has_fixture(v.fixtures, name) {
        law_remove_existing_succeeds(v, name);
        law_remove_fixture_consistent(v, name);
    }
}

} // verus!
