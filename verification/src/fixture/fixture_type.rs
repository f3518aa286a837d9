//! Fixture types: templates that give each property of a kind of fixture its
//! channel layout, relative to the fixture's start; and the registry of all
//! fixture types by name.
use vstd::prelude::*;
use crate::fixture::{ChannelIndex, ChannelInUniverse, FixtureError, MAX_CHANNEL};
use crate::fixture::channel::{ChannelError, ChannelParameter, PropertyType, SimplePropertyType, property_key, property_name, can_move,
    within_universe};
use crate::fixture::color::{ColorPropertyType, ColorType, ColorTypeView, OutputType, mixes_models, with_slot,
    mixed_models_message};

verus! {

/// A fixture type: its color layout (if it has color properties), the channel
/// layout of each simple property, and its name.
pub struct FixtureType {
    color: Option<ColorType>,
    properties: Vec<(SimplePropertyType, ChannelParameter)>,
    name: String,
}

/// The abstract fixture type.
pub struct FixtureTypeView {
    pub color: Option<ColorTypeView>,
    pub properties: Seq<(SimplePropertyType, Seq<ChannelInUniverse>)>,
    pub name: Seq<char>,
}

pub open spec fn color_type_view(c: Option<ColorType>) -> Option<ColorTypeView> {
    match c {
        Some(t) => Some(t@),
        None => None,
    }
}

impl View for FixtureType {
    type V = FixtureTypeView;

    closed spec fn view(&self) -> FixtureTypeView {
        FixtureTypeView {
            color: color_type_view(self.color),
            properties: self.properties@.map_values(|p: (SimplePropertyType, ChannelParameter)| (p.0, p.1@)),
            name: self.name@,
        }
    }
}

/// The properties with their channel layouts, as given to [`FixtureType::new`].
pub open spec fn layout_view(props: Seq<(PropertyType, ChannelParameter)>) -> Seq<(PropertyType, Seq<ChannelInUniverse>)> {
    props.map_values(|p: (PropertyType, ChannelParameter)| (p.0, p.1@))
}

/// Whether no two entries name the same property.
pub open spec fn distinct_keys(props: Seq<(PropertyType, Seq<ChannelInUniverse>)>) -> bool {
    forall|i: int, j: int| 0 <= i < j < props.len() ==> property_key(#[trigger] props[i].0) != property_key(#[trigger] props[j].0)
}

/// The state of building a fixture type after some of its properties: the
/// channels seen so far with the color layout and simple properties built, or
/// the first failure.
pub enum TypeScan {
    Building { seen: Seq<ChannelInUniverse>, color: ColorTypeView, simple: Seq<(SimplePropertyType, Seq<ChannelInUniverse>)> },
    /// The channels of this property overlap with channels seen before (or
    /// with each other).
    Overlap(PropertyType),
    /// This color property belongs to another model than the one in use.
    Mixed(ColorPropertyType, OutputType),
}

pub open spec fn empty_color_type() -> ColorTypeView {
    ColorTypeView { output_type: None, color1: None, color2: None, color3: None }
}

/// One step of building a fixture type: the property `p` with channels `chans`.
pub open spec fn scan_step(prev: TypeScan, p: (PropertyType, Seq<ChannelInUniverse>)) -> TypeScan {
    match prev {
        TypeScan::Building { seen, color, simple } => {
            if !(seen + p.1).no_duplicates() {
                TypeScan::Overlap(p.0)
            } else {
                match p.0 {
                    PropertyType::Color(ct) => {
                        if mixes_models(color, ct) {
                            TypeScan::Mixed(ct, color.output_type->0)
                        } else {
                            TypeScan::Building { seen: seen + p.1, color: with_slot(color, ct, p.1), simple }
                        }
                    }
                    PropertyType::Simple(sp) => {
                        TypeScan::Building { seen: seen + p.1, color, simple: simple.push((sp, p.1)) }
                    }
                }
            }
        }
        _ => prev,
    }
}

/// Building a fixture type from its properties, in order.
pub open spec fn scan(props: Seq<(PropertyType, Seq<ChannelInUniverse>)>) -> TypeScan
    decreases props.len(),
{
    if props.len() == 0 {
        TypeScan::Building { seen: Seq::empty(), color: empty_color_type(), simple: Seq::empty() }
    } else {
        scan_step(scan(props.drop_last()), props.last())
    }
}

/// The fixture type that a successful build gives: the color layout only if
/// a color property was given.
pub open spec fn built_type(s: TypeScan, name: Seq<char>) -> FixtureTypeView {
    match s {
        TypeScan::Building { seen, color, simple } => FixtureTypeView {
            color: if color.output_type is Some { Some(color) } else { None },
            properties: simple,
            name,
        },
        _ => FixtureTypeView { color: None, properties: Seq::empty(), name },
    }
}

/// The registry of fixture types; no two have the same name.
pub struct FixtureTypeRegistry {
    types: Vec<FixtureType>,
}

impl View for FixtureTypeRegistry {
    type V = Seq<FixtureTypeView>;

    closed spec fn view(&self) -> Seq<FixtureTypeView> {
        self.types@.map_values(|t: FixtureType| t@)
    }
}

/// Whether some registered type has this name.
pub open spec fn has_type(types: Seq<FixtureTypeView>, name: Seq<char>) -> bool {
    exists|i: int| 0 <= i < types.len() && (#[trigger] types[i]).name == name
}

/// Registered types have distinct names, distinct simple properties, and a
/// color layout only with a model.
pub open spec fn registry_wf(types: Seq<FixtureTypeView>) -> bool {
    &&& forall|i: int, j: int| 0 <= i < j < types.len() ==> (#[trigger] types[i]).name != (#[trigger] types[j]).name
    &&& forall|i: int| 0 <= i < types.len() ==> type_wf(#[trigger] types[i])
}

/// A fixture type's simple properties are distinct, a color layout is
/// present only with a model, and no channel appears twice in the layout.
pub open spec fn type_wf(t: FixtureTypeView) -> bool {
    &&& forall|i: int, j: int| 0 <= i < j < t.properties.len()
        ==> crate::fixture::channel::simple_key(#[trigger] t.properties[i].0) != crate::fixture::channel::simple_key(#[trigger] t.properties[j].0)
    &&& (t.color matches Some(c) ==> c.output_type is Some)
    &&& lists_distinct(layout_lists(t))
}

impl FixtureTypeRegistry {
    /// An empty registry.
    pub fn new() -> (r: Self)
        ensures
            r@ == Seq::<FixtureTypeView>::empty(),
            registry_wf(r@),
    {
        FixtureTypeRegistry { types: Vec::new() }
    }

    /// The position of the type named `name`, if one is registered.
    pub fn find(&self, name: &String) -> (r: Option<usize>)
        requires
            registry_wf(self@),
        ensures
            r is None <==> !has_type(self@, name@),
            r matches Some(i) ==> i < self@.len() && self@[i as int].name == name@,
    {
        let mut i: usize = 0;
        while i < self.types.len()
            invariant
                i <= self.types@.len(),
                forall|j: int| 0 <= j < i ==> self@[j].name != name@,
            decreases self.types.len() - i,
        {
            if self.types[i].name == *name {
                return Some(i);
            }
            i = i + 1;
        }
        None
    }

    /// The number of registered types.
    pub fn len(&self) -> (r: usize)
        ensures
            r == self@.len(),
    {
        self.types.len()
    }

    /// The registered type at position `i`.
    pub fn get(&self, i: usize) -> (r: &FixtureType)
        requires
            i < self@.len(),
        ensures
            r@ == self@[i as int],
    {
        &self.types[i]
    }
}

fn contains_channel(seen: &Vec<ChannelInUniverse>, c: ChannelInUniverse) -> (r: bool)
    ensures
        r == seen@.contains(c),
{
    let mut k: usize = 0;
    while k < seen.len()
        invariant
            k <= seen@.len(),
            forall|j: int| 0 <= j < k ==> seen@[j] != c,
        decreases seen.len() - k,
    {
        let d = seen[k];
        if d.0 == c.0 && d.1 == c.1 {
            assert(seen@[k as int] == c);
            return true;
        }
        k = k + 1;
    }
    false
}

/// Once building fails, later properties do not change the failure.
proof fn lemma_scan_stuck(props: Seq<(PropertyType, Seq<ChannelInUniverse>)>, k: int)
    requires
        0 <= k <= props.len(),
        !(scan(props.take(k)) is Building),
    ensures
        scan(props) == scan(props.take(k)),
    decreases props.len() - k,
{
    if k < props.len() {
        let next = props.take(k + 1);
        assert(next.drop_last() =~= props.take(k));
        assert(scan(next) == scan(props.take(k)));
        lemma_scan_stuck(props, k + 1);
    } else {
        assert(props.take(k) =~= props);
    }
}

proof fn lemma_dup_found(seen: Seq<ChannelInUniverse>, chans: Seq<ChannelInUniverse>, j: int)
    requires
        0 <= j < chans.len(),
        (seen + chans.take(j)).contains(chans[j]),
    ensures
        !(seen + chans).no_duplicates(),
{
    let whole = seen + chans;
    let pre = seen + chans.take(j);
    let k = choose|k: int| 0 <= k < pre.len() && pre[k] == chans[j];
    assert(whole[k] == pre[k]);
    assert(whole[seen.len() + j] == chans[j]);
}

proof fn lemma_no_dup_extend(seen: Seq<ChannelInUniverse>, chans: Seq<ChannelInUniverse>, j: int)
    requires
        0 <= j < chans.len(),
        (seen + chans.take(j)).no_duplicates(),
        !(seen + chans.take(j)).contains(chans[j]),
    ensures
        (seen + chans.take(j + 1)).no_duplicates(),
{
    assert(seen + chans.take(j + 1) =~= (seen + chans.take(j)).push(chans[j]));
}

/// Whether every channel of the layouts lies below [`MAX_CHANNEL`] within its universe.
pub open spec fn layouts_in_range(props: Seq<(PropertyType, Seq<ChannelInUniverse>)>) -> bool {
    forall|i: int, j: int| 0 <= i < props.len() && 0 <= j < props[i].1.len()
        ==> (#[trigger] props[i].1[j]).0 < MAX_CHANNEL
}

/// Decides [`layouts_in_range`].
fn check_layouts_in_range(properties: &Vec<(PropertyType, ChannelParameter)>) -> (r: bool)
    ensures
        r == layouts_in_range(layout_view(properties@)),
{
    let ghost props = layout_view(properties@);
    let mut i: usize = 0;
    while i < properties.len()
        invariant
            i <= properties@.len(),
            props == layout_view(properties@),
            forall|a: int, b: int| 0 <= a < i && 0 <= b < props[a].1.len()
                ==> (#[trigger] props[a].1[b]).0 < MAX_CHANNEL,
        decreases properties.len() - i,
    {
        let channels = &properties[i].1;
        assert(props[i as int].1 == channels@);
        let n = channels.channel_count();
        let mut j: usize = 0;
        while j < n
            invariant
                i < properties@.len(),
                props == layout_view(properties@),
                props[i as int].1 == channels@,
                n == channels@.len(),
                j <= n,
                forall|a: int, b: int| 0 <= a < i && 0 <= b < props[a].1.len()
                    ==> (#[trigger] props[a].1[b]).0 < MAX_CHANNEL,
                forall|b: int| 0 <= b < j ==> (#[trigger] props[i as int].1[b]).0 < MAX_CHANNEL,
            decreases n - j,
        {
            let c = channels.channel_at(j);
            if c.0 >= MAX_CHANNEL {
                assert(props[i as int].1[j as int] == c);
                return false;
            }
            j = j + 1;
        }
        i = i + 1;
    }
    true
}

/// The list of an optional channel layout: one list if present, none if not.
pub open spec fn opt_list(p: Option<Seq<ChannelInUniverse>>) -> Seq<Seq<ChannelInUniverse>> {
    match p {
        Some(l) => seq![l],
        None => Seq::empty(),
    }
}

/// The channel lists of a color layout: its present slots, in order.
pub open spec fn slot_lists(c: ColorTypeView) -> Seq<Seq<ChannelInUniverse>> {
    opt_list(c.color1) + opt_list(c.color2) + opt_list(c.color3)
}

/// The channel lists of a type: the simple properties' in order, then the
/// color slots'.
pub open spec fn layout_lists(t: FixtureTypeView) -> Seq<Seq<ChannelInUniverse>> {
    t.properties.map_values(|p: (SimplePropertyType, Seq<ChannelInUniverse>)| p.1)
        + match t.color {
            Some(c) => slot_lists(c),
            None => Seq::empty(),
        }
}

/// No channel appears twice in the lists, within one list or in two.
pub open spec fn lists_distinct(ls: Seq<Seq<ChannelInUniverse>>) -> bool {
    forall|a: int, j1: int, b: int, j2: int|
        0 <= a < ls.len() && 0 <= b < ls.len() && 0 <= j1 < ls[a].len() && 0 <= j2 < ls[b].len()
        && (a != b || j1 != j2) ==> #[trigger] ls[a][j1] != #[trigger] ls[b][j2]
}

/// Every channel of the lists is in `seen`.
pub open spec fn lists_within(ls: Seq<Seq<ChannelInUniverse>>, seen: Seq<ChannelInUniverse>) -> bool {
    forall|a: int, j: int| 0 <= a < ls.len() && 0 <= j < ls[a].len() ==> seen.contains(#[trigger] ls[a][j])
}

/// What holds of a type being built: its channel lists are distinct and
/// were all seen, and a layout without a model has no slot.
pub open spec fn building_ok(seen: Seq<ChannelInUniverse>, color: ColorTypeView,
    simple: Seq<(SimplePropertyType, Seq<ChannelInUniverse>)>) -> bool {
    let ls = simple.map_values(|p: (SimplePropertyType, Seq<ChannelInUniverse>)| p.1) + slot_lists(color);
    &&& lists_distinct(ls)
    &&& lists_within(ls, seen)
    &&& (color.output_type is None ==> slot_lists(color).len() == 0)
}

/// Putting a list of fresh channels between two parts keeps the lists distinct.
proof fn lemma_lists_insert(x: Seq<Seq<ChannelInUniverse>>, y: Seq<Seq<ChannelInUniverse>>,
    seen: Seq<ChannelInUniverse>, q: Seq<ChannelInUniverse>)
    requires
        lists_distinct(x + y),
        lists_within(x + y, seen),
        (seen + q).no_duplicates(),
    ensures
        lists_distinct(x.push(q) + y),
        lists_within(x.push(q) + y, seen + q),
{
    let old = x + y;
    let z = x.push(q) + y;
    let n = x.len() as int;
    assert(z.len() == old.len() + 1);
    assert forall|a: int| 0 <= a < z.len() implies #[trigger] z[a] == (if a < n { old[a] } else if a == n { q } else { old[a - 1] }) by {
        if a < n {
            assert(z[a] == x[a]);
        } else if a > n {
            assert(z[a] == y[a - n - 1]);
        }
    }
    assert forall|a: int, j1: int, b: int, j2: int|
        0 <= a < z.len() && 0 <= b < z.len() && 0 <= j1 < z[a].len() && 0 <= j2 < z[b].len()
        && (a != b || j1 != j2) implies #[trigger] z[a][j1] != #[trigger] z[b][j2] by {
        let a0 = if a < n { a } else { a - 1 };
        let b0 = if b < n { b } else { b - 1 };
        if a == n && b == n {
            assert((seen + q)[seen.len() + j1] == q[j1]);
            assert((seen + q)[seen.len() + j2] == q[j2]);
        } else if a == n {
            assert(seen.contains(old[b0][j2]));
            let k = choose|k: int| 0 <= k < seen.len() && seen[k] == old[b0][j2];
            assert((seen + q)[k] == seen[k]);
            assert((seen + q)[seen.len() + j1] == q[j1]);
        } else if b == n {
            assert(seen.contains(old[a0][j1]));
            let k = choose|k: int| 0 <= k < seen.len() && seen[k] == old[a0][j1];
            assert((seen + q)[k] == seen[k]);
            assert((seen + q)[seen.len() + j2] == q[j2]);
        } else {
            assert(old[a0][j1] != old[b0][j2]);
        }
    }
    assert forall|a: int, j: int| 0 <= a < z.len() && 0 <= j < z[a].len() implies (seen + q).contains(#[trigger] z[a][j]) by {
        if a == n {
            assert((seen + q)[seen.len() + j] == q[j]);
        } else {
            let a0 = if a < n { a } else { a - 1 };
            assert(seen.contains(old[a0][j]));
            let k = choose|k: int| 0 <= k < seen.len() && seen[k] == old[a0][j];
            assert((seen + q)[k] == seen[k]);
        }
    }
}

/// Dropping a list keeps the lists distinct and seen.
proof fn lemma_lists_drop(x: Seq<Seq<ChannelInUniverse>>, o: Seq<ChannelInUniverse>, y: Seq<Seq<ChannelInUniverse>>,
    seen: Seq<ChannelInUniverse>)
    requires
        lists_distinct(x.push(o) + y),
        lists_within(x.push(o) + y, seen),
    ensures
        lists_distinct(x + y),
        lists_within(x + y, seen),
{
    let old = x.push(o) + y;
    let z = x + y;
    let n = x.len() as int;
    assert forall|a: int| 0 <= a < z.len() implies #[trigger] z[a] == (if a < n { old[a] } else { old[a + 1] }) by {
        if a < n {
            assert(old[a] == x[a]);
        } else {
            assert(old[a + 1] == y[a - n]);
        }
    }
    assert forall|a: int, j1: int, b: int, j2: int|
        0 <= a < z.len() && 0 <= b < z.len() && 0 <= j1 < z[a].len() && 0 <= j2 < z[b].len()
        && (a != b || j1 != j2) implies #[trigger] z[a][j1] != #[trigger] z[b][j2] by {
        let a0 = if a < n { a } else { a + 1 };
        let b0 = if b < n { b } else { b + 1 };
        assert(old[a0][j1] != old[b0][j2]);
    }
    assert forall|a: int, j: int| 0 <= a < z.len() && 0 <= j < z[a].len() implies seen.contains(#[trigger] z[a][j]) by {
        let a0 = if a < n { a } else { a + 1 };
        assert(seen.contains(old[a0][j]));
    }
}

/// Lists seen in `seen` are seen in `seen + q`.
proof fn lemma_lists_within_more(ls: Seq<Seq<ChannelInUniverse>>, seen: Seq<ChannelInUniverse>, q: Seq<ChannelInUniverse>)
    requires
        lists_within(ls, seen),
    ensures
        lists_within(ls, seen + q),
{
    assert forall|a: int, j: int| 0 <= a < ls.len() && 0 <= j < ls[a].len() implies (seen + q).contains(#[trigger] ls[a][j]) by {
        let k = choose|k: int| 0 <= k < seen.len() && seen[k] == ls[a][j];
        assert((seen + q)[k] == seen[k]);
    }
}

/// Setting a color slot to fresh channels keeps a type being built in order.
proof fn lemma_with_slot_ok(seen: Seq<ChannelInUniverse>, color: ColorTypeView,
    simple: Seq<(SimplePropertyType, Seq<ChannelInUniverse>)>, ct: ColorPropertyType, q: Seq<ChannelInUniverse>)
    requires
        building_ok(seen, color, simple),
        (seen + q).no_duplicates(),
    ensures
        building_ok(seen + q, with_slot(color, ct, q), simple),
{
    let x = simple.map_values(|p: (SimplePropertyType, Seq<ChannelInUniverse>)| p.1);
    let nc = with_slot(color, ct, q);
    let o1 = opt_list(color.color1);
    let o2 = opt_list(color.color2);
    let o3 = opt_list(color.color3);
    let slot = crate::fixture::color::slot_and_model(ct).0;
    let (pre, mid, post) = if slot == 1 { (Seq::<Seq<ChannelInUniverse>>::empty(), color.color1, o2 + o3) }
        else if slot == 2 { (o1, color.color2, o3) } else { (o1 + o2, color.color3, Seq::<Seq<ChannelInUniverse>>::empty()) };
    assert(x + slot_lists(color) =~= (x + pre) + opt_list(mid) + post);
    assert(x + slot_lists(nc) =~= (x + pre).push(q) + post);
    let base = (x + pre) + post;
    if let Some(m) = mid {
        assert((x + pre) + opt_list(mid) + post =~= (x + pre).push(m) + post);
        lemma_lists_drop(x + pre, m, post, seen);
    } else {
        assert((x + pre) + opt_list(mid) + post =~= base);
    }
    lemma_lists_insert(x + pre, post, seen, q);
}

/// Every state of a successful build is in order.
proof fn lemma_scan_ok(props: Seq<(PropertyType, Seq<ChannelInUniverse>)>)
    ensures
        scan(props) matches TypeScan::Building { seen, color, simple } ==> building_ok(seen, color, simple),
    decreases props.len(),
{
    if props.len() == 0 {
        let ls = Seq::<(SimplePropertyType, Seq<ChannelInUniverse>)>::empty()
            .map_values(|p: (SimplePropertyType, Seq<ChannelInUniverse>)| p.1) + slot_lists(empty_color_type());
        assert(ls =~= Seq::<Seq<ChannelInUniverse>>::empty());
    } else {
        let init = props.drop_last();
        let p = props.last();
        lemma_scan_ok(init);
        if let TypeScan::Building { seen, color, simple } = scan(init) {
            if (seen + p.1).no_duplicates() {
                match p.0 {
                    PropertyType::Color(ct) => {
                        if !mixes_models(color, ct) {
                            lemma_with_slot_ok(seen, color, simple, ct, p.1);
                        }
                    }
                    PropertyType::Simple(sp) => {
                        let x = simple.map_values(|e: (SimplePropertyType, Seq<ChannelInUniverse>)| e.1);
                        assert(simple.push((sp, p.1)).map_values(|e: (SimplePropertyType, Seq<ChannelInUniverse>)| e.1)
                            =~= x.push(p.1));
                        lemma_lists_insert(x, slot_lists(color), seen, p.1);
                        assert(color.output_type is None ==> slot_lists(color).len() == 0);
                    }
                }
            }
        }
    }
}

/// A type built successfully has distinct channel lists.
pub proof fn lemma_built_distinct(props: Seq<(PropertyType, Seq<ChannelInUniverse>)>, name: Seq<char>)
    requires
        scan(props) is Building,
    ensures
        lists_distinct(layout_lists(built_type(scan(props), name))),
{
    lemma_scan_ok(props);
    if let TypeScan::Building { seen, color, simple } = scan(props) {
        let t = built_type(scan(props), name);
        let x = simple.map_values(|e: (SimplePropertyType, Seq<ChannelInUniverse>)| e.1);
        if color.output_type is None {
            assert(layout_lists(t) =~= x + slot_lists(color));
        } else {
            assert(layout_lists(t) == x + slot_lists(color));
        }
    }
}

impl FixtureType {
    /// Builds a fixture type from its properties and registers it under
    /// `name`. Properties are taken in order; color properties go to the color
    /// layout, the others are kept as simple properties.
    ///
    /// Fails, leaving the registry unchanged, when a channel lies at or above
    /// [`MAX_CHANNEL`] within its universe, when the channels of a property
    /// overlap with those of an earlier one (the error names that property),
    /// when color properties of different models are mixed, or when `name` is
    /// taken.
    pub fn new(registry: &mut FixtureTypeRegistry, name: String, properties: Vec<(PropertyType, ChannelParameter)>)
        -> (r: Result<(), FixtureError>)
        requires
            registry_wf(old(registry)@),
            distinct_keys(layout_view(properties@)),
        ensures
            registry_wf(final(registry)@),
            r is Err ==> final(registry)@ == old(registry)@,
            !layouts_in_range(layout_view(properties@)) ==> r matches Err(FixtureError::ChannelError(ChannelError::ChannelOutOfRange)),
            layouts_in_range(layout_view(properties@)) ==> (scan(layout_view(properties@)) matches TypeScan::Overlap(k)
                ==> (r matches Err(FixtureError::ChannelError(ChannelError::ChannelAlreadyInUse(x))) && x@ == property_name(k))),
            layouts_in_range(layout_view(properties@)) ==> (scan(layout_view(properties@)) matches TypeScan::Mixed(ct, o)
                ==> (r matches Err(FixtureError::MultipleColorOutputTypes(m)) && m@ == mixed_models_message(ct, o))),
            layouts_in_range(layout_view(properties@)) && scan(layout_view(properties@)) is Building && has_type(old(registry)@, name@)
                ==> (r matches Err(FixtureError::FixtureTypeNameAlreadyInUse(x)) && x@ == name@),
            layouts_in_range(layout_view(properties@)) && scan(layout_view(properties@)) is Building && !has_type(old(registry)@, name@)
                ==> r is Ok && final(registry)@ == old(registry)@.push(built_type(scan(layout_view(properties@)), name@)),
    {
        let ghost props = layout_view(properties@);
        if !check_layouts_in_range(&properties) {
            return Err(FixtureError::ChannelError(ChannelError::ChannelOutOfRange));
        }
        let mut color = ColorType::new();
        let mut new_properties: Vec<(SimplePropertyType, ChannelParameter)> = Vec::new();
        let mut seen_channels: Vec<ChannelInUniverse> = Vec::new();
        let mut i: usize = 0;
        proof {
            assert(props.take(0) =~= Seq::<(PropertyType, Seq<ChannelInUniverse>)>::empty());
            assert(new_properties@.map_values(|p: (SimplePropertyType, ChannelParameter)| (p.0, p.1@))
                =~= Seq::<(SimplePropertyType, Seq<ChannelInUniverse>)>::empty());
        }
        while i < properties.len()
            invariant
                registry_wf(old(registry)@),
                *registry == *old(registry),
                i <= properties@.len(),
                props == layout_view(properties@),
                layouts_in_range(props),
                distinct_keys(props),
                scan(props.take(i as int)) == (TypeScan::Building {
                    seen: seen_channels@,
                    color: color@,
                    simple: new_properties@.map_values(|p: (SimplePropertyType, ChannelParameter)| (p.0, p.1@)),
                }),
                seen_channels@.no_duplicates(),
                forall|a: int, b: int| 0 <= a < b < new_properties@.len()
                    ==> crate::fixture::channel::simple_key(#[trigger] new_properties@[a].0)
                        != crate::fixture::channel::simple_key(#[trigger] new_properties@[b].0),
                forall|a: int| 0 <= a < new_properties@.len() ==> exists|b: int| 0 <= b < i
                    && property_key(PropertyType::Simple((#[trigger] new_properties@[a]).0)) == property_key(props[b].0),
            decreases properties.len() - i,
        {
            proof {
                assert(props.take(i as int + 1).drop_last() =~= props.take(i as int));
                assert(props.take(i as int + 1).last() == props[i as int]);
            }
            let key = &properties[i].0;
            let channels = &properties[i].1;
            let ghost seen0 = seen_channels@;
            let ghost chans = channels@;
            let n = channels.channel_count();
            let mut j: usize = 0;
            while j < n
                invariant
                    registry_wf(old(registry)@),
                    *registry == *old(registry),
                    i < properties@.len(),
                    props == layout_view(properties@),
                    layouts_in_range(props),
                    props[i as int] == (*key, chans),
                    scan(props.take(i as int)) == (TypeScan::Building {
                        seen: seen0,
                        color: color@,
                        simple: new_properties@.map_values(|p: (SimplePropertyType, ChannelParameter)| (p.0, p.1@)),
                    }),
                    seen0.no_duplicates(),
                    n == chans.len(),
                    chans == channels@,
                    j <= n,
                    seen_channels@ == seen0 + chans.take(j as int),
                    seen_channels@.no_duplicates(),
                decreases n - j,
            {
                let c = channels.channel_at(j);
                if contains_channel(&seen_channels, c) {
                    proof {
                        lemma_dup_found(seen0, chans, j as int);
                        assert(props.take(i as int + 1).drop_last() =~= props.take(i as int));
                        assert(props.take(i as int + 1).last() == props[i as int]);
                        lemma_scan_stuck(props, i as int + 1);
                    }
                    return Err(FixtureError::ChannelError(ChannelError::ChannelAlreadyInUse(key.name())));
                }
                proof {
                    lemma_no_dup_extend(seen0, chans, j as int);
                }
                seen_channels.push(c);
                assert(seen_channels@ =~= seen0 + chans.take(j as int + 1));
                j = j + 1;
            }
            assert(chans.take(n as int) =~= chans);
            match key {
                PropertyType::Color(color_type) => {
                    let res = color.checked_add_channel(*color_type, channels.clone());
                    if let Err(e) = res {
                        proof {
                            lemma_scan_stuck(props, i as int + 1);
                        }
                        return Err(e);
                    }
                }
                PropertyType::Simple(simple_property) => {
                    let ghost before = new_properties@;
                    new_properties.push((simple_property.clone(), channels.clone()));
                    proof {
                        assert(new_properties@.map_values(|p: (SimplePropertyType, ChannelParameter)| (p.0, p.1@))
                            =~= before.map_values(|p: (SimplePropertyType, ChannelParameter)| (p.0, p.1@)).push((*simple_property, chans)));
                        assert forall|a: int, b: int| 0 <= a < b < new_properties@.len() implies
                            crate::fixture::channel::simple_key(#[trigger] new_properties@[a].0)
                                != crate::fixture::channel::simple_key(#[trigger] new_properties@[b].0) by {
                            if b == new_properties@.len() - 1 {
                                let c = choose|c: int| 0 <= c < i
                                    && property_key(PropertyType::Simple(new_properties@[a].0)) == property_key(props[c].0);
                                assert(property_key(props[c].0) != property_key(props[i as int].0));
                            }
                        }
                        assert forall|a: int| 0 <= a < new_properties@.len() implies exists|b: int| 0 <= b < i + 1
                            && property_key(PropertyType::Simple((#[trigger] new_properties@[a]).0)) == property_key(props[b].0) by {
                            if a == new_properties@.len() - 1 {
                                assert(property_key(props[i as int].0) == property_key(PropertyType::Simple(new_properties@[a].0)));
                            } else {
                                assert(new_properties@[a] == before[a]);
                            }
                        }
                    }
                }
            }
            i = i + 1;
        }
        assert(props.take(properties.len() as int) =~= props);
        let has_color = color.color_exists();
        let color = if has_color { Some(color) } else { None };
        let output = FixtureType { color, properties: new_properties, name: name.clone() };
        match registry.find(&name) {
            Some(_) => Err(FixtureError::FixtureTypeNameAlreadyInUse(name)),
            None => {
                registry.types.push(output);
                proof {
                    lemma_built_distinct(props, name@);
                    let types = registry@;
                    assert(types =~= old(registry)@.push(output@));
                    assert forall|a: int, b: int| 0 <= a < b < types.len() implies
                        (#[trigger] types[a]).name != (#[trigger] types[b]).name by {
                        if b == types.len() - 1 {
                            assert(old(registry)@[a] == types[a]);
                        }
                    }
                }
                Ok(())
            }
        }
    }

    /// The type's name.
    pub fn name(&self) -> (r: &String)
        ensures
            r@ == self@.name,
    {
        &self.name
    }

    pub(crate) fn color(&self) -> (r: &Option<ColorType>)
        ensures
            color_type_view(*r) == self@.color,
    {
        &self.color
    }

    pub(crate) fn properties(&self) -> (r: &Vec<(SimplePropertyType, ChannelParameter)>)
        ensures
            r@.map_values(|p: (SimplePropertyType, ChannelParameter)| (p.0, p.1@)) == self@.properties,
    {
        &self.properties
    }
}


impl FixtureType {
    /// Whether all channels of the type can be placed at `start`.
    pub fn fits_at_start(&self, start: ChannelInUniverse) -> (r: bool)
        ensures
            r == crate::fixture::type_fits(self@, start),
    {
        let mut i: usize = 0;
        while i < self.properties.len()
            invariant
                i <= self.properties@.len(),
                forall|a: int, j: int| 0 <= a < i && 0 <= j < self@.properties[a].1.len()
                    ==> can_move(#[trigger] self@.properties[a].1[j], (0u16, 0usize), start),
            decreases self.properties.len() - i,
        {
            assert(self.properties@[i as int].1@ == self@.properties[i as int].1);
            if !self.properties[i].1.can_move_all((0u16, 0usize), start) {
                return false;
            }
            i = i + 1;
        }
        match &self.color {
            Some(c) => {
                assert(self@.color == Some(c@));
                c.fits_at_start(start)
            }
            None => true,
        }
    }
    /// Whether all channels of the type, placed at channel `sc`, stay inside their universe.
    pub fn within_universe_at(&self, sc: ChannelIndex) -> (r: bool)
        ensures
            r == crate::fixture::type_in_universe(self@, sc),
    {
        let mut i: usize = 0;
        while i < self.properties.len()
            invariant
                i <= self.properties@.len(),
                forall|a: int, j: int| 0 <= a < i && 0 <= j < self@.properties[a].1.len()
                    ==> within_universe(#[trigger] self@.properties[a].1[j], sc),
            decreases self.properties.len() - i,
        {
            assert(self.properties@[i as int].1@ == self@.properties[i as int].1);
            if !self.properties[i].1.all_within_universe(sc) {
                return false;
            }
            i = i + 1;
        }
        match &self.color {
            Some(c) => {
                assert(self@.color == Some(c@));
                c.within_universe_at(sc)
            }
            None => true,
        }
    }
}

} // verus!
