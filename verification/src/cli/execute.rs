//! Executing command-line actions against the kernel's state: the registry
//! of fixture types and the fixture engine.
use vstd::prelude::*;
use crate::cli::{CliAction, CliActionResponse, ParsedValue, parse_cli_value, value_parse, ValueView,
    unknown_command_message, text_key, text_name, invalid_property_message, parse_property_type, value_result_view,
    CliView, ParsedView, ParsedCommand, cli_parse, parse_command_line, parsed_result_view, layout_keys, type_scan,
    pairs_of, TypeTextScan, KeyLayout, find_key, type_step};
use crate::fixture::ChannelInUniverse;
use crate::logging::LogLevel;
use crate::engine::{FixtureEngine, EngineView, ErrorView, engine_wf, spec_new_fixture, spec_move_fixture,
    spec_remove_fixture, spec_set_property, spec_set_color, result_view, opt_result_view, placement_fits, move_fits,
    placement_fits_check, move_fits_check, has_fixture, fixture_index, error_view, rgb_change, hsv_change};
use crate::fixture::{ChannelValue, ChannelIndex, UniverseIndex, FixtureError, ColorModelInput, FixtureTypeRegistry,
    FixtureType};
use crate::fixture::channel::{ChannelError, PropertyType, property_name, property_key, ChannelParameter};
use crate::fixture::color::{after_rgb, after_hsv, ColorView, ColorPropertyType, mixed_models_message};
use crate::fixture::fixture_type::{FixtureTypeView, registry_wf, has_type, distinct_keys, layout_view, layouts_in_range, scan,
    TypeScan, built_type};
use crate::text::{join, decimal, decimal_string, split_words, words, str_eq, trimmed, trimmed_chars, eq_lit};

verus! {

/// The kernel's state: the registered fixture types and the fixture engine.
pub struct Kernel {
    pub registry: FixtureTypeRegistry,
    pub engine: FixtureEngine,
}

/// The abstract kernel.
pub struct KernelView {
    pub types: Seq<FixtureTypeView>,
    pub engine: EngineView,
}

impl View for Kernel {
    type V = KernelView;

    open spec fn view(&self) -> KernelView {
        KernelView { types: self.registry@, engine: self.engine@ }
    }
}

/// What the kernel always keeps.
pub open spec fn kernel_wf(k: KernelView) -> bool {
    registry_wf(k.types) && engine_wf(k.engine)
}

impl Kernel {
    /// A kernel without fixture types or fixtures.
    pub fn new() -> (r: Self)
        ensures
            kernel_wf(r@),
            r@.types.len() == 0,
            r@.engine.fixtures.len() == 0,
            r@.engine.config.len() == 0,
    {
        Kernel { registry: FixtureTypeRegistry::new(), engine: FixtureEngine::new() }
    }
}

/// The outcome of a command: a reply to show, or the kernel console asking
/// to shut down (saving, discarding, or asking first).
#[derive(Debug)]
pub enum CliOutcome {
    Reply(LogLevel, String),
    Exit(Option<bool>),
}

/// The kernel console's answer to the shutdown prompt, whitespace around it
/// ignored: `1` saves and exits (`Some(true)`), `2` exits without saving
/// (`Some(false)`), anything else cancels (`None`).
pub fn exit_choice(answer: &str) -> (r: Option<bool>)
    ensures
        trimmed(answer@) == "1"@ ==> r == Some(true),
        trimmed(answer@) == "2"@ ==> r == Some(false),
        trimmed(answer@) != "1"@ && trimmed(answer@) != "2"@ ==> r is None,
{
    let t = trimmed_chars(answer);
    proof {
        reveal_strlit("1");
        reveal_strlit("2");
        assert("1"@[0] != "2"@[0]);
    }
    if eq_lit(&t, "1") {
        Some(true)
    } else if eq_lit(&t, "2") {
        Some(false)
    } else {
        None
    }
}

/// The text of the `help` command.
pub open spec fn help_text() -> Seq<char> {
    "Commands:\n  help\n  new <type> <property> <channel> [<property> <channel> ...]   (a fine channel: <property>_f, <property>_f2, ...)\n  add <name> <type> <universe>.<channel>\n  move <name> <universe>.<channel>\n  remove <name>\n  set <name> <property> <value>   (value: a number, a percentage like 50%, or a hex code like #ff)\n  type <name>\n  exit [save|discard]"@
}

fn help_message() -> (r: String)
    ensures
        r@ == help_text(),
{
    "Commands:\n  help\n  new <type> <property> <channel> [<property> <channel> ...]   (a fine channel: <property>_f, <property>_f2, ...)\n  add <name> <type> <universe>.<channel>\n  move <name> <universe>.<channel>\n  remove <name>\n  set <name> <property> <value>   (value: a number, a percentage like 50%, or a hex code like #ff)\n  type <name>\n  exit [save|discard]".to_owned()
}

pub open spec fn fatal_universe_message() -> Seq<char> {
    "Fatal Error: Fixture created in Universe that does not exist. Normally, the programm should automatically create an universe, but somehow, this hasn't happened"@
}

pub open spec fn desync_message() -> Seq<char> {
    "Fatal Error: Dmx-State has desynced from real Fixture-Positions"@
}

pub open spec fn unexpected_message() -> Seq<char> {
    "new_fixture_type() threw an Error it shouldn't"@
}

pub open spec fn overlap_message(o: Seq<char>) -> Seq<char> {
    "Error: At least one Channel of this fixture is overlapping with "@ + o + ". Fixture has not been created."@
}

/// The reply to adding the fixture `name`.
pub open spec fn add_reply(name: Seq<char>, r: Result<(), ErrorView>) -> (LogLevel, Seq<char>) {
    match r {
        Ok(()) => (LogLevel::UserSuccess, name + " created successfully"@),
        Err(ErrorView::FixtureNameAlreadyInUse(n)) => (LogLevel::UserError, "Error: The Fixture name "@ + n + " is already used."@),
        Err(ErrorView::InvalidFixtureType(t)) => (LogLevel::UserError, "Error: There is no fixture-type named \""@ + t + "\"."@),
        Err(ErrorView::ChannelAlreadyInUse(o)) => (LogLevel::UserError, overlap_message(o)),
        Err(ErrorView::ChannelOutOfRange) => (LogLevel::UserError, "Error: fixture overflows out of this remaining universe"@),
        Err(ErrorView::UniverseOutOfRange) => (LogLevel::Error, fatal_universe_message()),
        Err(ErrorView::DmxStateDesync) => (LogLevel::Error, desync_message()),
        Err(_) => (LogLevel::Error, unexpected_message()),
    }
}

/// The reply to moving the fixture `name`.
pub open spec fn move_reply(name: Seq<char>, r: Result<(), ErrorView>) -> (LogLevel, Seq<char>) {
    match r {
        Ok(()) => (LogLevel::UserSuccess, name + " moved successfully"@),
        Err(ErrorView::InvalidFixture(n)) => (LogLevel::UserError, "Error: There is no fixture named \""@ + n + "\"."@),
        Err(ErrorView::ChannelAlreadyInUse(o)) => (LogLevel::UserError, overlap_message(o)),
        Err(ErrorView::ChannelOutOfRange) => (LogLevel::UserError, "Error: fixture overflows out of this remaining universe"@),
        Err(ErrorView::UniverseOutOfRange) => (LogLevel::Error, fatal_universe_message()),
        Err(ErrorView::DmxStateDesync) => (LogLevel::Error, desync_message()),
        Err(_) => (LogLevel::Error, unexpected_message()),
    }
}

/// The reply to removing the fixture `name`.
pub open spec fn remove_reply(name: Seq<char>, r: Result<(), ErrorView>) -> (LogLevel, Seq<char>) {
    match r {
        Ok(()) => (LogLevel::UserSuccess, name + " removed successfully"@),
        Err(ErrorView::InvalidFixture(n)) => (LogLevel::UserError, "Error: There is no fixture named \""@ + n + "\""@),
        Err(ErrorView::UniverseOutOfRange) => (LogLevel::Error, "Fatal Error: Fixture "@ + name + " is in a non-existent Universe"@),
        Err(ErrorView::DmxStateDesync) => (LogLevel::Error, desync_message()),
        Err(_) => (LogLevel::Error, unexpected_message()),
    }
}

/// The reply to setting `property` of the fixture `name` to `value`.
pub open spec fn set_reply(name: Seq<char>, property: PropertyType, value: ChannelValue, r: Result<(), ErrorView>)
    -> (LogLevel, Seq<char>) {
    match r {
        Ok(()) => (LogLevel::UserSuccess, "Value "@ + property_name(property) + " of "@ + name
            + " changed successfully to "@ + decimal(value as nat)),
        Err(ErrorView::InvalidFixture(n)) => (LogLevel::UserError, "Error: \""@ + n + "\" is not a valid Fixture"@),
        Err(ErrorView::MissingProperty(_)) => (LogLevel::UserError, "Error: \""@ + name + "\" has no property \""@
            + property_name(property) + "\""@),
        Err(_) => (LogLevel::Error, unexpected_message()),
    }
}

/// The type of the fixture `name`, or why there is none.
pub open spec fn type_lookup(e: EngineView, name: Seq<char>) -> Result<Seq<char>, ErrorView> {
    if has_fixture(e.fixtures, name) {
        Ok(e.fixtures[fixture_index(e.fixtures, name)].fixture_type)
    } else {
        Err(ErrorView::InvalidFixture(name))
    }
}

/// The reply to asking for the type of the fixture `name`.
pub open spec fn type_reply(name: Seq<char>, r: Result<Seq<char>, ErrorView>) -> (LogLevel, Seq<char>) {
    match r {
        Ok(t) => (LogLevel::Info, "\""@ + name + "\" is a fixture of the type \""@ + t + "\""@),
        Err(ErrorView::InvalidFixture(f)) => (LogLevel::UserError, "Error: \""@ + f + "\" is not a valid Fixture"@),
        Err(_) => (LogLevel::Error, "get_fixture_type_from_string() threw an Error it shouldn't"@),
    }
}

/// Registering the fixture type `name` with these property layouts: the
/// registry after, and the reply.
pub open spec fn new_type_result(types: Seq<FixtureTypeView>, name: Seq<char>,
    layouts: Seq<(PropertyType, Seq<crate::fixture::ChannelInUniverse>)>) -> (Seq<FixtureTypeView>, (LogLevel, Seq<char>)) {
    if !layouts_in_range(layouts) {
        (types, (LogLevel::UserError, "Error: A Channel is higher than the size of the Universe. This is not yet supported"@))
    } else {
    match scan(layouts) {
        TypeScan::Overlap(k) => (types, (LogLevel::UserError, "Error: The channel "@ + property_name(k)
            + " overlaps with another channel."@)),
        TypeScan::Mixed(ct, o) => (types, (LogLevel::UserError, mixed_models_message(ct, o))),
        TypeScan::Building { .. } => if has_type(types, name) {
            (types, (LogLevel::UserError, "Error: The Fixture type name "@ + name + " is already used."@))
        } else {
            (types.push(built_type(scan(layouts), name)), (LogLevel::UserSuccess, name + " created successfully"@))
        },
    }
    }
}

/// The fixture engine after a color change of the fixture `name` is
/// completed with the converted components `out`: for a new red, green and
/// blue, `out` holds the hue and saturation; for a new hue, saturation and
/// value, it holds the red, green and blue.
pub open spec fn color_applied(e: EngineView, name: Seq<char>, input: ColorModelInput,
    out: (ChannelValue, ChannelValue, ChannelValue)) -> EngineView {
    match input {
        ColorModelInput::Rgb(r, g, b) => spec_set_color(e, name, rgb_change(r, g, b, out.0, out.1)).0,
        ColorModelInput::Hsv(h, s, v) => spec_set_color(e, name, hsv_change(h, s, v, out.0, out.1, out.2)).0,
    }
}

/// Setting `property` of the fixture `name` to `value`, a color change being
/// completed by `convert`: the possible engines after, with the reply.
pub open spec fn set_outcome<C: Fn(ColorModelInput) -> (ChannelValue, ChannelValue, ChannelValue)>(e: EngineView,
    name: Seq<char>, property: PropertyType, value: ChannelValue, convert: C, e2: EngineView,
    reply: (LogLevel, Seq<char>)) -> bool {
    let (e1, r) = spec_set_property(e, name, property, value);
    match r {
        Ok(Some(input)) => exists|out: (ChannelValue, ChannelValue, ChannelValue)|
            convert.ensures((input,), out) && e2 == color_applied(e1, name, input, out)
            && reply == set_reply(name, property, value, Ok(())),
        Ok(None) => e2 == e1 && reply == set_reply(name, property, value, Ok(())),
        Err(x) => e2 == e1 && reply == set_reply(name, property, value, Err(x)),
    }
}

/// Whether an action can be executed: a new type's properties are distinct,
/// a fixture to add or move fits the address space.
pub open spec fn action_fits(k: KernelView, action: CliAction) -> bool {
    match action {
        CliAction::FixtureNew { name, channels } => distinct_keys(layout_view(channels@)),
        CliAction::FixtureAdd { name, fixture_type_name, universe, channel } =>
            placement_fits(k.types, fixture_type_name@, (channel, universe), name@),
        CliAction::FixtureMove { fixture_name, new_universe, new_channel } =>
            move_fits(k.engine, fixture_name@, new_channel, new_universe),
        _ => true,
    }
}

/// What executing an action other than `exit` and the debug commands does:
/// the possible kernels after, with the reply.
pub open spec fn basic_outcome<C: Fn(ColorModelInput) -> (ChannelValue, ChannelValue, ChannelValue)>(k: KernelView,
    action: CliAction, convert: C, k2: KernelView, reply: (LogLevel, Seq<char>)) -> bool {
    match action {
        CliAction::Help => k2 == k && reply == (LogLevel::UserSuccess, help_text()),
        CliAction::FixtureNew { name, channels } => {
            let (t, rep) = new_type_result(k.types, name@, layout_view(channels@));
            k2 == KernelView { types: t, ..k } && reply == rep
        },
        CliAction::FixtureAdd { name, fixture_type_name, universe, channel } => {
            let (e, r) = spec_new_fixture(k.engine, k.types, name@, fixture_type_name@, channel, universe);
            k2 == KernelView { engine: e, ..k } && reply == add_reply(name@, r)
        },
        CliAction::FixtureMove { fixture_name, new_universe, new_channel } => {
            let (e, r) = spec_move_fixture(k.engine, fixture_name@, new_channel, new_universe);
            k2 == KernelView { engine: e, ..k } && reply == move_reply(fixture_name@, r)
        },
        CliAction::FixtureRemove { fixture_name } => {
            let (e, r) = spec_remove_fixture(k.engine, fixture_name@);
            k2 == KernelView { engine: e, ..k } && reply == remove_reply(fixture_name@, r)
        },
        CliAction::FixtureSet { name, property_type, value } => k2.types == k.types
            && set_outcome(k.engine, name@, property_type, value, convert, k2.engine, reply),
        CliAction::FixtureGetType { fixture_name } =>
            k2 == k && reply == type_reply(fixture_name@, type_lookup(k.engine, fixture_name@)),
        _ => false,
    }
}

/// Whether the action is one [`basic_outcome`] describes.
pub open spec fn is_basic(action: CliAction) -> bool {
    !(action is Exit) && !(action is OtherCommands)
}

fn reply_for_add(name: &String, r: Result<(), FixtureError>) -> (out: (LogLevel, String))
    ensures
        (out.0, out.1@) == add_reply(name@, result_view(r)),
{
    match r {
        Ok(()) => (LogLevel::UserSuccess, join(name.clone(), " created successfully")),
        Err(FixtureError::FixtureNameAlreadyInUse(n)) =>
            (LogLevel::UserError, join(join("Error: The Fixture name ".to_owned(), n.as_str()), " is already used.")),
        Err(FixtureError::InvalidFixtureType(t)) =>
            (LogLevel::UserError, join(join("Error: There is no fixture-type named \"".to_owned(), t.as_str()), "\".")),
        Err(FixtureError::ChannelError(ChannelError::ChannelAlreadyInUse(o))) => (LogLevel::UserError,
            join(join("Error: At least one Channel of this fixture is overlapping with ".to_owned(), o.as_str()),
                ". Fixture has not been created.")),
        Err(FixtureError::ChannelError(ChannelError::ChannelOutOfRange)) =>
            (LogLevel::UserError, "Error: fixture overflows out of this remaining universe".to_owned()),
        Err(FixtureError::ChannelError(ChannelError::UniverseOutOfRange)) => (LogLevel::Error,
            "Fatal Error: Fixture created in Universe that does not exist. Normally, the programm should automatically create an universe, but somehow, this hasn't happened".to_owned()),
        Err(FixtureError::DmxStateDesync) =>
            (LogLevel::Error, "Fatal Error: Dmx-State has desynced from real Fixture-Positions".to_owned()),
        Err(_) => (LogLevel::Error, "new_fixture_type() threw an Error it shouldn't".to_owned()),
    }
}

fn reply_for_move(name: &String, r: Result<(), FixtureError>) -> (out: (LogLevel, String))
    ensures
        (out.0, out.1@) == move_reply(name@, result_view(r)),
{
    match r {
        Ok(()) => (LogLevel::UserSuccess, join(name.clone(), " moved successfully")),
        Err(FixtureError::InvalidFixture(n)) =>
            (LogLevel::UserError, join(join("Error: There is no fixture named \"".to_owned(), n.as_str()), "\".")),
        Err(FixtureError::ChannelError(ChannelError::ChannelAlreadyInUse(o))) => (LogLevel::UserError,
            join(join("Error: At least one Channel of this fixture is overlapping with ".to_owned(), o.as_str()),
                ". Fixture has not been created.")),
        Err(FixtureError::ChannelError(ChannelError::ChannelOutOfRange)) =>
            (LogLevel::UserError, "Error: fixture overflows out of this remaining universe".to_owned()),
        Err(FixtureError::ChannelError(ChannelError::UniverseOutOfRange)) => (LogLevel::Error,
            "Fatal Error: Fixture created in Universe that does not exist. Normally, the programm should automatically create an universe, but somehow, this hasn't happened".to_owned()),
        Err(FixtureError::DmxStateDesync) =>
            (LogLevel::Error, "Fatal Error: Dmx-State has desynced from real Fixture-Positions".to_owned()),
        Err(_) => (LogLevel::Error, "new_fixture_type() threw an Error it shouldn't".to_owned()),
    }
}

fn reply_for_remove(name: &String, r: Result<(), FixtureError>) -> (out: (LogLevel, String))
    ensures
        (out.0, out.1@) == remove_reply(name@, result_view(r)),
{
    match r {
        Ok(()) => (LogLevel::UserSuccess, join(name.clone(), " removed successfully")),
        Err(FixtureError::InvalidFixture(n)) =>
            (LogLevel::UserError, join(join("Error: There is no fixture named \"".to_owned(), n.as_str()), "\"")),
        Err(FixtureError::ChannelError(ChannelError::UniverseOutOfRange)) => (LogLevel::Error,
            join(join("Fatal Error: Fixture ".to_owned(), name.as_str()), " is in a non-existent Universe")),
        Err(FixtureError::DmxStateDesync) =>
            (LogLevel::Error, "Fatal Error: Dmx-State has desynced from real Fixture-Positions".to_owned()),
        Err(_) => (LogLevel::Error, "new_fixture_type() threw an Error it shouldn't".to_owned()),
    }
}

fn reply_for_set(name: &String, property: &PropertyType, value: ChannelValue, r: Result<(), FixtureError>)
    -> (out: (LogLevel, String))
    ensures
        (out.0, out.1@) == set_reply(name@, *property, value, result_view(r)),
{
    match r {
        Ok(()) => {
            let m = join(join(join(join(join("Value ".to_owned(), property.name().as_str()), " of "), name.as_str()),
                " changed successfully to "), decimal_string(value as u64).as_str());
            (LogLevel::UserSuccess, m)
        }
        Err(FixtureError::InvalidFixture(n)) =>
            (LogLevel::UserError, join(join("Error: \"".to_owned(), n.as_str()), "\" is not a valid Fixture")),
        Err(FixtureError::MissingProperty(_)) => {
            let m = join(join(join(join("Error: \"".to_owned(), name.as_str()), "\" has no property \""),
                property.name().as_str()), "\"");
            (LogLevel::UserError, m)
        }
        Err(_) => (LogLevel::Error, "new_fixture_type() threw an Error it shouldn't".to_owned()),
    }
}

fn reply_for_type(name: &String, r: Result<String, FixtureError>) -> (out: (LogLevel, String))
    ensures
        (out.0, out.1@) == type_reply(name@, match r {
            Ok(t) => Ok(t@),
            Err(e) => Err(error_view(e)),
        }),
{
    match r {
        Ok(t) => (LogLevel::Info, join(join(join(join("\"".to_owned(), name.as_str()), "\" is a fixture of the type \""),
            t.as_str()), "\"")),
        Err(FixtureError::InvalidFixture(f)) =>
            (LogLevel::UserError, join(join("Error: \"".to_owned(), f.as_str()), "\" is not a valid Fixture")),
        Err(_) => (LogLevel::Error, "get_fixture_type_from_string() threw an Error it shouldn't".to_owned()),
    }
}

fn reply_for_new_type(name: &String, r: Result<(), FixtureError>) -> (out: (LogLevel, String))
    ensures
        r is Ok ==> (out.0, out.1@) == (LogLevel::UserSuccess, name@ + " created successfully"@),
        r matches Err(FixtureError::ChannelError(ChannelError::ChannelAlreadyInUse(c)))
            ==> (out.0, out.1@) == (LogLevel::UserError, "Error: The channel "@ + c@ + " overlaps with another channel."@),
        r matches Err(FixtureError::FixtureTypeNameAlreadyInUse(n))
            ==> (out.0, out.1@) == (LogLevel::UserError, "Error: The Fixture type name "@ + n@ + " is already used."@),
        r matches Err(FixtureError::MultipleColorOutputTypes(m)) ==> (out.0, out.1@) == (LogLevel::UserError, m@),
        r matches Err(FixtureError::ChannelError(ChannelError::ChannelOutOfRange)) ==> (out.0, out.1@)
            == (LogLevel::UserError, "Error: A Channel is higher than the size of the Universe. This is not yet supported"@),
{
    match r {
        Err(FixtureError::ChannelError(ChannelError::ChannelAlreadyInUse(c))) => (LogLevel::UserError,
            join(join("Error: The channel ".to_owned(), c.as_str()), " overlaps with another channel.")),
        Err(FixtureError::ChannelError(ChannelError::ChannelOutOfRange)) => (LogLevel::UserError,
            "Error: A Channel is higher than the size of the Universe. This is not yet supported".to_owned()),
        Err(FixtureError::FixtureTypeNameAlreadyInUse(n)) =>
            (LogLevel::UserError, join(join("Error: The Fixture type name ".to_owned(), n.as_str()), " is already used.")),
        Err(FixtureError::InvalidPropertyType(p)) =>
            (LogLevel::UserError, join(join("Error: \"".to_owned(), p.as_str()), "\" is not a valid PropertyType")),
        Err(FixtureError::MultipleColorOutputTypes(m)) => (LogLevel::UserError, m),
        Err(_) => (LogLevel::Error, "new_fixture_type() threw an Error it shouldn't".to_owned()),
        Ok(()) => (LogLevel::UserSuccess, join(name.clone(), " created successfully")),
    }
}


/// Copies a list of property layouts.
fn clone_layouts(chs: &Vec<(PropertyType, ChannelParameter)>) -> (r: Vec<(PropertyType, ChannelParameter)>)
    ensures
        layout_view(r@) == layout_view(chs@),
{
    let mut out: Vec<(PropertyType, ChannelParameter)> = Vec::new();
    let mut i: usize = 0;
    while i < chs.len()
        invariant
            i <= chs@.len(),
            layout_view(out@) =~= layout_view(chs@).take(i as int),
        decreases chs.len() - i,
    {
        let ghost before = out@;
        out.push((chs[i].0.clone(), chs[i].1.clone()));
        assert(layout_view(out@) =~= layout_view(before).push((chs@[i as int].0, chs@[i as int].1@)));
        assert(layout_view(chs@).take(i as int + 1) =~= layout_view(chs@).take(i as int).push(layout_view(chs@)[i as int]));
        i = i + 1;
    }
    assert(layout_view(chs@).take(chs@.len() as int) =~= layout_view(chs@));
    out
}

/// The property layout of the debug fixture type `rgb`: red, green and blue
/// on the first three channels.
pub open spec fn rgb_debug_layout() -> Seq<(PropertyType, Seq<ChannelInUniverse>)> {
    seq![
        (PropertyType::Color(ColorPropertyType::Red), seq![(0u16, 0usize)]),
        (PropertyType::Color(ColorPropertyType::Green), seq![(1u16, 0usize)]),
        (PropertyType::Color(ColorPropertyType::Blue), seq![(2u16, 0usize)]),
    ]
}

/// The number of debug fixtures.
pub const DEBUG_FIXTURES: u64 = 50;

pub open spec fn debug_fit_message() -> Seq<char> {
    "Fatal Error: the debug fixtures do not fit the address space"@
}

/// Adding the debug fixtures `i`, `i + 1`, ... (named by their number, of
/// type `rgb`, three channels apart in universe 0), stopping at the first
/// one that does not succeed.
pub open spec fn debug_adds(k: KernelView, i: nat) -> (KernelView, (LogLevel, Seq<char>))
    decreases 50 - i,
{
    if i >= 50 {
        (k, (LogLevel::UserSuccess, "Created the debug-fixtures"@))
    } else if !placement_fits(k.types, "rgb"@, ((i * 3) as ChannelIndex, 0usize), decimal(i)) {
        (k, (LogLevel::Error, debug_fit_message()))
    } else {
        let (e, r) = spec_new_fixture(k.engine, k.types, decimal(i), "rgb"@, (i * 3) as ChannelIndex, 0usize);
        let k1 = KernelView { engine: e, ..k };
        let rep = add_reply(decimal(i), r);
        if rep.0 == LogLevel::UserSuccess { debug_adds(k1, i + 1) } else { (k1, rep) }
    }
}

/// The `create_debug` command: the fixture type `rgb`, then the debug fixtures.
pub open spec fn create_debug_result(k: KernelView) -> (KernelView, (LogLevel, Seq<char>)) {
    let (t, rep) = new_type_result(k.types, "rgb"@, rgb_debug_layout());
    let k1 = KernelView { types: t, ..k };
    if rep.0 == LogLevel::UserError { (k1, rep) } else { debug_adds(k1, 0) }
}

/// Setting `p` to `v` in the debug fixtures `i`, `i + 1`, ..., stopping at
/// the first one that does not succeed: the possible kernels after, with the reply.
pub open spec fn set_all_from<C: Fn(ColorModelInput) -> (ChannelValue, ChannelValue, ChannelValue)>(k: KernelView,
    p: PropertyType, v: ChannelValue, i: nat, convert: C, k2: KernelView, reply: (LogLevel, Seq<char>)) -> bool
    decreases 50 - i,
{
    if i >= 50 {
        k2 == k && reply == (LogLevel::UserSuccess, "Set "@ + property_name(p) + " to "@ + decimal(v as nat)
            + " in all debug-fixtures"@)
    } else {
        exists|e1: EngineView, rep: (LogLevel, Seq<char>)| #[trigger] set_outcome(k.engine, decimal(i), p, v, convert, e1, rep)
            && if rep.0 == LogLevel::UserSuccess {
                set_all_from(KernelView { engine: e1, ..k }, p, v, i + 1, convert, k2, reply)
            } else {
                k2 == KernelView { engine: e1, ..k } && reply == rep
            }
    }
}

/// What a debug command does: `create_debug`, `set_all <property> <value>`
/// and `break` exist only when debug commands are enabled; anything else is
/// an unknown command.
pub open spec fn debug_outcome<P: Fn(String) -> Result<ChannelValue, String>,
    C: Fn(ColorModelInput) -> (ChannelValue, ChannelValue, ChannelValue)>(k: KernelView, line: Seq<char>,
    debug_commands: bool, percent: P, convert: C, k2: KernelView, reply: (LogLevel, Seq<char>)) -> bool {
    let t = words(line);
    if t.len() == 0 {
        k2 == k && reply == (LogLevel::UserError, unknown_command_message())
    } else if t[0] == "create_debug"@ && debug_commands {
        (k2, reply) == create_debug_result(k)
    } else if t[0] == "set_all"@ && t.len() == 3 && debug_commands {
        match text_key(t[1]) {
            None => k2 == k && reply == (LogLevel::UserError, invalid_property_message(t[1])),
            Some(key) => match value_parse(t[2]) {
                Err(m) => k2 == k && reply == (LogLevel::UserError, m),
                Ok(ValueView::Exact(v)) => exists|p: PropertyType| property_key(p) == key
                    && property_name(p) == text_name(t[1]) && set_all_from(k, p, v, 0, convert, k2, reply),
                Ok(ValueView::Percent(s)) => exists|x: String, res: Result<ChannelValue, String>|
                    x@ == s && percent.ensures((x,), res) && match res {
                        Ok(v) => exists|p: PropertyType| property_key(p) == key
                            && property_name(p) == text_name(t[1]) && set_all_from(k, p, v, 0, convert, k2, reply),
                        Err(m) => k2 == k && reply == (LogLevel::UserError, m@),
                    },
            },
        }
    } else if t[0] == "break"@ && debug_commands {
        k2 == k && reply == (LogLevel::Info, "Add a breakpoint at this point in the code to check the datastructures"@)
    } else {
        k2 == k && reply == (LogLevel::UserError, "Unknown command \""@ + t[0]
            + "\". Please enter help, to get a list of commands."@)
    }
}

/// A color converter that can be called on any input.
pub open spec fn total_converter<C: Fn(ColorModelInput) -> (ChannelValue, ChannelValue, ChannelValue)>(convert: C) -> bool {
    forall|x: ColorModelInput| #[trigger] convert.requires((x,))
}

/// A percentage reader that can be called on any text.
pub open spec fn total_percent<P: Fn(String) -> Result<ChannelValue, String>>(percent: P) -> bool {
    forall|x: String| #[trigger] percent.requires((x,))
}

impl Kernel {
    /// Sets `property` of the fixture `name` to `value`, completing a color
    /// change with `convert`; see [`set_outcome`]. The error, if any, is returned.
    fn set_with_conversion<C: Fn(ColorModelInput) -> (ChannelValue, ChannelValue, ChannelValue)>(&mut self,
        name: &String, property: &PropertyType, value: ChannelValue, convert: &C) -> (r: Result<(), FixtureError>)
        requires
            kernel_wf(old(self)@),
            total_converter(*convert),
        ensures
            kernel_wf(final(self)@),
            final(self)@.types == old(self)@.types,
            set_outcome(old(self)@.engine, name@, *property, value, *convert, final(self)@.engine,
                set_reply(name@, *property, value, result_view(r))),
            ({
                let (e1, x) = spec_set_property(old(self)@.engine, name@, *property, value);
                match x {
                    Ok(_) => r is Ok,
                    Err(y) => r matches Err(z) && error_view(z) == y,
                }
            }),
    {
        let ghost e0 = self@.engine;
        let r = self.engine.set_property(name.clone(), property.clone(), value);
        match r {
            Ok(Some(input)) => {
                let ghost e1 = self@.engine;
                let out = convert(input);
                match input {
                    ColorModelInput::Rgb(red, green, blue) => {
                        let _ = self.engine.set_color_rgb(name.clone(), red, green, blue, out.0, out.1);
                    }
                    ColorModelInput::Hsv(hue, saturation, v) => {
                        let _ = self.engine.set_color_hsv(name.clone(), hue, saturation, v, out.0, out.1, out.2);
                    }
                }
                assert(self@.engine == color_applied(e1, name@, input, out));
                assert(spec_set_property(e0, name@, *property, value).1 == Ok::<Option<ColorModelInput>, ErrorView>(Some(input)));
                assert(convert.ensures((input,), out));
                assert(convert.ensures((input,), out) && self@.engine == color_applied(spec_set_property(e0, name@, *property, value).0, name@, input, out)
                    && set_reply(name@, *property, value, result_view(Ok::<(), FixtureError>(()))) == set_reply(name@, *property, value, Ok(())));
                assert(set_outcome(e0, name@, *property, value, *convert, self@.engine, set_reply(name@, *property, value, Ok(()))));
                Ok(())
            }
            Ok(None) => {
                assert(set_outcome(e0, name@, *property, value, *convert, self@.engine, set_reply(name@, *property, value, Ok(()))));
                Ok(())
            }
            Err(e) => {
                assert(set_outcome(e0, name@, *property, value, *convert, self@.engine, set_reply(name@, *property, value, Err(error_view(e)))));
                Err(e)
            }
        }
    }

    /// Executes an action other than `exit` and the debug commands; see
    /// [`basic_outcome`].
    pub fn execute_basic<C: Fn(ColorModelInput) -> (ChannelValue, ChannelValue, ChannelValue)>(&mut self,
        action: &CliAction, convert: &C) -> (r: (LogLevel, String))
        requires
            kernel_wf(old(self)@),
            is_basic(*action),
            action_fits(old(self)@, *action),
            total_converter(*convert),
        ensures
            kernel_wf(final(self)@),
            basic_outcome(old(self)@, *action, *convert, final(self)@, (r.0, r.1@)),
    {
        match action {
            CliAction::Help => (LogLevel::UserSuccess, help_message()),
            CliAction::FixtureNew { name, channels } => {
                let r = FixtureType::new(&mut self.registry, name.clone(), clone_layouts(channels));
                reply_for_new_type(name, r)
            }
            CliAction::FixtureAdd { name, fixture_type_name, universe, channel } => {
                let r = self.engine.new_fixture(&self.registry, name.clone(), fixture_type_name.clone(), *channel, *universe);
                reply_for_add(name, r)
            }
            CliAction::FixtureMove { fixture_name, new_universe, new_channel } => {
                let r = self.engine.move_fixture(fixture_name.clone(), *new_channel, *new_universe);
                reply_for_move(fixture_name, r)
            }
            CliAction::FixtureRemove { fixture_name } => {
                let r = self.engine.remove_fixture(fixture_name.clone());
                reply_for_remove(fixture_name, r)
            }
            CliAction::FixtureSet { name, property_type, value } => {
                let r = self.set_with_conversion(name, property_type, *value, convert);
                reply_for_set(name, property_type, *value, r)
            }
            CliAction::FixtureGetType { fixture_name } => {
                let r = self.engine.get_fixture_type_from_string(fixture_name.clone());
                reply_for_type(fixture_name, r)
            }
            _ => {
                assert(false);
                (LogLevel::Error, "".to_owned())
            }
        }
    }
}


/// One step of `set_all`: the outcome of setting debug fixture `i` extends
/// the outcomes from `i + 1` on, or ends them.
proof fn lemma_set_all_step<C: Fn(ColorModelInput) -> (ChannelValue, ChannelValue, ChannelValue)>(before: KernelView,
    after: KernelView, p: PropertyType, v: ChannelValue, i: nat, j: nat, convert: C, rep: (LogLevel, Seq<char>))
    requires
        i < 50,
        j == i + 1,
        set_outcome(before.engine, decimal(i), p, v, convert, after.engine, rep),
        after == (KernelView { engine: after.engine, ..before }),
    ensures
        rep.0 != LogLevel::UserSuccess ==> set_all_from(before, p, v, i, convert, after, rep),
        rep.0 == LogLevel::UserSuccess ==> forall|k2: KernelView, reply: (LogLevel, Seq<char>)|
            #[trigger] set_all_from(after, p, v, j, convert, k2, reply) ==> set_all_from(before, p, v, i, convert, k2, reply),
{
    if rep.0 == LogLevel::UserSuccess {
        assert forall|k2: KernelView, reply: (LogLevel, Seq<char>)|
            #[trigger] set_all_from(after, p, v, j, convert, k2, reply) implies set_all_from(before, p, v, i, convert, k2, reply) by {
            assert(set_outcome(before.engine, decimal(i), p, v, convert, after.engine, rep));
        }
    } else {
        assert(set_outcome(before.engine, decimal(i), p, v, convert, after.engine, rep));
    }
}

impl Kernel {
    /// The `create_debug` command; see [`create_debug_result`].
    fn create_debug<C: Fn(ColorModelInput) -> (ChannelValue, ChannelValue, ChannelValue)>(&mut self, convert: &C)
        -> (r: (LogLevel, String))
        requires
            kernel_wf(old(self)@),
            total_converter(*convert),
        ensures
            kernel_wf(final(self)@),
            (final(self)@, (r.0, r.1@)) == create_debug_result(old(self)@),
    {
        let mut layouts: Vec<(PropertyType, ChannelParameter)> = Vec::new();
        layouts.push((PropertyType::Color(ColorPropertyType::Red), ChannelParameter::new(0, 0)));
        layouts.push((PropertyType::Color(ColorPropertyType::Green), ChannelParameter::new(1, 0)));
        layouts.push((PropertyType::Color(ColorPropertyType::Blue), ChannelParameter::new(2, 0)));
        assert(layout_view(layouts@) =~= rgb_debug_layout());
        let rgb_type = "rgb".to_owned();
        let action = CliAction::FixtureNew { name: rgb_type.clone(), channels: layouts };
        let (level, message) = self.execute_basic(&action, convert);
        if level == LogLevel::UserError {
            return (LogLevel::UserError, message);
        }
        let ghost k1 = self@;
        assert(create_debug_result(old(self)@) == debug_adds(k1, 0));
        let mut i: u64 = 0;
        while i < DEBUG_FIXTURES
            invariant
                kernel_wf(self@),
                total_converter(*convert),
                i <= 50,
                rgb_type@ == "rgb"@,
                debug_adds(self@, i as nat) == create_debug_result(old(self)@),
            decreases 50 - i,
        {
            let ghost before = self@;
            let name = decimal_string(i);
            let channel = (i * 3) as ChannelIndex;
            if !placement_fits_check(&self.registry, &rgb_type, channel, 0, &name) {
                assert(debug_adds(before, i as nat) == (before, (LogLevel::Error, debug_fit_message())));
                return (LogLevel::Error, "Fatal Error: the debug fixtures do not fit the address space".to_owned());
            }
            let action = CliAction::FixtureAdd {
                name: name.clone(),
                fixture_type_name: rgb_type.clone(),
                universe: 0,
                channel,
            };
            let (lv, m) = self.execute_basic(&action, convert);
            proof {
                let (e, r) = spec_new_fixture(before.engine, before.types, decimal(i as nat), "rgb"@, (i * 3) as ChannelIndex, 0usize);
                assert(self@ == KernelView { engine: e, ..before });
                assert((lv, m@) == add_reply(decimal(i as nat), r));
            }
            if lv != LogLevel::UserSuccess {
                assert(debug_adds(before, i as nat) == (self@, (lv, m@)));
                return (lv, m);
            }
            assert(debug_adds(before, i as nat) == debug_adds(self@, (i + 1) as nat));
            i = i + 1;
        }
        assert(debug_adds(self@, 50) == (self@, (LogLevel::UserSuccess, "Created the debug-fixtures"@)));
        (LogLevel::UserSuccess, "Created the debug-fixtures".to_owned())
    }

    /// The `set_all` command with its property and value read.
    fn set_all<C: Fn(ColorModelInput) -> (ChannelValue, ChannelValue, ChannelValue)>(&mut self, property: &PropertyType,
        value: ChannelValue, convert: &C) -> (r: (LogLevel, String))
        requires
            kernel_wf(old(self)@),
            total_converter(*convert),
        ensures
            kernel_wf(final(self)@),
            set_all_from(old(self)@, *property, value, 0, *convert, final(self)@, (r.0, r.1@)),
    {
        let ghost k0 = self@;
        let mut i: u64 = 0;
        while i < DEBUG_FIXTURES
            invariant
                kernel_wf(self@),
                total_converter(*convert),
                i <= 50,
                k0 == old(self)@,
                self@.types == k0.types,
                forall|k2: KernelView, reply: (LogLevel, Seq<char>)|
                    #[trigger] set_all_from(self@, *property, value, i as nat, *convert, k2, reply)
                    ==> set_all_from(k0, *property, value, 0, *convert, k2, reply),
            decreases 50 - i,
        {
            let ghost before = self@;
            let name = decimal_string(i);
            let r = self.set_with_conversion(&name, property, value, convert);
            let (lv, m) = reply_for_set(&name, property, value, r);
            let ghost after = self@;
            let ghost rep = (lv, m@);
            assert(set_outcome(before.engine, decimal(i as nat), *property, value, *convert, after.engine, rep));
            assert(after == KernelView { engine: after.engine, ..before });
            proof {
                lemma_set_all_step(before, after, *property, value, i as nat, (i + 1) as nat, *convert, rep);
            }
            if lv != LogLevel::UserSuccess {
                assert(set_all_from(k0, *property, value, 0, *convert, after, rep));
                return (lv, m);
            }
            proof {
                assert forall|k2: KernelView, reply: (LogLevel, Seq<char>)|
                    #[trigger] set_all_from(after, *property, value, (i + 1) as nat, *convert, k2, reply)
                    implies set_all_from(k0, *property, value, 0, *convert, k2, reply) by {
                    assert(set_all_from(before, *property, value, i as nat, *convert, k2, reply));
                }
            }
            i = i + 1;
        }
        let m = join(join(join(join("Set ".to_owned(), property.name().as_str()), " to "),
            decimal_string(value as u64).as_str()), " in all debug-fixtures");
        assert(set_all_from(self@, *property, value, 50, *convert, self@, (LogLevel::UserSuccess, m@)));
        (LogLevel::UserSuccess, m)
    }

    /// Executes a debug command; see [`debug_outcome`].
    pub fn execute_debug_command<P: Fn(String) -> Result<ChannelValue, String>,
        C: Fn(ColorModelInput) -> (ChannelValue, ChannelValue, ChannelValue)>(&mut self, line: &String,
        debug_commands: bool, percent: &P, convert: &C) -> (r: (LogLevel, String))
        requires
            kernel_wf(old(self)@),
            total_percent(*percent),
            total_converter(*convert),
        ensures
            kernel_wf(final(self)@),
            debug_outcome(old(self)@, line@, debug_commands, *percent, *convert, final(self)@, (r.0, r.1@)),
    {
        let toks = split_words(line.as_str());
        if toks.len() == 0 {
            return (LogLevel::UserError, "Unknown command. Please enter help, to get a list of commands.".to_owned());
        }
        let c = toks[0].as_str();
        if str_eq(c, "create_debug") && debug_commands {
            return self.create_debug(convert);
        }
        if str_eq(c, "set_all") && toks.len() == 3 && debug_commands {
            let property = match parse_property_type(toks[1].as_str()) {
                Ok(p) => p,
                Err(e) => return (LogLevel::UserError, e),
            };
            let value = match parse_cli_value(toks[2].as_str()) {
                Err(e) => return (LogLevel::UserError, e),
                Ok(ParsedValue::Exact(v)) => v,
                Ok(ParsedValue::Percent(p)) => {
                    let ghost pv = p@;
                    match percent(p) {
                        Ok(v) => v,
                        Err(e) => return (LogLevel::UserError, e),
                    }
                }
            };
            return self.set_all(&property, value, convert);
        }
        if str_eq(c, "break") && debug_commands {
            return (LogLevel::Info, "Add a breakpoint at this point in the code to check the datastructures".to_owned());
        }
        (LogLevel::UserError, join(join("Unknown command \"".to_owned(), c), "\". Please enter help, to get a list of commands."))
    }
}


/// The abstract outcome.
pub enum OutcomeView {
    Reply(LogLevel, Seq<char>),
    Exit(Option<bool>),
}

impl View for CliOutcome {
    type V = OutcomeView;

    open spec fn view(&self) -> OutcomeView {
        match self {
            CliOutcome::Reply(l, m) => OutcomeView::Reply(*l, m@),
            CliOutcome::Exit(x) => OutcomeView::Exit(*x),
        }
    }
}

/// What executing an action does: `exit` asks to shut down from the kernel
/// console and is refused elsewhere; other commands are debug commands.
pub open spec fn cli_outcome<P: Fn(String) -> Result<ChannelValue, String>,
    C: Fn(ColorModelInput) -> (ChannelValue, ChannelValue, ChannelValue)>(k: KernelView, is_kernel: bool,
    a: CliAction, debug_commands: bool, percent: P, convert: C, k2: KernelView, out: OutcomeView) -> bool {
    match a {
        CliAction::Exit { save_changes } => k2 == k && out == if is_kernel {
            OutcomeView::Exit(save_changes)
        } else {
            OutcomeView::Reply(LogLevel::UserError, "Only kernel can exit a session"@)
        },
        CliAction::OtherCommands { command } => match out {
            OutcomeView::Reply(l, m) => debug_outcome(k, command@, debug_commands, percent, convert, k2, (l, m)),
            OutcomeView::Exit(_) => false,
        },
        _ => match out {
            OutcomeView::Reply(l, m) => basic_outcome(k, a, convert, k2, (l, m)),
            OutcomeView::Exit(_) => false,
        },
    }
}

impl Kernel {
    /// Whether an action can be executed; decides [`action_fits`].
    pub fn action_fits_check(&self, action: &CliAction) -> (r: bool)
        requires
            kernel_wf(self@),
        ensures
            r == action_fits(self@, *action),
    {
        match action {
            CliAction::FixtureNew { name, channels } => {
                let mut i: usize = 0;
                while i < channels.len()
                    invariant
                        *action == (CliAction::FixtureNew { name: *name, channels: *channels }),
                        i <= channels@.len(),
                        forall|a: int, b: int| 0 <= a < b < channels@.len() && a < i
                            ==> property_key(#[trigger] layout_view(channels@)[a].0) != property_key(#[trigger] layout_view(channels@)[b].0),
                    decreases channels.len() - i,
                {
                    let mut j: usize = i + 1;
                    while j < channels.len()
                        invariant
                            *action == (CliAction::FixtureNew { name: *name, channels: *channels }),
                            i < j <= channels@.len(),
                            forall|a: int, b: int| 0 <= a < b < channels@.len() && a < i
                                ==> property_key(#[trigger] layout_view(channels@)[a].0) != property_key(#[trigger] layout_view(channels@)[b].0),
                            forall|b: int| i < b < j ==> property_key(layout_view(channels@)[i as int].0)
                                != property_key(#[trigger] layout_view(channels@)[b].0),
                        decreases channels.len() - j,
                    {
                        if channels[i].0.same_as(&channels[j].0) {
                            assert(layout_view(channels@)[i as int].0 == channels@[i as int].0);
                            assert(layout_view(channels@)[j as int].0 == channels@[j as int].0);
                            return false;
                        }
                        assert(layout_view(channels@)[i as int].0 == channels@[i as int].0);
                        assert(layout_view(channels@)[j as int].0 == channels@[j as int].0);
                        j = j + 1;
                    }
                    i = i + 1;
                }
                true
            }
            CliAction::FixtureAdd { name, fixture_type_name, universe, channel } =>
                placement_fits_check(&self.registry, fixture_type_name, *channel, *universe, name),
            CliAction::FixtureMove { fixture_name, new_universe, new_channel } =>
                move_fits_check(&self.engine, fixture_name, *new_channel, *new_universe),
            _ => true,
        }
    }

    /// Executes an action; see [`cli_outcome`]. Debug commands exist only
    /// when `debug_commands` is set; percentages are read by `percent` and
    /// color changes completed by `convert`.
    pub fn execute_cli_action<P: Fn(String) -> Result<ChannelValue, String>,
        C: Fn(ColorModelInput) -> (ChannelValue, ChannelValue, ChannelValue)>(&mut self, is_kernel: bool,
        action: &CliAction, debug_commands: bool, percent: &P, convert: &C) -> (r: CliOutcome)
        requires
            kernel_wf(old(self)@),
            action_fits(old(self)@, *action),
            total_percent(*percent),
            total_converter(*convert),
        ensures
            kernel_wf(final(self)@),
            cli_outcome(old(self)@, is_kernel, *action, debug_commands, *percent, *convert, final(self)@, r@),
    {
        match action {
            CliAction::Exit { save_changes } => {
                if !is_kernel {
                    CliOutcome::Reply(LogLevel::UserError, "Only kernel can exit a session".to_owned())
                } else {
                    CliOutcome::Exit(*save_changes)
                }
            }
            CliAction::OtherCommands { command } => {
                let (l, m) = self.execute_debug_command(command, debug_commands, percent, convert);
                CliOutcome::Reply(l, m)
            }
            _ => {
                let (l, m) = self.execute_basic(action, convert);
                CliOutcome::Reply(l, m)
            }
        }
    }
}


/// Whether a parsed action can be executed: see [`action_fits`].
pub open spec fn view_fits(k: KernelView, v: CliView) -> bool {
    match v {
        CliView::FixtureAdd(n, t, u, c) => placement_fits(k.types, t, (c, u), n),
        CliView::FixtureMove(n, u, c) => move_fits(k.engine, n, c, u),
        _ => true,
    }
}

/// Whether a command line can be run: an action read from it fits the machine.
pub open spec fn command_runs(k: KernelView, s: Seq<char>) -> bool {
    match cli_parse(s) {
        Ok(ParsedView::Action(v)) => view_fits(k, v),
        _ => true,
    }
}

/// What running a command line does: a line that cannot be read is answered
/// with the reason; a `set` to a percentage is read by `percent`, whose error
/// is the answer; otherwise the action is executed (see [`cli_outcome`]).
pub open spec fn run_outcome<P: Fn(String) -> Result<ChannelValue, String>,
    C: Fn(ColorModelInput) -> (ChannelValue, ChannelValue, ChannelValue)>(k: KernelView, is_kernel: bool,
    s: Seq<char>, debug_commands: bool, percent: P, convert: C, k2: KernelView, out: OutcomeView) -> bool {
    match cli_parse(s) {
        Err(m) => k2 == k && out == OutcomeView::Reply(LogLevel::UserError, m),
        Ok(ParsedView::Action(v)) => exists|a: CliAction| a@ == v
            && cli_outcome(k, is_kernel, a, debug_commands, percent, convert, k2, out),
        Ok(ParsedView::PercentSet(n, key, p)) => exists|x: String, res: Result<ChannelValue, String>|
            x@ == p && percent.ensures((x,), res) && match res {
                Ok(val) => exists|a: CliAction| a@ == CliView::FixtureSet(n, key, val)
                    && cli_outcome(k, is_kernel, a, debug_commands, percent, convert, k2, out),
                Err(m) => k2 == k && out == OutcomeView::Reply(LogLevel::UserError, m@),
            },
    }
}

/// The properties read from a `new` command are distinct.
proof fn lemma_type_scan_distinct(pairs: Seq<(Seq<char>, Seq<char>)>)
    requires
        type_scan(pairs) is Props,
    ensures
        forall|i: int, j: int| 0 <= i < j < type_scan(pairs)->Props_0.len()
            ==> (#[trigger] type_scan(pairs)->Props_0[i]).0 != (#[trigger] type_scan(pairs)->Props_0[j]).0,
    decreases pairs.len(),
{
    if pairs.len() > 0 {
        let init = pairs.drop_last();
        assert(type_scan(init) is Props);
        lemma_type_scan_distinct(init);
        let ps = type_scan(init)->Props_0;
        let pt = pairs.last().0;
        let ct = pairs.last().1;
        let qs = type_scan(pairs)->Props_0;
        assert(type_scan(pairs) == type_step(type_scan(init), pt, ct));
        if crate::text::fine_marker(pt) is Some {
            let m = crate::text::fine_marker(pt)->0;
            let base = pt.take(m);
            assert(text_key(base) is Some);
            let k = text_key(base)->0;
            assert(find_key(ps, k) is Some);
            crate::cli::lemma_find_key_found(ps, k);
            let i0 = find_key(ps, k)->0;
            assert(qs.len() == ps.len());
            assert forall|i: int| 0 <= i < qs.len() implies (#[trigger] qs[i]).0 == ps[i].0 by {}
        } else {
            let k = text_key(pt)->0;
            assert(find_key(ps, k) is None);
            lemma_find_key_none(ps, k);
            assert forall|i: int, j: int| 0 <= i < j < qs.len() implies (#[trigger] qs[i]).0 != (#[trigger] qs[j]).0 by {
                if j == ps.len() {
                    assert(qs[i] == ps[i]);
                } else {
                    assert(qs[i] == ps[i] && qs[j] == ps[j]);
                }
            }
        }
    }
}

/// A key not found is at no position.
proof fn lemma_find_key_none(ps: Seq<KeyLayout>, k: (int, Seq<char>))
    requires
        find_key(ps, k) is None,
    ensures
        forall|i: int| 0 <= i < ps.len() ==> (#[trigger] ps[i]).0 != k,
    decreases ps.len(),
{
    if ps.len() > 0 {
        lemma_find_key_none(ps.drop_last(), k);
        assert forall|i: int| 0 <= i < ps.len() implies (#[trigger] ps[i]).0 != k by {
            if i < ps.len() - 1 {
                assert(ps[i] == ps.drop_last()[i]);
            }
        }
    }
}

/// A read action fits exactly when its view does.
proof fn lemma_read_action_fits(k: KernelView, s: Seq<char>, a: CliAction)
    requires
        cli_parse(s) == Ok::<ParsedView, Seq<char>>(ParsedView::Action(a@)),
    ensures
        action_fits(k, a) == view_fits(k, a@),
{
    if a is FixtureNew {
        let t = crate::text::words(s);
        lemma_type_scan_distinct(pairs_of(t));
        let chs = a->FixtureNew_channels;
        assert forall|i: int, j: int| 0 <= i < j < layout_view(chs@).len()
            implies property_key(#[trigger] layout_view(chs@)[i].0) != property_key(#[trigger] layout_view(chs@)[j].0) by {
            assert(layout_keys(chs@)[i].0 == property_key(layout_view(chs@)[i].0));
            assert(layout_keys(chs@)[j].0 == property_key(layout_view(chs@)[j].0));
        }
    }
}

impl Kernel {
    /// Whether a command line can be run; decides [`command_runs`].
    pub fn command_runs_check(&self, command: &str) -> (r: bool)
        requires
            kernel_wf(self@),
        ensures
            r == command_runs(self@, command@),
    {
        match parse_command_line(command) {
            Ok(ParsedCommand::Action(a)) => {
                proof {
                    lemma_read_action_fits(self@, command@, a);
                }
                self.action_fits_check(&a)
            }
            _ => true,
        }
    }

    /// Runs a command line: reads it and executes its action; see
    /// [`run_outcome`].
    pub fn run_command<P: Fn(String) -> Result<ChannelValue, String>,
        C: Fn(ColorModelInput) -> (ChannelValue, ChannelValue, ChannelValue)>(&mut self, is_kernel: bool,
        command: &str, debug_commands: bool, percent: &P, convert: &C) -> (r: CliOutcome)
        requires
            kernel_wf(old(self)@),
            command_runs(old(self)@, command@),
            total_percent(*percent),
            total_converter(*convert),
        ensures
            kernel_wf(final(self)@),
            run_outcome(old(self)@, is_kernel, command@, debug_commands, *percent, *convert, final(self)@, r@),
    {
        let ghost k0 = self@;
        match parse_command_line(command) {
            Err(e) => CliOutcome::Reply(LogLevel::UserError, e),
            Ok(ParsedCommand::Action(a)) => {
                proof {
                    lemma_read_action_fits(k0, command@, a);
                }
                let r = self.execute_cli_action(is_kernel, &a, debug_commands, percent, convert);
                assert(cli_outcome(k0, is_kernel, a, debug_commands, *percent, *convert, self@, r@));
                r
            }
            Ok(ParsedCommand::PercentSet { name, property_type, percent: p }) => {
                let ghost pv = p;
                let ghost nv = name@;
                let ghost key = property_key(property_type);
                assert(cli_parse(command@) == Ok::<ParsedView, Seq<char>>(ParsedView::PercentSet(nv, key, pv@)));
                let res = percent(p);
                assert(percent.ensures((pv,), res));
                match res {
                    Ok(v) => {
                        let a = CliAction::FixtureSet { name, property_type, value: v };
                        assert(a@ == CliView::FixtureSet(nv, key, v));
                        let r = self.execute_cli_action(is_kernel, &a, debug_commands, percent, convert);
                        assert(cli_outcome(k0, is_kernel, a, debug_commands, *percent, *convert, self@, r@));
                        r
                    }
                    Err(e) => CliOutcome::Reply(LogLevel::UserError, e),
                }
            }
        }
    }
}

/// The abstract answer to a client's action.
pub enum ResponseView {
    Ack,
    FixtureTypeInfo(Seq<char>),
    FixtureError(ErrorView),
    UnsupportedCommand,
}

impl View for CliActionResponse {
    type V = ResponseView;

    open spec fn view(&self) -> ResponseView {
        match self {
            CliActionResponse::Ack => ResponseView::Ack,
            CliActionResponse::FixtureTypeInfo(t) => ResponseView::FixtureTypeInfo(t@),
            CliActionResponse::FixtureError(e) => ResponseView::FixtureError(error_view(*e)),
            CliActionResponse::UnsupportedCommand => ResponseView::UnsupportedCommand,
        }
    }
}

pub open spec fn unit_response(r: Result<(), ErrorView>) -> ResponseView {
    match r {
        Ok(()) => ResponseView::Ack,
        Err(e) => ResponseView::FixtureError(e),
    }
}

/// How registering a fixture type ends (see [`new_type_result`]).
pub open spec fn new_type_status(types: Seq<FixtureTypeView>, name: Seq<char>,
    layouts: Seq<(PropertyType, Seq<ChannelInUniverse>)>) -> Result<(), ErrorView> {
    if !layouts_in_range(layouts) {
        Err(ErrorView::ChannelOutOfRange)
    } else {
    match scan(layouts) {
        TypeScan::Overlap(k) => Err(ErrorView::ChannelAlreadyInUse(property_name(k))),
        TypeScan::Mixed(ct, o) => Err(ErrorView::MultipleColorOutputTypes(mixed_models_message(ct, o))),
        TypeScan::Building { .. } => if has_type(types, name) {
            Err(ErrorView::FixtureTypeNameAlreadyInUse(name))
        } else {
            Ok(())
        },
    }
    }
}

/// What executing an action sent by a client does: the actions a client may
/// send are executed and answered with their outcome; help, exit and other
/// commands are not supported.
pub open spec fn implicit_outcome<C: Fn(ColorModelInput) -> (ChannelValue, ChannelValue, ChannelValue)>(k: KernelView,
    a: CliAction, convert: C, k2: KernelView, resp: ResponseView) -> bool {
    match a {
        CliAction::FixtureNew { name, channels } =>
            k2 == KernelView { types: new_type_result(k.types, name@, layout_view(channels@)).0, ..k }
            && resp == unit_response(new_type_status(k.types, name@, layout_view(channels@))),
        CliAction::FixtureAdd { name, fixture_type_name, universe, channel } => {
            let (e, r) = spec_new_fixture(k.engine, k.types, name@, fixture_type_name@, channel, universe);
            k2 == KernelView { engine: e, ..k } && resp == unit_response(r)
        },
        CliAction::FixtureMove { fixture_name, new_universe, new_channel } => {
            let (e, r) = spec_move_fixture(k.engine, fixture_name@, new_channel, new_universe);
            k2 == KernelView { engine: e, ..k } && resp == unit_response(r)
        },
        CliAction::FixtureRemove { fixture_name } => {
            let (e, r) = spec_remove_fixture(k.engine, fixture_name@);
            k2 == KernelView { engine: e, ..k } && resp == unit_response(r)
        },
        CliAction::FixtureSet { name, property_type, value } => k2.types == k.types
            && (exists|rep: (LogLevel, Seq<char>)| set_outcome(k.engine, name@, property_type, value, convert, k2.engine, rep))
            && resp == match spec_set_property(k.engine, name@, property_type, value).1 {
                Ok(_) => ResponseView::Ack,
                Err(e) => ResponseView::FixtureError(e),
            },
        CliAction::FixtureGetType { fixture_name } => k2 == k && resp == match type_lookup(k.engine, fixture_name@) {
            Ok(t) => ResponseView::FixtureTypeInfo(t),
            Err(e) => ResponseView::FixtureError(e),
        },
        _ => k2 == k && resp == ResponseView::UnsupportedCommand,
    }
}

impl Kernel {
    /// Executes an action sent by a client; see [`implicit_outcome`].
    pub fn execute_implicit_cli_action<C: Fn(ColorModelInput) -> (ChannelValue, ChannelValue, ChannelValue)>(&mut self,
        action: &CliAction, convert: &C) -> (r: CliActionResponse)
        requires
            kernel_wf(old(self)@),
            action_fits(old(self)@, *action),
            total_converter(*convert),
        ensures
            kernel_wf(final(self)@),
            implicit_outcome(old(self)@, *action, *convert, final(self)@, r@),
    {
        match action {
            CliAction::FixtureNew { name, channels } => {
                match FixtureType::new(&mut self.registry, name.clone(), clone_layouts(channels)) {
                    Ok(()) => CliActionResponse::Ack,
                    Err(e) => CliActionResponse::FixtureError(e),
                }
            }
            CliAction::FixtureAdd { name, fixture_type_name, universe, channel } => {
                match self.engine.new_fixture(&self.registry, name.clone(), fixture_type_name.clone(), *channel, *universe) {
                    Ok(()) => CliActionResponse::Ack,
                    Err(e) => CliActionResponse::FixtureError(e),
                }
            }
            CliAction::FixtureMove { fixture_name, new_universe, new_channel } => {
                match self.engine.move_fixture(fixture_name.clone(), *new_channel, *new_universe) {
                    Ok(()) => CliActionResponse::Ack,
                    Err(e) => CliActionResponse::FixtureError(e),
                }
            }
            CliAction::FixtureRemove { fixture_name } => {
                match self.engine.remove_fixture(fixture_name.clone()) {
                    Ok(()) => CliActionResponse::Ack,
                    Err(e) => CliActionResponse::FixtureError(e),
                }
            }
            CliAction::FixtureSet { name, property_type, value } => {
                match self.set_with_conversion(name, property_type, *value, convert) {
                    Ok(()) => CliActionResponse::Ack,
                    Err(e) => CliActionResponse::FixtureError(e),
                }
            }
            CliAction::FixtureGetType { fixture_name } => {
                match self.engine.get_fixture_type_from_string(fixture_name.clone()) {
                    Ok(t) => CliActionResponse::FixtureTypeInfo(t),
                    Err(e) => CliActionResponse::FixtureError(e),
                }
            }
            _ => CliActionResponse::UnsupportedCommand,
        }
    }
}

} // verus!
