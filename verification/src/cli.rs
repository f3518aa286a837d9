//! The kernel's command line: the actions a command asks for, and how a
//! command line is read into one.
pub mod execute;

use vstd::prelude::*;
use crate::fixture::{ChannelIndex, ChannelValue, ChannelInUniverse, UniverseIndex, FixtureError};
use crate::fixture::channel::{ChannelParameter, ChannelError, PropertyType, property_key, property_name,
    parses_as_property, named_simple_property, has_other_prefix, simple_key, simple_property_name};
use crate::fixture::color::{color_property_of, color_property_name};
use crate::text::{words, split_words, trimmed, without, trim_and_drop_underscores, parse_uint, parse_uint_exec,
    decimal, decimal_string, fine_marker, find_fine_marker, first_index, find_first, string_of,
    join, str_eq};

verus! {

/// An action the command line asks for.
#[derive(Debug)]
pub enum CliAction {
    /// Show the list of commands.
    Help,
    /// Register a fixture type with these properties and channel layouts.
    FixtureNew {
        name: String,
        channels: Vec<(PropertyType, ChannelParameter)>,
    },
    /// Add a fixture of a registered type at a channel of a universe.
    FixtureAdd {
        name: String,
        fixture_type_name: String,
        universe: UniverseIndex,
        channel: ChannelIndex,
    },
    /// Move a fixture to a channel of a universe.
    FixtureMove {
        fixture_name: String,
        new_universe: UniverseIndex,
        new_channel: ChannelIndex,
    },
    /// Remove a fixture.
    FixtureRemove {
        fixture_name: String,
    },
    /// Set a property of a fixture.
    FixtureSet {
        name: String,
        property_type: PropertyType,
        value: ChannelValue,
    },
    /// Ask for a fixture's type.
    FixtureGetType {
        fixture_name: String,
    },
    /// Shut the kernel down: `Some(true)` saving, `Some(false)` discarding
    /// changes, `None` asking first.
    Exit {
        save_changes: Option<bool>,
    },
    /// Any other command, mainly debug commands.
    OtherCommands {
        command: String,
    },
}

/// The answer to an action sent by a client.
#[derive(Debug)]
pub enum CliActionResponse {
    /// Done.
    Ack,
    /// A fixture's type name.
    FixtureTypeInfo(String),
    /// The action failed.
    FixtureError(FixtureError),
    /// Clients cannot ask for this action.
    UnsupportedCommand,
}

/// A value as the command line writes it: exact, or a percentage whose text
/// is still to be converted.
#[derive(Debug)]
pub enum ParsedValue {
    Exact(ChannelValue),
    Percent(String),
}

/// A command line read: an action, or a `set` whose value is a percentage
/// still to be converted.
#[derive(Debug)]
pub enum ParsedCommand {
    Action(CliAction),
    PercentSet {
        name: String,
        property_type: PropertyType,
        percent: String,
    },
}

/// The abstract value.
pub enum ValueView {
    Exact(ChannelValue),
    Percent(Seq<char>),
}

/// A property layout by key: see [`property_key`].
pub type KeyLayout = ((int, Seq<char>), Seq<ChannelInUniverse>);

/// The abstract action: properties by their keys, texts as characters.
pub enum CliView {
    Help,
    FixtureNew(Seq<char>, Seq<KeyLayout>),
    FixtureAdd(Seq<char>, Seq<char>, UniverseIndex, ChannelIndex),
    FixtureMove(Seq<char>, UniverseIndex, ChannelIndex),
    FixtureRemove(Seq<char>),
    FixtureSet(Seq<char>, (int, Seq<char>), ChannelValue),
    FixtureGetType(Seq<char>),
    Exit(Option<bool>),
    OtherCommands(Seq<char>),
}

/// The abstract command line read.
pub enum ParsedView {
    Action(CliView),
    PercentSet(Seq<char>, (int, Seq<char>), Seq<char>),
}

/// The properties with their layouts, by key.
pub open spec fn layout_keys(chs: Seq<(PropertyType, ChannelParameter)>) -> Seq<KeyLayout> {
    chs.map_values(|p: (PropertyType, ChannelParameter)| (property_key(p.0), p.1@))
}

impl View for CliAction {
    type V = CliView;

    open spec fn view(&self) -> CliView {
        match self {
            CliAction::Help => CliView::Help,
            CliAction::FixtureNew { name, channels } => CliView::FixtureNew(name@, layout_keys(channels@)),
            CliAction::FixtureAdd { name, fixture_type_name, universe, channel } =>
                CliView::FixtureAdd(name@, fixture_type_name@, *universe, *channel),
            CliAction::FixtureMove { fixture_name, new_universe, new_channel } =>
                CliView::FixtureMove(fixture_name@, *new_universe, *new_channel),
            CliAction::FixtureRemove { fixture_name } => CliView::FixtureRemove(fixture_name@),
            CliAction::FixtureSet { name, property_type, value } =>
                CliView::FixtureSet(name@, property_key(*property_type), *value),
            CliAction::FixtureGetType { fixture_name } => CliView::FixtureGetType(fixture_name@),
            CliAction::Exit { save_changes } => CliView::Exit(*save_changes),
            CliAction::OtherCommands { command } => CliView::OtherCommands(command@),
        }
    }
}

impl View for ParsedValue {
    type V = ValueView;

    open spec fn view(&self) -> ValueView {
        match self {
            ParsedValue::Exact(v) => ValueView::Exact(*v),
            ParsedValue::Percent(p) => ValueView::Percent(p@),
        }
    }
}

impl View for ParsedCommand {
    type V = ParsedView;

    open spec fn view(&self) -> ParsedView {
        match self {
            ParsedCommand::Action(a) => ParsedView::Action(a@),
            ParsedCommand::PercentSet { name, property_type, percent } =>
                ParsedView::PercentSet(name@, property_key(*property_type), percent@),
        }
    }
}

/// The key of the property the text `s` names, if it names one (see
/// [`parses_as_property`]).
pub open spec fn text_key(s: Seq<char>) -> Option<(int, Seq<char>)> {
    if color_property_of(s) is Some {
        Some(property_key(PropertyType::Color(color_property_of(s)->0)))
    } else if named_simple_property(s) is Some {
        Some(simple_key(named_simple_property(s)->0))
    } else if has_other_prefix(s) {
        Some((19, s.skip(6)))
    } else {
        None
    }
}

/// The displayed name of the property the text `s` names.
pub open spec fn text_name(s: Seq<char>) -> Seq<char> {
    if color_property_of(s) is Some {
        color_property_name(color_property_of(s)->0)
    } else if named_simple_property(s) is Some {
        simple_property_name(named_simple_property(s)->0)
    } else {
        s.skip(6)
    }
}

pub open spec fn invalid_property_message(s: Seq<char>) -> Seq<char> {
    "Error: \""@ + s + "\" is not a valid PropertyType"@
}

/// Reads a property name.
pub fn parse_property_type(property_name: &str) -> (r: Result<PropertyType, String>)
    ensures
        text_key(property_name@) matches Some(k) ==> (r matches Ok(p) && property_key(p) == k
            && crate::fixture::channel::property_name(p) == text_name(property_name@)),
        text_key(property_name@) is None ==> (r matches Err(m) && m@ == invalid_property_message(property_name@)),
{
    match PropertyType::from_str(property_name) {
        Ok(p) => Ok(p),
        Err(FixtureError::InvalidPropertyType(x)) => {
            Err(join(join("Error: \"".to_owned(), x.as_str()), "\" is not a valid PropertyType"))
        }
        Err(_) => {
            assert(false);
            Err("".to_owned())
        }
    }
}

/// What reading `t` as `[universe].[channel]` gives.
pub open spec fn universe_channel_parse(t: Seq<char>) -> Result<(UniverseIndex, ChannelIndex), Seq<char>> {
    match first_index(t, '.') {
        None => Err("Error: Please specify the channel with [universe].[channel]"@),
        Some(d) => {
            let u = t.take(d);
            let c = t.skip(d + 1);
            match parse_uint(u, 10, usize::MAX as nat) {
                None => Err("Error: \""@ + u + "\" is not a valid universe-number"@),
                Some(uv) => match parse_uint(c, 10, ChannelIndex::MAX as nat) {
                    None => Err("Error: \""@ + c + "\" is not a valid channel-number"@),
                    Some(cv) => Ok((uv as UniverseIndex, cv as ChannelIndex)),
                },
            }
        }
    }
}

pub open spec fn result_pair_view(r: Result<(UniverseIndex, ChannelIndex), String>) -> Result<(UniverseIndex, ChannelIndex), Seq<char>> {
    match r {
        Ok(x) => Ok(x),
        Err(m) => Err(m@),
    }
}

/// Reads `[universe].[channel]`.
pub fn parse_universe_and_channel(token: &str) -> (r: Result<(UniverseIndex, ChannelIndex), String>)
    ensures
        result_pair_view(r) == universe_channel_parse(token@),
{
    let v = crate::text::chars_of(token);
    let d = match find_first(&v, '.') {
        Some(d) => d,
        None => return Err("Error: Please specify the channel with [universe].[channel]".to_owned()),
    };
    let u = string_of(&v, 0, d);
    let c = string_of(&v, d + 1, v.len());
    assert(v@.subrange(0, d as int) =~= v@.take(d as int));
    assert(v@.subrange(d + 1, v@.len() as int) =~= v@.skip(d + 1));
    let uv = match parse_uint_exec(&crate::text::chars_of(u.as_str()), 10, usize::MAX as u64) {
        Some(x) => x,
        None => return Err(join(join("Error: \"".to_owned(), u.as_str()), "\" is not a valid universe-number")),
    };
    let cv = match parse_uint_exec(&crate::text::chars_of(c.as_str()), 10, ChannelIndex::MAX as u64) {
        Some(x) => x,
        None => return Err(join(join("Error: \"".to_owned(), c.as_str()), "\" is not a valid channel-number")),
    };
    Ok((uv as UniverseIndex, cv as ChannelIndex))
}

/// What reading a channel value gives: after trimming whitespace and
/// dropping underscores, a percentage (`..%`), a hex code (`#..`, of 2, 4, 6
/// or 8 digits, scaled to the full range), or a decimal number.
pub open spec fn value_parse(input: Seq<char>) -> Result<ValueView, Seq<char>> {
    let t = without(trimmed(input), '_');
    if t.len() > 0 && t.last() == '%' {
        Ok(ValueView::Percent(t.drop_last()))
    } else if t.len() > 0 && t[0] == '#' {
        let h = t.drop_first();
        match parse_uint(h, 16, ChannelValue::MAX as nat) {
            Some(v) => if h.len() == 2 {
                Ok(ValueView::Exact((v * 0x01010101) as ChannelValue))
            } else if h.len() == 4 {
                Ok(ValueView::Exact((v * 0x00010001) as ChannelValue))
            } else if h.len() == 6 {
                Ok(ValueView::Exact((v * 256) as ChannelValue))
            } else if h.len() == 8 {
                Ok(ValueView::Exact(v as ChannelValue))
            } else {
                Err("Unsupported hex length: "@ + decimal(h.len()) + ". Valid lengths are 2, 4, 6, or 8 digits (excluding '_')."@)
            },
            None => Err("Invalid hex format "@ + h),
        }
    } else {
        match parse_uint(t, 10, ChannelValue::MAX as nat) {
            Some(v) => Ok(ValueView::Exact(v as ChannelValue)),
            None => Err("Invalid value "@ + t + ". "@),
        }
    }
}

pub open spec fn value_result_view(r: Result<ParsedValue, String>) -> Result<ValueView, Seq<char>> {
    match r {
        Ok(x) => Ok(x@),
        Err(m) => Err(m@),
    }
}

/// Reads a channel value; see [`value_parse`].
pub fn parse_cli_value(input: &str) -> (r: Result<ParsedValue, String>)
    ensures
        value_result_view(r) == value_parse(input@),
{
    let t = trim_and_drop_underscores(input);
    let n = t.len();
    if n > 0 && t[n - 1] == '%' {
        let p = string_of(&t, 0, n - 1);
        assert(t@.subrange(0, n - 1) =~= t@.drop_last());
        return Ok(ParsedValue::Percent(p));
    }
    if n > 0 && t[0] == '#' {
        let hv = string_of(&t, 1, n);
        let h = crate::text::chars_of(hv.as_str());
        assert(t@.subrange(1, n as int) =~= t@.drop_first());
        return match parse_uint_exec(&h, 16, ChannelValue::MAX as u64) {
            Some(v) => {
                let v = v as ChannelValue;
                if h.len() == 2 {
                    assert(v * 0x01010101 <= ChannelValue::MAX) by {
                        crate::text::lemma_parse_below(h@, 16, ChannelValue::MAX as nat, v as nat);
                        reveal_with_fuel(crate::text::pow_nat, 7);
                    }
                    Ok(ParsedValue::Exact(v * 0x01010101))
                } else if h.len() == 4 {
                    assert(v * 0x00010001 <= ChannelValue::MAX) by {
                        crate::text::lemma_parse_below(h@, 16, ChannelValue::MAX as nat, v as nat);
                        reveal_with_fuel(crate::text::pow_nat, 7);
                    }
                    Ok(ParsedValue::Exact(v * 0x00010001))
                } else if h.len() == 6 {
                    assert(v * 256 <= ChannelValue::MAX) by {
                        crate::text::lemma_parse_below(h@, 16, ChannelValue::MAX as nat, v as nat);
                        reveal_with_fuel(crate::text::pow_nat, 7);
                    }
                    Ok(ParsedValue::Exact(v * 256))
                } else if h.len() == 8 {
                    Ok(ParsedValue::Exact(v))
                } else {
                    let m = join(join("Unsupported hex length: ".to_owned(), decimal_string(h.len() as u64).as_str()),
                        ". Valid lengths are 2, 4, 6, or 8 digits (excluding '_').");
                    Err(m)
                }
            }
            None => Err(join("Invalid hex format ".to_owned(), hv.as_str())),
        };
    }
    let tv = crate::text::string_of_all(&t);
    match parse_uint_exec(&t, 10, ChannelValue::MAX as u64) {
        Some(v) => Ok(ParsedValue::Exact(v as ChannelValue)),
        None => Err(join(join("Invalid value ".to_owned(), tv.as_str()), ". ")),
    }
}


/// Reading the properties of a `new` command, pair by pair.
pub enum TypeTextScan {
    /// The properties read so far, by key, in order.
    Props(Seq<KeyLayout>),
    /// Reading failed with this message.
    Failed(Seq<char>),
}

/// The first position of a property with key `k`, if any.
pub open spec fn find_key(ps: Seq<KeyLayout>, k: (int, Seq<char>)) -> Option<int>
    decreases ps.len(),
{
    if ps.len() == 0 {
        None
    } else {
        match find_key(ps.drop_last(), k) {
            Some(i) => Some(i),
            None => if ps.last().0 == k { Some(ps.len() - 1) } else { None },
        }
    }
}

/// Reading one `property channel` pair of a `new` command. The channel
/// number is read first; a property name ending in `_f` or `_f<n>` adds
/// the fine channel of degree 1 or `n` to a property read before; any other
/// name adds a property with its coarse channel.
pub open spec fn type_step(st: TypeTextScan, pt: Seq<char>, ct: Seq<char>) -> TypeTextScan {
    match st {
        TypeTextScan::Props(ps) => match parse_uint(ct, 10, ChannelIndex::MAX as nat) {
            None => TypeTextScan::Failed("ErrorPenis: \""@ + ct + "\" is not a valid channel-number"@),
            Some(ch) => match fine_marker(pt) {
                Some(m) => {
                    let base = pt.take(m);
                    let suffix = pt.skip(m + 2);
                    let fd = if suffix.len() == 0 { Some(1nat) } else { parse_uint(suffix, 10, u8::MAX as nat) };
                    match fd {
                        None => TypeTextScan::Failed("Error: \""@ + suffix + "\" is not a valid fine degree"@),
                        Some(fd) => match text_key(base) {
                            None => TypeTextScan::Failed(invalid_property_message(base)),
                            Some(k) => match find_key(ps, k) {
                                None => TypeTextScan::Failed("Error: Cannot add fine channel for '"@ + base
                                    + "' because the coarse channel is missing! Add '"@ + text_name(base) + "' first."@),
                                Some(i) => {
                                    let layout = ps[i].1;
                                    if fd >= 4 {
                                        TypeTextScan::Failed("Fine-degree "@ + decimal(fd) + " out of range, must be lower than 4"@)
                                    } else if layout.len() == fd {
                                        TypeTextScan::Props(ps.update(i, (k, layout.push((ch as ChannelIndex, 0usize)))))
                                    } else if layout.len() > fd {
                                        TypeTextScan::Failed("Fine-degree "@ + decimal(fd) + " already exists"@)
                                    } else {
                                        TypeTextScan::Failed("Fine-degree "@ + decimal(fd) + " is too high, add the lower ones first"@)
                                    }
                                },
                            },
                        },
                    }
                },
                None => match text_key(pt) {
                    None => TypeTextScan::Failed(invalid_property_message(pt)),
                    Some(k) => if find_key(ps, k) is None {
                        TypeTextScan::Props(ps.push((k, seq![(ch as ChannelIndex, 0usize)])))
                    } else {
                        TypeTextScan::Failed(pt + " can only have one coarse Channel"@)
                    },
                },
            },
        },
        other => other,
    }
}

/// The `property channel` pairs of a `new` command (its words after the
/// command and the type name).
pub open spec fn pairs_of(t: Seq<Seq<char>>) -> Seq<(Seq<char>, Seq<char>)> {
    Seq::new(((t.len() - 2) / 2) as nat, |j: int| (t[2 + 2 * j], t[3 + 2 * j]))
}

/// Reading all pairs, in order.
pub open spec fn type_scan(pairs: Seq<(Seq<char>, Seq<char>)>) -> TypeTextScan
    decreases pairs.len(),
{
    if pairs.len() == 0 {
        TypeTextScan::Props(Seq::empty())
    } else {
        type_step(type_scan(pairs.drop_last()), pairs.last().0, pairs.last().1)
    }
}

fn find_property(props: &Vec<(PropertyType, ChannelParameter)>, p: &PropertyType) -> (r: Option<usize>)
    ensures
        r matches Some(i) ==> i < props@.len() && find_key(layout_keys(props@), property_key(*p)) == Some(i as int),
        r is None ==> find_key(layout_keys(props@), property_key(*p)) is None,
{
    let ghost ks = layout_keys(props@);
    let mut i: usize = 0;
    while i < props.len()
        invariant
            ks == layout_keys(props@),
            i <= props@.len(),
            find_key(ks.take(i as int), property_key(*p)) is None,
        decreases props.len() - i,
    {
        assert(ks.take(i as int + 1).drop_last() =~= ks.take(i as int));
        if props[i].0.same_as(p) {
            proof {
                lemma_find_key_prefix(ks, i as int + 1, property_key(*p));
            }
            return Some(i);
        }
        i = i + 1;
    }
    assert(ks.take(i as int) =~= ks);
    None
}

/// A found key is at a valid position and is the key there.
pub proof fn lemma_find_key_found(ps: Seq<KeyLayout>, k: (int, Seq<char>))
    requires
        find_key(ps, k) is Some,
    ensures
        0 <= find_key(ps, k)->0 < ps.len(),
        ps[find_key(ps, k)->0].0 == k,
    decreases ps.len(),
{
    if find_key(ps.drop_last(), k) is Some {
        lemma_find_key_found(ps.drop_last(), k);
    }
}

/// A key found in a prefix is found at the same position in the whole list.
proof fn lemma_find_key_prefix(ps: Seq<KeyLayout>, n: int, k: (int, Seq<char>))
    requires
        0 <= n <= ps.len(),
        find_key(ps.take(n), k) is Some,
    ensures
        find_key(ps, k) == find_key(ps.take(n), k),
    decreases ps.len() - n,
{
    if n < ps.len() {
        assert(ps.take(n + 1).drop_last() =~= ps.take(n));
        lemma_find_key_prefix(ps, n + 1, k);
    } else {
        assert(ps.take(n) =~= ps);
    }
}

/// One step of reading a `new` command.
fn scan_pair(props: &mut Vec<(PropertyType, ChannelParameter)>, pt: &str, ct: &str) -> (r: Result<(), String>)
    ensures
        match type_step(TypeTextScan::Props(layout_keys(old(props)@)), pt@, ct@) {
            TypeTextScan::Props(ps) => r == Ok::<(), String>(()) && layout_keys(final(props)@) == ps,
            TypeTextScan::Failed(m) => r matches Err(e) && e@ == m,
        },
{
    let ghost ps = layout_keys(props@);
    let channel_index = match parse_uint_exec(&crate::text::chars_of(ct), 10, ChannelIndex::MAX as u64) {
        Some(c) => c as ChannelIndex,
        None => return Err(join(join("ErrorPenis: \"".to_owned(), ct), "\" is not a valid channel-number")),
    };
    let pv = crate::text::chars_of(pt);
    match find_fine_marker(&pv) {
        Some(m) => {
            let base = string_of(&pv, 0, m);
            let suffix = string_of(&pv, m + 2, pv.len());
            assert(pv@.subrange(0, m as int) =~= pv@.take(m as int));
            assert(pv@.subrange(m + 2, pv@.len() as int) =~= pv@.skip(m + 2));
            let sv = crate::text::chars_of(suffix.as_str());
            let fine_degree: u64 = if sv.len() == 0 {
                1
            } else {
                match parse_uint_exec(&sv, 10, u8::MAX as u64) {
                    Some(f) => f,
                    None => return Err(join(join("Error: \"".to_owned(), suffix.as_str()), "\" is not a valid fine degree")),
                }
            };
            let property_type = match parse_property_type(base.as_str()) {
                Ok(p) => p,
                Err(e) => return Err(e),
            };
            match find_property(props, &property_type) {
                None => {
                    let m1 = join(join("Error: Cannot add fine channel for '".to_owned(), base.as_str()),
                        "' because the coarse channel is missing! Add '");
                    let m2 = join(join(m1, property_type.name().as_str()), "' first.");
                    Err(m2)
                }
                Some(i) => {
                    let fd = fine_degree as usize;
                    let len = props[i].1.channel_count();
                    assert(props@[i as int].1@ == ps[i as int].1);
                    proof {
                        lemma_find_key_found(ps, property_key(property_type));
                    }
                    let ghost raw = props@;
                    let mut entry = props.remove(i);
                    let r = entry.1.add_fine(fd, channel_index, 0);
                    let ghost before = props@;
                    props.insert(i, entry);
                    assert(props@ =~= raw.update(i as int, entry));
                    match r {
                        Ok(()) => {
                            assert(layout_keys(props@) =~= ps.update(i as int, (property_key(property_type),
                                ps[i as int].1.push((channel_index, 0usize)))));
                            Ok(())
                        }
                        Err(ChannelError::FineDegreeTooHigh(f)) => Err(join(join("Fine-degree ".to_owned(),
                            decimal_string(f as u64).as_str()), " is too high, add the lower ones first")),
                        Err(ChannelError::FineDegreeExists(f)) => Err(join(join("Fine-degree ".to_owned(),
                            decimal_string(f as u64).as_str()), " already exists")),
                        Err(ChannelError::FineDegreeOutOfRange(f)) => Err(join(join("Fine-degree ".to_owned(),
                            decimal_string(f as u64).as_str()), " out of range, must be lower than 4")),
                        Err(_) => {
                            assert(false);
                            Ok(())
                        }
                    }
                }
            }
        }
        None => {
            let property_type = match parse_property_type(pt) {
                Ok(p) => p,
                Err(e) => return Err(e),
            };
            match find_property(props, &property_type) {
                None => {
                    props.push((property_type, ChannelParameter::new(channel_index, 0)));
                    assert(layout_keys(props@) =~= ps.push((property_key(property_type), seq![(channel_index, 0usize)])));
                    Ok(())
                }
                Some(_) => Err(join(pt.to_owned(), " can only have one coarse Channel")),
            }
        }
    }
}


/// Once reading a `new` command fails, later pairs do not change it.
proof fn lemma_type_scan_stuck(pairs: Seq<(Seq<char>, Seq<char>)>, j: int)
    requires
        0 <= j <= pairs.len(),
        !(type_scan(pairs.take(j)) is Props),
    ensures
        type_scan(pairs) == type_scan(pairs.take(j)),
    decreases pairs.len() - j,
{
    if j < pairs.len() {
        assert(pairs.take(j + 1).drop_last() =~= pairs.take(j));
        lemma_type_scan_stuck(pairs, j + 1);
    } else {
        assert(pairs.take(j) =~= pairs);
    }
}

/// The characters of each word.
pub open spec fn word_views(t: Seq<String>) -> Seq<Seq<char>> {
    t.map_values(|w: String| w@)
}

/// Reads a `new` command from its words.
fn parse_new_fixture_type(toks: &Vec<String>) -> (r: Result<CliAction, String>)
    requires
        toks@.len() >= 4,
        toks@.len() % 2 == 0,
    ensures
        match type_scan(pairs_of(word_views(toks@))) {
            TypeTextScan::Props(ps) => r matches Ok(a) && a@ == CliView::FixtureNew(toks@[1]@, ps),
            TypeTextScan::Failed(m) => r matches Err(e) && e@ == m,
        },
{
    let ghost t = word_views(toks@);
    let ghost pairs = pairs_of(t);
    let name = toks[1].clone();
    let len = toks.len();
    let n = (len - 2) / 2;
    let mut props: Vec<(PropertyType, ChannelParameter)> = Vec::new();
    let mut j: usize = 0;
    assert(pairs.take(0) =~= Seq::<(Seq<char>, Seq<char>)>::empty());
    assert(layout_keys(props@) =~= Seq::<KeyLayout>::empty());
    while j < n
        invariant
            t == word_views(toks@),
            pairs == pairs_of(t),
            n == pairs.len(),
            n == (toks@.len() - 2) / 2,
            len == toks@.len(),
            toks@.len() >= 4,
            toks@.len() % 2 == 0,
            j <= n,
            type_scan(pairs.take(j as int)) == TypeTextScan::Props(layout_keys(props@)),
        decreases n - j,
    {
        assert(pairs.take(j as int + 1).drop_last() =~= pairs.take(j as int));
        assert(pairs[j as int] == (t[2 + 2 * j], t[3 + 2 * j]));
        let step = scan_pair(&mut props, toks[2 + 2 * j].as_str(), toks[3 + 2 * j].as_str());
        match step {
            Ok(()) => {}
            Err(e) => {
                proof {
                    lemma_type_scan_stuck(pairs, j as int + 1);
                }
                return Err(e);
            }
        }
        j = j + 1;
    }
    assert(pairs.take(n as int) =~= pairs);
    Ok(CliAction::FixtureNew { name, channels: props })
}

/// What reading `exit` with an optional argument gives.
pub open spec fn exit_parse(arg: Option<Seq<char>>) -> Result<Option<bool>, Seq<char>> {
    match arg {
        None => Ok(None),
        Some(a) => if a == "save"@ {
            Ok(Some(true))
        } else if a == "discard"@ {
            Ok(Some(false))
        } else {
            Err("Error: Invalid argument '"@ + a + "' for exit. Use 'save' or 'discard'."@)
        },
    }
}

/// The words joined by single spaces.
pub open spec fn joined(ws: Seq<Seq<char>>) -> Seq<char>
    decreases ws.len(),
{
    if ws.len() == 0 {
        Seq::empty()
    } else if ws.len() == 1 {
        ws[0]
    } else {
        joined(ws.drop_last()) + " "@ + ws.last()
    }
}

pub open spec fn unknown_command_message() -> Seq<char> {
    "Unknown command. Please enter help, to get a list of commands."@
}

/// What reading a command line gives: the action, or the message of why it
/// is not one. The first word names the command; each command takes a fixed
/// number of arguments (`new` a type name and `property channel` pairs);
/// an unknown first word passes the whole line on as another command.
pub open spec fn cli_parse(s: Seq<char>) -> Result<ParsedView, Seq<char>> {
    let t = words(s);
    let argc: int = if t.len() == 0 { 0 } else { t.len() - 1 };
    if t.len() == 0 {
        Err(unknown_command_message())
    } else {
        let c = t[0];
        if c == "help"@ {
            Ok(ParsedView::Action(CliView::Help))
        } else if c == "new"@ {
            if argc % 2 == 1 && argc > 1 {
                match type_scan(pairs_of(t)) {
                    TypeTextScan::Props(ps) => Ok(ParsedView::Action(CliView::FixtureNew(t[1], ps))),
                    TypeTextScan::Failed(m) => Err(m),
                }
            } else {
                Err("Error: \"new\"-Command needs a name for the new Fixture-Type, and then a list of properties with their channels."@)
            }
        } else if c == "add"@ {
            if argc == 3 {
                match universe_channel_parse(t[3]) {
                    Ok((u, ch)) => Ok(ParsedView::Action(CliView::FixtureAdd(t[1], t[2], u, ch))),
                    Err(m) => Err(m),
                }
            } else {
                Err("Error: \"add\" needs a name, a fixture-type and a start-channel (including a start-universe) as arguments"@)
            }
        } else if c == "move"@ {
            if argc == 2 {
                match universe_channel_parse(t[2]) {
                    Ok((u, ch)) => Ok(ParsedView::Action(CliView::FixtureMove(t[1], u, ch))),
                    Err(m) => Err(m),
                }
            } else {
                Err("Error: \"move\" needs a fixture and a start-channel (including a start-universe) as arguments"@)
            }
        } else if c == "remove"@ {
            if argc == 1 {
                Ok(ParsedView::Action(CliView::FixtureRemove(t[1])))
            } else {
                Err("Error: \"remove\" needs a fixture as argument"@)
            }
        } else if c == "set"@ {
            if argc == 3 {
                match text_key(t[2]) {
                    None => Err(invalid_property_message(t[2])),
                    Some(k) => match value_parse(t[3]) {
                        Err(m) => Err(m),
                        Ok(ValueView::Exact(v)) => Ok(ParsedView::Action(CliView::FixtureSet(t[1], k, v))),
                        Ok(ValueView::Percent(p)) => Ok(ParsedView::PercentSet(t[1], k, p)),
                    },
                }
            } else {
                Err("Error: \"set\" needs a fixture, a property, and a value as arguments"@)
            }
        } else if c == "type"@ {
            if argc == 1 {
                Ok(ParsedView::Action(CliView::FixtureGetType(t[1])))
            } else {
                Err("Error: \"type\" needs a fixture as argument"@)
            }
        } else if c == "exit"@ {
            if argc <= 1 {
                match exit_parse(if argc == 1 { Some(t[1]) } else { None }) {
                    Ok(x) => Ok(ParsedView::Action(CliView::Exit(x))),
                    Err(m) => Err(m),
                }
            } else {
                Err("Error: \"exit\" accepts at most one optional argument ('save' or 'discard')."@)
            }
        } else {
            Ok(ParsedView::Action(CliView::OtherCommands(c + " "@ + joined(t.skip(1)))))
        }
    }
}

pub open spec fn parsed_result_view(r: Result<ParsedCommand, String>) -> Result<ParsedView, Seq<char>> {
    match r {
        Ok(x) => Ok(x@),
        Err(m) => Err(m@),
    }
}

/// The words `toks[from..]` joined by single spaces.
fn join_words(toks: &Vec<String>, from: usize) -> (r: String)
    requires
        from <= toks@.len(),
    ensures
        r@ == joined(word_views(toks@).skip(from as int)),
{
    let ghost ws = word_views(toks@).skip(from as int);
    let mut out = "".to_owned();
    let mut i: usize = from;
    proof {
        reveal_strlit("");
        assert(ws.take(0) =~= Seq::<Seq<char>>::empty());
    }
    while i < toks.len()
        invariant
            from <= i <= toks@.len(),
            ws == word_views(toks@).skip(from as int),
            out@ == joined(ws.take(i - from)),
        decreases toks.len() - i,
    {
        assert(ws.take(i - from + 1).drop_last() =~= ws.take(i - from));
        assert(ws[i - from] == toks@[i as int]@);
        if i == from {
            out = toks[i].clone();
        } else {
            out = join(join(out, " "), toks[i].as_str());
        }
        i = i + 1;
    }
    assert(ws.take(toks@.len() - from) =~= ws);
    out
}

/// Reads a command line; see [`cli_parse`].
pub fn parse_command_line(command: &str) -> (r: Result<ParsedCommand, String>)
    ensures
        cli_parse(command@) == parsed_result_view(r),
{
    let toks = split_words(command);
    let ghost t = words(command@);
    assert(word_views(toks@) =~= t);
    if toks.len() == 0 {
        return Err("Unknown command. Please enter help, to get a list of commands.".to_owned());
    }
    let argc = toks.len() - 1;
    let c = toks[0].as_str();
    if str_eq(c, "help") {
        return Ok(ParsedCommand::Action(CliAction::Help));
    }
    if str_eq(c, "new") {
        if argc % 2 == 1 && argc > 1 {
            return match parse_new_fixture_type(&toks) {
                Ok(a) => Ok(ParsedCommand::Action(a)),
                Err(e) => Err(e),
            };
        }
        return Err("Error: \"new\"-Command needs a name for the new Fixture-Type, and then a list of properties with their channels.".to_owned());
    }
    if str_eq(c, "add") {
        if argc == 3 {
            return match parse_universe_and_channel(toks[3].as_str()) {
                Ok((u, ch)) => Ok(ParsedCommand::Action(CliAction::FixtureAdd {
                    name: toks[1].clone(),
                    fixture_type_name: toks[2].clone(),
                    universe: u,
                    channel: ch,
                })),
                Err(e) => Err(e),
            };
        }
        return Err("Error: \"add\" needs a name, a fixture-type and a start-channel (including a start-universe) as arguments".to_owned());
    }
    if str_eq(c, "move") {
        if argc == 2 {
            return match parse_universe_and_channel(toks[2].as_str()) {
                Ok((u, ch)) => Ok(ParsedCommand::Action(CliAction::FixtureMove {
                    fixture_name: toks[1].clone(),
                    new_universe: u,
                    new_channel: ch,
                })),
                Err(e) => Err(e),
            };
        }
        return Err("Error: \"move\" needs a fixture and a start-channel (including a start-universe) as arguments".to_owned());
    }
    if str_eq(c, "remove") {
        if argc == 1 {
            return Ok(ParsedCommand::Action(CliAction::FixtureRemove { fixture_name: toks[1].clone() }));
        }
        return Err("Error: \"remove\" needs a fixture as argument".to_owned());
    }
    if str_eq(c, "set") {
        if argc == 3 {
            let property_type = match parse_property_type(toks[2].as_str()) {
                Ok(p) => p,
                Err(e) => return Err(e),
            };
            return match parse_cli_value(toks[3].as_str()) {
                Err(e) => Err(e),
                Ok(ParsedValue::Exact(v)) => Ok(ParsedCommand::Action(CliAction::FixtureSet {
                    name: toks[1].clone(),
                    property_type,
                    value: v,
                })),
                Ok(ParsedValue::Percent(p)) => Ok(ParsedCommand::PercentSet {
                    name: toks[1].clone(),
                    property_type,
                    percent: p,
                }),
            };
        }
        return Err("Error: \"set\" needs a fixture, a property, and a value as arguments".to_owned());
    }
    if str_eq(c, "type") {
        if argc == 1 {
            return Ok(ParsedCommand::Action(CliAction::FixtureGetType { fixture_name: toks[1].clone() }));
        }
        return Err("Error: \"type\" needs a fixture as argument".to_owned());
    }
    if str_eq(c, "exit") {
        if argc <= 1 {
            if argc == 0 {
                return Ok(ParsedCommand::Action(CliAction::Exit { save_changes: None }));
            }
            let a = toks[1].as_str();
            if str_eq(a, "save") {
                return Ok(ParsedCommand::Action(CliAction::Exit { save_changes: Some(true) }));
            }
            if str_eq(a, "discard") {
                return Ok(ParsedCommand::Action(CliAction::Exit { save_changes: Some(false) }));
            }
            return Err(join(join("Error: Invalid argument '".to_owned(), a), "' for exit. Use 'save' or 'discard'."));
        }
        return Err("Error: \"exit\" accepts at most one optional argument ('save' or 'discard').".to_owned());
    }
    let args = join_words(&toks, 1);
    Ok(ParsedCommand::Action(CliAction::OtherCommands {
        command: join(join(toks[0].clone(), " "), args.as_str()),
    }))
}

/// Reads a command line into an action, or the message of why it is not one.
pub fn parse_cli_string(command: &str) -> (r: Result<ParsedCommand, String>)
    ensures
        cli_parse(command@) == parsed_result_view(r),
{
    parse_command_line(command)
}

} // verus!
