use std::hash::{DefaultHasher, Hash, Hasher};
use rektal::engine::{FixtureEngine, FixtureCommand, CommandReply, placement_fits_check, move_fits_check};
use rektal::fixture::{calculate_dmx_values, Fixture, ChannelError, ChannelParameter, ColorModelInput, ColorPropertyType,
    FixtureError, FixtureType, FixtureTypeRegistry, PropertyType, SimplePropertyType};
use rektal::networking::subscription::DMXConfigurationForClient;

fn dimmer() -> PropertyType {
    PropertyType::Simple(SimplePropertyType::Dimmer)
}

fn color(c: ColorPropertyType) -> PropertyType {
    PropertyType::Color(c)
}

/// A registry with `dim` (a dimmer with a fine channel on 0 and 1) and `rgb`
/// (red, green, blue on 0, 1, 2).
fn registry() -> FixtureTypeRegistry {
    let mut reg = FixtureTypeRegistry::new();
    let mut d = ChannelParameter::new(0, 0);
    d.add_fine(1, 1, 0).unwrap();
    FixtureType::new(&mut reg, "dim".to_string(), vec![(dimmer(), d)]).unwrap();
    FixtureType::new(&mut reg, "rgb".to_string(), vec![
        (color(ColorPropertyType::Red), ChannelParameter::new(0, 0)),
        (color(ColorPropertyType::Green), ChannelParameter::new(1, 0)),
        (color(ColorPropertyType::Blue), ChannelParameter::new(2, 0)),
    ]).unwrap();
    reg
}

fn reserved_name(cell: &DMXConfigurationForClient) -> Option<(String, usize)> {
    match cell {
        DMXConfigurationForClient::Empty => None,
        DMXConfigurationForClient::Reserved { fixture_name, fine_degree, .. } =>
            Some((fixture_name.clone(), *fine_degree)),
    }
}

fn owners(engine: &FixtureEngine, universe: usize, upto: usize) -> Vec<Option<(String, usize)>> {
    let config = engine.get_dmx_config_for_client();
    config[universe][..upto].iter().map(reserved_name).collect()
}

#[test]
fn registry_registers_types_in_order() {
    let reg = registry();
    assert_eq!(reg.len(), 2);
    assert_eq!(reg.get(0).name(), "dim");
    assert_eq!(reg.get(1).name(), "rgb");
    assert_eq!(reg.find(&"rgb".to_string()), Some(1));
    assert_eq!(reg.find(&"nope".to_string()), None);
}

#[test]
fn fixture_type_name_taken() {
    let mut reg = registry();
    let r = FixtureType::new(&mut reg, "dim".to_string(), vec![(dimmer(), ChannelParameter::new(5, 0))]);
    assert!(matches!(r, Err(FixtureError::FixtureTypeNameAlreadyInUse(ref n)) if n == "dim"));
    assert_eq!(reg.len(), 2);
}

#[test]
fn fixture_type_overlap_names_property() {
    let mut reg = FixtureTypeRegistry::new();
    let r = FixtureType::new(&mut reg, "bad".to_string(), vec![
        (dimmer(), ChannelParameter::new(0, 0)),
        (PropertyType::Simple(SimplePropertyType::Strobe), ChannelParameter::new(0, 0)),
    ]);
    assert!(matches!(r, Err(FixtureError::ChannelError(ChannelError::ChannelAlreadyInUse(ref p))) if p == "strobe"));
    assert_eq!(reg.len(), 0);
}

#[test]
fn fixture_type_mixed_color_models() {
    let mut reg = FixtureTypeRegistry::new();
    let r = FixtureType::new(&mut reg, "mix".to_string(), vec![
        (color(ColorPropertyType::Red), ChannelParameter::new(0, 0)),
        (color(ColorPropertyType::Hue), ChannelParameter::new(1, 0)),
    ]);
    assert!(matches!(r, Err(FixtureError::MultipleColorOutputTypes(_))));
    assert_eq!(reg.len(), 0);
}

#[test]
fn fine_degrees_in_order() {
    let mut p = ChannelParameter::new(0, 0);
    assert!(matches!(p.add_fine(2, 1, 0), Err(ChannelError::FineDegreeTooHigh(2))));
    assert!(matches!(p.add_fine(1, 1, 0), Ok(())));
    assert!(matches!(p.add_fine(1, 2, 0), Err(ChannelError::FineDegreeExists(1))));
    assert!(matches!(p.add_fine(5, 2, 0), Err(ChannelError::FineDegreeOutOfRange(5))));
    // at most four channels counting the coarse one: degree 4 is out of range
    assert!(matches!(p.add_fine(4, 2, 0), Err(ChannelError::FineDegreeOutOfRange(4))));
    assert!(matches!(p.add_fine(2, 2, 0), Ok(())));
    assert!(matches!(p.add_fine(3, 3, 0), Ok(())));
    assert!(matches!(p.add_fine(4, 4, 0), Err(ChannelError::FineDegreeOutOfRange(4))));
    assert_eq!(p.channel_count(), 4);
    assert_eq!(p.channel_at(1), (1, 0));
}

#[test]
fn add_reserves_channels_and_creates_universes() {
    let reg = registry();
    let mut engine = FixtureEngine::new();
    assert_eq!(engine.universe_count(), 0);
    assert!(placement_fits_check(&reg, &"rgb".to_string(), 10, 1, &"a".to_string()));
    engine.new_fixture(&reg, "a".to_string(), "rgb".to_string(), 10, 1).unwrap();
    assert_eq!(engine.universe_count(), 2);
    let config = engine.get_dmx_config_for_client();
    assert_eq!(config.len(), 2);
    assert_eq!(config[1].len(), 512);
    assert_eq!(reserved_name(&config[1][10]), Some(("a".to_string(), 0)));
    assert_eq!(reserved_name(&config[1][12]), Some(("a".to_string(), 0)));
    assert_eq!(reserved_name(&config[1][13]), None);
    assert_eq!(reserved_name(&config[0][10]), None);
    assert_eq!(engine.get_fixture_type_from_string("a".to_string()).unwrap(), "rgb");
}

#[test]
fn fine_channel_reported_with_degree() {
    let reg = registry();
    let mut engine = FixtureEngine::new();
    engine.new_fixture(&reg, "d".to_string(), "dim".to_string(), 0, 0).unwrap();
    assert_eq!(owners(&engine, 0, 3), vec![
        Some(("d".to_string(), 0)),
        Some(("d".to_string(), 1)),
        None,
    ]);
}

#[test]
fn add_errors() {
    let reg = registry();
    let mut engine = FixtureEngine::new();
    engine.new_fixture(&reg, "a".to_string(), "rgb".to_string(), 0, 0).unwrap();
    let taken = engine.new_fixture(&reg, "a".to_string(), "rgb".to_string(), 100, 0);
    assert!(matches!(taken, Err(FixtureError::FixtureNameAlreadyInUse(ref n)) if n == "a"));
    let no_type = engine.new_fixture(&reg, "b".to_string(), "spot".to_string(), 100, 0);
    assert!(matches!(no_type, Err(FixtureError::InvalidFixtureType(ref n)) if n == "spot"));
    let overlap = engine.new_fixture(&reg, "b".to_string(), "rgb".to_string(), 2, 0);
    assert!(matches!(overlap, Err(FixtureError::ChannelError(ChannelError::ChannelAlreadyInUse(ref o)))
        if o == "a, blue"));
    let out_of_range = engine.new_fixture(&reg, "c".to_string(), "rgb".to_string(), 513, 0);
    assert!(matches!(out_of_range, Err(FixtureError::ChannelError(ChannelError::ChannelOutOfRange))));
    assert_eq!(engine.fixture_list().len(), 1);
    // the reservations of `a` are untouched
    assert_eq!(owners(&engine, 0, 4), vec![
        Some(("a".to_string(), 0)),
        Some(("a".to_string(), 0)),
        Some(("a".to_string(), 0)),
        None,
    ]);
}

#[test]
fn fixture_spanning_universe_border() {
    let reg = registry();
    let mut engine = FixtureEngine::new();
    let universes = engine.universe_count();
    // the channels of a fixture may not run past the end of its universe
    let r = engine.new_fixture(&reg, "edge".to_string(), "rgb".to_string(), 511, 0);
    assert!(matches!(r, Err(FixtureError::ChannelError(ChannelError::ChannelOutOfRange))));
    assert_eq!(engine.universe_count(), universes);
    assert!(engine.fixture_list().is_empty());
    let r = engine.new_fixture(&reg, "edge".to_string(), "rgb".to_string(), 510, 0);
    assert!(matches!(r, Err(FixtureError::ChannelError(ChannelError::ChannelOutOfRange))));
    engine.new_fixture(&reg, "edge".to_string(), "rgb".to_string(), 509, 0).unwrap();
    assert_eq!(engine.universe_count(), 1);
    let config = engine.get_dmx_config_for_client();
    assert_eq!(reserved_name(&config[0][509]), Some(("edge".to_string(), 0)));
    assert_eq!(reserved_name(&config[0][511]), Some(("edge".to_string(), 0)));
    assert_eq!(reserved_name(&config[0][508]), None);
}

#[test]
fn move_frees_old_and_reserves_new_channels() {
    let reg = registry();
    let mut engine = FixtureEngine::new();
    engine.new_fixture(&reg, "a".to_string(), "rgb".to_string(), 0, 0).unwrap();
    assert!(move_fits_check(&engine, &"a".to_string(), 1, 0));
    // overlapping its own old channels is allowed
    engine.move_fixture("a".to_string(), 1, 0).unwrap();
    assert_eq!(owners(&engine, 0, 5), vec![
        None,
        Some(("a".to_string(), 0)),
        Some(("a".to_string(), 0)),
        Some(("a".to_string(), 0)),
        None,
    ]);
    let missing = engine.move_fixture("zz".to_string(), 1, 0);
    assert!(matches!(missing, Err(FixtureError::InvalidFixture(ref n)) if n == "zz"));
    let too_far = engine.move_fixture("a".to_string(), 600, 0);
    assert!(matches!(too_far, Err(FixtureError::ChannelError(ChannelError::ChannelOutOfRange))));
}

#[test]
fn move_onto_other_fixture_fails_and_keeps_state() {
    let reg = registry();
    let mut engine = FixtureEngine::new();
    engine.new_fixture(&reg, "a".to_string(), "rgb".to_string(), 0, 0).unwrap();
    engine.new_fixture(&reg, "b".to_string(), "rgb".to_string(), 10, 0).unwrap();
    let r = engine.move_fixture("b".to_string(), 2, 0);
    assert!(matches!(r, Err(FixtureError::ChannelError(ChannelError::ChannelAlreadyInUse(ref o))) if o == "a, blue"));
    let list = engine.fixture_list();
    assert_eq!(list[1].get_start(), (10, 0));
    assert_eq!(reserved_name(&engine.get_dmx_config_for_client()[0][10]), Some(("b".to_string(), 0)));
}

#[test]
fn remove_frees_channels() {
    let reg = registry();
    let mut engine = FixtureEngine::new();
    engine.new_fixture(&reg, "a".to_string(), "rgb".to_string(), 0, 0).unwrap();
    engine.remove_fixture("a".to_string()).unwrap();
    assert_eq!(engine.fixture_list().len(), 0);
    assert_eq!(owners(&engine, 0, 3), vec![None, None, None]);
    let again = engine.remove_fixture("a".to_string());
    assert!(matches!(again, Err(FixtureError::InvalidFixture(ref n)) if n == "a"));
}

#[test]
fn remove_undoes_add_law_on_values() {
    let reg = registry();
    let mut engine = FixtureEngine::new();
    engine.new_fixture(&reg, "a".to_string(), "rgb".to_string(), 0, 0).unwrap();
    let before: Vec<_> = engine.get_dmx_config_for_client().iter()
        .map(|u| u.iter().map(reserved_name).collect::<Vec<_>>()).collect();
    engine.new_fixture(&reg, "b".to_string(), "dim".to_string(), 20, 0).unwrap();
    engine.remove_fixture("b".to_string()).unwrap();
    let after: Vec<_> = engine.get_dmx_config_for_client().iter()
        .map(|u| u.iter().map(reserved_name).collect::<Vec<_>>()).collect();
    assert_eq!(before, after);
    let names: Vec<String> = engine.fixture_list().iter().map(|f| f.get_name().to_string()).collect();
    assert_eq!(names, vec!["a".to_string()]);
}

#[test]
fn no_two_fixtures_share_a_channel() {
    let reg = registry();
    let mut engine = FixtureEngine::new();
    for (i, start) in [0u16, 3, 2, 6, 5].iter().enumerate() {
        let _ = engine.new_fixture(&reg, format!("f{}", i), "rgb".to_string(), *start, 0);
    }
    let mut seen = std::collections::HashMap::new();
    for f in engine.fixture_list() {
        for (addr, _) in f.get_channel_values() {
            assert!(seen.insert(addr, f.get_name().to_string()).is_none());
        }
    }
    assert_eq!(engine.fixture_list().len(), 3);
}

#[test]
fn set_simple_property_and_dmx_values() {
    let reg = registry();
    let mut engine = FixtureEngine::new();
    engine.new_fixture(&reg, "d".to_string(), "dim".to_string(), 4, 0).unwrap();
    let config_before = owners(&engine, 0, 8);
    assert_eq!(engine.set_property("d".to_string(), dimmer(), 0x1234_5678).unwrap(), None);
    // setting a value never changes the reservations
    assert_eq!(owners(&engine, 0, 8), config_before);
    let frames = calculate_dmx_values(engine.universe_count(), &engine.fixture_list());
    assert_eq!(frames.len(), 1);
    assert_eq!(frames[0][4], 0x12);
    assert_eq!(frames[0][5], 0x34);
    assert_eq!(frames[0][6], 0);
    let missing = engine.set_property("d".to_string(), PropertyType::Simple(SimplePropertyType::Pan), 1);
    assert!(matches!(missing, Err(FixtureError::MissingProperty(_))));
    let unknown = engine.set_property("x".to_string(), dimmer(), 1);
    assert!(matches!(unknown, Err(FixtureError::InvalidFixture(ref n)) if n == "x"));
}

#[test]
fn set_color_asks_for_conversion_then_applies() {
    let reg = registry();
    let mut engine = FixtureEngine::new();
    engine.new_fixture(&reg, "c".to_string(), "rgb".to_string(), 0, 0).unwrap();
    let conv = engine.set_property("c".to_string(), color(ColorPropertyType::Red), 0xFF00_0000).unwrap();
    assert_eq!(conv, Some(ColorModelInput::Rgb(0xFF00_0000, 0, 0)));
    engine.set_color_rgb("c".to_string(), 0xFF00_0000, 0, 0, 0, 0xFFFF_FFFF).unwrap();
    let frames = calculate_dmx_values(engine.universe_count(), &engine.fixture_list());
    assert_eq!(&frames[0][0..3], &[0xFF, 0, 0]);
    // a hue change on an RGB fixture goes through HSV
    let conv = engine.set_property("c".to_string(), color(ColorPropertyType::Hue), 7).unwrap();
    assert_eq!(conv, Some(ColorModelInput::Hsv(7, 0xFFFF_FFFF, 0xFF00_0000)));
    engine.set_color_hsv("c".to_string(), 7, 0xFFFF_FFFF, 0xFF00_0000, 0x0100_0000, 0x0200_0000, 0x0300_0000).unwrap();
    let frames = calculate_dmx_values(engine.universe_count(), &engine.fixture_list());
    assert_eq!(&frames[0][0..3], &[1, 2, 3]);
}

#[test]
fn cmy_fixture_outputs_cyan_magenta_yellow() {
    let mut reg = FixtureTypeRegistry::new();
    FixtureType::new(&mut reg, "cmy".to_string(), vec![
        (color(ColorPropertyType::Cyan), ChannelParameter::new(0, 0)),
        (color(ColorPropertyType::Magenta), ChannelParameter::new(1, 0)),
        (color(ColorPropertyType::Yellow), ChannelParameter::new(2, 0)),
    ]).unwrap();
    let mut engine = FixtureEngine::new();
    engine.new_fixture(&reg, "c".to_string(), "cmy".to_string(), 0, 0).unwrap();
    let conv = engine.set_property("c".to_string(), color(ColorPropertyType::Yellow), 0x1000_0000).unwrap();
    assert_eq!(conv, Some(ColorModelInput::Rgb(0, 0, 0xEFFF_FFFF)));
    engine.set_color_rgb("c".to_string(), 0, 0, 0xEFFF_FFFF, 0, 0).unwrap();
    let frames = calculate_dmx_values(engine.universe_count(), &engine.fixture_list());
    // the third channel carries yellow, not red
    assert_eq!(&frames[0][0..3], &[0xFF, 0xFF, 0x10]);
}

#[test]
fn move_past_universe_end_is_refused() {
    let reg = registry();
    let mut engine = FixtureEngine::new();
    engine.new_fixture(&reg, "a".to_string(), "rgb".to_string(), 0, 0).unwrap();
    assert!(move_fits_check(&engine, &"a".to_string(), 510, 0));
    let r = engine.move_fixture("a".to_string(), 510, 0);
    assert!(matches!(r, Err(FixtureError::ChannelError(ChannelError::ChannelOutOfRange))));
    assert_eq!(owners(&engine, 0, 4), vec![
        Some(("a".to_string(), 0)),
        Some(("a".to_string(), 0)),
        Some(("a".to_string(), 0)),
        None,
    ]);
    engine.move_fixture("a".to_string(), 509, 0).unwrap();
    let config = engine.get_dmx_config_for_client();
    assert_eq!(reserved_name(&config[0][511]), Some(("a".to_string(), 0)));
    assert_eq!(reserved_name(&config[0][0]), None);
}

#[test]
fn dmx_values_drop_universes_beyond_count() {
    let reg = registry();
    let mut engine = FixtureEngine::new();
    engine.new_fixture(&reg, "d".to_string(), "dim".to_string(), 0, 1).unwrap();
    engine.set_property("d".to_string(), dimmer(), 0xAB00_0000).unwrap();
    let frames = calculate_dmx_values(1, &engine.fixture_list());
    assert_eq!(frames.len(), 1);
    assert!(frames[0].iter().all(|b| *b == 0));
    let frames = calculate_dmx_values(2, &engine.fixture_list());
    assert_eq!(frames[1][0], 0xAB);
}

#[test]
fn pan_starts_centered() {
    let mut reg = FixtureTypeRegistry::new();
    FixtureType::new(&mut reg, "mh".to_string(), vec![
        (PropertyType::Simple(SimplePropertyType::Pan), ChannelParameter::new(0, 0)),
        (dimmer(), ChannelParameter::new(1, 0)),
    ]).unwrap();
    let mut engine = FixtureEngine::new();
    engine.new_fixture(&reg, "m".to_string(), "mh".to_string(), 0, 0).unwrap();
    let frames = calculate_dmx_values(engine.universe_count(), &engine.fixture_list());
    assert_eq!(frames[0][0], 0x7F);
    assert_eq!(frames[0][1], 0);
}

#[test]
fn same_type_same_hash() {
    let reg = registry();
    let mut engine = FixtureEngine::new();
    engine.new_fixture(&reg, "a".to_string(), "rgb".to_string(), 0, 0).unwrap();
    engine.new_fixture(&reg, "b".to_string(), "rgb".to_string(), 3, 0).unwrap();
    let config = engine.get_dmx_config_for_client();
    let hash = |c: &DMXConfigurationForClient| match c {
        DMXConfigurationForClient::Reserved { fixture_type_hash, .. } => *fixture_type_hash,
        DMXConfigurationForClient::Empty => panic!("expected a reservation"),
    };
    assert_eq!(hash(&config[0][0]), hash(&config[0][3]));
    assert_eq!(hash(&config[0][0]), hash(&config[0][5]));
}

#[test]
fn handle_command_reports_changes() {
    let reg = registry();
    let mut engine = FixtureEngine::new();
    let out = engine.handle_command(&reg, FixtureCommand::SpawnFixture {
        name: "a".to_string(), fixture_type_name: "rgb".to_string(), start_channel: 0, start_universe: 0 });
    assert!(matches!(out.reply, CommandReply::Done(Ok(()))));
    assert!(out.config_changed && out.values_changed);
    let out = engine.handle_command(&reg, FixtureCommand::SpawnFixture {
        name: "a".to_string(), fixture_type_name: "rgb".to_string(), start_channel: 9, start_universe: 0 });
    assert!(matches!(out.reply, CommandReply::Done(Err(_))));
    assert!(!out.config_changed && !out.values_changed);
    let out = engine.handle_command(&reg, FixtureCommand::SetProperty {
        fixture_name: "a".to_string(), property: color(ColorPropertyType::Green), value: 5 });
    assert!(matches!(out.reply, CommandReply::Property(Ok(Some(ColorModelInput::Rgb(0, 5, 0))))));
    assert!(!out.config_changed && out.values_changed);
    let out = engine.handle_command(&reg, FixtureCommand::GetType { fixture_name: "a".to_string() });
    assert!(matches!(out.reply, CommandReply::Type(Ok(ref t)) if t == "rgb"));
    assert!(!out.config_changed && !out.values_changed);
    let out = engine.handle_command(&reg, FixtureCommand::MoveFixture {
        name: "a".to_string(), new_channel: 7, new_universe: 0 });
    assert!(matches!(out.reply, CommandReply::Done(Ok(()))));
    assert!(out.config_changed);
    let out = engine.handle_command(&reg, FixtureCommand::RemoveFixture { name: "a".to_string() });
    assert!(matches!(out.reply, CommandReply::Done(Ok(()))));
    assert!(out.config_changed);
    assert_eq!(engine.fixture_list().len(), 0);
}

fn fatal(e: &FixtureError) -> bool {
    matches!(e, FixtureError::DmxStateDesync | FixtureError::ChannelError(ChannelError::UniverseOutOfRange))
}

#[test]
fn operations_never_fail_fatally_in_a_consistent_engine() {
    let reg = registry();
    let mut engine = FixtureEngine::new();
    let starts = [(0u16, 0usize), (2, 0), (510, 0), (3, 0), (0, 2), (600, 0), (5, 0)];
    for (i, (c, u)) in starts.iter().enumerate() {
        let t = if i % 2 == 0 { "rgb" } else { "dim" };
        if let Err(e) = engine.new_fixture(&reg, format!("f{}", i), t.to_string(), *c, *u) {
            assert!(!fatal(&e), "{:?}", e);
        }
    }
    for (name, c, u) in [("f0", 1u16, 0usize), ("f1", 511, 1), ("f2", 0, 0), ("f4", 700, 0), ("zz", 0, 0), ("f6", 4, 2)] {
        if let Err(e) = engine.move_fixture(name.to_string(), c, u) {
            assert!(!fatal(&e), "{:?}", e);
        }
    }
    let names: Vec<String> = engine.fixture_list().iter().map(|f| f.get_name().to_string()).collect();
    assert!(!names.is_empty());
    for n in names {
        assert!(engine.remove_fixture(n).is_ok());
    }
    assert_eq!(engine.fixture_list().len(), 0);
    let config = engine.get_dmx_config_for_client();
    assert!(config.iter().all(|u| u.iter().all(|c| matches!(c, DMXConfigurationForClient::Empty))));
}

#[test]
fn channel_past_universe_end_refused_at_registration() {
    // a channel at or past the end of a universe is refused when the type is registered
    let mut reg = FixtureTypeRegistry::new();
    let r = FixtureType::new(&mut reg, "twin".to_string(), vec![
        (dimmer(), ChannelParameter::new(512, 0)),
        (PropertyType::Simple(SimplePropertyType::Strobe), ChannelParameter::new(0, 1)),
    ]);
    assert!(matches!(r, Err(FixtureError::ChannelError(ChannelError::ChannelOutOfRange))));
    assert!(reg.find(&"twin".to_string()).is_none());
    FixtureType::new(&mut reg, "twin".to_string(), vec![
        (dimmer(), ChannelParameter::new(511, 0)),
        (PropertyType::Simple(SimplePropertyType::Strobe), ChannelParameter::new(0, 1)),
    ]).unwrap();
    assert!(reg.find(&"twin".to_string()).is_some());
}

fn cells(engine: &FixtureEngine) -> Vec<Vec<Option<(String, usize)>>> {
    engine.get_dmx_config_for_client().iter()
        .map(|u| u.iter().map(reserved_name).collect::<Vec<_>>()).collect()
}

#[test]
fn move_back_undoes_move_law_on_values() {
    let reg = registry();
    let mut engine = FixtureEngine::new();
    engine.new_fixture(&reg, "a".to_string(), "rgb".to_string(), 4, 0).unwrap();
    engine.new_fixture(&reg, "b".to_string(), "dim".to_string(), 20, 0).unwrap();
    let before = cells(&engine);
    let starts: Vec<_> = engine.fixture_list().iter().map(|f| f.get_start()).collect();
    engine.move_fixture("a".to_string(), 100, 1).unwrap();
    assert_ne!(cells(&engine)[0], before[0]);
    engine.move_fixture("a".to_string(), 4, 0).unwrap();
    let after = cells(&engine);
    assert_eq!(after[0], before[0]);
    assert!(after[1].iter().all(|c| c.is_none()));
    let starts_after: Vec<_> = engine.fixture_list().iter().map(|f| f.get_start()).collect();
    assert_eq!(starts, starts_after);
}

#[test]
fn move_in_place_changes_nothing_law_on_values() {
    let reg = registry();
    let mut engine = FixtureEngine::new();
    engine.new_fixture(&reg, "a".to_string(), "rgb".to_string(), 4, 0).unwrap();
    let before = cells(&engine);
    engine.move_fixture("a".to_string(), 4, 0).unwrap();
    assert_eq!(cells(&engine), before);
    assert_eq!(engine.fixture_list()[0].get_start(), (4, 0));
}

#[test]
fn type_stays_readable_law_on_values() {
    let reg = registry();
    let mut engine = FixtureEngine::new();
    engine.new_fixture(&reg, "a".to_string(), "rgb".to_string(), 0, 0).unwrap();
    engine.new_fixture(&reg, "b".to_string(), "dim".to_string(), 10, 0).unwrap();
    engine.move_fixture("a".to_string(), 30, 0).unwrap();
    let _ = engine.move_fixture("a".to_string(), 600, 0);
    engine.set_property("b".to_string(), dimmer(), 5).unwrap();
    let _ = engine.set_property("a".to_string(), dimmer(), 5);
    engine.remove_fixture("b".to_string()).unwrap();
    let _ = engine.remove_fixture("zz".to_string());
    assert_eq!(engine.get_fixture_type_from_string("a".to_string()).unwrap(), "rgb");
    assert!(engine.get_fixture_type_from_string("b".to_string()).is_err());
}

#[test]
fn add_succeeds_on_free_channels_law_on_values() {
    let reg = registry();
    let mut engine = FixtureEngine::new();
    engine.new_fixture(&reg, "a".to_string(), "rgb".to_string(), 0, 0).unwrap();
    // name new, type known, channels 3..5 free
    assert!(engine.new_fixture(&reg, "b".to_string(), "rgb".to_string(), 3, 0).is_ok());
    // a channel in use
    let r = engine.new_fixture(&reg, "c".to_string(), "rgb".to_string(), 5, 0);
    assert!(matches!(r, Err(FixtureError::ChannelError(ChannelError::ChannelAlreadyInUse(_)))));
}

#[test]
fn client_cells_carry_the_type_hash() {
    let reg = registry();
    let mut engine = FixtureEngine::new();
    engine.new_fixture(&reg, "a".to_string(), "rgb".to_string(), 0, 0).unwrap();
    engine.new_fixture(&reg, "b".to_string(), "rgb".to_string(), 3, 0).unwrap();
    engine.new_fixture(&reg, "c".to_string(), "dim".to_string(), 6, 0).unwrap();
    let config = engine.get_dmx_config_for_client();
    let hash = |c: &DMXConfigurationForClient| match c {
        DMXConfigurationForClient::Reserved { fixture_type_hash, .. } => Some(*fixture_type_hash),
        DMXConfigurationForClient::Empty => None,
    };
    let mut h = DefaultHasher::new();
    "rgb".to_string().hash(&mut h);
    let rgb = (h.finish() % 256) as u8;
    assert_eq!(hash(&config[0][0]), Some(rgb));
    assert_eq!(hash(&config[0][0]), hash(&config[0][3]));
    assert!(hash(&config[0][6]).is_some());
    assert_eq!(hash(&config[0][8]), None);
}

#[test]
fn fixture_past_universe_end_continues_in_next_universe() {
    let reg = registry();
    let f = Fixture::new(&reg, "rgb".to_string(), 511, 0, "edge".to_string()).unwrap();
    let addresses: Vec<_> = f.get_channel_values().iter().map(|(a, _)| *a).collect();
    assert_eq!(addresses, vec![(511, 0), (0, 1), (1, 1)]);
    assert!(matches!(Fixture::new(&reg, "rgb".to_string(), 513, 0, "x".to_string()),
        Err(FixtureError::ChannelError(ChannelError::ChannelOutOfRange))));
    assert!(matches!(Fixture::new(&reg, "nope".to_string(), 0, 0, "x".to_string()),
        Err(FixtureError::InvalidFixtureType(ref t)) if t == "nope"));
    // the engine refuses such a placement
    let mut engine = FixtureEngine::new();
    let r = engine.new_fixture(&reg, "edge".to_string(), "rgb".to_string(), 511, 0);
    assert!(matches!(r, Err(FixtureError::ChannelError(ChannelError::ChannelOutOfRange))));
}
