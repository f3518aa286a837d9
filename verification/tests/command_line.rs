use rektal::cli::execute::{CliOutcome, Kernel};
use rektal::cli::{parse_cli_string, parse_cli_value, parse_command_line, parse_property_type,
    parse_universe_and_channel, CliAction, CliActionResponse, ParsedCommand, ParsedValue};
use rektal::fixture::{ChannelValue, ColorModelInput, ColorPropertyType, FixtureError, PropertyType,
    SimplePropertyType, calculate_dmx_values};
use rektal::logging::LogLevel;
use rektal::cli::execute::exit_choice;

fn percent(s: String) -> Result<ChannelValue, String> {
    match s.parse::<f64>() {
        Ok(p) if (0.0..=100.0).contains(&p) => Ok((p / 100.0 * ChannelValue::MAX as f64).round() as ChannelValue),
        Ok(_) => Err(format!("\"{}\" must be between 0 and 100.", s)),
        Err(_) => Err(format!("Invalid percentage format {}", s)),
    }
}

/// A stand-in conversion: hue and saturation are taken from red and green,
/// red, green and blue from hue, saturation and value.
fn convert(input: ColorModelInput) -> (ChannelValue, ChannelValue, ChannelValue) {
    match input {
        ColorModelInput::Rgb(r, g, _) => (r, g, 0),
        ColorModelInput::Hsv(h, s, v) => (h, s, v),
    }
}

fn run(k: &mut Kernel, line: &str) -> CliOutcome {
    assert!(k.command_runs_check(line), "command cannot run: {}", line);
    k.run_command(true, line, true, &percent, &convert)
}

fn reply(k: &mut Kernel, line: &str) -> (LogLevel, String) {
    match run(k, line) {
        CliOutcome::Reply(l, m) => (l, m),
        CliOutcome::Exit(x) => panic!("unexpected exit {:?}", x),
    }
}

fn action(line: &str) -> CliAction {
    match parse_cli_string(line) {
        Ok(ParsedCommand::Action(a)) => a,
        other => panic!("not an action: {:?}", other),
    }
}

fn parse_error(line: &str) -> String {
    match parse_cli_string(line) {
        Err(e) => e,
        other => panic!("not an error: {:?}", other),
    }
}

#[test]
fn parse_help_and_empty() {
    assert!(matches!(action("help"), CliAction::Help));
    assert!(matches!(action("  help   "), CliAction::Help));
    assert_eq!(parse_error("   "), "Unknown command. Please enter help, to get a list of commands.");
}

#[test]
fn parse_add_move_remove_type() {
    match action("add spot1 spot 2.17") {
        CliAction::FixtureAdd { name, fixture_type_name, universe, channel } => {
            assert_eq!(name, "spot1");
            assert_eq!(fixture_type_name, "spot");
            assert_eq!(universe, 2);
            assert_eq!(channel, 17);
        }
        other => panic!("{:?}", other),
    }
    assert!(matches!(action("move spot1 0.5"),
        CliAction::FixtureMove { ref fixture_name, new_universe: 0, new_channel: 5 } if fixture_name == "spot1"));
    assert!(matches!(action("remove spot1"), CliAction::FixtureRemove { ref fixture_name } if fixture_name == "spot1"));
    assert!(matches!(action("type spot1"), CliAction::FixtureGetType { ref fixture_name } if fixture_name == "spot1"));
}

#[test]
fn parse_argument_count_errors() {
    assert_eq!(parse_error("add a b"),
        "Error: \"add\" needs a name, a fixture-type and a start-channel (including a start-universe) as arguments");
    assert_eq!(parse_error("move a"),
        "Error: \"move\" needs a fixture and a start-channel (including a start-universe) as arguments");
    assert_eq!(parse_error("remove"), "Error: \"remove\" needs a fixture as argument");
    assert_eq!(parse_error("set a dimmer"), "Error: \"set\" needs a fixture, a property, and a value as arguments");
    assert_eq!(parse_error("type a b"), "Error: \"type\" needs a fixture as argument");
    assert_eq!(parse_error("exit now please"),
        "Error: \"exit\" accepts at most one optional argument ('save' or 'discard').");
    assert_eq!(parse_error("new t dimmer"),
        "Error: \"new\"-Command needs a name for the new Fixture-Type, and then a list of properties with their channels.");
}

#[test]
fn parse_universe_channel_errors() {
    assert_eq!(parse_error("add a b 17"), "Error: Please specify the channel with [universe].[channel]");
    assert_eq!(parse_error("add a b x.1"), "Error: \"x\" is not a valid universe-number");
    assert_eq!(parse_error("move a 1.70000"), "Error: \"70000\" is not a valid channel-number");
    assert_eq!(parse_universe_and_channel("3.+4").unwrap(), (3, 4));
    assert_eq!(parse_universe_and_channel("1.2.3").unwrap_err(), "Error: \"2.3\" is not a valid channel-number");
}

#[test]
fn parse_exit_variants() {
    assert!(matches!(action("exit"), CliAction::Exit { save_changes: None }));
    assert!(matches!(action("exit save"), CliAction::Exit { save_changes: Some(true) }));
    assert!(matches!(action("exit discard"), CliAction::Exit { save_changes: Some(false) }));
    assert_eq!(parse_error("exit maybe"), "Error: Invalid argument 'maybe' for exit. Use 'save' or 'discard'.");
}

#[test]
fn parse_other_commands_joined() {
    assert!(matches!(action("set_all   red  50"),
        CliAction::OtherCommands { ref command } if command == "set_all red 50"));
    assert!(matches!(action("break"), CliAction::OtherCommands { ref command } if command == "break "));
}

#[test]
fn parse_set_values() {
    assert!(matches!(action("set a dimmer 1_000"), CliAction::FixtureSet {
        property_type: PropertyType::Simple(SimplePropertyType::Dimmer), value: 1000, .. }));
    assert!(matches!(action("set a red #ff"), CliAction::FixtureSet { value: 0xFFFF_FFFF, .. }));
    assert!(matches!(action("set a red #0102"), CliAction::FixtureSet { value: 0x0102_0102, .. }));
    assert!(matches!(action("set a red #010203"), CliAction::FixtureSet { value: 0x0102_0300, .. }));
    assert!(matches!(action("set a red #01020304"), CliAction::FixtureSet { value: 0x0102_0304, .. }));
    match parse_cli_string("set a pan 50%") {
        Ok(ParsedCommand::PercentSet { name, property_type, percent }) => {
            assert_eq!(name, "a");
            assert!(matches!(property_type, PropertyType::Simple(SimplePropertyType::Pan)));
            assert_eq!(percent, "50");
        }
        other => panic!("{:?}", other),
    }
    assert_eq!(parse_error("set a dimmer #123"),
        "Unsupported hex length: 3. Valid lengths are 2, 4, 6, or 8 digits (excluding '_').");
    assert_eq!(parse_error("set a dimmer #zz"), "Invalid hex format zz");
    assert_eq!(parse_error("set a dimmer lots"), "Invalid value lots. ");
    assert_eq!(parse_error("set a glitter 1"), "Error: \"glitter\" is not a valid PropertyType");
}

#[test]
fn value_reader() {
    assert!(matches!(parse_cli_value("  4_2 "), Ok(ParsedValue::Exact(42))));
    assert!(matches!(parse_cli_value("4294967295"), Ok(ParsedValue::Exact(4294967295))));
    assert!(parse_cli_value("4294967296").is_err());
    assert!(matches!(parse_cli_value("12.5%"), Ok(ParsedValue::Percent(ref p)) if p == "12.5"));
}

#[test]
fn property_names() {
    assert!(matches!(parse_property_type("saturation"), Ok(PropertyType::Color(ColorPropertyType::Saturation))));
    assert!(matches!(parse_property_type("other_laser"),
        Ok(PropertyType::Simple(SimplePropertyType::Other(ref s))) if s == "laser"));
    assert_eq!(parse_property_type("Dimmer").unwrap_err(), "Error: \"Dimmer\" is not a valid PropertyType");
}

#[test]
fn parse_new_fixture_type() {
    match action("new wash dimmer 0 dimmer_f 1 red 2 green 3 blue 4") {
        CliAction::FixtureNew { name, channels } => {
            assert_eq!(name, "wash");
            assert_eq!(channels.len(), 4);
            assert!(matches!(channels[0].0, PropertyType::Simple(SimplePropertyType::Dimmer)));
            assert_eq!(channels[0].1.channel_count(), 2);
            assert_eq!(channels[0].1.channel_at(1), (1, 0));
            assert!(matches!(channels[3].0, PropertyType::Color(ColorPropertyType::Blue)));
            assert_eq!(channels[3].1.channel_at(0), (4, 0));
        }
        other => panic!("{:?}", other),
    }
}

#[test]
fn parse_new_fixture_type_errors() {
    assert_eq!(parse_error("new t dimmer x"), "ErrorPenis: \"x\" is not a valid channel-number");
    assert_eq!(parse_error("new t dimmer_f 1"),
        "Error: Cannot add fine channel for 'dimmer' because the coarse channel is missing! Add 'dimmer' first.");
    assert_eq!(parse_error("new t dimmer 0 dimmer 1"), "dimmer can only have one coarse Channel");
    assert_eq!(parse_error("new t dimmer 0 dimmer_f2 1"), "Fine-degree 2 is too high, add the lower ones first");
    assert_eq!(parse_error("new t dimmer 0 dimmer_f 1 dimmer_f1 2"), "Fine-degree 1 already exists");
    assert_eq!(parse_error("new t dimmer 0 dimmer_f9 1"), "Fine-degree 9 out of range, must be lower than 4");
    assert_eq!(parse_error("new t dimmer 0 dimmer_f999 1"), "Error: \"999\" is not a valid fine degree");
    // a name is a fine channel only where what follows `_f` is empty or a number
    assert_eq!(parse_error("new t dimmer 0 dimmer_fx 1"), "Error: \"dimmer_fx\" is not a valid PropertyType");
}

#[test]
fn other_property_with_f_in_its_name() {
    match action("new t other_fx 0") {
        CliAction::FixtureNew { name, channels } => {
            assert_eq!(name, "t");
            assert_eq!(channels.len(), 1);
            assert!(matches!(channels[0].0, PropertyType::Simple(SimplePropertyType::Other(ref s)) if s == "fx"));
            assert_eq!(channels[0].1.channel_count(), 1);
            assert_eq!(channels[0].1.channel_at(0), (0, 0));
        }
        other => panic!("{:?}", other),
    }
    match action("new t other_fx 0 other_fx_f 1") {
        CliAction::FixtureNew { channels, .. } => {
            assert_eq!(channels.len(), 1);
            assert_eq!(channels[0].1.channel_count(), 2);
            assert_eq!(channels[0].1.channel_at(1), (1, 0));
        }
        other => panic!("{:?}", other),
    }
}

#[test]
fn full_layout_cannot_take_a_fourth_fine_channel() {
    assert_eq!(parse_error("new t dimmer 0 dimmer_f 1 dimmer_f2 2 dimmer_f3 3 dimmer_f4 4"),
        "Fine-degree 4 out of range, must be lower than 4");
    assert_eq!(parse_error("new t dimmer 0 dimmer_f4 1"), "Fine-degree 4 out of range, must be lower than 4");
    assert!(parse_command_line("new t dimmer 0 dimmer_f 1 dimmer_f2 2 dimmer_f3 3").is_ok());
}

#[test]
fn kernel_session_replies() {
    let mut k = Kernel::new();
    assert_eq!(reply(&mut k, "new par dimmer 0 red 1 green 2 blue 3"),
        (LogLevel::UserSuccess, "par created successfully".to_string()));
    assert_eq!(reply(&mut k, "new par dimmer 0"),
        (LogLevel::UserError, "Error: The Fixture type name par is already used.".to_string()));
    assert_eq!(reply(&mut k, "add p1 par 0.0"), (LogLevel::UserSuccess, "p1 created successfully".to_string()));
    assert_eq!(reply(&mut k, "add p1 par 0.10"),
        (LogLevel::UserError, "Error: The Fixture name p1 is already used.".to_string()));
    assert_eq!(reply(&mut k, "add p2 spot 0.10"),
        (LogLevel::UserError, "Error: There is no fixture-type named \"spot\".".to_string()));
    assert_eq!(reply(&mut k, "add p2 par 0.3"), (LogLevel::UserError,
        "Error: At least one Channel of this fixture is overlapping with p1, blue. Fixture has not been created."
            .to_string()));
    assert_eq!(reply(&mut k, "add p3 par 0.600"),
        (LogLevel::UserError, "Error: fixture overflows out of this remaining universe".to_string()));
    assert_eq!(reply(&mut k, "add p3 par 0.510"),
        (LogLevel::UserError, "Error: fixture overflows out of this remaining universe".to_string()));
    assert_eq!(reply(&mut k, "move p1 0.509"),
        (LogLevel::UserError, "Error: fixture overflows out of this remaining universe".to_string()));
    assert_eq!(reply(&mut k, "type p1"), (LogLevel::Info, "\"p1\" is a fixture of the type \"par\"".to_string()));
    assert_eq!(reply(&mut k, "type nope"), (LogLevel::UserError, "Error: \"nope\" is not a valid Fixture".to_string()));
    assert_eq!(reply(&mut k, "set p1 dimmer 7"),
        (LogLevel::UserSuccess, "Value dimmer of p1 changed successfully to 7".to_string()));
    assert_eq!(reply(&mut k, "set p1 pan 7"),
        (LogLevel::UserError, "Error: \"p1\" has no property \"pan\"".to_string()));
    assert_eq!(reply(&mut k, "set nope dimmer 7"),
        (LogLevel::UserError, "Error: \"nope\" is not a valid Fixture".to_string()));
    assert_eq!(reply(&mut k, "move p1 1.0"), (LogLevel::UserSuccess, "p1 moved successfully".to_string()));
    assert_eq!(reply(&mut k, "move nope 1.0"),
        (LogLevel::UserError, "Error: There is no fixture named \"nope\".".to_string()));
    assert_eq!(reply(&mut k, "remove p1"), (LogLevel::UserSuccess, "p1 removed successfully".to_string()));
    assert_eq!(reply(&mut k, "remove p1"),
        (LogLevel::UserError, "Error: There is no fixture named \"p1\"".to_string()));
}

#[test]
fn kernel_new_type_errors() {
    let mut k = Kernel::new();
    assert_eq!(reply(&mut k, "new mix red 0 hue 1"), reply(&mut Kernel::new(), "new mix red 0 hue 1"));
    let (level, _) = reply(&mut k, "new mix red 0 hue 1");
    assert_eq!(level, LogLevel::UserError);
    assert_eq!(reply(&mut k, "new o dimmer 0 strobe 0"),
        (LogLevel::UserError, "Error: The channel strobe overlaps with another channel.".to_string()));
    assert_eq!(reply(&mut k, "new far dimmer 512"), (LogLevel::UserError,
        "Error: A Channel is higher than the size of the Universe. This is not yet supported".to_string()));
    assert_eq!(k.registry.len(), 0);
}

#[test]
fn kernel_parse_error_is_user_error() {
    let mut k = Kernel::new();
    assert_eq!(reply(&mut k, "add a b"), (LogLevel::UserError,
        "Error: \"add\" needs a name, a fixture-type and a start-channel (including a start-universe) as arguments"
            .to_string()));
}

#[test]
fn kernel_percent_set() {
    let mut k = Kernel::new();
    reply(&mut k, "new d dimmer 0");
    reply(&mut k, "add d1 d 0.0");
    assert_eq!(reply(&mut k, "set d1 dimmer 100%"),
        (LogLevel::UserSuccess, "Value dimmer of d1 changed successfully to 4294967295".to_string()));
    assert_eq!(reply(&mut k, "set d1 dimmer 150%"),
        (LogLevel::UserError, "\"150\" must be between 0 and 100.".to_string()));
    assert_eq!(reply(&mut k, "set d1 dimmer abc%"),
        (LogLevel::UserError, "Invalid percentage format abc".to_string()));
    let frames = calculate_dmx_values(k.engine.universe_count(), &k.engine.fixture_list());
    assert_eq!(frames[0][0], 0xFF);
}

#[test]
fn kernel_color_set_uses_conversion() {
    let mut k = Kernel::new();
    reply(&mut k, "new rgbw red 0 green 1 blue 2");
    reply(&mut k, "add c rgbw 0.0");
    reply(&mut k, "set c blue #ff");
    let frames = calculate_dmx_values(k.engine.universe_count(), &k.engine.fixture_list());
    assert_eq!(&frames[0][0..3], &[0, 0, 0xFF]);
    reply(&mut k, "set c red #80");
    let frames = calculate_dmx_values(k.engine.universe_count(), &k.engine.fixture_list());
    assert_eq!(&frames[0][0..3], &[0x80, 0, 0xFF]);
}

#[test]
fn exit_only_from_kernel() {
    let mut k = Kernel::new();
    assert!(matches!(k.run_command(true, "exit save", true, &percent, &convert), CliOutcome::Exit(Some(true))));
    assert!(matches!(k.run_command(true, "exit", true, &percent, &convert), CliOutcome::Exit(None)));
    match k.run_command(false, "exit", true, &percent, &convert) {
        CliOutcome::Reply(l, m) => {
            assert_eq!(l, LogLevel::UserError);
            assert_eq!(m, "Only kernel can exit a session");
        }
        other => panic!("{:?}", other),
    }
}

#[test]
fn debug_commands() {
    let mut k = Kernel::new();
    assert_eq!(reply(&mut k, "create_debug"), (LogLevel::UserSuccess, "Created the debug-fixtures".to_string()));
    assert_eq!(k.engine.fixture_list().len(), 50);
    assert_eq!(k.engine.fixture_list()[49].get_start(), (147, 0));
    assert_eq!(reply(&mut k, "set_all green #ff"),
        (LogLevel::UserSuccess, "Set green to 4294967295 in all debug-fixtures".to_string()));
    let frames = calculate_dmx_values(k.engine.universe_count(), &k.engine.fixture_list());
    assert_eq!(frames[0][1], 0xFF);
    assert_eq!(frames[0][148], 0xFF);
    assert_eq!(frames[0][150], 0);
    assert_eq!(reply(&mut k, "set_all glitter 1"),
        (LogLevel::UserError, "Error: \"glitter\" is not a valid PropertyType".to_string()));
    assert_eq!(reply(&mut k, "set_all dimmer 1"),
        (LogLevel::UserError, "Error: \"0\" has no property \"dimmer\"".to_string()));
    assert_eq!(reply(&mut k, "break"), (LogLevel::Info,
        "Add a breakpoint at this point in the code to check the datastructures".to_string()));
    // a second create_debug fails on the fixture type
    assert_eq!(reply(&mut k, "create_debug"),
        (LogLevel::UserError, "Error: The Fixture type name rgb is already used.".to_string()));
}

#[test]
fn debug_commands_disabled() {
    let mut k = Kernel::new();
    match k.run_command(true, "create_debug", false, &percent, &convert) {
        CliOutcome::Reply(l, m) => {
            assert_eq!(l, LogLevel::UserError);
            assert_eq!(m, "Unknown command \"create_debug\". Please enter help, to get a list of commands.");
        }
        other => panic!("{:?}", other),
    }
    assert_eq!(k.engine.fixture_list().len(), 0);
}

#[test]
fn implicit_actions() {
    let mut k = Kernel::new();
    reply(&mut k, "new par dimmer 0");
    let a = action("add x par 0.0");
    assert!(k.action_fits_check(&a));
    assert!(matches!(k.execute_implicit_cli_action(&a, &convert), CliActionResponse::Ack));
    let t = action("type x");
    assert!(matches!(k.execute_implicit_cli_action(&t, &convert), CliActionResponse::FixtureTypeInfo(ref s) if s == "par"));
    let bad = action("remove y");
    assert!(matches!(k.execute_implicit_cli_action(&bad, &convert),
        CliActionResponse::FixtureError(FixtureError::InvalidFixture(ref n)) if n == "y"));
    assert!(matches!(k.execute_implicit_cli_action(&CliAction::Help, &convert), CliActionResponse::UnsupportedCommand));
    let exit = action("exit");
    assert!(matches!(k.execute_implicit_cli_action(&exit, &convert), CliActionResponse::UnsupportedCommand));
}

#[test]
fn help_lists_commands() {
    let mut k = Kernel::new();
    let (level, text) = reply(&mut k, "help");
    assert_eq!(level, LogLevel::UserSuccess);
    assert!(text.starts_with("Commands:"));
    assert!(text.contains("exit [save|discard]"));
}

#[test]
fn exit_prompt_answers() {
    assert_eq!(exit_choice("1\n"), Some(true));
    assert_eq!(exit_choice("  2 "), Some(false));
    assert_eq!(exit_choice("0"), None);
    assert_eq!(exit_choice("12"), None);
    assert_eq!(exit_choice(""), None);
}

#[test]
fn property_names_parse_back_law_on_values() {
    let all = vec![
        PropertyType::Simple(SimplePropertyType::Dimmer),
        PropertyType::Simple(SimplePropertyType::PrismIndexation),
        PropertyType::Simple(SimplePropertyType::GoboRotation),
        PropertyType::Simple(SimplePropertyType::GoboWheelRotationSpeed),
        PropertyType::Simple(SimplePropertyType::FogFanSpeed),
        PropertyType::Simple(SimplePropertyType::UV),
        PropertyType::Simple(SimplePropertyType::Speed),
        PropertyType::Color(ColorPropertyType::Red),
        PropertyType::Color(ColorPropertyType::Yellow),
        PropertyType::Color(ColorPropertyType::Value),
    ];
    for p in all {
        let back = PropertyType::from_str(&p.name()).unwrap();
        assert_eq!(format!("{:?}", back), format!("{:?}", p));
    }
}
