use smrec::action::Action;
use smrec::error::ConfigError;
use smrec::midi::parse::parse_midi_config;
use smrec::midi::{
    acknowledgements, all_addressable, bind_ports, find_ports, get_channel, get_message_type,
    make_cc_message, read_mapping, triggered_actions, Binding, MessageType, Midi, MidiConfig,
};

fn names(list: &[&str]) -> Vec<String> {
    list.iter().map(|s| s.to_string()).collect()
}

#[test]
fn glob() {
    assert!(glob_match::glob_match(
        "Behring*",
        "Behringer UMC1820 192k:192k"
    ));
    assert_eq!(
        find_ports("Behring*", &names(&["Behringer UMC1820 192k:192k"])),
        Ok(vec![0])
    );
}

#[test]
fn a_port_is_mapped_and_its_control_changes_trigger() {
    let config = parse_midi_config("[Port A[(1,10,11)]]").unwrap();
    let bound = bind_ports(&config, &names(&["Port A"])).unwrap();
    assert_eq!(
        bound,
        vec![Binding {
            port: 0,
            triples: vec![(1, 10, 11)]
        }]
    );
    let triples = &bound[0].triples;
    assert_eq!(triggered_actions(&[0xB1, 10, 127], triples), vec![Action::Start]);
    assert_eq!(triggered_actions(&[0xB1, 11, 127], triples), vec![Action::Stop]);
    assert_eq!(triggered_actions(&[0xB2, 10, 127], triples), vec![]);
}

#[test]
fn only_a_fully_engaged_control_change_triggers() {
    let triples = vec![(1, 10, 11), (255, 10, 11)];
    assert_eq!(triggered_actions(&[0xB1, 10, 126], &triples), vec![]);
    assert_eq!(triggered_actions(&[0xB1, 10, 0], &triples), vec![]);
    assert_eq!(triggered_actions(&[0x91, 10, 127], &triples), vec![]);
    assert_eq!(triggered_actions(&[0xC1, 10, 127], &triples), vec![]);
    assert_eq!(triggered_actions(&[0xB1, 10], &triples), vec![]);
    assert_eq!(triggered_actions(&[0xB1], &triples), vec![]);
    assert_eq!(triggered_actions(&[], &triples), vec![]);
    assert_eq!(triggered_actions(&[0xB1, 12, 127], &triples), vec![]);
    assert_eq!(
        triggered_actions(&[0xB1, 10, 127, 99], &triples),
        vec![Action::Start, Action::Start]
    );
}

#[test]
fn a_wildcard_triple_fires_on_every_channel() {
    let triples = vec![(255, 16, 17)];
    for channel in 0..16u8 {
        assert_eq!(
            triggered_actions(&[0xB0 + channel, 16, 127], &triples),
            vec![Action::Start]
        );
        assert_eq!(
            triggered_actions(&[0xB0 + channel, 17, 127], &triples),
            vec![Action::Stop]
        );
    }
}

#[test]
fn an_exact_triple_fires_on_its_channel_only() {
    let triples = vec![(5, 16, 17)];
    for channel in 0..16u8 {
        let expected = if channel == 5 { vec![Action::Start] } else { vec![] };
        assert_eq!(triggered_actions(&[0xB0 + channel, 16, 127], &triples), expected);
    }
}

#[test]
fn exact_and_wildcard_triples_fire_independently() {
    let triples = vec![(255, 7, 8), (3, 7, 9), (3, 1, 7), (4, 7, 7), (255, 8, 7)];
    assert_eq!(
        triggered_actions(&[0xB3, 7, 127], &triples),
        vec![Action::Start, Action::Stop, Action::Start, Action::Stop]
    );
    assert_eq!(
        triggered_actions(&[0xB4, 7, 127], &triples),
        vec![Action::Start, Action::Stop, Action::Start, Action::Stop]
    );
    assert_eq!(
        triggered_actions(&[0xB0, 8, 127], &triples),
        vec![Action::Stop, Action::Start]
    );
}

#[test]
fn a_channel_above_fifteen_never_matches() {
    let triples = vec![(16, 7, 8), (200, 7, 8)];
    for channel in 0..16u8 {
        assert_eq!(triggered_actions(&[0xB0 + channel, 7, 127], &triples), vec![]);
    }
}

#[test]
fn message_types_by_status() {
    assert_eq!(get_message_type(&[0x80]), MessageType::NoteOff);
    assert_eq!(get_message_type(&[0x9F, 1, 2]), MessageType::NoteOn);
    assert_eq!(get_message_type(&[0xA3]), MessageType::PolyphonicAfterTouch);
    assert_eq!(get_message_type(&[0xB0]), MessageType::ControlChange);
    assert_eq!(get_message_type(&[0xBF]), MessageType::ControlChange);
    assert_eq!(get_message_type(&[0xC7]), MessageType::ProgramChange);
    assert_eq!(get_message_type(&[0xD1]), MessageType::AfterTouch);
    assert_eq!(get_message_type(&[0xE0]), MessageType::PitchBendChange);
    assert_eq!(get_message_type(&[0xF8]), MessageType::Ignored);
    assert_eq!(get_message_type(&[0x00]), MessageType::Ignored);
    assert_eq!(get_message_type(&[0x7F]), MessageType::Ignored);
}

#[test]
fn channel_is_the_low_half_of_the_status() {
    assert_eq!(get_channel(&[0xB0]), 0);
    assert_eq!(get_channel(&[0xB9, 1, 2]), 9);
    assert_eq!(get_channel(&[0x9F]), 15);
    assert_eq!(get_channel(&[0x05]), 5);
}

#[test]
fn control_change_bytes() {
    assert_eq!(make_cc_message(0, 16, 127), [0xB0, 16, 127]);
    assert_eq!(make_cc_message(15, 0, 0), [0xBF, 0, 0]);
    assert_eq!(make_cc_message(3, 255, 1), [0xB3, 255, 1]);
    let message = make_cc_message(7, 20, 127);
    assert_eq!(get_message_type(&message), MessageType::ControlChange);
    assert_eq!(get_channel(&message), 7);
}

#[test]
fn acknowledgements_use_the_start_or_the_stop_controller() {
    let triples = vec![(1, 10, 11), (15, 20, 21)];
    assert_eq!(
        acknowledgements(&Action::Start, &triples),
        vec![[0xB1, 10, 127], [0xBF, 20, 127]]
    );
    assert_eq!(
        acknowledgements(&Action::Stop, &triples),
        vec![[0xB1, 11, 127], [0xBF, 21, 127]]
    );
    assert_eq!(
        acknowledgements(&Action::Error("no".to_string()), &triples),
        Vec::<[u8; 3]>::new()
    );
    assert_eq!(acknowledgements(&Action::Start, &vec![]), Vec::<[u8; 3]>::new());
}

#[test]
fn a_wildcard_is_acknowledged_on_all_sixteen_channels() {
    let sent = acknowledgements(&Action::Start, &vec![(255, 16, 17), (2, 3, 4)]);
    assert_eq!(sent.len(), 17);
    for channel in 0..16u8 {
        assert_eq!(sent[channel as usize], [0xB0 + channel, 16, 127]);
    }
    assert_eq!(sent[16], [0xB2, 3, 127]);
    let sent = acknowledgements(&Action::Stop, &vec![(255, 16, 17)]);
    assert_eq!(sent.len(), 16);
    assert_eq!(sent[0], [0xB0, 17, 127]);
    assert_eq!(sent[15], [0xBF, 17, 127]);
}

#[test]
fn addressable_channels() {
    assert!(all_addressable(&vec![]));
    assert!(all_addressable(&vec![(0, 1, 2), (15, 1, 2), (255, 1, 2)]));
    assert!(!all_addressable(&vec![(0, 1, 2), (16, 1, 2)]));
    assert!(!all_addressable(&vec![(254, 1, 2)]));
}

#[test]
fn ports_are_found_by_pattern() {
    let ports = names(&["Port A", "Port B", "Other", "port a"]);
    assert_eq!(find_ports("Port*", &ports), Ok(vec![0, 1]));
    assert_eq!(find_ports("*", &ports), Ok(vec![0, 1, 2, 3]));
    assert_eq!(find_ports("Other", &ports), Ok(vec![2]));
    assert_eq!(find_ports("*a", &ports), Ok(vec![3]));
    assert_eq!(find_ports("Port ?", &ports), Ok(vec![0, 1]));
    assert_eq!(
        find_ports("Nothing*", &ports),
        Err(ConfigError::NoMatchingPort("Nothing*".to_string()))
    );
    assert_eq!(
        find_ports("*", &vec![]),
        Err(ConfigError::NoMatchingPort("*".to_string()))
    );
}

#[test]
fn a_mapping_is_bound_to_every_port_that_matches() {
    let config = parse_midi_config("[Port*[(1,2,3)], Other[(4,5,6), (*,7,8)]]").unwrap();
    let ports = names(&["Port A", "Other", "Port B"]);
    assert_eq!(
        bind_ports(&config, &ports),
        Ok(vec![
            Binding { port: 0, triples: vec![(1, 2, 3)] },
            Binding { port: 2, triples: vec![(1, 2, 3)] },
            Binding { port: 1, triples: vec![(4, 5, 6), (255, 7, 8)] },
        ])
    );
}

#[test]
fn a_pattern_without_a_port_is_fatal() {
    let config = parse_midi_config("[Port*[(1,2,3)], Missing[(4,5,6)], Gone[(4,5,6)]]").unwrap();
    let ports = names(&["Port A", "Other"]);
    assert_eq!(
        bind_ports(&config, &ports),
        Err(ConfigError::NoMatchingPort("Missing".to_string()))
    );
    assert_eq!(bind_ports(&MidiConfig::new(), &ports), Ok(vec![]));
}

#[test]
fn the_default_mapping_listens_everywhere() {
    let midi = Midi::new(&[]).unwrap();
    let config = midi.input_config();
    assert_eq!(config.len(), 1);
    assert_eq!(config.name(0), "*");
    assert_eq!(config.triples(0), &vec![(255, 16, 17)]);
    assert_eq!(config.render(), "[*[(*,16,17)]]");
    assert!(midi.output_config().is_none());
    let listening = midi.listen(&names(&["a", "b"]), &vec![]).unwrap();
    assert_eq!(
        listening.inputs,
        vec![
            Binding { port: 0, triples: vec![(255, 16, 17)] },
            Binding { port: 1, triples: vec![(255, 16, 17)] },
        ]
    );
    assert_eq!(listening.outputs, None);
}

#[test]
fn the_mappings_are_read_from_the_arguments() {
    let midi = Midi::new(&names(&["[in[(1,2,3)]]", "[out*[(4,5,6)]]"])).unwrap();
    assert_eq!(midi.input_config().get("in"), Some(&vec![(1, 2, 3)]));
    assert_eq!(midi.output_config().unwrap().get("out*"), Some(&vec![(4, 5, 6)]));
    let listening = midi
        .listen(&names(&["x", "in"]), &names(&["out 1", "out 2"]))
        .unwrap();
    assert_eq!(listening.inputs, vec![Binding { port: 1, triples: vec![(1, 2, 3)] }]);
    assert_eq!(
        listening.outputs,
        Some(vec![
            Binding { port: 0, triples: vec![(4, 5, 6)] },
            Binding { port: 1, triples: vec![(4, 5, 6)] },
        ])
    );
    assert_eq!(
        midi.listen(&names(&["in"]), &names(&["nothing"])),
        Err(ConfigError::NoMatchingPort("out*".to_string()))
    );
    assert_eq!(
        midi.listen(&names(&["nothing"]), &names(&["nothing"])),
        Err(ConfigError::NoMatchingPort("in".to_string()))
    );
}

#[test]
fn a_malformed_mapping_argument_is_an_error() {
    assert_eq!(
        Midi::new(&names(&["[in[(1,2,3)]"])),
        Err(ConfigError::Syntax("".to_string()))
    );
    assert_eq!(
        Midi::new(&names(&["[in[(1,2,3)]]", "nonsense"])),
        Err(ConfigError::Syntax("nonsense".to_string()))
    );
    assert_eq!(
        Midi::new(&names(&["oops", "nonsense"])),
        Err(ConfigError::Syntax("oops".to_string()))
    );
}

#[test]
fn a_mapping_is_parsed_from_a_string() {
    let config: MidiConfig = "[a[(1,2,3)], b[(*,4,5)]]".parse().unwrap();
    assert_eq!(config, parse_midi_config("[ a [(1,2,3)],b[(255,4,5)] ]").unwrap());
    assert_eq!(
        "[a".parse::<MidiConfig>(),
        Err(ConfigError::Syntax("a".to_string()))
    );
}

#[test]
fn a_mapping_is_built_by_hand() {
    let mut config = MidiConfig::new();
    assert_eq!(config.len(), 0);
    config.insert("a".to_string(), vec![(1, 2, 3)]);
    config.insert("b".to_string(), vec![]);
    config.insert("a".to_string(), vec![(4, 5, 6), (255, 0, 0)]);
    assert_eq!(config.len(), 2);
    assert_eq!(config.position("a"), Some(0));
    assert_eq!(config.position("b"), Some(1));
    assert_eq!(config.position("c"), None);
    assert_eq!(config.get("a"), Some(&vec![(4, 5, 6), (255, 0, 0)]));
    assert_eq!(config.render(), "[a[(4,5,6),(*,0,0)],b[]]");
}

#[test]
fn patterns_of_every_kind_are_searched_with() {
    let pieces = [
        "*", "**", "?", "[", "]", "{", "}", ",", "!", "\\", "/", "-", "^", "a", "b", "Port", " ",
        "[a-c]", "{a,b}", "**/", "/**", "\u{e9}", "{{{{{{{{{{{{", "}}}}",
    ];
    let mut state = 99u64;
    let mut next = move || {
        state = state.wrapping_mul(6364136223846793005).wrapping_add(1442695040888963407);
        (state >> 33) as usize
    };
    for _ in 0..20000 {
        let mut pattern = String::new();
        for _ in 0..next() % 8 {
            pattern.push_str(pieces[next() % pieces.len()]);
        }
        let mut ports = Vec::new();
        for _ in 0..next() % 4 {
            let mut name = String::new();
            for _ in 0..next() % 6 {
                name.push_str(pieces[next() % pieces.len()]);
            }
            ports.push(name);
        }
        let expected: Vec<usize> = (0..ports.len())
            .filter(|i| pattern == "*" || glob_match::glob_match(&pattern, &ports[*i]))
            .collect();
        match find_ports(&pattern, &ports) {
            Ok(found) => assert_eq!(found, expected),
            Err(e) => {
                assert!(expected.is_empty());
                assert_eq!(e, ConfigError::NoMatchingPort(pattern.clone()));
            }
        }
    }
}

#[test]
fn the_pattern_star_matches_every_port() {
    let ports = names(&["USB MIDI 1/2", "USB MIDI", "", "a\\b/c[d]"]);
    assert_eq!(find_ports("*", &ports), Ok(vec![0, 1, 2, 3]));
    assert_eq!(
        find_ports("*", &vec![]),
        Err(ConfigError::NoMatchingPort("*".to_string()))
    );
    let midi = Midi::new(&[]).unwrap();
    let listening = midi.listen(&ports, &vec![]).unwrap();
    assert_eq!(listening.inputs.len(), 4);
}

#[test]
fn a_star_within_a_pattern_stops_at_a_slash() {
    let ports = names(&["USB MIDI 1/2", "USB MIDI"]);
    assert_eq!(find_ports("USB*", &ports), Ok(vec![1]));
    assert_eq!(find_ports("*MIDI*", &ports), Ok(vec![1]));
    assert_eq!(find_ports("**", &ports), Ok(vec![0, 1]));
    assert_eq!(find_ports("USB MIDI 1/*", &ports), Ok(vec![0]));
}

#[test]
fn a_channel_that_is_none_of_the_sixteen_is_refused() {
    assert_eq!(
        Midi::new(&names(&["[a[(1,2,3),(16,2,3),(17,2,3)]]"])),
        Err(ConfigError::NoSuchMidiChannel(16))
    );
    assert_eq!(
        Midi::new(&names(&["[a[(15,2,3)], b[(0,2,3), (254,2,3)]]"])),
        Err(ConfigError::NoSuchMidiChannel(254))
    );
    assert_eq!(
        Midi::new(&names(&["[a[(1,2,3)]]", "[out[(*,1,2),(200,1,2)]]"])),
        Err(ConfigError::NoSuchMidiChannel(200))
    );
    assert_eq!(
        Midi::new(&names(&["[a[(99,2,3)]]", "nonsense"])),
        Err(ConfigError::NoSuchMidiChannel(99))
    );
    assert_eq!(
        Midi::new(&names(&["[a[(1,2,3)]] x", "[out[(99,1,2)]]"])),
        Err(ConfigError::Syntax("x".to_string()))
    );
    assert_eq!(
        read_mapping("[a[(16,2,3)]]"),
        Err(ConfigError::NoSuchMidiChannel(16))
    );
    let midi = Midi::new(&names(&["[a[(0,2,3),(15,200,255),(255,0,0),(*,1,1)]]"])).unwrap();
    assert_eq!(
        midi.input_config().get("a"),
        Some(&vec![(0, 2, 3), (15, 200, 255), (255, 0, 0), (255, 1, 1)])
    );
}

#[test]
fn every_binding_can_be_acknowledged_on() {
    let midi = Midi::new(&names(&["[*[(*,16,17)]]", "[o*[(*,1,2),(15,3,4)]]"])).unwrap();
    let listening = midi.listen(&names(&["in"]), &names(&["o1", "o2"])).unwrap();
    let mut sent = 0;
    for binding in listening.outputs.unwrap() {
        assert!(all_addressable(&binding.triples));
        sent += acknowledgements(&Action::Start, &binding.triples).len();
    }
    assert_eq!(sent, 2 * 17);
}
