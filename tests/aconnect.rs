use maschine_library::aconnect::{choose_bridge, parse_aconnect_list, BridgeError, SeqPort};
use maschine_library::settings::Settings;

const LISTING: &str = "client 0: 'System' [type=kernel]\n    0 'Timer           '\n    1 'Announce        '\nclient 14: 'Midi Through' [type=kernel]\n    0 'Midi Through Port-0'\nclient 24: 'Virtual Raw MIDI 1-0' [type=kernel,card=1]\n    0 'VirMIDI 1-0     '\nclient 128: 'Maschine Mikro MK3' [type=user,pid=4242]\n    0 'Maschine Mikro MK3 MIDI Out'\nclient 129: 'Maschine Mikro MK3 In' [type=user,pid=4242]\n    0 'Maschine Mikro MK3 MIDI In'\n";

fn port(p: &SeqPort) -> (u32, u32, &str, &str) {
    (p.client_id, p.port_id, p.client_name.as_str(), p.port_name.as_str())
}

#[test]
fn listing_is_parsed_into_ports() {
    let ports = parse_aconnect_list(LISTING);
    let got: Vec<_> = ports.iter().map(port).collect();
    assert_eq!(
        got,
        vec![
            (0, 0, "System", "Timer           "),
            (0, 1, "System", "Announce        "),
            (14, 0, "Midi Through", "Midi Through Port-0"),
            (24, 0, "Virtual Raw MIDI 1-0", "VirMIDI 1-0     "),
            (128, 0, "Maschine Mikro MK3", "Maschine Mikro MK3 MIDI Out"),
            (129, 0, "Maschine Mikro MK3 In", "Maschine Mikro MK3 MIDI In"),
        ]
    );
}

#[test]
fn lines_without_client_or_quote_are_skipped() {
    let text = "    0 'orphan'\nclient x: 'Bad id'\n    1 'under a bad id'\nclient 20 'no colon'\n    2 'under no name'\nclient 21: 'Good'\n\tConnecting To: 14:0\n    3 no quote\n    4 'ok'\r\n";
    let ports = parse_aconnect_list(text);
    let got: Vec<_> = ports.iter().map(port).collect();
    assert_eq!(got, vec![(21, 4, "Good", "ok")]);
    assert!(parse_aconnect_list("").is_empty());
}

#[test]
fn bridge_is_chosen_from_listing() {
    let ports = parse_aconnect_list(LISTING);
    let b = choose_bridge(&ports, &Settings::default()).ok().unwrap();
    assert_eq!(port(&b.driver_out), (128, 0, "Maschine Mikro MK3", "Maschine Mikro MK3 MIDI Out"));
    assert_eq!(port(&b.driver_in), (129, 0, "Maschine Mikro MK3 In", "Maschine Mikro MK3 MIDI In"));
    assert_eq!(port(&b.virmidi), (24, 0, "Virtual Raw MIDI 1-0", "VirMIDI 1-0     "));
}

#[test]
fn bridge_errors_name_the_missing_role() {
    let ports = parse_aconnect_list(LISTING);
    let mut s = Settings::default();
    s.port_name = "Other".to_string();
    assert_eq!(choose_bridge(&ports, &s).err(), Some(BridgeError::NoDriverOutput));

    let mut s = Settings::default();
    s.port_name_in = "Other".to_string();
    assert_eq!(choose_bridge(&ports, &s).err(), Some(BridgeError::NoDriverInput));

    let mut s = Settings::default();
    s.virmidi_client_name = "Virtual Raw MIDI 2-0".to_string();
    assert_eq!(choose_bridge(&ports, &s).err(), Some(BridgeError::NoVirmidiClient));

    let mut s = Settings::default();
    s.virmidi_port = 1;
    assert_eq!(choose_bridge(&ports, &s).err(), Some(BridgeError::NoVirmidiPort));

    let mut s = Settings::default();
    s.virmidi_client_name = "  Virtual Raw MIDI 1-0 ".to_string();
    assert_eq!(choose_bridge(&ports, &s).err(), Some(BridgeError::NoVirmidiClient));
    s.virmidi_client_name = "Virtual Raw MIDI 1-0".to_string();
    assert!(choose_bridge(&ports, &s).is_ok());
    assert!(!BridgeError::NoVirmidiPort.message().is_empty());
}
