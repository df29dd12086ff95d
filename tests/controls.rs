use maschine_library::controls::{Buttons, PadEventType, ENCODER_TOUCH};
use maschine_library::decoder::{
    decode_controls, decode_pads, encoder_cc_value, encoder_delta, show_slider_chase,
    slider_cc_value, ControlState,
};
use maschine_library::lights::{Brightness, Lights, PadColors};
use maschine_library::midi::MidiMessage;
use maschine_library::settings::Settings;

fn cc(cc: u8, value: u8) -> MidiMessage {
    MidiMessage { status: 0xB0, data1: cc, data2: value }
}

fn controls_report(buttons: &[usize], encoder: u8, slider: u8) -> Vec<u8> {
    let mut r = vec![0u8; 64];
    r[0] = 0x01;
    for &b in buttons {
        r[1 + b / 8] |= 1 << (b % 8);
    }
    r[7] = encoder;
    r[10] = slider;
    r
}

#[test]
fn encoder_delta_wraps_into_signed_range() {
    for prev in 0u8..16 {
        for cur in 0u8..16 {
            let d = ((cur as i32 - prev as i32) % 16 + 16) % 16;
            let expect = if d < 8 { d } else { d - 16 };
            assert_eq!(encoder_delta(prev, cur) as i32, expect);
        }
    }
    assert_eq!(encoder_delta(0, 15), -1);
    assert_eq!(encoder_delta(15, 0), 1);
    assert_eq!(encoder_delta(0, 8), -8);
    assert_eq!(encoder_delta(0, 7), 7);
    assert_eq!(encoder_delta(9, 9), 0);
}

#[test]
fn encoder_value_is_centred_and_clamped() {
    assert_eq!(encoder_cc_value(1), 65);
    assert_eq!(encoder_cc_value(-1), 63);
    assert_eq!(encoder_cc_value(-100), 0);
    assert_eq!(encoder_cc_value(100), 127);
}

#[test]
fn button_edges_send_control_changes() {
    let mut st = ControlState::new();
    let mut lights = Lights::new();
    let (m, changed) = decode_controls(&mut st, &controls_report(&[0, 5], 0, 0), 0, &mut lights);
    assert_eq!(m, vec![cc(20, 127), cc(25, 127)]);
    assert!(!changed);
    let (m, _) = decode_controls(&mut st, &controls_report(&[5], 0, 0), 1, &mut lights);
    assert_eq!(m, vec![cc(20, 0)]);
    let (m, _) = decode_controls(&mut st, &controls_report(&[5], 0, 0), 2, &mut lights);
    assert!(m.is_empty());
    // bits past the last button are ignored
    let (m, _) = decode_controls(&mut st, &controls_report(&[5, 45], 0, 0), 3, &mut lights);
    assert!(m.is_empty());
}

#[test]
fn encoder_touch_window_suppresses_movement() {
    let mut st = ControlState::new();
    let mut lights = Lights::new();
    // first observation only synchronises
    let (m, _) = decode_controls(&mut st, &controls_report(&[], 5, 0), 0, &mut lights);
    assert!(m.is_empty());
    let (m, _) = decode_controls(&mut st, &controls_report(&[], 6, 0), 10, &mut lights);
    assert_eq!(m, vec![cc(1, 65)]);
    // touch rises at t = 1000 with a spurious jump
    let (m, _) = decode_controls(&mut st, &controls_report(&[ENCODER_TOUCH], 9, 0), 1000, &mut lights);
    assert_eq!(m, vec![cc(60, 127)]);
    assert_eq!(st.suppress_until, Some(1120));
    let (m, _) = decode_controls(&mut st, &controls_report(&[ENCODER_TOUCH], 12, 0), 1119, &mut lights);
    assert!(m.is_empty());
    // the window has closed
    let (m, _) = decode_controls(&mut st, &controls_report(&[ENCODER_TOUCH], 13, 0), 1120, &mut lights);
    assert_eq!(m, vec![cc(1, 65)]);
    let (m, _) = decode_controls(&mut st, &controls_report(&[ENCODER_TOUCH], 11, 0), 1130, &mut lights);
    assert_eq!(m, vec![cc(1, 62)]);
}

#[test]
fn slider_ends_and_repeats() {
    assert_eq!(slider_cc_value(1), 0);
    assert_eq!(slider_cc_value(201), 127);
    assert_eq!(slider_cc_value(101), 63);
    let mut st = ControlState::new();
    let mut lights = Lights::new();
    let (m, changed) = decode_controls(&mut st, &controls_report(&[], 0, 1), 0, &mut lights);
    assert_eq!(m, vec![cc(9, 0)]);
    assert!(changed);
    let (m, changed) = decode_controls(&mut st, &controls_report(&[], 0, 1), 1, &mut lights);
    assert!(m.is_empty());
    assert!(!changed);
    let (m, _) = decode_controls(&mut st, &controls_report(&[], 0, 201), 2, &mut lights);
    assert_eq!(m, vec![cc(9, 127)]);
    // an untouched slider reads 0 and sends nothing
    let (m, _) = decode_controls(&mut st, &controls_report(&[], 0, 0), 3, &mut lights);
    assert!(m.is_empty());
}

#[test]
fn slider_chase_lights_one_segment_and_dims_the_previous() {
    let mut lights = Lights::new();
    // (101 - 1 + 5) * 25 / 200 - 1 = 12
    show_slider_chase(&mut lights, 101);
    for i in 0..25 {
        let expect = if i == 12 {
            Brightness::Bright
        } else if i == 11 {
            Brightness::Dim
        } else {
            Brightness::Off
        };
        assert_eq!(lights.get_slider(i), expect);
    }
    show_slider_chase(&mut lights, 1);
    for i in 0..25 {
        assert_eq!(lights.get_slider(i), Brightness::Off);
    }
    show_slider_chase(&mut lights, 201);
    assert_eq!(lights.get_slider(24), Brightness::Bright);
    assert_eq!(lights.get_slider(23), Brightness::Dim);
}

#[test]
fn pad_press_sends_note_on_with_velocity() {
    let notemap = Settings::default().notemaps;
    let mut lights = Lights::new();
    // pad 3, press-on, value 0x140 -> velocity 10
    let (m, changed) = decode_pads(&[0x02, 3, 0x11, 0x40], &notemap, &mut lights);
    assert_eq!(m, vec![MidiMessage { status: 0x90, data1: 51, data2: 10 }]);
    assert!(changed);
    assert_eq!(lights.get_pad(3), (PadColors::Blue, Brightness::Normal));
    // a small nonzero value still gives velocity 1
    let (m, changed) = decode_pads(&[0x02, 4, 0x20, 0x05], &notemap, &mut lights);
    assert_eq!(m, vec![MidiMessage { status: 0x90, data1: 44, data2: 1 }]);
    assert!(changed);
    // release of pad 3
    let (m, _) = decode_pads(&[0x02, 3, 0x30, 0x00], &notemap, &mut lights);
    assert_eq!(m, vec![MidiMessage { status: 0x80, data1: 51, data2: 0 }]);
    assert_eq!(lights.get_pad(3), (PadColors::Blue, Brightness::Off));
    let (m, _) = decode_pads(&[0x02, 4, 0x40, 0x00], &notemap, &mut lights);
    assert_eq!(m, vec![MidiMessage { status: 0x80, data1: 44, data2: 0 }]);
}

#[test]
fn pad_records_stop_at_zero_record_and_skip_unknown() {
    let notemap = Settings::default().notemaps;
    let mut lights = Lights::new();
    let report = [
        0x02, 0, 0x10, 0x20, // pad 0 press, value 32 -> velocity 1
        1, 0x70, 0x00, // unknown event code: skipped
        0, 0, 0, // terminator
        2, 0x10, 0x40, // not reached
    ];
    let (m, _) = decode_pads(&report, &notemap, &mut lights);
    assert_eq!(m, vec![MidiMessage { status: 0x90, data1: 48, data2: 1 }]);
    assert_eq!(lights.get_pad(2), (PadColors::Off, Brightness::Off));
    // a first record of all zeros does not end the report
    let (m, _) = decode_pads(&[0x02, 0, 0, 0, 1, 0x10, 0x40], &notemap, &mut lights);
    assert_eq!(m, vec![MidiMessage { status: 0x90, data1: 49, data2: 2 }]);
}

#[test]
fn aftertouch_changes_brightness_only_on_change() {
    let notemap = Settings::default().notemaps;
    let mut lights = Lights::new();
    let (m, changed) = decode_pads(&[0x02, 7, 0x50, 0x10], &notemap, &mut lights);
    assert!(m.is_empty());
    assert!(changed);
    let (_, changed) = decode_pads(&[0x02, 7, 0x50, 0x20], &notemap, &mut lights);
    assert!(!changed);
    let (_, changed) = decode_pads(&[0x02, 7, 0x50, 0x00], &notemap, &mut lights);
    assert!(changed);
    assert_eq!(lights.get_pad(7).1, Brightness::Off);
}

#[test]
fn short_pad_reports_do_nothing() {
    let notemap = Settings::default().notemaps;
    let mut lights = Lights::new();
    let (m, changed) = decode_pads(&[0x02, 3, 0x10], &notemap, &mut lights);
    assert!(m.is_empty());
    assert!(!changed);
    // pad index past the last pad is ignored
    let (m, _) = decode_pads(&[0x02, 16, 0x10, 0x40], &notemap, &mut lights);
    assert!(m.is_empty());
}

#[test]
fn button_and_event_lookup() {
    assert_eq!(Buttons::from_index(40), Some(Buttons::EncoderTouch));
    assert_eq!(Buttons::from_index(0), Some(Buttons::Maschine));
    assert_eq!(Buttons::from_index(41), None);
    assert_eq!(Buttons::Mute.index(), 38);
    assert_eq!(PadEventType::from_code(0x10), Some(PadEventType::PressOn));
    assert_eq!(PadEventType::from_code(0x00), None);
}
