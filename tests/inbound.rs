use maschine_library::controls::Buttons;
use maschine_library::decoder::ControlState;
use maschine_library::display::render_screen_text;
use maschine_library::inbound::{handle_midi, handle_sysex, pad_of_note};
use maschine_library::lights::{Brightness, Lights, PadColors};
use maschine_library::midi::{cc_brightness, control_change, note_on_off, velocity_to_color, MidiMessage};
use maschine_library::screen::Screen;
use maschine_library::settings::Settings;
use maschine_library::sync::DeviceState;

fn notemap() -> Vec<u8> {
    Settings::default().notemaps
}

#[test]
fn velocity_bands_pick_colors() {
    assert_eq!(velocity_to_color(0), PadColors::Off);
    assert_eq!(velocity_to_color(1), PadColors::Red);
    assert_eq!(velocity_to_color(7), PadColors::Red);
    assert_eq!(velocity_to_color(8), PadColors::Orange);
    assert_eq!(velocity_to_color(64), PadColors::Turquoise);
    assert_eq!(velocity_to_color(112), PadColors::Fuchsia);
    assert_eq!(velocity_to_color(113), PadColors::White);
    assert_eq!(velocity_to_color(127), PadColors::White);
}

#[test]
fn controller_values_pick_brightness() {
    assert_eq!(cc_brightness(0), Brightness::Off);
    assert_eq!(cc_brightness(1), Brightness::Dim);
    assert_eq!(cc_brightness(42), Brightness::Dim);
    assert_eq!(cc_brightness(43), Brightness::Normal);
    assert_eq!(cc_brightness(84), Brightness::Normal);
    assert_eq!(cc_brightness(85), Brightness::Bright);
    assert_eq!(cc_brightness(127), Brightness::Bright);
}

#[test]
fn outbound_messages() {
    assert_eq!(control_change(20, 127).to_bytes(), [0xB0, 20, 127]);
    assert_eq!(note_on_off(36, 100, true).to_bytes(), [0x90, 36, 100]);
    assert_eq!(note_on_off(36, 0, true).to_bytes(), [0x80, 36, 0]);
    assert_eq!(note_on_off(36, 5, false), MidiMessage { status: 0x80, data1: 36, data2: 5 });
}

#[test]
fn note_on_colors_the_pad() {
    let mut l = Lights::new();
    let nm = notemap();
    assert_eq!(pad_of_note(&nm, 36), Some(12));
    assert_eq!(pad_of_note(&nm, 60), None);
    assert!(handle_midi(&mut l, &nm, None, &[0x90, 36, 64]));
    assert_eq!(l.get_pad(12), (PadColors::Turquoise, Brightness::Normal));
    assert!(handle_midi(&mut l, &nm, None, &[0x90, 36, 0]));
    assert_eq!(l.get_pad(12), (PadColors::Off, Brightness::Off));
    assert!(handle_midi(&mut l, &nm, None, &[0x90, 36, 1]));
    assert!(handle_midi(&mut l, &nm, None, &[0x80, 36, 64]));
    assert_eq!(l.get_pad(12), (PadColors::Off, Brightness::Off));
}

#[test]
fn ignored_midi_messages() {
    let mut l = Lights::new();
    let nm = notemap();
    // another channel
    assert!(!handle_midi(&mut l, &nm, None, &[0x91, 36, 64]));
    // a note outside the map
    assert!(!handle_midi(&mut l, &nm, None, &[0x90, 60, 64]));
    // too short
    assert!(!handle_midi(&mut l, &nm, None, &[0x90, 36]));
    // a controller below the buttons, and one past them
    assert!(!handle_midi(&mut l, &nm, None, &[0xB0, 19, 127]));
    assert!(!handle_midi(&mut l, &nm, None, &[0xB0, 61, 127]));
    // the encoder's touch has no LED
    assert!(!handle_midi(&mut l, &nm, None, &[0xB0, 60, 127]));
    // program change
    assert!(!handle_midi(&mut l, &nm, None, &[0xC0, 1, 1]));
    assert_eq!(l.report(), Lights::new().report());
}

#[test]
fn controller_sets_button_brightness() {
    let mut l = Lights::new();
    let nm = notemap();
    assert!(handle_midi(&mut l, &nm, None, &[0xB0, 42, 100]));
    assert_eq!(l.get_button(Buttons::Play), Brightness::Bright);
    assert!(handle_midi(&mut l, &nm, None, &[0xB0, 42, 0]));
    assert_eq!(l.get_button(Buttons::Play), Brightness::Off);
}

#[test]
fn night_mode_turns_off_into_backlight() {
    let mut l = Lights::new();
    let nm = notemap();
    assert!(handle_midi(&mut l, &nm, Some(Brightness::Dim), &[0xB0, 42, 0]));
    assert_eq!(l.get_button(Buttons::Play), Brightness::Dim);
    assert!(handle_midi(&mut l, &nm, Some(Brightness::Dim), &[0xB0, 42, 50]));
    assert_eq!(l.get_button(Buttons::Play), Brightness::Normal);
}

#[test]
fn sysex_clear_blanks_the_display() {
    let mut s = Screen::new();
    render_screen_text(&mut s, "AB");
    assert!(handle_sysex(&mut s, &[0xF0, 0x00, 0x21, 0x09, 0x02, 0xF7]));
    assert_eq!(s.transactions(), Screen::new().transactions());
}

#[test]
fn malformed_sysex_leaves_display() {
    let mut s = Screen::new();
    render_screen_text(&mut s, "AB");
    let before = s.transactions();
    assert!(!handle_sysex(&mut s, &[0xF0, 0x00, 0x21, 0x0A, 0x02, 0xF7]));
    assert!(!handle_sysex(&mut s, &[0xF0, 0x00, 0x21, 0x09, 0x02]));
    assert!(!handle_sysex(&mut s, &[0xF0, 0x00, 0x21, 0x09, 0x07, 0xF7]));
    assert_eq!(s.transactions(), before);
}

#[test]
fn sysex_text_is_rendered_centred() {
    let mut s = Screen::new();
    assert!(handle_sysex(&mut s, &[0xF0, 0x00, 0x21, 0x09, 0x01, b'H', b'I', 0xF7]));
    let mut expect = Screen::new();
    render_screen_text(&mut expect, "HI");
    assert_eq!(s.transactions(), expect.transactions());
    assert_ne!(s.transactions(), Screen::new().transactions());
}

#[test]
fn invalid_utf8_text_is_replaced() {
    let mut s = Screen::new();
    assert!(handle_sysex(&mut s, &[0xF0, 0x00, 0x21, 0x09, 0x01, b'A', 0xFF, 0xF7]));
    let mut expect = Screen::new();
    render_screen_text(&mut expect, "A\u{FFFD}");
    assert_eq!(s.transactions(), expect.transactions());
}

#[test]
fn led_report_layout() {
    let mut l = Lights::new();
    l.set_button(Buttons::Maschine, Brightness::Bright);
    l.set_pad(0, PadColors::Red, Brightness::Normal);
    l.set_slider(24, Brightness::Dim);
    let r = l.report();
    assert_eq!(r.len(), 81);
    assert_eq!(r[0], 0x80);
    assert_eq!(r[1], 0x7f);
    assert_eq!(r[40], 1 * 4 + 2);
    assert_eq!(r[80], 0x7c);
    l.reset();
    assert!(l.report()[1..].iter().all(|b| *b == 0));
}

#[test]
fn two_changes_between_polls_give_one_write_of_the_latest() {
    let nm = notemap();
    let mut d = DeviceState::new();
    let mut st = ControlState::new();
    d.receive(&nm, None, &[0x90, 36, 10]);
    d.receive(&nm, None, &[0x90, 37, 100]);
    let out = d.step(&mut st, &[], 5, &nm);
    assert_eq!(out.lights, Some(d.lights.report()));
    assert_eq!(d.lights.get_pad(12), (PadColors::Orange, Brightness::Normal));
    assert_eq!(d.lights.get_pad(13), (PadColors::Magenta, Brightness::Normal));
    assert!(out.screen.is_none());
    let out = d.step(&mut st, &[], 6, &nm);
    assert!(out.lights.is_none());
    assert!(out.messages.is_empty());
}

#[test]
fn step_writes_screen_once_after_sysex() {
    let nm = notemap();
    let mut d = DeviceState::new();
    let mut st = ControlState::new();
    d.receive(&nm, None, &[0xF0, 0x00, 0x21, 0x09, 0x01, b'O', b'K', 0xF7]);
    let out = d.step(&mut st, &[], 0, &nm);
    assert_eq!(out.screen, Some(d.screen.transactions()));
    assert!(out.lights.is_none());
    let out = d.step(&mut st, &[], 1, &nm);
    assert!(out.screen.is_none());
}

#[test]
fn step_decodes_reports() {
    let nm = notemap();
    let mut d = DeviceState::new();
    let mut st = ControlState::new();
    let mut report = vec![0u8; 64];
    report[0] = 0x01;
    report[10] = 201;
    let out = d.step(&mut st, &report, 0, &nm);
    assert_eq!(out.messages, vec![control_change(9, 127)]);
    assert_eq!(out.lights, Some(d.lights.report()));
    let out = d.step(&mut st, &[0x02, 0, 0x10, 0x40], 1, &nm);
    assert_eq!(out.messages, vec![note_on_off(48, 2, true)]);
    // too short to be a controls report
    let out = d.step(&mut st, &[0x01, 1], 2, &nm);
    assert!(out.messages.is_empty());
    assert!(out.lights.is_none());
}

#[test]
fn backlight_fills_buttons_that_are_off() {
    let mut l = Lights::new();
    l.set_button(Buttons::Play, Brightness::Bright);
    assert!(l.apply_backlight(Brightness::Dim));
    assert_eq!(l.get_button(Buttons::Play), Brightness::Bright);
    assert_eq!(l.get_button(Buttons::Maschine), Brightness::Dim);
    assert_eq!(l.get_button(Buttons::Mute), Brightness::Dim);
    // the encoder has no LED
    assert_eq!(l.get_button(Buttons::EncoderTouch), Brightness::Off);
    assert!(!l.apply_backlight(Brightness::Dim));
}

#[test]
fn led_changes_coalesce_across_a_controls_report() {
    let nm = notemap();
    let mut d = DeviceState::new();
    let mut st = ControlState::new();
    let mut report = vec![0u8; 64];
    report[0] = 0x01;
    d.step(&mut st, &report, 0, &nm);
    d.receive(&nm, None, &[0x90, 36, 10]);
    d.receive(&nm, None, &[0x90, 36, 100]);
    let out = d.step(&mut st, &report, 1, &nm);
    assert_eq!(out.lights, Some(d.lights.report()));
    assert_eq!(d.lights.get_pad(12), (PadColors::Magenta, Brightness::Normal));
    let out = d.step(&mut st, &report, 2, &nm);
    assert!(out.lights.is_none());
}
