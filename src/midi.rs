use vstd::prelude::*;
use crate::lights::{palette, Brightness, PadColors};

verus! {

/// Status byte of a Control-Change on channel 0.
pub const STATUS_CC: u8 = 0xB0;

/// Status byte of a Note-On on channel 0.
pub const STATUS_NOTE_ON: u8 = 0x90;

/// Status byte of a Note-Off on channel 0.
pub const STATUS_NOTE_OFF: u8 = 0x80;

/// Controller of the first button; button `i` sends controller `20 + i`.
pub const BUTTON_CC_OFFSET: u8 = 20;

/// Controller of the encoder, in relative mode centred on 64.
pub const ENCODER_CC: u8 = 1;

/// Controller of the slider.
pub const SLIDER_CC: u8 = 9;

/// A three-byte MIDI message.
#[derive(Clone, Copy, Debug, PartialEq, Eq, Structural)]
pub struct MidiMessage {
    pub status: u8,
    pub data1: u8,
    pub data2: u8,
}

/// The Control-Change message for controller `cc` with `value`.
pub open spec fn cc_message(cc: u8, value: u8) -> MidiMessage {
    MidiMessage { status: STATUS_CC, data1: cc, data2: value }
}

/// The Note message for `note`: a Note-On when `on` with a nonzero velocity,
/// else a Note-Off.
pub open spec fn note_message(note: u8, velocity: u8, on: bool) -> MidiMessage {
    MidiMessage {
        status: if on && velocity > 0 {
            STATUS_NOTE_ON
        } else {
            STATUS_NOTE_OFF
        },
        data1: note,
        data2: velocity,
    }
}

/// Palette index of the color shown for an inbound velocity: off for zero,
/// then one color per band of seven velocities, white from 113 up.
pub open spec fn velocity_color_index(v: u8) -> u8 {
    if v == 0 {
        0
    } else if v <= 112 {
        ((v - 1) / 7 + 1) as u8
    } else {
        17
    }
}

/// Color shown for an inbound velocity.
pub open spec fn velocity_color(v: u8) -> PadColors {
    palette(velocity_color_index(v))
}

/// Brightness that an inbound controller value selects: off for zero, then
/// dim, normal and bright in three bands; off past 127.
pub open spec fn cc_brightness_of(value: u8) -> Brightness {
    if value == 0 {
        Brightness::Off
    } else if value <= 42 {
        Brightness::Dim
    } else if value <= 84 {
        Brightness::Normal
    } else if value <= 127 {
        Brightness::Bright
    } else {
        Brightness::Off
    }
}

impl MidiMessage {
    /// The message on the wire.
    pub fn to_bytes(&self) -> (r: [u8; 3])
        ensures
            r@ == seq![self.status, self.data1, self.data2],
    {
        let r = [self.status, self.data1, self.data2];
        assert(r@ =~= seq![self.status, self.data1, self.data2]);
        r
    }
}

/// A Control-Change for controller `cc` with `value`, on channel 0.
pub fn control_change(cc: u8, value: u8) -> (r: MidiMessage)
    ensures
        r == cc_message(cc, value),
{
    MidiMessage { status: STATUS_CC, data1: cc, data2: value }
}

/// A Note message on channel 0; an "on" with velocity zero becomes a Note-Off.
pub fn note_on_off(note: u8, velocity: u8, on: bool) -> (r: MidiMessage)
    ensures
        r == note_message(note, velocity, on),
{
    let status = if on && velocity > 0 {
        STATUS_NOTE_ON
    } else {
        STATUS_NOTE_OFF
    };
    MidiMessage { status, data1: note, data2: velocity }
}

/// Maps a MIDI velocity to a pad color.
pub fn velocity_to_color(velocity: u8) -> (r: PadColors)
    ensures
        r == velocity_color(velocity),
        r.spec_index() == velocity_color_index(velocity),
{
    match velocity {
        0 => PadColors::Off,
        1..=7 => PadColors::Red,
        8..=14 => PadColors::Orange,
        15..=21 => PadColors::LightOrange,
        22..=28 => PadColors::WarmYellow,
        29..=35 => PadColors::Yellow,
        36..=42 => PadColors::Lime,
        43..=49 => PadColors::Green,
        50..=56 => PadColors::Mint,
        57..=63 => PadColors::Cyan,
        64..=70 => PadColors::Turquoise,
        71..=77 => PadColors::Blue,
        78..=84 => PadColors::Plum,
        85..=91 => PadColors::Violet,
        92..=98 => PadColors::Purple,
        99..=105 => PadColors::Magenta,
        106..=112 => PadColors::Fuchsia,
        _ => PadColors::White,
    }
}

/// Maps an inbound controller value to a button brightness.
pub fn cc_brightness(value: u8) -> (r: Brightness)
    ensures
        r == cc_brightness_of(value),
{
    match value {
        0 => Brightness::Off,
        1..=42 => Brightness::Dim,
        43..=84 => Brightness::Normal,
        85..=127 => Brightness::Bright,
        _ => Brightness::Off,
    }
}

} // verus!
