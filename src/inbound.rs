use vstd::prelude::*;
use crate::controls::{Buttons, BUTTON_COUNT, PAD_COUNT};
use crate::display::{render_screen_text, rendered_pixel};
use crate::lights::{Brightness, Lights, LightsModel, PadColors};
use crate::midi::{
    cc_brightness, cc_brightness_of, velocity_color, velocity_to_color, BUTTON_CC_OFFSET,
    STATUS_CC, STATUS_NOTE_OFF, STATUS_NOTE_ON,
};
use crate::screen::{on_screen, Screen};

verus! {

/// First byte of a SysEx frame.
pub const SYSEX_START: u8 = 0xF0;

/// Shortest SysEx frame: start, three vendor bytes, command, end.
pub const SYSEX_MIN_LEN: usize = 6;

/// SysEx command that shows a text.
pub const SYSEX_CMD_TEXT: u8 = 0x01;

/// SysEx command that clears the display.
pub const SYSEX_CMD_CLEAR: u8 = 0x02;

/// Vendor prefix that follows the start byte of every SysEx frame.
pub open spec fn vendor_prefix() -> Seq<u8> {
    seq![0x00u8, 0x21, 0x09]
}

/// What `String::from_utf8_lossy` makes of a byte string.
pub uninterp spec fn lossy_text(b: Seq<u8>) -> Seq<char>;

/// Relies on `String::from_utf8_lossy`: the text of the bytes, each invalid
/// sequence replaced; bytes that are all ASCII are valid UTF-8 and decode to
/// the same characters.
#[verifier::external_body]
fn decode_text(bytes: &[u8]) -> (r: String)
    ensures
        r@ == lossy_text(bytes@),
        (forall|i: int| 0 <= i < bytes@.len() ==> #[trigger] bytes@[i] < 128) ==> r@ == Seq::new(
            bytes@.len(),
            |i: int| bytes@[i] as char,
        ),
{
    String::from_utf8_lossy(bytes).into_owned()
}

/// Whether a frame passes the length and vendor checks.
pub open spec fn sysex_valid(m: Seq<u8>) -> bool {
    m.len() >= SYSEX_MIN_LEN && m[0] == SYSEX_START && m.subrange(1, 4) == vendor_prefix()
}

/// Text bytes of a SysEx frame: after the command, before the last byte.
pub open spec fn sysex_payload(m: Seq<u8>) -> Seq<u8> {
    m.subrange(5, m.len() - 1)
}

/// The command of a valid frame, if it is one this decoder knows.
pub open spec fn sysex_acts(m: Seq<u8>) -> bool {
    sysex_valid(m) && (m[4] == SYSEX_CMD_TEXT || m[4] == SYSEX_CMD_CLEAR)
}

/// A frame shorter than six bytes, or without the vendor prefix, does not act
/// on the display.
pub proof fn lemma_malformed_sysex_ignored(m: Seq<u8>)
    requires
        m.len() < SYSEX_MIN_LEN || m.subrange(1, 4) != vendor_prefix(),
    ensures
        !sysex_acts(m),
{
}

/// Applies a SysEx frame to the display: a text command renders its text
/// centred, a clear command blanks the display, anything else is ignored.
/// Returns whether the display changed.
pub fn handle_sysex(screen: &mut Screen, message: &[u8]) -> (r: bool)
    requires
        old(screen).wf(),
    ensures
        final(screen).wf(),
        r == sysex_acts(message@),
        !r ==> final(screen)@ == old(screen)@,
        r && message@[4] == SYSEX_CMD_CLEAR ==> final(screen).is_blank(),
        r && message@[4] == SYSEX_CMD_TEXT ==> forall|row: int, col: int|
            on_screen(row, col) ==> #[trigger] final(screen).lit(row, col) == rendered_pixel(
                lossy_text(sysex_payload(message@)),
                row,
                col,
            ),
        r && message@[4] == SYSEX_CMD_TEXT && (forall|i: int|
            0 <= i < sysex_payload(message@).len() ==> #[trigger] sysex_payload(message@)[i] < 128)
            ==> lossy_text(sysex_payload(message@)) == Seq::new(
            sysex_payload(message@).len(),
            |i: int| sysex_payload(message@)[i] as char,
        ),
{
    if message.len() < SYSEX_MIN_LEN || message[0] != SYSEX_START {
        return false;
    }
    if !(message[1] == 0x00 && message[2] == 0x21 && message[3] == 0x09) {
        proof {
            assert(message@.subrange(1, 4) != vendor_prefix()) by {
                if message@.subrange(1, 4) == vendor_prefix() {
                    assert(message@.subrange(1, 4)[0] == message@[1]);
                    assert(message@.subrange(1, 4)[1] == message@[2]);
                    assert(message@.subrange(1, 4)[2] == message@[3]);
                }
            }
        }
        return false;
    }
    assert(message@.subrange(1, 4) =~= vendor_prefix());
    let cmd = message[4];
    if cmd == SYSEX_CMD_TEXT {
        let payload = slice_range(message, 5, message.len() - 1);
        let text = decode_text(payload.as_slice());
        render_screen_text(screen, text.as_str());
        true
    } else if cmd == SYSEX_CMD_CLEAR {
        screen.reset();
        true
    } else {
        false
    }
}

/// The bytes of `s` from `lo` up to `hi`.
fn slice_range(s: &[u8], lo: usize, hi: usize) -> (r: Vec<u8>)
    requires
        lo <= hi <= s@.len(),
    ensures
        r@ == s@.subrange(lo as int, hi as int),
{
    let mut out: Vec<u8> = Vec::new();
    let mut k: usize = lo;
    while k < hi
        invariant
            lo <= k <= hi <= s@.len(),
            out@ == s@.subrange(lo as int, k as int),
        decreases hi - k,
    {
        out.push(s[k]);
        k = k + 1;
        assert(out@ =~= s@.subrange(lo as int, k as int));
    }
    out
}

/// Index of the first occurrence of `v` in `s` at or after `i`.
pub open spec fn find_from(s: Seq<u8>, v: u8, i: int) -> Option<int>
    decreases s.len() - i,
{
    if i < 0 || i >= s.len() {
        None
    } else if s[i] == v {
        Some(i)
    } else {
        find_from(s, v, i + 1)
    }
}

/// The pad whose note is `note`: the first entry of the note map that holds it.
pub open spec fn pad_of(notemap: Seq<u8>, note: u8) -> Option<int> {
    find_from(notemap, note, 0)
}

/// The pad whose note is `note`, by reverse lookup in the note map.
pub fn pad_of_note(notemap: &[u8], note: u8) -> (r: Option<usize>)
    ensures
        r matches Some(k) ==> pad_of(notemap@, note) == Some(k as int) && k < notemap@.len()
            && notemap@[k as int] == note,
        r is None ==> pad_of(notemap@, note) is None,
{
    let mut i: usize = 0;
    while i < notemap.len()
        invariant
            i <= notemap@.len(),
            pad_of(notemap@, note) == find_from(notemap@, note, i as int),
        decreases notemap@.len() - i,
    {
        if notemap[i] == note {
            return Some(i);
        }
        i = i + 1;
    }
    None
}

/// Brightness that a button takes from an inbound controller value; with a
/// backlight level set, "off" shows that level instead.
pub open spec fn button_brightness(value: u8, backlight: Option<Brightness>) -> Brightness {
    let b = cc_brightness_of(value);
    match backlight {
        Some(l) => if b == Brightness::Off {
            l
        } else {
            b
        },
        None => b,
    }
}

/// The LED state after a regular (non-SysEx) MIDI message, or none where the
/// message changes nothing: a short message, another channel than 0, a note
/// outside the note map, a controller outside the buttons' range or of a
/// button without LED, or another kind of message.
pub open spec fn midi_effect(
    m: LightsModel,
    notemap: Seq<u8>,
    backlight: Option<Brightness>,
    msg: Seq<u8>,
) -> Option<LightsModel> {
    if msg.len() < 3 || msg[0] & 0x0F != 0 {
        None
    } else {
        let status = msg[0] & 0xF0;
        if status == STATUS_NOTE_ON || status == STATUS_NOTE_OFF {
            match pad_of(notemap, msg[1]) {
                Some(k) => {
                    let v = if status == STATUS_NOTE_ON && msg[2] > 0 {
                        (velocity_color(msg[2]), Brightness::Normal)
                    } else {
                        (PadColors::Off, Brightness::Off)
                    };
                    Some((m.0.update(k, v), m.1, m.2))
                },
                None => None,
            }
        } else if status == STATUS_CC && BUTTON_CC_OFFSET <= msg[1] < BUTTON_CC_OFFSET
            + BUTTON_COUNT {
            let idx = msg[1] - BUTTON_CC_OFFSET;
            if idx < crate::controls::LIT_BUTTON_COUNT {
                Some((m.0, m.1.update(idx, button_brightness(msg[2], backlight)), m.2))
            } else {
                None
            }
        } else {
            None
        }
    }
}

/// Applies a regular MIDI message to the LEDs; returns whether they changed.
pub fn handle_midi(
    lights: &mut Lights,
    notemap: &[u8],
    backlight: Option<Brightness>,
    message: &[u8],
) -> (r: bool)
    requires
        old(lights).wf(),
        notemap@.len() == PAD_COUNT,
    ensures
        final(lights).wf(),
        r == midi_effect(old(lights)@, notemap@, backlight, message@) is Some,
        match midi_effect(old(lights)@, notemap@, backlight, message@) {
            Some(m) => final(lights)@ == m,
            None => final(lights)@ == old(lights)@,
        },
{
    if message.len() < 3 {
        return false;
    }
    let status = message[0] & 0xF0;
    let channel = message[0] & 0x0F;
    let data1 = message[1];
    let data2 = message[2];
    if channel != 0 {
        return false;
    }
    if status == STATUS_NOTE_ON || status == STATUS_NOTE_OFF {
        match pad_of_note(notemap, data1) {
            Some(idx) => {
                proof {
                    assert(idx < PAD_COUNT);
                }
                if status == STATUS_NOTE_ON && data2 > 0 {
                    let color = velocity_to_color(data2);
                    lights.set_pad(idx, color, Brightness::Normal);
                } else {
                    lights.set_pad(idx, PadColors::Off, Brightness::Off);
                }
                true
            },
            None => false,
        }
    } else if status == STATUS_CC && BUTTON_CC_OFFSET <= data1 && data1 < BUTTON_CC_OFFSET
        + BUTTON_COUNT as u8 {
        let idx = (data1 - BUTTON_CC_OFFSET) as usize;
        match Buttons::from_index(idx) {
            Some(btn) => {
                if lights.button_has_light(btn) {
                    let mut b = cc_brightness(data2);
                    match backlight {
                        Some(l) => {
                            if b == Brightness::Off {
                                b = l;
                            }
                        },
                        None => {},
                    }
                    lights.set_button(btn, b);
                    true
                } else {
                    false
                }
            },
            None => false,
        }
    } else {
        false
    }
}

} // verus!
