use vstd::prelude::*;
use crate::controls::{
    pad_event_of, PadEventType, BUTTON_COUNT, ENCODER_TOUCH, PAD_COUNT, SLIDER_SEGMENTS,
};
use crate::lights::{Brightness, Lights, PadColors};
use crate::midi::{
    cc_message, control_change, note_message, note_on_off, MidiMessage, BUTTON_CC_OFFSET,
    ENCODER_CC, SLIDER_CC,
};

verus! {

/// First byte of a report of buttons, encoder and slider.
pub const CONTROLS_REPORT: u8 = 0x01;

/// First byte of a report of pad events.
pub const PADS_REPORT: u8 = 0x02;

/// Shortest controls report: the slider level is its byte 10.
pub const CONTROLS_REPORT_LEN: usize = 11;

/// How long encoder movement is ignored after the encoder is touched.
pub const ENCODER_SUPPRESS_MS: u64 = 120;

/// Signed encoder movement from absolute position `prev` to `cur`, both
/// 4-bit: the difference modulo 16, read in [-8, 7].
pub open spec fn signed_delta(prev: int, cur: int) -> int {
    let d = (cur - prev) % 16;
    if d < 8 {
        d
    } else {
        d - 16
    }
}

/// Relative controller value of an encoder movement: centred on 64, clamped
/// to [0, 127].
pub open spec fn encoder_value(delta: int) -> int {
    if 64 + delta < 0 {
        0
    } else if 64 + delta > 127 {
        127
    } else {
        64 + delta
    }
}

/// Controller value of a raw slider level in [1, 201].
pub open spec fn slider_value_of(raw: int) -> int {
    if (raw - 1) * 127 / 200 > 127 {
        127
    } else {
        (raw - 1) * 127 / 200
    }
}

/// The slider segment that a raw level lights; -1 lights none.
pub open spec fn chase_segment(raw: int) -> int {
    (raw - 1 + 5) * 25 / 200 - 1
}

/// The slider LEDs for a raw level: the lit segment bright, the one before
/// it dim, the others off.
pub open spec fn chase_pattern(raw: int) -> Seq<Brightness> {
    Seq::new(
        SLIDER_SEGMENTS as nat,
        |i: int|
            if i == chase_segment(raw) {
                Brightness::Bright
            } else if i == chase_segment(raw) - 1 {
                Brightness::Dim
            } else {
                Brightness::Off
            },
    )
}

/// Signed encoder movement from absolute position `prev` to `cur`.
pub fn encoder_delta(prev: u8, cur: u8) -> (r: i8)
    requires
        prev < 16,
        cur < 16,
    ensures
        r == signed_delta(prev as int, cur as int),
        -8 <= r <= 7,
        prev == cur ==> r == 0,
{
    let diff: u8 = if cur >= prev {
        cur - prev
    } else {
        cur + 16 - prev
    };
    assert(diff == (cur - prev) % 16);
    if diff < 8 {
        diff as i8
    } else {
        diff as i8 - 16
    }
}

/// Relative controller value of an encoder movement.
pub fn encoder_cc_value(delta: i8) -> (r: u8)
    ensures
        r == encoder_value(delta as int),
{
    let v: i16 = 64i16 + delta as i16;
    if v < 0 {
        0
    } else if v > 127 {
        127
    } else {
        v as u8
    }
}

/// Controller value of a raw slider level: [1, 201] scaled onto [0, 127].
pub fn slider_cc_value(raw: u8) -> (r: u8)
    requires
        raw >= 1,
    ensures
        r == slider_value_of(raw as int),
{
    let v: u16 = (raw as u16 - 1) * 127 / 200;
    if v > 127 {
        127
    } else {
        v as u8
    }
}

/// Sets the slider LEDs to the chase pattern of a raw level.
pub fn show_slider_chase(lights: &mut Lights, raw: u8)
    requires
        old(lights).wf(),
    ensures
        final(lights).wf(),
        final(lights)@ == (old(lights)@.0, old(lights)@.1, chase_pattern(raw as int)),
{
    let seg: i32 = (raw as i32 - 1 + 5) * 25 / 200 - 1;
    let mut i: usize = 0;
    while i < SLIDER_SEGMENTS
        invariant
            i <= SLIDER_SEGMENTS,
            seg == chase_segment(raw as int),
            lights.wf(),
            lights@.0 == old(lights)@.0,
            lights@.1 == old(lights)@.1,
            forall|k: int| 0 <= k < i ==> lights@.2[k] == #[trigger] chase_pattern(raw as int)[k],
        decreases SLIDER_SEGMENTS - i,
    {
        let b = if i as i32 == seg {
            Brightness::Bright
        } else if i as i32 == seg - 1 {
            Brightness::Dim
        } else {
            Brightness::Off
        };
        lights.set_slider(i, b);
        i = i + 1;
    }
    assert(lights@.2 =~= chase_pattern(raw as int));
}

/// Last observed state of the controls, owned by the polling loop.
pub struct ControlState {
    /// Pressed state of each button, by logical index.
    pub buttons: Vec<bool>,
    /// Last raw slider level; 0 before the first touch.
    pub slider_value: u8,
    /// Last absolute encoder position, once one was seen.
    pub encoder_pos: Option<u8>,
    /// End of the window in which encoder movement is ignored, in milliseconds.
    pub suppress_until: Option<u64>,
}

/// Whether button `idx` is down in a controls report.
pub open spec fn pressed_in(report: Seq<u8>, idx: int) -> bool {
    report[1 + idx / 8] & (1u8 << ((idx % 8) as u8)) != 0
}

/// Button states of a controls report.
pub open spec fn buttons_of(report: Seq<u8>) -> Seq<bool> {
    Seq::new(BUTTON_COUNT as nat, |i: int| pressed_in(report, i))
}

/// Messages for the buttons below `n` that changed: one Control-Change each,
/// 127 on press and 0 on release, in order of index.
pub open spec fn button_messages(prev: Seq<bool>, report: Seq<u8>, n: int) -> Seq<MidiMessage>
    decreases n,
{
    if n <= 0 {
        seq![]
    } else {
        let i = n - 1;
        let now = pressed_in(report, i);
        button_messages(prev, report, i) + if now != prev[i] {
            seq![cc_message((BUTTON_CC_OFFSET + i) as u8, if now { 127u8 } else { 0u8 })]
        } else {
            seq![]
        }
    }
}

/// End of a suppression window opened at `now`.
pub open spec fn window_end(now: u64) -> u64 {
    if now <= u64::MAX - ENCODER_SUPPRESS_MS {
        (now + ENCODER_SUPPRESS_MS) as u64
    } else {
        u64::MAX
    }
}

/// Whether a report presses the encoder-touch button.
pub open spec fn touch_rises(prev: Seq<bool>, report: Seq<u8>) -> bool {
    pressed_in(report, ENCODER_TOUCH as int) && !prev[ENCODER_TOUCH as int]
}

/// End of the suppression window after a report at `now`.
pub open spec fn next_suppress(prev: Seq<bool>, until: Option<u64>, report: Seq<u8>, now: u64) -> Option<u64> {
    if touch_rises(prev, report) {
        Some(window_end(now))
    } else {
        until
    }
}

/// Encoder position of a controls report.
pub open spec fn encoder_of(report: Seq<u8>) -> u8 {
    report[7] & 0x0f
}

/// Message of the encoder for a report at `now`: none while the window is
/// open, on the touch itself, on the first observation, or without movement.
pub open spec fn encoder_messages(st: ControlState, report: Seq<u8>, now: u64) -> Seq<MidiMessage> {
    let until = next_suppress(st.buttons@, st.suppress_until, report, now);
    let suppressed = match until {
        Some(u) => now < u,
        None => false,
    };
    if touch_rises(st.buttons@, report) || suppressed {
        seq![]
    } else {
        match st.encoder_pos {
            Some(p) => {
                let d = signed_delta(p as int, encoder_of(report) as int);
                if d != 0 {
                    seq![cc_message(ENCODER_CC, encoder_value(d) as u8)]
                } else {
                    seq![]
                }
            },
            None => seq![],
        }
    }
}

/// Whether a raw slider level is a movement: touched, and not the last level.
pub open spec fn slider_moves(last: u8, raw: u8) -> bool {
    raw != 0 && raw != last
}

/// Message of the slider for a raw level.
pub open spec fn slider_messages(last: u8, raw: u8) -> Seq<MidiMessage> {
    if slider_moves(last, raw) {
        seq![cc_message(SLIDER_CC, slider_value_of(raw as int) as u8)]
    } else {
        seq![]
    }
}

/// All messages of a controls report: buttons, then encoder, then slider.
pub open spec fn controls_messages(st: ControlState, report: Seq<u8>, now: u64) -> Seq<MidiMessage> {
    button_messages(st.buttons@, report, BUTTON_COUNT as int) + encoder_messages(st, report, now)
        + slider_messages(st.slider_value, report[10])
}

impl ControlState {
    /// One entry per button, and an encoder position of four bits.
    pub open spec fn wf(&self) -> bool {
        &&& self.buttons@.len() == BUTTON_COUNT
        &&& match self.encoder_pos {
            Some(p) => p < 16,
            None => true,
        }
    }

    /// Nothing observed yet: no button down, slider untouched, encoder unknown.
    pub fn new() -> (r: Self)
        ensures
            r.wf(),
            r.buttons@ == Seq::new(BUTTON_COUNT as nat, |i: int| false),
            r.slider_value == 0,
            r.encoder_pos is None,
            r.suppress_until is None,
    {
        let mut buttons: Vec<bool> = Vec::new();
        let mut i: usize = 0;
        while i < BUTTON_COUNT
            invariant
                i <= BUTTON_COUNT,
                buttons@ =~= Seq::new(i as nat, |k: int| false),
            decreases BUTTON_COUNT - i,
        {
            buttons.push(false);
            i = i + 1;
            assert(buttons@ =~= Seq::new(i as nat, |k: int| false));
        }
        ControlState { buttons, slider_value: 0, encoder_pos: None, suppress_until: None }
    }
}

/// Decodes a controls report observed at `now` (milliseconds): updates the
/// observed state and the slider LEDs, and returns the messages to send and
/// whether the LEDs changed.
pub fn decode_controls(state: &mut ControlState, report: &[u8], now: u64, lights: &mut Lights) -> (r: (
    Vec<MidiMessage>,
    bool,
))
    requires
        old(state).wf(),
        old(lights).wf(),
        report@.len() >= CONTROLS_REPORT_LEN,
    ensures
        final(state).wf(),
        final(lights).wf(),
        final(state).buttons@ == buttons_of(report@),
        final(state).encoder_pos == Some(encoder_of(report@)),
        final(state).suppress_until == next_suppress(
            old(state).buttons@,
            old(state).suppress_until,
            report@,
            now,
        ),
        final(state).slider_value == if slider_moves(old(state).slider_value, report@[10]) {
            report@[10]
        } else {
            old(state).slider_value
        },
        r.0@ == controls_messages(*old(state), report@, now),
        r.1 == slider_moves(old(state).slider_value, report@[10]),
        final(lights)@ == if r.1 {
            (old(lights)@.0, old(lights)@.1, chase_pattern(report@[10] as int))
        } else {
            old(lights)@
        },
{
    let ghost st0 = *state;
    let mut msgs: Vec<MidiMessage> = Vec::new();
    let mut touch_just_pressed = false;
    let mut idx: usize = 0;
    while idx < BUTTON_COUNT
        invariant
            idx <= BUTTON_COUNT,
            report@.len() >= CONTROLS_REPORT_LEN,
            state.wf(),
            st0.wf(),
            state.slider_value == st0.slider_value,
            state.encoder_pos == st0.encoder_pos,
            state.suppress_until == st0.suppress_until,
            forall|k: int| 0 <= k < idx ==> state.buttons@[k] == pressed_in(report@, k),
            forall|k: int| idx <= k < BUTTON_COUNT ==> state.buttons@[k] == st0.buttons@[k],
            msgs@ == button_messages(st0.buttons@, report@, idx as int),
            touch_just_pressed == (idx > ENCODER_TOUCH && touch_rises(st0.buttons@, report@)),
        decreases BUTTON_COUNT - idx,
    {
        let byte = report[1 + idx / 8];
        let mask: u8 = 1u8 << ((idx % 8) as u8);
        let is_pressed = byte & mask != 0;
        let was_pressed = state.buttons[idx];
        if is_pressed != was_pressed {
            state.buttons.set(idx, is_pressed);
            let value: u8 = if is_pressed {
                127
            } else {
                0
            };
            msgs.push(control_change(BUTTON_CC_OFFSET + idx as u8, value));
            if idx == ENCODER_TOUCH && is_pressed {
                touch_just_pressed = true;
            }
        }
        idx = idx + 1;
    }
    assert(state.buttons@ =~= buttons_of(report@));
    if touch_just_pressed {
        let end: u64 = if now <= u64::MAX - ENCODER_SUPPRESS_MS {
            now + ENCODER_SUPPRESS_MS
        } else {
            u64::MAX
        };
        state.suppress_until = Some(end);
    }
    let suppressed = match state.suppress_until {
        Some(until) => now < until,
        None => false,
    };
    let enc_byte: u8 = report[7];
    let cur_pos: u8 = enc_byte & 0x0f;
    assert(cur_pos < 16) by (bit_vector)
        requires
            cur_pos == enc_byte & 0x0f,
    ;
    let ghost before_enc = msgs@;
    if touch_just_pressed || suppressed {
    } else {
        match state.encoder_pos {
            Some(prev) => {
                let delta = encoder_delta(prev, cur_pos);
                if delta != 0 {
                    msgs.push(control_change(ENCODER_CC, encoder_cc_value(delta)));
                }
            },
            None => {},
        }
    }
    state.encoder_pos = Some(cur_pos);
    assert(msgs@ =~= before_enc + encoder_messages(st0, report@, now));
    let raw = report[10];
    let mut changed = false;
    let ghost before_slider = msgs@;
    if raw != 0 && raw != state.slider_value {
        state.slider_value = raw;
        msgs.push(control_change(SLIDER_CC, slider_cc_value(raw)));
        show_slider_chase(lights, raw);
        changed = true;
    }
    assert(msgs@ =~= before_slider + slider_messages(st0.slider_value, raw));
    (msgs, changed)
}

/// Pad index of the record at offset `i`.
pub open spec fn record_pad(report: Seq<u8>, i: int) -> u8 {
    report[i]
}

/// Event code of the record at offset `i`: the high nibble of its second byte.
pub open spec fn record_code(report: Seq<u8>, i: int) -> u8 {
    report[i + 1] & 0xf0
}

/// 12-bit value of the record at offset `i`.
pub open spec fn record_value(report: Seq<u8>, i: int) -> u16 {
    (((report[i + 1] & 0x0f) as u16) * 256 + report[i + 2] as u16) as u16
}

/// Note velocity of a pad value: its top seven bits, at least 1 when the value
/// is nonzero.
pub open spec fn pad_velocity(value: u16) -> u8 {
    if value > 0 && value / 32 == 0 {
        1
    } else {
        (value / 32) as u8
    }
}

/// Brightness that a pad event gives its pad.
pub open spec fn event_brightness(evt: PadEventType, value: u16) -> Brightness {
    match evt {
        PadEventType::NoteOn | PadEventType::PressOn => Brightness::Normal,
        PadEventType::NoteOff | PadEventType::PressOff => Brightness::Off,
        PadEventType::Aftertouch => if value > 0 {
            Brightness::Normal
        } else {
            Brightness::Off
        },
    }
}

/// Effect of one pad record on the pad LEDs: the pad turns blue at the event's
/// brightness, only where that brightness differs from its current one.
pub open spec fn record_pads(
    pads: Seq<(PadColors, Brightness)>,
    pad: int,
    evt: PadEventType,
    value: u16,
) -> Seq<(PadColors, Brightness)> {
    let b = event_brightness(evt, value);
    if pads[pad].1 != b {
        pads.update(pad, (PadColors::Blue, b))
    } else {
        pads
    }
}

/// Message of one pad record: a note on press, a Note-Off on release, none
/// on aftertouch.
pub open spec fn record_messages(note: u8, evt: PadEventType, value: u16) -> Seq<MidiMessage> {
    match evt {
        PadEventType::NoteOn | PadEventType::PressOn => seq![
            note_message(note, pad_velocity(value), true),
        ],
        PadEventType::NoteOff | PadEventType::PressOff => seq![
            note_message(note, pad_velocity(value), false),
        ],
        PadEventType::Aftertouch => seq![],
    }
}

/// Whether the records end before offset `i`: no whole record is left, or
/// a record after the first is all zeros.
pub open spec fn records_end(report: Seq<u8>, i: int) -> bool {
    i + 2 >= report.len() || (i > 1 && report[i] == 0 && record_code(report, i) == 0
        && record_value(report, i) == 0)
}

/// Pad LEDs, messages, and whether the LEDs changed, after the records from
/// offset `i` on. A record of a pad past the last, or with an unknown event
/// code, is skipped.
pub open spec fn pad_records(
    report: Seq<u8>,
    notemap: Seq<u8>,
    i: int,
    pads: Seq<(PadColors, Brightness)>,
) -> (Seq<(PadColors, Brightness)>, Seq<MidiMessage>, bool)
    decreases report.len() - i,
{
    if i < 1 || records_end(report, i) {
        (pads, seq![], false)
    } else {
        let pad = record_pad(report, i) as int;
        let (after, m1) = if pad < PAD_COUNT {
            match pad_event_of(record_code(report, i)) {
                Some(evt) => (
                    record_pads(pads, pad, evt, record_value(report, i)),
                    record_messages(notemap[pad], evt, record_value(report, i)),
                ),
                None => (pads, seq![]),
            }
        } else {
            (pads, seq![])
        };
        let rest = pad_records(report, notemap, i + 3, after);
        (rest.0, m1 + rest.1, after != pads || rest.2)
    }
}

/// Decodes a pad report: updates the pad LEDs and returns the note messages
/// to send and whether the LEDs changed.
pub fn decode_pads(report: &[u8], notemap: &[u8], lights: &mut Lights) -> (r: (Vec<MidiMessage>, bool))
    requires
        old(lights).wf(),
        notemap@.len() == PAD_COUNT,
    ensures
        final(lights).wf(),
        final(lights)@ == (
            pad_records(report@, notemap@, 1, old(lights)@.0).0,
            old(lights)@.1,
            old(lights)@.2,
        ),
        r.0@ == pad_records(report@, notemap@, 1, old(lights)@.0).1,
        r.1 == pad_records(report@, notemap@, 1, old(lights)@.0).2,
{
    let ghost l0 = lights@;
    let mut msgs: Vec<MidiMessage> = Vec::new();
    let mut changed = false;
    let mut i: usize = 1;
    while report.len() > 2 && i < report.len() - 2
        invariant
            1 <= i,
            notemap@.len() == PAD_COUNT,
            lights.wf(),
            lights@.1 == l0.1,
            lights@.2 == l0.2,
            pad_records(report@, notemap@, 1, l0.0) == (
                pad_records(report@, notemap@, i as int, lights@.0).0,
                msgs@ + pad_records(report@, notemap@, i as int, lights@.0).1,
                changed || pad_records(report@, notemap@, i as int, lights@.0).2,
            ),
        ensures
            records_end(report@, i as int),
            lights.wf(),
            lights@.1 == l0.1,
            lights@.2 == l0.2,
            pad_records(report@, notemap@, 1, l0.0) == (
                pad_records(report@, notemap@, i as int, lights@.0).0,
                msgs@ + pad_records(report@, notemap@, i as int, lights@.0).1,
                changed || pad_records(report@, notemap@, i as int, lights@.0).2,
            ),
        decreases report@.len() - i,
    {
        let pad = report[i];
        let b1 = report[i + 1];
        let code: u8 = b1 & 0xf0;
        let lo4: u8 = b1 & 0x0f;
        assert(lo4 < 16) by (bit_vector)
            requires
                lo4 == b1 & 0x0f,
        ;
        let value: u16 = (lo4 as u16) * 256 + report[i + 2] as u16;
        assert(value == record_value(report@, i as int));
        if i > 1 && pad == 0 && code == 0 && value == 0 {
            assert(records_end(report@, i as int));
            break;
        }
        assert(!records_end(report@, i as int));
        let ghost pads0 = lights@.0;
        let ghost msgs0 = msgs@;
        let ghost changed0 = changed;
        if (pad as usize) < PAD_COUNT {
            match PadEventType::from_code(code) {
                Some(evt) => {
                    let (_, prev_b) = lights.get_pad(pad as usize);
                    let b = match evt {
                        PadEventType::NoteOn | PadEventType::PressOn => Brightness::Normal,
                        PadEventType::NoteOff | PadEventType::PressOff => Brightness::Off,
                        PadEventType::Aftertouch => if value > 0 {
                            Brightness::Normal
                        } else {
                            Brightness::Off
                        },
                    };
                    if prev_b != b {
                        lights.set_pad(pad as usize, PadColors::Blue, b);
                        changed = true;
                        assert(lights@.0 != pads0) by {
                            assert(lights@.0[pad as int] != pads0[pad as int]);
                        }
                    }
                    let note = notemap[pad as usize];
                    assert(value >> 5 == value / 32) by (bit_vector);
                    let mut velocity: u8 = (value >> 5) as u8;
                    if value > 0 && velocity == 0 {
                        velocity = 1;
                    }
                    match evt {
                        PadEventType::NoteOn | PadEventType::PressOn => {
                            msgs.push(note_on_off(note, velocity, true));
                        },
                        PadEventType::NoteOff | PadEventType::PressOff => {
                            msgs.push(note_on_off(note, velocity, false));
                        },
                        PadEventType::Aftertouch => {},
                    }
                },
                None => {},
            }
        }
        proof {
            let rest = pad_records(report@, notemap@, i + 3, lights@.0);
            let m1 = msgs@.subrange(msgs0.len() as int, msgs@.len() as int);
            assert(msgs@ =~= msgs0 + m1);
            assert(msgs@ + rest.1 =~= msgs0 + (m1 + rest.1));
            assert(changed == (changed0 || lights@.0 != pads0));
            assert(pad_records(report@, notemap@, i as int, pads0) == (
                rest.0,
                m1 + rest.1,
                lights@.0 != pads0 || rest.2,
            ));
        }
        i = i + 3;
    }
    assert(msgs@ + Seq::<MidiMessage>::empty() =~= msgs@);
    (msgs, changed)
}

/// Encoder movement is silent while the suppression window is open: a report
/// observed before the window's end sends no encoder message, whatever
/// position it carries.
pub proof fn lemma_window_silences_encoder(st: ControlState, report: Seq<u8>, now: u64, until: u64)
    requires
        st.wf(),
        report.len() >= CONTROLS_REPORT_LEN,
        st.suppress_until == Some(until),
        now < until,
    ensures
        encoder_messages(st, report, now) == Seq::<MidiMessage>::empty(),
{
}

/// A touch of the encoder opens the window: the report that presses the touch
/// sends no encoder message, and any report observed within 120 ms of it
/// sends none either.
pub proof fn lemma_touch_opens_window(
    st0: ControlState,
    r0: Seq<u8>,
    t0: u64,
    st1: ControlState,
    r1: Seq<u8>,
    t1: u64,
)
    requires
        st0.wf(),
        st1.wf(),
        r0.len() >= CONTROLS_REPORT_LEN,
        r1.len() >= CONTROLS_REPORT_LEN,
        touch_rises(st0.buttons@, r0),
        st1.suppress_until == next_suppress(st0.buttons@, st0.suppress_until, r0, t0),
        t0 <= u64::MAX - ENCODER_SUPPRESS_MS,
        t0 <= t1,
        t1 < t0 + ENCODER_SUPPRESS_MS,
    ensures
        encoder_messages(st0, r0, t0) == Seq::<MidiMessage>::empty(),
        encoder_messages(st1, r1, t1) == Seq::<MidiMessage>::empty(),
{
}

/// Once the window has closed, movement is sent again: a report at or after
/// the window's end that does not press the touch, with a position other than
/// the last one, sends exactly one encoder message with the relative value of
/// the movement.
pub proof fn lemma_encoder_resumes(st: ControlState, report: Seq<u8>, now: u64, until: u64, prev: u8)
    requires
        st.wf(),
        report.len() >= CONTROLS_REPORT_LEN,
        st.suppress_until == Some(until),
        now >= until,
        !touch_rises(st.buttons@, report),
        st.encoder_pos == Some(prev),
        encoder_of(report) != prev,
    ensures
        signed_delta(prev as int, encoder_of(report) as int) != 0,
        encoder_messages(st, report, now) == seq![
            cc_message(ENCODER_CC, encoder_value(signed_delta(prev as int, encoder_of(report) as int)) as u8),
        ],
{
    let b = report[7];
    assert(b & 0x0f < 16) by (bit_vector);
}

/// The slider's ends map to the ends of the controller range, and a level
/// equal to the last one sends nothing.
pub proof fn lemma_slider_ends(raw: u8)
    ensures
        slider_value_of(1) == 0,
        slider_value_of(201) == 127,
        slider_messages(raw, raw) == Seq::<MidiMessage>::empty(),
{
}

/// A press or note-on record with a nonzero value sends exactly one Note-On
/// on the pad's note, with velocity `max(1, value >> 5)`; a release or
/// note-off record sends exactly one Note-Off on it.
pub proof fn lemma_pad_record_notes(report: Seq<u8>, notemap: Seq<u8>, pads: Seq<(PadColors, Brightness)>)
    requires
        report.len() == 4,
        report[1] < PAD_COUNT,
        notemap.len() == PAD_COUNT,
        pads.len() == PAD_COUNT,
        pad_event_of(record_code(report, 1)) is Some,
    ensures
        ({
            let evt = pad_event_of(record_code(report, 1)).unwrap();
            let value = record_value(report, 1);
            let note = notemap[report[1] as int];
            let msgs = pad_records(report, notemap, 1, pads).1;
            &&& (evt == PadEventType::NoteOn || evt == PadEventType::PressOn) && value > 0 ==> msgs
                == seq![
                MidiMessage {
                    status: crate::midi::STATUS_NOTE_ON,
                    data1: note,
                    data2: if value / 32 == 0 {
                        1u8
                    } else {
                        (value / 32) as u8
                    },
                },
            ]
            &&& (evt == PadEventType::NoteOff || evt == PadEventType::PressOff) ==> msgs.len() == 1
                && msgs[0].status == crate::midi::STATUS_NOTE_OFF && msgs[0].data1 == note
        }),
{
    let b2 = report[2];
    assert(b2 & 0x0f <= 15) by (bit_vector);
    let value = record_value(report, 1);
    assert(value < 4096);
    assert(value / 32 < 128);
    let evt = pad_event_of(record_code(report, 1)).unwrap();
    let note = notemap[report[1] as int];
    let m1 = record_messages(note, evt, value);
    let pads1 = record_pads(pads, report[1] as int, evt, value);
    let tail = pad_records(report, notemap, 4, pads1);
    assert(records_end(report, 4));
    assert(tail.1 == Seq::<MidiMessage>::empty());
    assert(!records_end(report, 1));
    assert(pad_records(report, notemap, 1, pads).1 == m1 + tail.1);
    assert(m1 + tail.1 =~= m1);
}

/// The suppression window only grows: if it reaches at least to `t0 + 120`
/// ms, it still does after any report observed at or after `t0`. With
/// `lemma_window_silences_encoder`, no report inside the window, however
/// many come, sends an encoder message.
pub proof fn lemma_window_persists(st: ControlState, report: Seq<u8>, now: u64, t0: u64)
    requires
        st.wf(),
        report.len() >= CONTROLS_REPORT_LEN,
        st.suppress_until matches Some(u) && u >= window_end(t0),
        now >= t0,
    ensures
        next_suppress(st.buttons@, st.suppress_until, report, now) matches Some(u2) && u2
            >= window_end(t0),
{
}

/// What one pad record sends: a press or note-on with a nonzero value sends
/// exactly one Note-On on `note` with velocity `max(1, value >> 5)`, a
/// release or note-off exactly one Note-Off on `note`, aftertouch nothing.
pub proof fn lemma_record_notes(note: u8, evt: PadEventType, value: u16)
    requires
        value < 4096,
    ensures
        (evt == PadEventType::NoteOn || evt == PadEventType::PressOn) && value > 0 ==> record_messages(
            note,
            evt,
            value,
        ) == seq![
            MidiMessage {
                status: crate::midi::STATUS_NOTE_ON,
                data1: note,
                data2: if value / 32 == 0 {
                    1u8
                } else {
                    (value / 32) as u8
                },
            },
        ],
        (evt == PadEventType::NoteOff || evt == PadEventType::PressOff) ==> record_messages(
            note,
            evt,
            value,
        ) == seq![
            MidiMessage {
                status: crate::midi::STATUS_NOTE_OFF,
                data1: note,
                data2: pad_velocity(value),
            },
        ],
        evt == PadEventType::Aftertouch ==> record_messages(note, evt, value).len() == 0,
{
    assert(value / 32 < 128);
}

proof fn records_split(
    report: Seq<u8>,
    notemap: Seq<u8>,
    j: int,
    pj: Seq<(PadColors, Brightness)>,
    i: int,
) -> (w: (Seq<MidiMessage>, Seq<(PadColors, Brightness)>))
    requires
        notemap.len() == PAD_COUNT,
        pj.len() == PAD_COUNT,
        1 <= j <= i,
        (i - j) % 3 == 0,
        forall|k: int| j <= k < i && (k - j) % 3 == 0 ==> !#[trigger] records_end(report, k),
    ensures
        w.1.len() == PAD_COUNT,
        pad_records(report, notemap, j, pj).1 == w.0 + pad_records(report, notemap, i, w.1).1,
    decreases i - j,
{
    if j == i {
        assert(pad_records(report, notemap, j, pj).1 =~= Seq::<MidiMessage>::empty()
            + pad_records(report, notemap, i, pj).1);
        (Seq::empty(), pj)
    } else {
        assert(!records_end(report, j));
        let pad = record_pad(report, j) as int;
        let (p1, m1) = if pad < PAD_COUNT {
            match pad_event_of(record_code(report, j)) {
                Some(evt) => (
                    record_pads(pj, pad, evt, record_value(report, j)),
                    record_messages(notemap[pad], evt, record_value(report, j)),
                ),
                None => (pj, Seq::<MidiMessage>::empty()),
            }
        } else {
            (pj, Seq::<MidiMessage>::empty())
        };
        assert forall|k: int| j + 3 <= k < i && (k - (j + 3)) % 3 == 0 implies !#[trigger] records_end(report, k) by {
            assert((k - j) % 3 == 0);
        }
        let w = records_split(report, notemap, j + 3, p1, i);
        assert(pad_records(report, notemap, j, pj).1 == m1 + pad_records(report, notemap, j + 3, p1).1);
        assert(m1 + (w.0 + pad_records(report, notemap, i, w.1).1) =~= (m1 + w.0) + pad_records(report, notemap, i, w.1).1);
        (m1 + w.0, w.1)
    }
}

/// A pad record at any offset `i` that the records reach (none before it
/// ends them) contributes exactly its own messages, in place, to what the
/// report sends: what the records before it send, then `record_messages` of
/// this record on its pad's note, then what the records after it send.
pub proof fn lemma_pad_record_anywhere(
    report: Seq<u8>,
    notemap: Seq<u8>,
    pads: Seq<(PadColors, Brightness)>,
    i: int,
)
    requires
        notemap.len() == PAD_COUNT,
        pads.len() == PAD_COUNT,
        i >= 1,
        (i - 1) % 3 == 0,
        forall|k: int| 1 <= k <= i && (k - 1) % 3 == 0 ==> !#[trigger] records_end(report, k),
        report[i] < PAD_COUNT,
        pad_event_of(record_code(report, i)) is Some,
    ensures
        exists|pre: Seq<MidiMessage>, pi: Seq<(PadColors, Brightness)>|
            pi.len() == PAD_COUNT && #[trigger] pad_records(report, notemap, 1, pads).1 == pre
                + record_messages(
                notemap[report[i] as int],
                pad_event_of(record_code(report, i)).unwrap(),
                record_value(report, i),
            ) + pad_records(
                report,
                notemap,
                i + 3,
                record_pads(
                    pi,
                    report[i] as int,
                    pad_event_of(record_code(report, i)).unwrap(),
                    record_value(report, i),
                ),
            ).1,
{
    let w = records_split(report, notemap, 1, pads, i);
    let evt = pad_event_of(record_code(report, i)).unwrap();
    let v = record_value(report, i);
    let pad = report[i] as int;
    assert(!records_end(report, i));
    let p1 = record_pads(w.1, pad, evt, v);
    let m1 = record_messages(notemap[pad], evt, v);
    assert(pad_records(report, notemap, i, w.1).1 == m1 + pad_records(report, notemap, i + 3, p1).1);
    assert(w.0 + (m1 + pad_records(report, notemap, i + 3, p1).1) =~= w.0 + m1 + pad_records(report, notemap, i + 3, p1).1);
}

} // verus!
