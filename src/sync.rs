use vstd::prelude::*;
use crate::controls::PAD_COUNT;
use crate::decoder::{
    buttons_of, chase_pattern, controls_messages, decode_controls, decode_pads, encoder_of,
    next_suppress, pad_records, slider_moves, ControlState, CONTROLS_REPORT, CONTROLS_REPORT_LEN,
    PADS_REPORT,
};
use crate::display::rendered_pixel;
use crate::inbound::{
    handle_midi, handle_sysex, lossy_text, midi_effect, sysex_acts, sysex_payload,
    SYSEX_CMD_CLEAR, SYSEX_CMD_TEXT, SYSEX_START,
};
use crate::lights::{report_of, Brightness, Lights, LightsModel};
use crate::midi::MidiMessage;
use crate::screen::{header_hi, header_lo, on_screen, Screen, BUFFER_LEN, HALF_LEN};

verus! {

/// The LED and display state that the MIDI handler and the polling loop
/// share, with one change flag for each. Whoever holds it holds it under one
/// lock; only the polling loop writes to the device.
pub struct DeviceState {
    pub lights: Lights,
    pub screen: Screen,
    /// The LEDs changed since the polling loop last wrote them.
    pub lights_dirty: bool,
    /// The display changed since the polling loop last wrote it.
    pub screen_dirty: bool,
}

/// Whether a MIDI message is a SysEx frame.
pub open spec fn is_sysex(msg: Seq<u8>) -> bool {
    msg.len() > 0 && msg[0] == SYSEX_START
}

/// How an inbound message takes the shared state from `before` to `after`:
/// a SysEx frame acts on the display, any other message on the LEDs, and
/// each change raises its flag.
pub open spec fn received(
    before: DeviceState,
    after: DeviceState,
    notemap: Seq<u8>,
    backlight: Option<Brightness>,
    msg: Seq<u8>,
) -> bool {
    &&& after.wf()
    &&& if is_sysex(msg) {
        &&& after.lights@ == before.lights@
        &&& after.lights_dirty == before.lights_dirty
        &&& after.screen_dirty == (before.screen_dirty || sysex_acts(msg))
        &&& !sysex_acts(msg) ==> after.screen@ == before.screen@
        &&& sysex_acts(msg) && msg[4] == SYSEX_CMD_CLEAR ==> after.screen.is_blank()
        &&& sysex_acts(msg) && msg[4] == SYSEX_CMD_TEXT ==> forall|r: int, c: int|
            on_screen(r, c) ==> #[trigger] after.screen.lit(r, c) == rendered_pixel(
                lossy_text(sysex_payload(msg)),
                r,
                c,
            )
        &&& sysex_acts(msg) && msg[4] == SYSEX_CMD_TEXT && (forall|i: int|
            0 <= i < sysex_payload(msg).len() ==> #[trigger] sysex_payload(msg)[i] < 128)
            ==> lossy_text(sysex_payload(msg)) == Seq::new(
            sysex_payload(msg).len(),
            |i: int| sysex_payload(msg)[i] as char,
        )
    } else {
        &&& after.screen@ == before.screen@
        &&& after.screen_dirty == before.screen_dirty
        &&& match midi_effect(before.lights@, notemap, backlight, msg) {
            Some(m) => after.lights@ == m && after.lights_dirty,
            None => after.lights@ == before.lights@ && after.lights_dirty == before.lights_dirty,
        }
    }
}

/// The LED report that a polling iteration writes: one where the LEDs were
/// flagged or changed in the iteration, showing their state at its end.
pub open spec fn lights_output(flagged: bool, changed: bool, m: LightsModel) -> Option<Seq<u8>> {
    if flagged || changed {
        Some(report_of(m))
    } else {
        None
    }
}

/// Whether a report is a controls report long enough to decode.
pub open spec fn is_controls(report: Seq<u8>) -> bool {
    report.len() >= CONTROLS_REPORT_LEN && report[0] == CONTROLS_REPORT
}

/// Whether a report is a pad report.
pub open spec fn is_pads(report: Seq<u8>) -> bool {
    report.len() >= 1 && report[0] == PADS_REPORT
}

/// Messages that a report gives.
pub open spec fn report_messages(
    st: ControlState,
    m: LightsModel,
    report: Seq<u8>,
    now: u64,
    notemap: Seq<u8>,
) -> Seq<MidiMessage> {
    if is_controls(report) {
        controls_messages(st, report, now)
    } else if is_pads(report) {
        pad_records(report, notemap, 1, m.0).1
    } else {
        seq![]
    }
}

/// The LEDs after a report.
pub open spec fn report_lights(
    st: ControlState,
    m: LightsModel,
    report: Seq<u8>,
    notemap: Seq<u8>,
) -> LightsModel {
    if is_controls(report) {
        if slider_moves(st.slider_value, report[10]) {
            (m.0, m.1, chase_pattern(report[10] as int))
        } else {
            m
        }
    } else if is_pads(report) {
        (pad_records(report, notemap, 1, m.0).0, m.1, m.2)
    } else {
        m
    }
}

/// Whether a report changed the LEDs.
pub open spec fn report_changes_lights(
    st: ControlState,
    m: LightsModel,
    report: Seq<u8>,
    notemap: Seq<u8>,
) -> bool {
    if is_controls(report) {
        slider_moves(st.slider_value, report[10])
    } else if is_pads(report) {
        pad_records(report, notemap, 1, m.0).2
    } else {
        false
    }
}

/// What one polling iteration asks the device layer to do.
pub struct StepOutput {
    /// MIDI messages to send, in order.
    pub messages: Vec<MidiMessage>,
    /// LED report to write, if any.
    pub lights: Option<Vec<u8>>,
    /// The two display transactions to write, if any.
    pub screen: Option<(Vec<u8>, Vec<u8>)>,
}

impl DeviceState {
    /// Both buffers have their sizes.
    pub open spec fn wf(&self) -> bool {
        self.lights.wf() && self.screen.wf()
    }

    /// LEDs off, display blank, nothing flagged.
    pub fn new() -> (r: Self)
        ensures
            r.wf(),
            r.lights@ == crate::lights::all_off(),
            r.screen.is_blank(),
            !r.lights_dirty,
            !r.screen_dirty,
    {
        DeviceState {
            lights: Lights::new(),
            screen: Screen::new(),
            lights_dirty: false,
            screen_dirty: false,
        }
    }

    /// Applies one inbound MIDI message and flags what changed.
    pub fn receive(&mut self, notemap: &[u8], backlight: Option<Brightness>, message: &[u8])
        requires
            old(self).wf(),
            notemap@.len() == PAD_COUNT,
        ensures
            received(*old(self), *final(self), notemap@, backlight, message@),
    {
        if message.len() > 0 && message[0] == SYSEX_START {
            if handle_sysex(&mut self.screen, message) {
                self.screen_dirty = true;
            }
        } else {
            if handle_midi(&mut self.lights, notemap, backlight, message) {
                self.lights_dirty = true;
            }
        }
    }

    /// One iteration of the polling loop on a report read from the device
    /// (empty when none came): consumes both change flags, decodes the report
    /// and says which messages to send and what to write.
    pub fn step(
        &mut self,
        control: &mut ControlState,
        report: &[u8],
        now: u64,
        notemap: &[u8],
    ) -> (out: StepOutput)
        requires
            old(self).wf(),
            old(control).wf(),
            notemap@.len() == PAD_COUNT,
        ensures
            final(self).wf(),
            final(control).wf(),
            !final(self).lights_dirty,
            !final(self).screen_dirty,
            final(self).screen@ == old(self).screen@,
            final(self).lights@ == report_lights(*old(control), old(self).lights@, report@, notemap@),
            out.messages@ == report_messages(
                *old(control),
                old(self).lights@,
                report@,
                now,
                notemap@,
            ),
            out.lights is Some <==> (old(self).lights_dirty || report_changes_lights(
                *old(control),
                old(self).lights@,
                report@,
                notemap@,
            )),
            out.lights matches Some(v) ==> Some(v@) == lights_output(
                old(self).lights_dirty,
                report_changes_lights(*old(control), old(self).lights@, report@, notemap@),
                final(self).lights@,
            ),
            out.screen is Some <==> old(self).screen_dirty,
            out.screen matches Some(t) ==> t.0@ == header_hi() + old(self).screen@.subrange(
                0,
                HALF_LEN as int,
            ) && t.1@ == header_lo() + old(self).screen@.subrange(
                HALF_LEN as int,
                BUFFER_LEN as int,
            ),
            is_controls(report@) ==> {
                &&& final(control).buttons@ == buttons_of(report@)
                &&& final(control).encoder_pos == Some(encoder_of(report@))
                &&& final(control).suppress_until == next_suppress(
                    old(control).buttons@,
                    old(control).suppress_until,
                    report@,
                    now,
                )
                &&& final(control).slider_value == if slider_moves(
                    old(control).slider_value,
                    report@[10],
                ) {
                    report@[10]
                } else {
                    old(control).slider_value
                }
            },
            !is_controls(report@) ==> final(control).buttons@ == old(control).buttons@
                && final(control).encoder_pos == old(control).encoder_pos
                && final(control).suppress_until == old(control).suppress_until
                && final(control).slider_value == old(control).slider_value,
    {
        let lights_flagged = self.lights_dirty;
        self.lights_dirty = false;
        let screen_flagged = self.screen_dirty;
        self.screen_dirty = false;
        let (messages, changed) = if report.len() >= CONTROLS_REPORT_LEN && report[0]
            == CONTROLS_REPORT {
            decode_controls(control, report, now, &mut self.lights)
        } else if report.len() >= 1 && report[0] == PADS_REPORT {
            decode_pads(report, notemap, &mut self.lights)
        } else {
            (Vec::new(), false)
        };
        assert(messages@ == report_messages(
            *old(control),
            old(self).lights@,
            report@,
            now,
            notemap@,
        ));
        let lights = if lights_flagged || changed {
            Some(self.lights.report())
        } else {
            None
        };
        let screen = if screen_flagged {
            Some(self.screen.transactions())
        } else {
            None
        };
        StepOutput { messages, lights, screen }
    }
}

/// Between two iterations of the polling loop, two inbound messages that
/// each change the LEDs lead to exactly one LED write: the next iteration,
/// on a report that leaves the LEDs alone (none, or a controls report that
/// does not move the slider), writes the state that the later message left,
/// and the iteration after it, on such a report again, writes nothing.
pub proof fn lemma_led_changes_coalesce(
    d0: DeviceState,
    d1: DeviceState,
    d2: DeviceState,
    notemap: Seq<u8>,
    backlight: Option<Brightness>,
    m1: Seq<u8>,
    m2: Seq<u8>,
    control: ControlState,
    idle: Seq<u8>,
)
    requires
        received(d0, d1, notemap, backlight, m1),
        received(d1, d2, notemap, backlight, m2),
        !is_sysex(m1),
        !is_sysex(m2),
        midi_effect(d0.lights@, notemap, backlight, m1) is Some,
        midi_effect(d1.lights@, notemap, backlight, m2) is Some,
        !is_pads(idle),
        is_controls(idle) ==> !slider_moves(control.slider_value, idle[10]),
    ensures
        d2.lights@ == midi_effect(d1.lights@, notemap, backlight, m2).unwrap(),
        lights_output(
            d2.lights_dirty,
            report_changes_lights(control, d2.lights@, idle, notemap),
            report_lights(control, d2.lights@, idle, notemap),
        ) == Some(report_of(midi_effect(d1.lights@, notemap, backlight, m2).unwrap())),
        lights_output(
            false,
            report_changes_lights(control, d2.lights@, idle, notemap),
            report_lights(control, d2.lights@, idle, notemap),
        ) is None,
{
}

} // verus!
