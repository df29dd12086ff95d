use vstd::prelude::*;

verus! {

/// Number of logical buttons.
pub const BUTTON_COUNT: usize = 41;

/// Number of buttons that have an LED: all but the encoder's press and touch.
pub const LIT_BUTTON_COUNT: usize = 39;

/// Number of pads.
pub const PAD_COUNT: usize = 16;

/// Number of LED segments along the slider.
pub const SLIDER_SEGMENTS: usize = 25;

/// Logical index of the encoder's touch sensor.
pub const ENCODER_TOUCH: usize = 40;

/// The buttons of the control surface, in the order of their logical index.
#[derive(Clone, Copy, Debug, PartialEq, Eq, Structural)]
pub enum Buttons {
    Maschine,
    Star,
    Browse,
    Volume,
    Swing,
    Tempo,
    Plugin,
    Sampling,
    Left,
    Right,
    Pitch,
    Mod,
    Perform,
    Notes,
    Group,
    Auto,
    Lock,
    NoteRepeat,
    Restart,
    Erase,
    Tap,
    Follow,
    Play,
    Rec,
    Stop,
    Shift,
    FixedVel,
    PadMode,
    Keyboard,
    Chords,
    Step,
    Scene,
    Pattern,
    Events,
    Variation,
    Duplicate,
    Select,
    Solo,
    Mute,
    EncoderPress,
    EncoderTouch,
}

impl Buttons {
    /// Logical index of the button.
    pub open spec fn spec_index(self) -> usize {
        match self {
            Buttons::Maschine => 0,
            Buttons::Star => 1,
            Buttons::Browse => 2,
            Buttons::Volume => 3,
            Buttons::Swing => 4,
            Buttons::Tempo => 5,
            Buttons::Plugin => 6,
            Buttons::Sampling => 7,
            Buttons::Left => 8,
            Buttons::Right => 9,
            Buttons::Pitch => 10,
            Buttons::Mod => 11,
            Buttons::Perform => 12,
            Buttons::Notes => 13,
            Buttons::Group => 14,
            Buttons::Auto => 15,
            Buttons::Lock => 16,
            Buttons::NoteRepeat => 17,
            Buttons::Restart => 18,
            Buttons::Erase => 19,
            Buttons::Tap => 20,
            Buttons::Follow => 21,
            Buttons::Play => 22,
            Buttons::Rec => 23,
            Buttons::Stop => 24,
            Buttons::Shift => 25,
            Buttons::FixedVel => 26,
            Buttons::PadMode => 27,
            Buttons::Keyboard => 28,
            Buttons::Chords => 29,
            Buttons::Step => 30,
            Buttons::Scene => 31,
            Buttons::Pattern => 32,
            Buttons::Events => 33,
            Buttons::Variation => 34,
            Buttons::Duplicate => 35,
            Buttons::Select => 36,
            Buttons::Solo => 37,
            Buttons::Mute => 38,
            Buttons::EncoderPress => 39,
            Buttons::EncoderTouch => 40,
        }
    }

    /// Logical index of the button.
    #[verifier::when_used_as_spec(spec_index)]
    pub fn index(self) -> (r: usize)
        ensures
            r == self.spec_index(),
            r < BUTTON_COUNT,
    {
        match self {
            Buttons::Maschine => 0,
            Buttons::Star => 1,
            Buttons::Browse => 2,
            Buttons::Volume => 3,
            Buttons::Swing => 4,
            Buttons::Tempo => 5,
            Buttons::Plugin => 6,
            Buttons::Sampling => 7,
            Buttons::Left => 8,
            Buttons::Right => 9,
            Buttons::Pitch => 10,
            Buttons::Mod => 11,
            Buttons::Perform => 12,
            Buttons::Notes => 13,
            Buttons::Group => 14,
            Buttons::Auto => 15,
            Buttons::Lock => 16,
            Buttons::NoteRepeat => 17,
            Buttons::Restart => 18,
            Buttons::Erase => 19,
            Buttons::Tap => 20,
            Buttons::Follow => 21,
            Buttons::Play => 22,
            Buttons::Rec => 23,
            Buttons::Stop => 24,
            Buttons::Shift => 25,
            Buttons::FixedVel => 26,
            Buttons::PadMode => 27,
            Buttons::Keyboard => 28,
            Buttons::Chords => 29,
            Buttons::Step => 30,
            Buttons::Scene => 31,
            Buttons::Pattern => 32,
            Buttons::Events => 33,
            Buttons::Variation => 34,
            Buttons::Duplicate => 35,
            Buttons::Select => 36,
            Buttons::Solo => 37,
            Buttons::Mute => 38,
            Buttons::EncoderPress => 39,
            Buttons::EncoderTouch => 40,
        }
    }

    /// The button with logical index `i`; none past the last button.
    pub fn from_index(i: usize) -> (r: Option<Buttons>)
        ensures
            r is Some <==> i < BUTTON_COUNT,
            r matches Some(b) ==> b.spec_index() == i,
    {
        match i {
            0 => Some(Buttons::Maschine),
            1 => Some(Buttons::Star),
            2 => Some(Buttons::Browse),
            3 => Some(Buttons::Volume),
            4 => Some(Buttons::Swing),
            5 => Some(Buttons::Tempo),
            6 => Some(Buttons::Plugin),
            7 => Some(Buttons::Sampling),
            8 => Some(Buttons::Left),
            9 => Some(Buttons::Right),
            10 => Some(Buttons::Pitch),
            11 => Some(Buttons::Mod),
            12 => Some(Buttons::Perform),
            13 => Some(Buttons::Notes),
            14 => Some(Buttons::Group),
            15 => Some(Buttons::Auto),
            16 => Some(Buttons::Lock),
            17 => Some(Buttons::NoteRepeat),
            18 => Some(Buttons::Restart),
            19 => Some(Buttons::Erase),
            20 => Some(Buttons::Tap),
            21 => Some(Buttons::Follow),
            22 => Some(Buttons::Play),
            23 => Some(Buttons::Rec),
            24 => Some(Buttons::Stop),
            25 => Some(Buttons::Shift),
            26 => Some(Buttons::FixedVel),
            27 => Some(Buttons::PadMode),
            28 => Some(Buttons::Keyboard),
            29 => Some(Buttons::Chords),
            30 => Some(Buttons::Step),
            31 => Some(Buttons::Scene),
            32 => Some(Buttons::Pattern),
            33 => Some(Buttons::Events),
            34 => Some(Buttons::Variation),
            35 => Some(Buttons::Duplicate),
            36 => Some(Buttons::Select),
            37 => Some(Buttons::Solo),
            38 => Some(Buttons::Mute),
            39 => Some(Buttons::EncoderPress),
            40 => Some(Buttons::EncoderTouch),
            _ => None,
        }
    }
}

/// Kind of a pad event, from the high nibble of a pad record.
#[derive(Clone, Copy, Debug, PartialEq, Eq, Structural)]
pub enum PadEventType {
    PressOn,
    NoteOn,
    PressOff,
    NoteOff,
    Aftertouch,
}

/// The event kind that a pad record's code names, if any.
pub open spec fn pad_event_of(code: u8) -> Option<PadEventType> {
    if code == 0x10 {
        Some(PadEventType::PressOn)
    } else if code == 0x20 {
        Some(PadEventType::NoteOn)
    } else if code == 0x30 {
        Some(PadEventType::PressOff)
    } else if code == 0x40 {
        Some(PadEventType::NoteOff)
    } else if code == 0x50 {
        Some(PadEventType::Aftertouch)
    } else {
        None
    }
}

impl PadEventType {
    /// The event kind of a record's code (its high nibble, low nibble clear).
    pub fn from_code(code: u8) -> (r: Option<PadEventType>)
        ensures
            r == pad_event_of(code),
    {
        match code {
            0x10 => Some(PadEventType::PressOn),
            0x20 => Some(PadEventType::NoteOn),
            0x30 => Some(PadEventType::PressOff),
            0x40 => Some(PadEventType::NoteOff),
            0x50 => Some(PadEventType::Aftertouch),
            _ => None,
        }
    }
}

} // verus!
