use vstd::prelude::*;
use crate::controls::{Buttons, BUTTON_COUNT, LIT_BUTTON_COUNT, PAD_COUNT, SLIDER_SEGMENTS};

verus! {

/// Brightness of an LED.
#[derive(Clone, Copy, Debug, PartialEq, Eq, Structural)]
pub enum Brightness {
    Off,
    Dim,
    Normal,
    Bright,
}

/// Colors of the pad LEDs.
#[derive(Clone, Copy, Debug, PartialEq, Eq, Structural)]
pub enum PadColors {
    Off,
    Red,
    Orange,
    LightOrange,
    WarmYellow,
    Yellow,
    Lime,
    Green,
    Mint,
    Cyan,
    Turquoise,
    Blue,
    Plum,
    Violet,
    Purple,
    Magenta,
    Fuchsia,
    White,
}

impl Brightness {
    /// Byte that drives a single-color LED at this brightness.
    pub open spec fn spec_level(self) -> u8 {
        match self {
            Brightness::Off => 0x00,
            Brightness::Dim => 0x7c,
            Brightness::Normal => 0x7e,
            Brightness::Bright => 0x7f,
        }
    }

    /// Byte that drives a single-color LED at this brightness.
    #[verifier::when_used_as_spec(spec_level)]
    pub fn level(self) -> (r: u8)
        ensures
            r == self.spec_level(),
    {
        match self {
            Brightness::Off => 0x00,
            Brightness::Dim => 0x7c,
            Brightness::Normal => 0x7e,
            Brightness::Bright => 0x7f,
        }
    }

    /// Two-bit intensity of a pad color at this brightness.
    pub open spec fn spec_pad_level(self) -> u8 {
        match self {
            Brightness::Off => 0,
            Brightness::Dim => 0,
            Brightness::Normal => 2,
            Brightness::Bright => 3,
        }
    }

    /// Two-bit intensity of a pad color at this brightness.
    #[verifier::when_used_as_spec(spec_pad_level)]
    pub fn pad_level(self) -> (r: u8)
        ensures
            r == self.spec_pad_level(),
    {
        match self {
            Brightness::Off => 0,
            Brightness::Dim => 0,
            Brightness::Normal => 2,
            Brightness::Bright => 3,
        }
    }
}

impl PadColors {
    /// Position of the color in the palette, `Off` first.
    pub open spec fn spec_index(self) -> u8 {
        match self {
            PadColors::Off => 0,
            PadColors::Red => 1,
            PadColors::Orange => 2,
            PadColors::LightOrange => 3,
            PadColors::WarmYellow => 4,
            PadColors::Yellow => 5,
            PadColors::Lime => 6,
            PadColors::Green => 7,
            PadColors::Mint => 8,
            PadColors::Cyan => 9,
            PadColors::Turquoise => 10,
            PadColors::Blue => 11,
            PadColors::Plum => 12,
            PadColors::Violet => 13,
            PadColors::Purple => 14,
            PadColors::Magenta => 15,
            PadColors::Fuchsia => 16,
            PadColors::White => 17,
        }
    }

    /// Position of the color in the palette, `Off` first.
    #[verifier::when_used_as_spec(spec_index)]
    pub fn index(self) -> (r: u8)
        ensures
            r == self.spec_index(),
    {
        match self {
            PadColors::Off => 0,
            PadColors::Red => 1,
            PadColors::Orange => 2,
            PadColors::LightOrange => 3,
            PadColors::WarmYellow => 4,
            PadColors::Yellow => 5,
            PadColors::Lime => 6,
            PadColors::Green => 7,
            PadColors::Mint => 8,
            PadColors::Cyan => 9,
            PadColors::Turquoise => 10,
            PadColors::Blue => 11,
            PadColors::Plum => 12,
            PadColors::Violet => 13,
            PadColors::Purple => 14,
            PadColors::Magenta => 15,
            PadColors::Fuchsia => 16,
            PadColors::White => 17,
        }
    }
}

/// The color at palette index `i`; white past the end.
pub open spec fn palette(i: u8) -> PadColors {
    if i == 0 {
        PadColors::Off
    } else if i == 1 {
        PadColors::Red
    } else if i == 2 {
        PadColors::Orange
    } else if i == 3 {
        PadColors::LightOrange
    } else if i == 4 {
        PadColors::WarmYellow
    } else if i == 5 {
        PadColors::Yellow
    } else if i == 6 {
        PadColors::Lime
    } else if i == 7 {
        PadColors::Green
    } else if i == 8 {
        PadColors::Mint
    } else if i == 9 {
        PadColors::Cyan
    } else if i == 10 {
        PadColors::Turquoise
    } else if i == 11 {
        PadColors::Blue
    } else if i == 12 {
        PadColors::Plum
    } else if i == 13 {
        PadColors::Violet
    } else if i == 14 {
        PadColors::Purple
    } else if i == 15 {
        PadColors::Magenta
    } else if i == 16 {
        PadColors::Fuchsia
    } else {
        PadColors::White
    }
}

/// Byte that drives a pad LED: the palette index in the upper bits, the
/// intensity in the lowest two; an unlit pad is zero.
pub open spec fn pad_byte(color: PadColors, b: Brightness) -> u8 {
    if color == PadColors::Off || b == Brightness::Off {
        0
    } else {
        (color.spec_index() * 4 + b.spec_pad_level()) as u8
    }
}

/// First byte of an LED report.
pub const LED_REPORT_ID: u8 = 0x80;

/// Length of an LED report: the id, then one byte per lit button, pad and
/// slider segment.
pub const LED_REPORT_LEN: usize = 81;

/// State of every LED of the device: per pad a color and brightness, per
/// button and per slider segment a brightness.
pub struct Lights {
    pads: Vec<(PadColors, Brightness)>,
    buttons: Vec<Brightness>,
    slider: Vec<Brightness>,
}

/// What a `Lights` holds: pads, buttons and slider segments.
pub type LightsModel = (Seq<(PadColors, Brightness)>, Seq<Brightness>, Seq<Brightness>);

/// The LED report of a state: id, lit buttons, pads, then slider segments.
pub open spec fn report_of(m: LightsModel) -> Seq<u8> {
    seq![LED_REPORT_ID] + Seq::new(LIT_BUTTON_COUNT as nat, |i: int| m.1[i].spec_level()) + Seq::new(
        PAD_COUNT as nat,
        |i: int| pad_byte(m.0[i].0, m.0[i].1),
    ) + Seq::new(SLIDER_SEGMENTS as nat, |i: int| m.2[i].spec_level())
}

/// Every LED off.
pub open spec fn all_off() -> LightsModel {
    (
        Seq::new(PAD_COUNT as nat, |i: int| (PadColors::Off, Brightness::Off)),
        Seq::new(BUTTON_COUNT as nat, |i: int| Brightness::Off),
        Seq::new(SLIDER_SEGMENTS as nat, |i: int| Brightness::Off),
    )
}

impl View for Lights {
    type V = LightsModel;

    closed spec fn view(&self) -> LightsModel {
        (self.pads@, self.buttons@, self.slider@)
    }
}

/// Whether a button has an LED.
pub open spec fn has_light(b: Buttons) -> bool {
    b.spec_index() < LIT_BUTTON_COUNT
}

impl Lights {
    /// One entry per pad, button and slider segment.
    pub open spec fn wf(&self) -> bool {
        &&& self@.0.len() == PAD_COUNT
        &&& self@.1.len() == BUTTON_COUNT
        &&& self@.2.len() == SLIDER_SEGMENTS
    }

    /// Every LED off.
    pub fn new() -> (r: Self)
        ensures
            r.wf(),
            r@ == all_off(),
    {
        let mut pads: Vec<(PadColors, Brightness)> = Vec::new();
        let mut i: usize = 0;
        while i < PAD_COUNT
            invariant
                i <= PAD_COUNT,
                pads@ =~= Seq::new(i as nat, |k: int| (PadColors::Off, Brightness::Off)),
            decreases PAD_COUNT - i,
        {
            pads.push((PadColors::Off, Brightness::Off));
            i = i + 1;
            assert(pads@ =~= Seq::new(i as nat, |k: int| (PadColors::Off, Brightness::Off)));
        }
        let r = Lights {
            pads,
            buttons: vec![Brightness::Off; BUTTON_COUNT],
            slider: vec![Brightness::Off; SLIDER_SEGMENTS],
        };
        assert(r@.0 =~= all_off().0);
        assert(r@.1 =~= all_off().1);
        assert(r@.2 =~= all_off().2);
        r
    }

    /// Turns every LED off.
    pub fn reset(&mut self)
        ensures
            final(self).wf(),
            final(self)@ == all_off(),
    {
        *self = Lights::new();
    }

    /// Sets pad `i` to `color` at brightness `b`.
    pub fn set_pad(&mut self, i: usize, color: PadColors, b: Brightness)
        requires
            old(self).wf(),
            i < PAD_COUNT,
        ensures
            final(self).wf(),
            final(self)@ == (old(self)@.0.update(i as int, (color, b)), old(self)@.1, old(self)@.2),
    {
        self.pads.set(i, (color, b));
    }

    /// Color and brightness of pad `i`.
    pub fn get_pad(&self, i: usize) -> (r: (PadColors, Brightness))
        requires
            self.wf(),
            i < PAD_COUNT,
        ensures
            r == self@.0[i as int],
    {
        self.pads[i]
    }

    /// Whether button `btn` has an LED.
    pub fn button_has_light(&self, btn: Buttons) -> (r: bool)
        ensures
            r == has_light(btn),
    {
        btn.index() < LIT_BUTTON_COUNT
    }

    /// Sets the LED of button `btn` to brightness `b`.
    pub fn set_button(&mut self, btn: Buttons, b: Brightness)
        requires
            old(self).wf(),
        ensures
            final(self).wf(),
            final(self)@ == (old(self)@.0, old(self)@.1.update(btn.spec_index() as int, b), old(self)@.2),
    {
        let i = btn.index();
        self.buttons.set(i, b);
    }

    /// Brightness of the LED of button `btn`.
    pub fn get_button(&self, btn: Buttons) -> (r: Brightness)
        requires
            self.wf(),
        ensures
            r == self@.1[btn.spec_index() as int],
    {
        self.buttons[btn.index()]
    }

    /// Sets slider segment `i` to brightness `b`.
    pub fn set_slider(&mut self, i: usize, b: Brightness)
        requires
            old(self).wf(),
            i < SLIDER_SEGMENTS,
        ensures
            final(self).wf(),
            final(self)@ == (old(self)@.0, old(self)@.1, old(self)@.2.update(i as int, b)),
    {
        self.slider.set(i, b);
    }

    /// Brightness of slider segment `i`.
    pub fn get_slider(&self, i: usize) -> (r: Brightness)
        requires
            self.wf(),
            i < SLIDER_SEGMENTS,
        ensures
            r == self@.2[i as int],
    {
        self.slider[i]
    }

    /// Night mode: every button LED that is off shows `level` instead.
    /// Returns whether any LED was off.
    pub fn apply_backlight(&mut self, level: Brightness) -> (r: bool)
        requires
            old(self).wf(),
        ensures
            final(self).wf(),
            final(self)@.0 == old(self)@.0,
            final(self)@.2 == old(self)@.2,
            forall|i: int|
                0 <= i < BUTTON_COUNT ==> #[trigger] final(self)@.1[i] == if i < LIT_BUTTON_COUNT
                    && old(self)@.1[i] == Brightness::Off {
                    level
                } else {
                    old(self)@.1[i]
                },
            r == exists|i: int| 0 <= i < LIT_BUTTON_COUNT && #[trigger] old(self)@.1[i] == Brightness::Off,
    {
        let ghost b0 = self@.1;
        let mut changed = false;
        let mut i: usize = 0;
        while i < LIT_BUTTON_COUNT
            invariant
                i <= LIT_BUTTON_COUNT,
                self.wf(),
                self@.0 == old(self)@.0,
                self@.2 == old(self)@.2,
                b0 == old(self)@.1,
                forall|k: int|
                    0 <= k < BUTTON_COUNT ==> #[trigger] self@.1[k] == if k < i && b0[k]
                        == Brightness::Off {
                        level
                    } else {
                        b0[k]
                    },
                changed == exists|k: int| 0 <= k < i && #[trigger] b0[k] == Brightness::Off,
            decreases LIT_BUTTON_COUNT - i,
        {
            if self.buttons[i] == Brightness::Off {
                self.buttons.set(i, level);
                changed = true;
            }
            i = i + 1;
        }
        changed
    }

    /// The LED report that shows this state on the device.
    pub fn report(&self) -> (r: Vec<u8>)
        requires
            self.wf(),
        ensures
            r@ == report_of(self@),
            r@.len() == LED_REPORT_LEN,
    {
        let mut out: Vec<u8> = Vec::new();
        out.push(LED_REPORT_ID);
        let mut i: usize = 0;
        while i < LIT_BUTTON_COUNT
            invariant
                self.wf(),
                i <= LIT_BUTTON_COUNT,
                out@ =~= seq![LED_REPORT_ID] + Seq::new(i as nat, |k: int| self@.1[k].spec_level()),
            decreases LIT_BUTTON_COUNT - i,
        {
            out.push(self.buttons[i].level());
            i = i + 1;
            assert(out@ =~= seq![LED_REPORT_ID] + Seq::new(i as nat, |k: int| self@.1[k].spec_level()));
        }
        let ghost head = out@;
        let mut i: usize = 0;
        while i < PAD_COUNT
            invariant
                self.wf(),
                i <= PAD_COUNT,
                out@ =~= head + Seq::new(i as nat, |k: int| pad_byte(self@.0[k].0, self@.0[k].1)),
            decreases PAD_COUNT - i,
        {
            let (c, b) = self.pads[i];
            let byte: u8 = if c == PadColors::Off || b == Brightness::Off {
                0
            } else {
                c.index() * 4 + b.pad_level()
            };
            out.push(byte);
            i = i + 1;
            assert(out@ =~= head + Seq::new(
                i as nat,
                |k: int| pad_byte(self@.0[k].0, self@.0[k].1),
            ));
        }
        let ghost head2 = out@;
        let mut i: usize = 0;
        while i < SLIDER_SEGMENTS
            invariant
                self.wf(),
                i <= SLIDER_SEGMENTS,
                out@ =~= head2 + Seq::new(i as nat, |k: int| self@.2[k].spec_level()),
            decreases SLIDER_SEGMENTS - i,
        {
            out.push(self.slider[i].level());
            i = i + 1;
            assert(out@ =~= head2 + Seq::new(i as nat, |k: int| self@.2[k].spec_level()));
        }
        assert(out@ =~= report_of(self@));
        out
    }
}

} // verus!
