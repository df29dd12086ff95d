//! A bridge between a USB control surface (buttons, a touch-sensitive
//! encoder, a slider and a pad grid) and MIDI: decoding of the device's
//! reports into MIDI messages, decoding of inbound MIDI and of a vendor SysEx
//! sub-protocol into LED and display state, the packed display buffer with
//! its rasterizer, and the state that the MIDI handler and the polling loop
//! share.
use vstd::prelude::*;

pub mod aconnect;
pub mod controls;
pub mod decoder;
pub mod display;
pub mod font;
pub mod inbound;
pub mod lights;
pub mod midi;
pub mod screen;
pub mod settings;
pub mod sync;
pub mod text;

verus! {

} // verus!
