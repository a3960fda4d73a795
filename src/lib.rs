//! Verified core of a five-switch USB MIDI foot controller: the reducer that
//! turns switch transitions into MIDI note events, the USB-MIDI packet encoder,
//! the MIDIStreaming class descriptor table and the input sampler.
pub mod midi;
pub mod packet;
pub mod state;
pub mod switch;
