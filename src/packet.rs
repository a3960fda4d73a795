use crate::state::{Button, State};
use vstd::prelude::*;

verus! {

/// Code index number (and status nibble) of a Note On event.
pub const NOTE_ON: u8 = 0x9;

/// Code index number (and status nibble) of a Note Off event.
pub const NOTE_OFF: u8 = 0x8;

/// Every note is sent at the largest 7-bit velocity.
pub const VELOCITY: u8 = 127;

/// The note of the first button: C3, semitone 60.
pub const BASE_NOTE: u8 = 60;

/// A USB-MIDI event packet, in wire order.
#[derive(Clone, Copy, Debug, PartialEq, Eq, Structural)]
pub struct Packet {
    /// Cable number in the high nibble, code index number in the low one.
    pub header: u8,
    /// MIDI status nibble in the high nibble, channel in the low one.
    pub status: u8,
    pub note: u8,
    pub velocity: u8,
}

impl Button {
    /// Zero-based position of the button: `One` is 0, `Five` is 4.
    pub open spec fn ordinal(self) -> nat {
        match self {
            Button::One => 0,
            Button::Two => 1,
            Button::Three => 2,
            Button::Four => 3,
            Button::Five => 4,
        }
    }

    /// The note a button plays, ascending chromatically from C3.
    pub fn note(self) -> (r: u8)
        ensures
            r == BASE_NOTE + self.ordinal(),
    {
        match self {
            Button::One => BASE_NOTE,
            Button::Two => BASE_NOTE + 1,
            Button::Three => BASE_NOTE + 2,
            Button::Four => BASE_NOTE + 3,
            Button::Five => BASE_NOTE + 4,
        }
    }
}

/// Code index number of the event a direction produces.
pub open spec fn code_index(direction: State) -> u8 {
    match direction {
        State::On => NOTE_ON,
        State::Off => NOTE_OFF,
    }
}

/// The packet for `button` moving to `direction`, sent on `cable` (0 to 15)
/// and MIDI channel `channel` (1 to 16, sent as 0 to 15).
pub open spec fn packet_of(button: Button, direction: State, cable: u8, channel: u8) -> Packet {
    Packet {
        header: (cable << 4u8) | code_index(direction),
        status: (code_index(direction) << 4u8) | ((channel - 1) as u8),
        note: (BASE_NOTE + button.ordinal()) as u8,
        velocity: VELOCITY,
    }
}

/// Encodes a button transition as a USB-MIDI packet.
pub fn encode(button: Button, direction: State, cable: u8, channel: u8) -> (r: Packet)
    requires
        cable < 16,
        1 <= channel <= 16,
    ensures
        r == packet_of(button, direction, cable, channel),
{
    let code: u8 = match direction {
        State::On => NOTE_ON,
        State::Off => NOTE_OFF,
    };
    Packet {
        header: (cable << 4u8) | code,
        status: (code << 4u8) | (channel - 1),
        note: button.note(),
        velocity: VELOCITY,
    }
}

impl Packet {
    /// The four bytes of the packet, in the order they go on the wire.
    pub fn to_bytes(&self) -> (r: [u8; 4])
        ensures
            r@ == self.bytes(),
    {
        [self.header, self.status, self.note, self.velocity]
    }

    pub open spec fn bytes(self) -> Seq<u8> {
        seq![self.header, self.status, self.note, self.velocity]
    }
}

/// A packet is well formed for a cable and channel when its header carries
/// that cable and a Note On or Note Off code index, its status repeats the code
/// index as the MIDI status nibble over the channel, its note fits in seven bits
/// and its velocity is the largest one.
pub open spec fn well_formed(p: Packet, cable: u8, channel: u8) -> bool {
    &&& p.header >> 4u8 == cable
    &&& (p.header & 0xfu8 == NOTE_ON || p.header & 0xfu8 == NOTE_OFF)
    &&& p.status >> 4u8 == p.header & 0xfu8
    &&& p.status & 0xfu8 == channel - 1
    &&& p.note < 128
    &&& p.velocity == VELOCITY
}

/// The encoder is total and one to one: for a fixed cable and channel each of
/// the ten (button, direction) pairs gives a well-formed packet of its own, and
/// button k, counting from one, plays note 59 + k.
pub proof fn lemma_encoding_distinct(
    b1: Button,
    d1: State,
    b2: Button,
    d2: State,
    cable: u8,
    channel: u8,
)
    requires
        cable < 16,
        1 <= channel <= 16,
    ensures
        well_formed(packet_of(b1, d1, cable, channel), cable, channel),
        packet_of(b1, d1, cable, channel).note == 59 + (b1.ordinal() + 1),
        packet_of(b1, d1, cable, channel) == packet_of(b2, d2, cable, channel) ==> b1 == b2
            && d1 == d2,
{
    let c1 = code_index(d1);
    let c2 = code_index(d2);
    assert(c1 == 8 || c1 == 9);
    assert(c2 == 8 || c2 == 9);
    assert(((cable << 4u8) | c1) >> 4u8 == cable && ((cable << 4u8) | c1) & 0xfu8 == c1
        && ((c1 << 4u8) | ((channel - 1) as u8)) >> 4u8 == c1
        && ((c1 << 4u8) | ((channel - 1) as u8)) & 0xfu8 == channel - 1) by (bit_vector)
        requires
            cable < 16,
            1 <= channel <= 16,
            c1 == 8 || c1 == 9,
    ;
    assert(((cable << 4u8) | c1) == ((cable << 4u8) | c2) ==> c1 == c2) by (bit_vector)
        requires
            cable < 16,
            c1 == 8 || c1 == 9,
            c2 == 8 || c2 == 9,
    ;
}

} // verus!
