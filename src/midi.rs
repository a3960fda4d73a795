use crate::packet::Packet;
use vstd::prelude::*;

verus! {

/// Device class of the device descriptor: none, each interface names its own.
pub const USB_CLASS_NONE: u8 = 0x00;

/// Vendor identifier of the device.
pub const USB_VENDOR_ID: u16 = 0x16c0;

/// Product identifier of the device.
pub const USB_PRODUCT_ID: u16 = 0x27dd;

/// Largest packet of each bulk endpoint.
pub const MAX_PACKET_SIZE: u16 = 64;

pub const USB_AUDIO_CLASS: u8 = 0x01;

pub const USB_AUDIOCONTROL_SUBCLASS: u8 = 0x01;

pub const USB_MIDISTREAMING_SUBCLASS: u8 = 0x03;

pub const CS_INTERFACE: u8 = 0x24;

pub const CS_ENDPOINT: u8 = 0x25;

pub const HEADER_SUBTYPE: u8 = 0x01;

pub const MS_HEADER_SUBTYPE: u8 = 0x01;

pub const MIDI_IN_JACK_SUBTYPE: u8 = 0x02;

pub const MIDI_OUT_JACK_SUBTYPE: u8 = 0x03;

pub const MS_GENERAL: u8 = 0x01;

pub const EMBEDDED: u8 = 0x01;

/// Id of the embedded MIDI-IN jack.
pub const IN_JACK_ID: u8 = 0x01;

/// Id of the embedded MIDI-OUT jack.
pub const OUT_JACK_ID: u8 = 0x02;

/// Total length the AudioControl header declares: the header alone.
pub const AC_TOTAL_LENGTH: u16 = 0x09;

/// Total length the MIDIStreaming header declares: the header and both jacks.
pub const MS_TOTAL_LENGTH: u16 = 0x16;

/// The two interfaces of the class.
#[derive(Clone, Copy, Debug, PartialEq, Eq, Structural)]
pub enum InterfaceRole {
    AudioControl,
    MidiStreaming,
}

/// The two bulk endpoints of the MIDIStreaming interface.
#[derive(Clone, Copy, Debug, PartialEq, Eq, Structural)]
pub enum EndpointRole {
    BulkOut,
    BulkIn,
}

/// The class-specific descriptors of the class.
#[derive(Clone, Copy, Debug, PartialEq, Eq, Structural)]
pub enum ClassSpecific {
    /// AudioControl header, revision 1.0, with one streaming interface.
    AudioControlHeader { total_length: u16, streaming_interface: u8 },
    /// MIDIStreaming header, revision 1.0.
    MidiStreamingHeader { total_length: u16 },
    /// An embedded MIDI-IN jack.
    InJack { id: u8 },
    /// An embedded MIDI-OUT jack with one input pin, fed from pin 1 of `source`.
    OutJack { id: u8, source: u8 },
    /// A general MIDIStreaming endpoint bound to one embedded jack.
    StreamingEndpoint { jack: u8 },
}

/// One entry of the class's part of the configuration descriptor.
#[derive(Clone, Copy, Debug, PartialEq, Eq, Structural)]
pub enum Descriptor {
    /// A standard interface descriptor.
    Interface(InterfaceRole),
    /// A class-specific descriptor.
    ClassSpecific(ClassSpecific),
    /// A standard endpoint descriptor.
    Endpoint(EndpointRole),
}

/// The low byte of a 16-bit field.
pub open spec fn low(v: u16) -> u8 {
    (v % 256) as u8
}

/// The high byte of a 16-bit field.
pub open spec fn high(v: u16) -> u8 {
    (v / 256) as u8
}

impl InterfaceRole {
    /// Class, subclass and protocol of the interface.
    pub open spec fn codes(self) -> (u8, u8, u8) {
        match self {
            InterfaceRole::AudioControl => (USB_AUDIO_CLASS, USB_AUDIOCONTROL_SUBCLASS, 0),
            InterfaceRole::MidiStreaming => (USB_AUDIO_CLASS, USB_MIDISTREAMING_SUBCLASS, 0),
        }
    }

    /// Class, subclass and protocol of the interface.
    pub fn class_codes(self) -> (r: (u8, u8, u8))
        ensures
            r == self.codes(),
    {
        match self {
            InterfaceRole::AudioControl => (USB_AUDIO_CLASS, USB_AUDIOCONTROL_SUBCLASS, 0),
            InterfaceRole::MidiStreaming => (USB_AUDIO_CLASS, USB_MIDISTREAMING_SUBCLASS, 0),
        }
    }
}

impl ClassSpecific {
    /// The descriptor type the descriptor is written with.
    pub open spec fn kind(self) -> u8 {
        match self {
            ClassSpecific::StreamingEndpoint { .. } => CS_ENDPOINT,
            _ => CS_INTERFACE,
        }
    }

    /// The bytes after the length and type bytes.
    pub open spec fn body_bytes(self) -> Seq<u8> {
        match self {
            ClassSpecific::AudioControlHeader { total_length, streaming_interface } => seq![
                HEADER_SUBTYPE,
                0x00u8,
                0x01u8,
                low(total_length),
                high(total_length),
                0x01u8,
                streaming_interface,
            ],
            ClassSpecific::MidiStreamingHeader { total_length } => seq![
                MS_HEADER_SUBTYPE,
                0x00u8,
                0x01u8,
                low(total_length),
                high(total_length),
            ],
            ClassSpecific::InJack { id } => seq![MIDI_IN_JACK_SUBTYPE, EMBEDDED, id, 0x00u8],
            ClassSpecific::OutJack { id, source } => seq![
                MIDI_OUT_JACK_SUBTYPE,
                EMBEDDED,
                id,
                0x01u8,
                source,
                0x01u8,
                0x00u8,
            ],
            ClassSpecific::StreamingEndpoint { jack } => seq![MS_GENERAL, 0x01u8, jack],
        }
    }

    /// Length of the descriptor as written: body, length byte and type byte.
    pub open spec fn wire_length(self) -> nat {
        self.body_bytes().len() + 2
    }

    /// The descriptor type the descriptor is written with.
    pub fn descriptor_type(&self) -> (r: u8)
        ensures
            r == self.kind(),
    {
        match self {
            ClassSpecific::StreamingEndpoint { .. } => CS_ENDPOINT,
            _ => CS_INTERFACE,
        }
    }

    /// The bytes after the length and type bytes.
    pub fn body(&self) -> (r: Vec<u8>)
        ensures
            r@ == self.body_bytes(),
    {
        let r = match *self {
            ClassSpecific::AudioControlHeader { total_length, streaming_interface } => vec![
                HEADER_SUBTYPE,
                0x00,
                0x01,
                (total_length % 256) as u8,
                (total_length / 256) as u8,
                0x01,
                streaming_interface,
            ],
            ClassSpecific::MidiStreamingHeader { total_length } => vec![
                MS_HEADER_SUBTYPE,
                0x00,
                0x01,
                (total_length % 256) as u8,
                (total_length / 256) as u8,
            ],
            ClassSpecific::InJack { id } => vec![MIDI_IN_JACK_SUBTYPE, EMBEDDED, id, 0x00],
            ClassSpecific::OutJack { id, source } => vec![
                MIDI_OUT_JACK_SUBTYPE,
                EMBEDDED,
                id,
                0x01,
                source,
                0x01,
                0x00,
            ],
            ClassSpecific::StreamingEndpoint { jack } => vec![MS_GENERAL, 0x01, jack],
        };
        assert(r@ =~= self.body_bytes());
        r
    }

    /// Length of the descriptor as written.
    pub fn length(&self) -> (r: u8)
        ensures
            r == self.wire_length(),
    {
        match self {
            ClassSpecific::AudioControlHeader { .. } => 9,
            ClassSpecific::MidiStreamingHeader { .. } => 7,
            ClassSpecific::InJack { .. } => 6,
            ClassSpecific::OutJack { .. } => 9,
            ClassSpecific::StreamingEndpoint { .. } => 5,
        }
    }
}

/// The class's descriptors in the order the host reads them: the AudioControl
/// interface and its header, the MIDIStreaming interface, its header and its
/// two jacks, then each bulk endpoint followed by its MIDIStreaming endpoint
/// descriptor (OUT bound to the IN jack, IN bound to the OUT jack).
pub open spec fn class_table(streaming_interface: u8) -> Seq<Descriptor> {
    seq![
        Descriptor::Interface(InterfaceRole::AudioControl),
        Descriptor::ClassSpecific(
            ClassSpecific::AudioControlHeader { total_length: AC_TOTAL_LENGTH, streaming_interface },
        ),
        Descriptor::Interface(InterfaceRole::MidiStreaming),
        Descriptor::ClassSpecific(
            ClassSpecific::MidiStreamingHeader { total_length: MS_TOTAL_LENGTH },
        ),
        Descriptor::ClassSpecific(ClassSpecific::InJack { id: IN_JACK_ID }),
        Descriptor::ClassSpecific(ClassSpecific::OutJack { id: OUT_JACK_ID, source: IN_JACK_ID }),
        Descriptor::Endpoint(EndpointRole::BulkOut),
        Descriptor::ClassSpecific(ClassSpecific::StreamingEndpoint { jack: IN_JACK_ID }),
        Descriptor::Endpoint(EndpointRole::BulkIn),
        Descriptor::ClassSpecific(ClassSpecific::StreamingEndpoint { jack: OUT_JACK_ID }),
    ]
}

/// The class's descriptors, in emission order, for a MIDIStreaming interface
/// with number `streaming_interface`.
pub fn class_descriptors(streaming_interface: u8) -> (r: Vec<Descriptor>)
    ensures
        r@ == class_table(streaming_interface),
{
    let r = vec![
        Descriptor::Interface(InterfaceRole::AudioControl),
        Descriptor::ClassSpecific(
            ClassSpecific::AudioControlHeader { total_length: AC_TOTAL_LENGTH, streaming_interface },
        ),
        Descriptor::Interface(InterfaceRole::MidiStreaming),
        Descriptor::ClassSpecific(
            ClassSpecific::MidiStreamingHeader { total_length: MS_TOTAL_LENGTH },
        ),
        Descriptor::ClassSpecific(ClassSpecific::InJack { id: IN_JACK_ID }),
        Descriptor::ClassSpecific(ClassSpecific::OutJack { id: OUT_JACK_ID, source: IN_JACK_ID }),
        Descriptor::Endpoint(EndpointRole::BulkOut),
        Descriptor::ClassSpecific(ClassSpecific::StreamingEndpoint { jack: IN_JACK_ID }),
        Descriptor::Endpoint(EndpointRole::BulkIn),
        Descriptor::ClassSpecific(ClassSpecific::StreamingEndpoint { jack: OUT_JACK_ID }),
    ];
    assert(r@ =~= class_table(streaming_interface));
    r
}

impl Descriptor {
    /// The total a header declares for its block, or `None` for any other
    /// descriptor.
    pub open spec fn declared_total(self) -> Option<u16> {
        match self {
            Descriptor::ClassSpecific(ClassSpecific::AudioControlHeader { total_length, .. }) => Some(
                total_length,
            ),
            Descriptor::ClassSpecific(ClassSpecific::MidiStreamingHeader { total_length }) => Some(
                total_length,
            ),
            _ => None,
        }
    }

    /// The total a header declares for its block, or `None` for any other
    /// descriptor.
    pub fn header_total(&self) -> (r: Option<u16>)
        ensures
            r == self.declared_total(),
    {
        match *self {
            Descriptor::ClassSpecific(ClassSpecific::AudioControlHeader { total_length, .. }) => Some(
                total_length,
            ),
            Descriptor::ClassSpecific(ClassSpecific::MidiStreamingHeader { total_length }) => Some(
                total_length,
            ),
            _ => None,
        }
    }
}

/// The bytes of the run of class-specific descriptors that starts at `i`; the
/// run ends at the first standard descriptor or at the end of the table.
pub open spec fn block_length(t: Seq<Descriptor>, i: int) -> nat
    decreases t.len() - i,
{
    if i < 0 || i >= t.len() {
        0
    } else {
        match t[i] {
            Descriptor::ClassSpecific(c) => c.wire_length() + block_length(t, i + 1),
            _ => 0,
        }
    }
}

/// Every header declares the true length of its block: itself and the
/// class-specific descriptors that follow it in the same interface.
pub open spec fn lengths_agree(t: Seq<Descriptor>) -> bool {
    forall|i: int|
        0 <= i < t.len() ==> (#[trigger] t[i].declared_total() matches Some(n) ==> n
            == block_length(t, i))
}

/// Whether the block that starts at `start` is exactly `limit` bytes long.
fn block_measures(table: &Vec<Descriptor>, start: usize, limit: u16) -> (r: bool)
    requires
        start < table.len(),
    ensures
        r == (block_length(table@, start as int) == limit),
{
    let mut sum: u32 = 0;
    let mut k: usize = start;
    while k < table.len()
        invariant
            start <= k <= table.len(),
            sum <= limit,
            sum + block_length(table@, k as int) == block_length(table@, start as int),
        ensures
            sum + block_length(table@, k as int) == block_length(table@, start as int),
            block_length(table@, k as int) == 0,
        decreases table.len() - k,
    {
        match table[k] {
            Descriptor::ClassSpecific(c) => {
                sum = sum + c.length() as u32;
                if sum > limit as u32 {
                    return false;
                }
            },
            _ => {
                break;
            },
        }
        k = k + 1;
    }
    sum == limit as u32
}

/// Checks that every header of the table declares the true length of its
/// block.
pub fn declared_lengths_agree(table: &Vec<Descriptor>) -> (r: bool)
    ensures
        r == lengths_agree(table@),
{
    let mut i: usize = 0;
    while i < table.len()
        invariant
            i <= table.len(),
            forall|j: int|
                0 <= j < i ==> (#[trigger] table@[j].declared_total() matches Some(n) ==> n
                    == block_length(table@, j)),
        decreases table.len() - i,
    {
        match table[i].header_total() {
            Some(total) => {
                if !block_measures(table, i, total) {
                    return false;
                }
            },
            None => {},
        }
        i = i + 1;
    }
    true
}

/// The class's table declares the true lengths: 9 bytes for the AudioControl
/// block and 22 for the MIDIStreaming header and its two jacks.
pub proof fn lemma_class_table_lengths_agree(streaming_interface: u8)
    ensures
        lengths_agree(class_table(streaming_interface)),
{
    let t = class_table(streaming_interface);
    reveal_with_fuel(block_length, 4);
    assert(block_length(t, 1) == 9);
    assert(block_length(t, 3) == 22);
    assert forall|i: int| 0 <= i < t.len() implies (#[trigger] t[i].declared_total() matches Some(
        n,
    ) ==> n == block_length(t, i)) by {
        if i != 1 && i != 3 {
            assert(t[i].declared_total() is None);
        }
    }
}

/// Enumeration state of the USB device.
#[derive(Clone, Copy, Debug, PartialEq, Eq, Structural)]
pub enum DeviceState {
    /// Just created or reset.
    Default,
    /// Given an address by the host.
    Addressed,
    /// Configured by the host: a class driver is listening.
    Configured,
    /// Suspended by the host, or unplugged.
    Suspend,
}

/// The bytes to hand to the bulk-IN endpoint for a packet: all four once the
/// host has configured the device, none before, since nobody listens yet.
pub fn bytes_to_send(device: DeviceState, packet: &Packet) -> (r: Vec<u8>)
    ensures
        r@ == (if device == DeviceState::Configured {
            packet.bytes()
        } else {
            Seq::empty()
        }),
{
    match device {
        DeviceState::Configured => {
            let r = vec![packet.header, packet.status, packet.note, packet.velocity];
            assert(r@ =~= packet.bytes());
            r
        },
        _ => Vec::new(),
    }
}

} // verus!
