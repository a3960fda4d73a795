use midi_stomp::midi::{
    bytes_to_send, class_descriptors, declared_lengths_agree, ClassSpecific, Descriptor,
    DeviceState, EndpointRole, InterfaceRole, CS_ENDPOINT, CS_INTERFACE,
};
use midi_stomp::packet::encode;
use midi_stomp::state::{Button, State};

#[test]
fn table_order_is_fixed() {
    let t = class_descriptors(1);
    assert_eq!(t.len(), 10);
    assert_eq!(t[0], Descriptor::Interface(InterfaceRole::AudioControl));
    assert_eq!(t[2], Descriptor::Interface(InterfaceRole::MidiStreaming));
    assert_eq!(t[6], Descriptor::Endpoint(EndpointRole::BulkOut));
    assert_eq!(t[8], Descriptor::Endpoint(EndpointRole::BulkIn));
    assert_eq!(t[7], Descriptor::ClassSpecific(ClassSpecific::StreamingEndpoint { jack: 1 }));
    assert_eq!(t[9], Descriptor::ClassSpecific(ClassSpecific::StreamingEndpoint { jack: 2 }));
}

#[test]
fn interface_codes() {
    assert_eq!(InterfaceRole::AudioControl.class_codes(), (0x01, 0x01, 0x00));
    assert_eq!(InterfaceRole::MidiStreaming.class_codes(), (0x01, 0x03, 0x00));
}

fn written(d: &Descriptor) -> Vec<u8> {
    match d {
        Descriptor::ClassSpecific(c) => {
            let mut out = vec![c.length(), c.descriptor_type()];
            out.extend(c.body());
            out
        }
        _ => Vec::new(),
    }
}

#[test]
fn class_specific_bytes() {
    let t = class_descriptors(1);
    assert_eq!(written(&t[1]), vec![0x09, 0x24, 0x01, 0x00, 0x01, 0x09, 0x00, 0x01, 0x01]);
    assert_eq!(written(&t[3]), vec![0x07, 0x24, 0x01, 0x00, 0x01, 0x16, 0x00]);
    assert_eq!(written(&t[4]), vec![0x06, 0x24, 0x02, 0x01, 0x01, 0x00]);
    assert_eq!(written(&t[5]), vec![0x09, 0x24, 0x03, 0x01, 0x02, 0x01, 0x01, 0x01, 0x00]);
    assert_eq!(written(&t[7]), vec![0x05, 0x25, 0x01, 0x01, 0x01]);
    assert_eq!(written(&t[9]), vec![0x05, 0x25, 0x01, 0x01, 0x02]);
}

#[test]
fn lengths_match_written_bytes() {
    for d in class_descriptors(1).iter() {
        if let Descriptor::ClassSpecific(c) = d {
            assert_eq!(c.length() as usize, c.body().len() + 2);
            let expected = if matches!(c, ClassSpecific::StreamingEndpoint { .. }) {
                CS_ENDPOINT
            } else {
                CS_INTERFACE
            };
            assert_eq!(c.descriptor_type(), expected);
        }
    }
}

#[test]
fn streaming_interface_number_is_referenced() {
    let t = class_descriptors(3);
    assert_eq!(written(&t[1])[8], 3);
}

#[test]
fn class_table_lengths_agree() {
    assert!(declared_lengths_agree(&class_descriptors(1)));
    assert!(declared_lengths_agree(&Vec::new()));
}

#[test]
fn wrong_declared_length_is_detected() {
    let mut t = class_descriptors(1);
    t[3] = Descriptor::ClassSpecific(ClassSpecific::MidiStreamingHeader { total_length: 0x15 });
    assert!(!declared_lengths_agree(&t));
    let mut u = class_descriptors(1);
    u.remove(4);
    assert!(!declared_lengths_agree(&u));
    let mut v = class_descriptors(1);
    v[1] = Descriptor::ClassSpecific(ClassSpecific::AudioControlHeader {
        total_length: 0xffff,
        streaming_interface: 1,
    });
    assert!(!declared_lengths_agree(&v));
}

#[test]
fn header_totals() {
    let t = class_descriptors(1);
    assert_eq!(t[1].header_total(), Some(9));
    assert_eq!(t[3].header_total(), Some(22));
    assert_eq!(t[4].header_total(), None);
    assert_eq!(t[0].header_total(), None);
}

#[test]
fn only_configured_device_sends() {
    let p = encode(Button::Three, State::Off, 2, 5);
    assert_eq!(bytes_to_send(DeviceState::Configured, &p), vec![0x28, 0x84, 62, 127]);
    assert_eq!(bytes_to_send(DeviceState::Default, &p), Vec::<u8>::new());
}
