use midi_stomp::state::{ApplicationState, Button, Effect, State};
use midi_stomp::switch::{state_from_read, InputRead, Sampler};

fn read(levels: [bool; 5]) -> InputRead {
    InputRead {
        pin1: State::from(levels[0]),
        pin2: State::from(levels[1]),
        pin3: State::from(levels[2]),
        pin4: State::from(levels[3]),
        pin5: State::from(levels[4]),
    }
}

#[test]
fn failed_read_counts_as_off() {
    assert_eq!(state_from_read::<()>(Ok(true)), State::On);
    assert_eq!(state_from_read::<()>(Ok(false)), State::Off);
    assert_eq!(state_from_read::<&str>(Err("fault")), State::Off);
}

#[test]
fn stable_inputs_give_no_message() {
    let mut s = Sampler::new();
    assert!(s.sample(InputRead::all_off()).is_empty());
    let r = read([true, false, true, false, false]);
    assert_eq!(s.sample(r), vec![(Button::One, State::On), (Button::Three, State::On)]);
    assert!(s.sample(r).is_empty());
    assert_eq!(s.last, r);
}

#[test]
fn all_five_changes_are_reported() {
    let mut s = Sampler::new();
    let msgs = s.sample(read([true; 5]));
    assert_eq!(
        msgs,
        vec![
            (Button::One, State::On),
            (Button::Two, State::On),
            (Button::Three, State::On),
            (Button::Four, State::On),
            (Button::Five, State::On),
        ]
    );
    let back = s.sample(read([false, true, true, true, false]));
    assert_eq!(back, vec![(Button::One, State::Off), (Button::Five, State::Off)]);
}

#[test]
fn sampled_messages_drive_reducer() {
    let mut sampler = Sampler::new();
    let mut state = ApplicationState::init();
    let mut packets = Vec::new();
    for levels in [[false, true, false, false, false], [false, true, false, false, true], [false; 5]] {
        for m in sampler.sample(read(levels)) {
            if let Effect::Midi(p) = state.update(m) {
                packets.push(p.to_bytes());
            }
        }
    }
    assert_eq!(
        packets,
        vec![[0x09, 0x90, 61, 127], [0x09, 0x90, 64, 127], [0x08, 0x80, 61, 127], [0x08, 0x80, 64, 127]]
    );
}

#[test]
fn input_read_state_of() {
    let r = read([false, false, false, true, false]);
    assert_eq!(r.state_of(Button::Four), State::On);
    assert_eq!(r.state_of(Button::One), State::Off);
}
