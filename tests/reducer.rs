use midi_stomp::midi::{bytes_to_send, DeviceState};
use midi_stomp::packet::{encode, Packet};
use midi_stomp::state::{midi_events, ApplicationState, Button, Effect, Message, State};

const BUTTONS: [Button; 5] = [Button::One, Button::Two, Button::Three, Button::Four, Button::Five];

fn same_state(a: &ApplicationState, b: &ApplicationState) -> bool {
    BUTTONS.iter().all(|&x| a.state_of(x) == b.state_of(x))
        && a.cable() == b.cable()
        && a.channel() == b.channel()
}

#[test]
fn init_has_every_button_off() {
    let s = ApplicationState::init();
    for b in BUTTONS {
        assert_eq!(s.state_of(b), State::Off);
    }
    assert_eq!(s.cable(), 0);
    assert_eq!(s.channel(), 1);
}

#[test]
fn repeated_on_is_idempotent() {
    for b in BUTTONS {
        let mut once = ApplicationState::init();
        let first = once.update((b, State::On));
        assert!(matches!(first, Effect::Midi(_)));
        let mut twice = once;
        let second = twice.update((b, State::On));
        assert_eq!(second, Effect::Nothing);
        assert!(same_state(&once, &twice));
    }
}

#[test]
fn encoding_is_distinct_and_well_formed() {
    let mut seen: Vec<Packet> = Vec::new();
    for (k, b) in BUTTONS.iter().enumerate() {
        for d in [State::On, State::Off] {
            let p = encode(*b, d, 0, 1);
            assert_eq!(p.note as usize, 59 + (k + 1));
            assert_eq!(p.velocity, 127);
            let code = if d == State::On { 0x9 } else { 0x8 };
            assert_eq!(p.header, code);
            assert_eq!(p.status, code << 4);
            assert!(!seen.contains(&p));
            seen.push(p);
        }
    }
    assert_eq!(seen.len(), 10);
}

#[test]
fn encoding_places_cable_and_channel() {
    let p = encode(Button::Five, State::Off, 3, 10);
    assert_eq!(p.to_bytes(), [0x38, 0x89, 64, 127]);
    let q = encode(Button::Two, State::On, 15, 16);
    assert_eq!(q.to_bytes(), [0xf9, 0x9f, 61, 127]);
}

#[test]
fn round_trip_returns_to_all_off() {
    let start = ApplicationState::init();
    let mut s = start;
    let mut midi = 0;
    for b in BUTTONS {
        for d in [State::On, State::Off] {
            match s.update((b, d)) {
                Effect::Midi(_) => midi += 1,
                Effect::Nothing => panic!("a transition produced no packet"),
            }
        }
    }
    assert_eq!(midi, 10);
    assert!(same_state(&s, &start));
}

#[test]
fn tick_messages_commute() {
    let tick: Vec<Message> = vec![
        (Button::One, State::On),
        (Button::Two, State::Off),
        (Button::Three, State::On),
        (Button::Four, State::On),
        (Button::Five, State::Off),
    ];
    let mut base = ApplicationState::init();
    base.update((Button::Two, State::On));
    base.update((Button::Five, State::On));
    let mut forward = base;
    for m in tick.iter() {
        forward.update(*m);
    }
    let orders: [[usize; 5]; 4] = [[4, 3, 2, 1, 0], [2, 0, 4, 1, 3], [1, 2, 3, 4, 0], [3, 4, 0, 2, 1]];
    for order in orders {
        let mut s = base;
        for i in order {
            s.update(tick[i]);
        }
        assert!(same_state(&s, &forward));
    }
    assert_eq!(forward.state_of(Button::Two), State::Off);
    assert_eq!(forward.state_of(Button::Four), State::On);
}

#[test]
fn unconfigured_device_sends_nothing() {
    let mut s = ApplicationState::init();
    let effect = s.update((Button::Three, State::On));
    assert_eq!(s.state_of(Button::Three), State::On);
    match effect {
        Effect::Midi(p) => {
            assert_eq!(p.to_bytes(), [0x09, 0x90, 62, 127]);
            assert!(bytes_to_send(DeviceState::Default, &p).is_empty());
            assert!(bytes_to_send(DeviceState::Addressed, &p).is_empty());
            assert!(bytes_to_send(DeviceState::Suspend, &p).is_empty());
        }
        Effect::Nothing => panic!("expected a packet"),
    }
}

#[test]
fn configured_device_sends_packet() {
    let mut s = ApplicationState::init();
    assert_eq!(s.cable(), 0);
    assert_eq!(s.channel(), 1);
    match s.update((Button::One, State::On)) {
        Effect::Midi(p) => {
            assert_eq!(bytes_to_send(DeviceState::Configured, &p), vec![0x09, 0x90, 60, 127]);
        }
        Effect::Nothing => panic!("expected a packet"),
    }
}

#[test]
fn double_on_gives_one_packet() {
    let mut s = ApplicationState::init();
    let first = s.update((Button::Two, State::On));
    let second = s.update((Button::Two, State::On));
    assert_eq!(first, Effect::Midi(encode(Button::Two, State::On, 0, 1)));
    assert_eq!(second, Effect::Nothing);
}

#[test]
fn off_message_on_off_button_is_nothing() {
    let mut s = ApplicationState::init();
    assert_eq!(s.update((Button::Four, State::Off)), Effect::Nothing);
}

#[test]
fn midi_events_lists_changed_buttons_in_order() {
    let old = ApplicationState::init();
    let mut new = old;
    new.update((Button::Four, State::On));
    new.update((Button::Two, State::On));
    let events = midi_events(&old, &new);
    assert_eq!(
        events,
        vec![encode(Button::Two, State::On, 0, 1), encode(Button::Four, State::On, 0, 1)]
    );
    let back = midi_events(&new, &old);
    assert_eq!(back[0].to_bytes(), [0x08, 0x80, 61, 127]);
    assert_eq!(back[1].to_bytes(), [0x08, 0x80, 63, 127]);
    assert!(midi_events(&old, &old).is_empty());
}

#[test]
fn state_from_bool() {
    assert_eq!(State::from(true), State::On);
    assert_eq!(State::from(false), State::Off);
}

#[test]
fn button_notes_ascend_from_c3() {
    let notes: Vec<u8> = BUTTONS.iter().map(|b| b.note()).collect();
    assert_eq!(notes, vec![60, 61, 62, 63, 64]);
    assert_eq!(Button::all(), BUTTONS);
}
