use crate::state::{all_buttons, Button, Message, State};
use vstd::prelude::*;

verus! {

/// A switch the user pushes. The implementor settles the wiring: on a
/// pulled-up input a closed switch reads low.
pub trait Switch {
    type Error;

    /// Whether the switch is closed now.
    fn is_closed(&self) -> Result<bool, Self::Error>;
}

/// The state of a switch from one read of it: a read that failed counts as
/// `Off`.
pub fn state_from_read<E>(read: Result<bool, E>) -> (r: State)
    ensures
        r == match read {
            Ok(level) => State::from_level(level),
            Err(_) => State::Off,
        },
{
    match read {
        Ok(level) => State::from(level),
        Err(_) => State::Off,
    }
}

/// One read of the five inputs, one state per button.
#[derive(Clone, Copy, Debug, PartialEq, Eq, Structural)]
pub struct InputRead {
    pub pin1: State,
    pub pin2: State,
    pub pin3: State,
    pub pin4: State,
    pub pin5: State,
}

impl InputRead {
    /// The state read for a button.
    pub open spec fn level(self, button: Button) -> State {
        match button {
            Button::One => self.pin1,
            Button::Two => self.pin2,
            Button::Three => self.pin3,
            Button::Four => self.pin4,
            Button::Five => self.pin5,
        }
    }

    /// The state read for a button.
    pub fn state_of(&self, button: Button) -> (r: State)
        ensures
            r == self.level(button),
    {
        match button {
            Button::One => self.pin1,
            Button::Two => self.pin2,
            Button::Three => self.pin3,
            Button::Four => self.pin4,
            Button::Five => self.pin5,
        }
    }

    /// A read with every input off.
    pub fn all_off() -> (r: InputRead)
        ensures
            forall|b: Button| r.level(b) == State::Off,
    {
        InputRead {
            pin1: State::Off,
            pin2: State::Off,
            pin3: State::Off,
            pin4: State::Off,
            pin5: State::Off,
        }
    }
}

/// The messages between two reads, for the buttons of `bs` in order: one for
/// each button whose read changed, with its new state.
pub open spec fn changes(last: InputRead, now: InputRead, bs: Seq<Button>) -> Seq<Message>
    decreases bs.len(),
{
    if bs.len() == 0 {
        Seq::empty()
    } else {
        let earlier = changes(last, now, bs.drop_last());
        let b = bs.last();
        if last.level(b) != now.level(b) {
            earlier.push((b, now.level(b)))
        } else {
            earlier
        }
    }
}

/// The sampling task: remembers the last read between ticks and reports the
/// inputs that changed since.
#[derive(Clone, Copy, Debug)]
pub struct Sampler {
    /// The read of the previous tick.
    pub last: InputRead,
}

impl Sampler {
    /// A sampler that has seen every input off, as the state at boot has.
    pub fn new() -> (r: Sampler)
        ensures
            forall|b: Button| r.last.level(b) == State::Off,
    {
        Sampler { last: InputRead::all_off() }
    }

    /// Takes the read of this tick: returns one message, in button order, for
    /// each input whose state changed since the last tick, and remembers the
    /// read.
    pub fn sample(&mut self, now: InputRead) -> (msgs: Vec<Message>)
        ensures
            msgs@ == changes(old(self).last, now, all_buttons()),
            final(self).last == now,
    {
        let buttons = Button::all();
        let mut msgs: Vec<Message> = Vec::new();
        let mut i: usize = 0;
        while i < 5
            invariant
                i <= 5,
                buttons@ == all_buttons(),
                msgs@ == changes(self.last, now, all_buttons().take(i as int)),
            decreases 5 - i,
        {
            let button = buttons[i];
            let before = self.last.state_of(button);
            let after = now.state_of(button);
            assert(all_buttons().take(i + 1).drop_last() =~= all_buttons().take(i as int));
            if before != after {
                msgs.push((button, after));
            }
            i = i + 1;
        }
        assert(all_buttons().take(5) =~= all_buttons());
        self.last = now;
        msgs
    }
}

} // verus!
