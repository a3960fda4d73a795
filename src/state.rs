use crate::packet::{encode, packet_of, Packet};
use vstd::prelude::*;

verus! {

/// The buttons the user can press.
#[derive(Clone, Copy, Debug, PartialEq, Eq, Structural)]
pub enum Button {
    One,
    Two,
    Three,
    Four,
    Five,
}

/// States the buttons emit.
#[derive(Clone, Copy, Debug, PartialEq, Eq, Structural)]
pub enum State {
    On,
    Off,
}

impl From<bool> for State {
    fn from(value: bool) -> (r: State)
        ensures
            r == State::from_level(value),
    {
        if value {
            State::On
        } else {
            State::Off
        }
    }
}

impl vstd::std_specs::convert::FromSpecImpl<bool> for State {
    open spec fn obeys_from_spec() -> bool {
        true
    }

    open spec fn from_spec(v: bool) -> State {
        State::from_level(v)
    }
}

impl State {
    /// A closed switch (a true level) is `On`, an open one `Off`.
    pub open spec fn from_level(level: bool) -> State {
        if level {
            State::On
        } else {
            State::Off
        }
    }
}

/// A button and the state it was observed in: a candidate transition.
pub type Message = (Button, State);

/// What the reducer asks for after a message.
#[derive(Clone, Copy, Debug, PartialEq, Eq, Structural)]
pub enum Effect {
    /// Send this packet to the host.
    Midi(Packet),
    /// Nothing changed: send nothing.
    Nothing,
}

/// The cable every packet of this build is sent on.
pub const CABLE: u8 = 0;

/// The MIDI channel (counted from one) every packet of this build is sent on.
pub const CHANNEL: u8 = 1;

/// The mathematical model of an `ApplicationState`: a state for every button
/// and the routing of the packets.
pub struct StateView {
    pub buttons: Map<Button, State>,
    pub cable: u8,
    pub channel: u8,
}

impl StateView {
    /// Every button has exactly one state, and the routing fits its nibbles.
    pub open spec fn wf(self) -> bool {
        &&& self.buttons.dom() == Set::<Button>::full()
        &&& self.cable < 16
        &&& 1 <= self.channel <= 16
    }

    /// The state at boot: every button `Off`, the build's routing.
    pub open spec fn initial() -> StateView {
        StateView { buttons: Map::total(|b: Button| State::Off), cable: CABLE, channel: CHANNEL }
    }
}

/// The reducer: a message whose state equals the stored one changes nothing
/// and asks for nothing; any other stores the new state and asks for its packet.
pub open spec fn reduce(s: StateView, m: Message) -> (StateView, Effect) {
    let (button, direction) = m;
    if s.buttons[button] == direction {
        (s, Effect::Nothing)
    } else {
        (
            StateView { buttons: s.buttons.insert(button, direction), ..s },
            Effect::Midi(packet_of(button, direction, s.cable, s.channel)),
        )
    }
}

/// Feeds the messages to the reducer in order: the final state and the
/// effects, one per message.
pub open spec fn run(s: StateView, msgs: Seq<Message>) -> (StateView, Seq<Effect>)
    decreases msgs.len(),
{
    if msgs.len() == 0 {
        (s, Seq::empty())
    } else {
        let (next, effect) = reduce(s, msgs[0]);
        let (last, effects) = run(next, msgs.drop_first());
        (last, seq![effect] + effects)
    }
}

/// The buttons in their order.
pub open spec fn all_buttons() -> Seq<Button> {
    seq![Button::One, Button::Two, Button::Three, Button::Four, Button::Five]
}

impl Button {
    /// Every button, in order.
    pub fn all() -> (r: [Button; 5])
        ensures
            r@ == all_buttons(),
    {
        [Button::One, Button::Two, Button::Three, Button::Four, Button::Five]
    }
}

/// The packets that take `old` to `new`, for the buttons of `bs` in order:
/// one for each button whose state differs, sent with the routing of `new`.
pub open spec fn events_between(old: StateView, new: StateView, bs: Seq<Button>) -> Seq<Packet>
    decreases bs.len(),
{
    if bs.len() == 0 {
        Seq::empty()
    } else {
        let earlier = events_between(old, new, bs.drop_last());
        let b = bs.last();
        if old.buttons[b] != new.buttons[b] {
            earlier.push(packet_of(b, new.buttons[b], new.cable, new.channel))
        } else {
            earlier
        }
    }
}

/// The application state: the current state of every button, and the cable
/// and channel the packets are sent on.
#[derive(Clone, Copy, Debug)]
pub struct ApplicationState {
    one: State,
    two: State,
    three: State,
    four: State,
    five: State,
    cable: u8,
    channel: u8,
}

impl View for ApplicationState {
    type V = StateView;

    closed spec fn view(&self) -> StateView {
        StateView {
            buttons: Map::total(|b: Button| self.slot(b)),
            cable: self.cable,
            channel: self.channel,
        }
    }
}

impl ApplicationState {
    #[verifier::type_invariant]
    spec fn routing_fits(self) -> bool {
        self.cable < 16 && 1 <= self.channel <= 16
    }

    closed spec fn slot(self, b: Button) -> State {
        match b {
            Button::One => self.one,
            Button::Two => self.two,
            Button::Three => self.three,
            Button::Four => self.four,
            Button::Five => self.five,
        }
    }

    proof fn lemma_view_wf(&self)
        requires
            self.routing_fits(),
        ensures
            self@.wf(),
    {
        assert(self@.buttons.dom() =~= Set::<Button>::full());
    }

    /// The state at boot: every button off.
    pub fn init() -> (r: ApplicationState)
        ensures
            r@ == StateView::initial(),
    {
        let r = ApplicationState {
            one: State::Off,
            two: State::Off,
            three: State::Off,
            four: State::Off,
            five: State::Off,
            cable: CABLE,
            channel: CHANNEL,
        };
        assert(r@.buttons =~= StateView::initial().buttons);
        r
    }

    /// The current state of a button.
    pub fn state_of(&self, button: Button) -> (r: State)
        ensures
            r == self@.buttons[button],
    {
        match button {
            Button::One => self.one,
            Button::Two => self.two,
            Button::Three => self.three,
            Button::Four => self.four,
            Button::Five => self.five,
        }
    }

    /// The cable the packets are sent on.
    pub fn cable(&self) -> (r: u8)
        ensures
            r == self@.cable,
    {
        self.cable
    }

    /// The MIDI channel, counted from one, the packets are sent on.
    pub fn channel(&self) -> (r: u8)
        ensures
            r == self@.channel,
    {
        self.channel
    }

    /// Feeds one message to the reducer: stores the new state of the button
    /// and returns the packet to send, or nothing where the state is unchanged.
    pub fn update(&mut self, message: Message) -> (effect: Effect)
        ensures
            (final(self)@, effect) == reduce(old(self)@, message),
            old(self)@.wf(),
            final(self)@.wf(),
    {
        let (button, direction) = message;
        let current = self.state_of(button);
        proof {
            use_type_invariant(&*self);
            self.lemma_view_wf();
        }
        if current == direction {
            Effect::Nothing
        } else {
            let packet = encode(button, direction, self.cable, self.channel);
            match button {
                Button::One => self.one = direction,
                Button::Two => self.two = direction,
                Button::Three => self.three = direction,
                Button::Four => self.four = direction,
                Button::Five => self.five = direction,
            }
            assert(self@.buttons =~= old(self)@.buttons.insert(button, direction));
            assert(self@.buttons.dom() =~= Set::<Button>::full());
            Effect::Midi(packet)
        }
    }
}

/// The packets that take `old_application` to `new_application`: one for each
/// button, in order, whose state differs, sent with the new state's routing.
pub fn midi_events(old_application: &ApplicationState, new_application: &ApplicationState) -> (r:
    Vec<Packet>)
    ensures
        r@ == events_between(old_application@, new_application@, all_buttons()),
{
    proof {
        use_type_invariant(new_application);
    }
    let buttons = Button::all();
    let mut events: Vec<Packet> = Vec::new();
    let mut i: usize = 0;
    while i < 5
        invariant
            i <= 5,
            buttons@ == all_buttons(),
            new_application@.cable < 16,
            1 <= new_application@.channel <= 16,
            events@ == events_between(old_application@, new_application@, all_buttons().take(i as int)),
        decreases 5 - i,
    {
        let button = buttons[i];
        let before = old_application.state_of(button);
        let after = new_application.state_of(button);
        assert(all_buttons().take(i + 1).drop_last() =~= all_buttons().take(i as int));
        if before != after {
            events.push(encode(button, after, new_application.cable, new_application.channel));
        }
        i = i + 1;
    }
    assert(all_buttons().take(5) =~= all_buttons());
    events
}

/// The boot state is well formed.
pub proof fn lemma_initial_wf()
    ensures
        StateView::initial().wf(),
{
    assert(StateView::initial().buttons.dom() =~= Set::<Button>::full());
}

/// The reducer keeps a state well formed and never touches the routing.
pub proof fn lemma_reduce_wf(s: StateView, m: Message)
    requires
        s.wf(),
    ensures
        reduce(s, m).0.wf(),
        reduce(s, m).0.cable == s.cable,
        reduce(s, m).0.channel == s.channel,
        reduce(s, m).0.buttons =~= s.buttons.insert(m.0, m.1),
{
    assert(reduce(s, m).0.buttons.dom() =~= Set::<Button>::full());
}

/// A message repeated at once changes nothing the second time: the state after
/// two identical messages is the state after one, and the second one asks for
/// nothing. Switch bounce never gives a second packet.
pub proof fn lemma_reduce_idempotent(s: StateView, m: Message)
    ensures
        reduce(reduce(s, m).0, m) == (reduce(s, m).0, Effect::Nothing),
{
}

/// Pressing a button that is off and releasing it gives the state back, and
/// both messages ask for a packet.
proof fn lemma_press_release(s: StateView, b: Button, rest: Seq<Message>)
    requires
        s.wf(),
        s.buttons[b] == State::Off,
    ensures
        run(s, seq![(b, State::On), (b, State::Off)] + rest).0 == run(s, rest).0,
        run(s, seq![(b, State::On), (b, State::Off)] + rest).1 == seq![
            Effect::Midi(packet_of(b, State::On, s.cable, s.channel)),
            Effect::Midi(packet_of(b, State::Off, s.cable, s.channel)),
        ] + run(s, rest).1,
{
    let msgs = seq![(b, State::On), (b, State::Off)] + rest;
    let s1 = reduce(s, (b, State::On)).0;
    let s2 = reduce(s1, (b, State::Off)).0;
    assert(s2.buttons =~= s.buttons);
    assert(s2 == s);
    let tail = msgs.drop_first();
    assert(tail =~= seq![(b, State::Off)] + rest);
    assert(tail.drop_first() =~= rest);
    assert(msgs[0] == (b, State::On));
    assert(tail[0] == (b, State::Off));
    let e1 = Effect::Midi(packet_of(b, State::On, s.cable, s.channel));
    let e2 = Effect::Midi(packet_of(b, State::Off, s.cable, s.channel));
    assert(reduce(s, msgs[0]) == (s1, e1));
    assert(reduce(s1, tail[0]) == (s2, e2));
    assert(run(s1, tail) == (run(s2, rest).0, seq![e2] + run(s2, rest).1));
    assert(run(s, msgs) == (run(s1, tail).0, seq![e1] + run(s1, tail).1));
    assert(seq![e1] + (seq![e2] + run(s, rest).1) =~= seq![e1, e2] + run(s, rest).1);
}

/// Every button pressed and released in turn, from `One` to `Five`.
pub open spec fn press_release_all() -> Seq<Message> {
    seq![
        (Button::One, State::On),
        (Button::One, State::Off),
        (Button::Two, State::On),
        (Button::Two, State::Off),
        (Button::Three, State::On),
        (Button::Three, State::Off),
        (Button::Four, State::On),
        (Button::Four, State::Off),
        (Button::Five, State::On),
        (Button::Five, State::Off),
    ]
}

/// Driving every button through on and then off from a state where all are
/// off gives that state back, and each of the ten messages asks for a packet.
pub proof fn lemma_round_trip(s: StateView)
    requires
        s.wf(),
        forall|b: Button| s.buttons[b] == State::Off,
    ensures
        run(s, press_release_all()).0 == s,
        run(s, press_release_all()).1.len() == 10,
        forall|i: int| 0 <= i < 10 ==> run(s, press_release_all()).1[i] is Midi,
{
    let e = Seq::<Message>::empty();
    let m5 = seq![(Button::Five, State::On), (Button::Five, State::Off)] + e;
    let m4 = seq![(Button::Four, State::On), (Button::Four, State::Off)] + m5;
    let m3 = seq![(Button::Three, State::On), (Button::Three, State::Off)] + m4;
    let m2 = seq![(Button::Two, State::On), (Button::Two, State::Off)] + m3;
    let m1 = seq![(Button::One, State::On), (Button::One, State::Off)] + m2;
    assert(m1 =~= press_release_all());
    assert(run(s, e) == (s, Seq::<Effect>::empty()));
    lemma_press_release(s, Button::Five, e);
    lemma_press_release(s, Button::Four, m5);
    lemma_press_release(s, Button::Three, m4);
    lemma_press_release(s, Button::Two, m3);
    lemma_press_release(s, Button::One, m2);
    let effects = run(s, m1).1;
    assert(effects.len() == 10);
    assert forall|i: int| 0 <= i < 10 implies effects[i] is Midi by {
        let p = |b: Button, d: State| Effect::Midi(packet_of(b, d, s.cable, s.channel));
        assert(effects =~= seq![
            p(Button::One, State::On),
            p(Button::One, State::Off),
            p(Button::Two, State::On),
            p(Button::Two, State::Off),
            p(Button::Three, State::On),
            p(Button::Three, State::Off),
            p(Button::Four, State::On),
            p(Button::Four, State::Off),
            p(Button::Five, State::On),
            p(Button::Five, State::Off),
        ]);
    }
}

/// No two of the messages are about the same button, as with the messages of
/// one sampling tick.
pub open spec fn distinct_buttons(msgs: Seq<Message>) -> bool {
    forall|i: int, j: int| 0 <= i < j < msgs.len() ==> msgs[i].0 != msgs[j].0
}

/// `reordered` holds the messages of `msgs` in another order: its message at
/// `k` is the one of `msgs` at `perm[k]`, and `perm` is a bijection of the
/// positions.
pub open spec fn is_reordering(reordered: Seq<Message>, msgs: Seq<Message>, perm: Seq<int>) -> bool {
    &&& reordered.len() == msgs.len()
    &&& perm.len() == msgs.len()
    &&& forall|k: int|
        0 <= k < reordered.len() ==> 0 <= #[trigger] perm[k] < msgs.len() && reordered[k]
            == msgs[perm[k]]
    &&& forall|k: int, l: int| 0 <= k < l < perm.len() ==> perm[k] != perm[l]
    &&& forall|i: int| 0 <= i < msgs.len() ==> #[trigger] perm.contains(i)
}

/// After messages about distinct buttons, each button holds the state of its
/// message, or its old state where no message names it.
proof fn lemma_run_distinct(s: StateView, msgs: Seq<Message>, b: Button)
    requires
        s.wf(),
        distinct_buttons(msgs),
    ensures
        run(s, msgs).0.wf(),
        run(s, msgs).0.cable == s.cable,
        run(s, msgs).0.channel == s.channel,
        forall|i: int|
            0 <= i < msgs.len() && #[trigger] msgs[i].0 == b ==> run(s, msgs).0.buttons[b]
                == msgs[i].1,
        (forall|i: int| 0 <= i < msgs.len() ==> #[trigger] msgs[i].0 != b) ==> run(s, msgs).0.buttons[b]
            == s.buttons[b],
    decreases msgs.len(),
{
    if msgs.len() > 0 {
        let s1 = reduce(s, msgs[0]).0;
        let t = msgs.drop_first();
        lemma_reduce_wf(s, msgs[0]);
        assert(distinct_buttons(t)) by {
            assert forall|i: int, j: int| 0 <= i < j < t.len() implies t[i].0 != t[j].0 by {
                assert(t[i] == msgs[i + 1] && t[j] == msgs[j + 1]);
            }
        }
        lemma_run_distinct(s1, t, b);
        assert(run(s, msgs).0 == run(s1, t).0);
        assert forall|i: int| 0 <= i < msgs.len() && #[trigger] msgs[i].0 == b implies run(
            s,
            msgs,
        ).0.buttons[b] == msgs[i].1 by {
            if i == 0 {
                assert forall|k: int| 0 <= k < t.len() implies #[trigger] t[k].0 != b by {
                    assert(t[k] == msgs[k + 1]);
                }
            } else {
                assert(t[i - 1] == msgs[i]);
            }
        }
        if forall|i: int| 0 <= i < msgs.len() ==> #[trigger] msgs[i].0 != b {
            assert(msgs[0].0 != b);
            assert forall|k: int| 0 <= k < t.len() implies #[trigger] t[k].0 != b by {
                assert(t[k] == msgs[k + 1]);
            }
        }
    }
}

/// Updates of different buttons commute: the messages of one tick, one per
/// button, leave the same state whatever order they reach the reducer in.
pub proof fn lemma_tick_commutes(
    s: StateView,
    msgs: Seq<Message>,
    reordered: Seq<Message>,
    perm: Seq<int>,
)
    requires
        s.wf(),
        distinct_buttons(msgs),
        is_reordering(reordered, msgs, perm),
    ensures
        run(s, reordered).0 == run(s, msgs).0,
{
    assert(distinct_buttons(reordered)) by {
        assert forall|k: int, l: int| 0 <= k < l < reordered.len() implies reordered[k].0
            != reordered[l].0 by {
            let (i, j) = (perm[k], perm[l]);
            if i < j {
                assert(msgs[i].0 != msgs[j].0);
            } else {
                assert(msgs[j].0 != msgs[i].0);
            }
        }
    }
    let r1 = run(s, msgs).0;
    let r2 = run(s, reordered).0;
    assert forall|b: Button| r1.buttons[b] == r2.buttons[b] by {
        lemma_run_distinct(s, msgs, b);
        lemma_run_distinct(s, reordered, b);
        if exists|i: int| 0 <= i < msgs.len() && #[trigger] msgs[i].0 == b {
            let i = choose|i: int| 0 <= i < msgs.len() && #[trigger] msgs[i].0 == b;
            assert(perm.contains(i));
            let k = choose|k: int| 0 <= k < perm.len() && perm[k] == i;
            assert(reordered[k] == msgs[i]);
        } else {
            assert forall|k: int| 0 <= k < reordered.len() implies #[trigger] reordered[k].0 != b by {
                assert(reordered[k] == msgs[perm[k]]);
            }
        }
    }
    lemma_run_distinct(s, msgs, Button::One);
    lemma_run_distinct(s, reordered, Button::One);
    assert(r1.buttons =~= r2.buttons);
}

} // verus!
