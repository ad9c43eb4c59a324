use crate::channel::pending_events;
use crossbeam_channel::Receiver;
use vstd::prelude::*;

verus! {

/// The sixteen keys, named after the keyboard keys that customarily stand
/// for them. `code` gives the hexadecimal digit that a program sees.
#[derive(Clone, Copy, Debug, PartialEq, Eq)]
pub enum Key {
    Key1,
    Key2,
    Key3,
    Key4,
    KeyQ,
    KeyW,
    KeyE,
    KeyR,
    KeyA,
    KeyS,
    KeyD,
    KeyF,
    KeyZ,
    KeyX,
    KeyC,
    KeyV,
}

impl Key {
    /// The key's code, `0x0..=0xF`. The keyboard block
    /// `1234 / QWER / ASDF / ZXCV` is laid out as the hexadecimal pad
    /// `123C / 456D / 789E / A0BF`.
    pub open spec fn code_spec(self) -> u8 {
        match self {
            Key::Key1 => 0x1,
            Key::Key2 => 0x2,
            Key::Key3 => 0x3,
            Key::Key4 => 0xC,
            Key::KeyQ => 0x4,
            Key::KeyW => 0x5,
            Key::KeyE => 0x6,
            Key::KeyR => 0xD,
            Key::KeyA => 0x7,
            Key::KeyS => 0x8,
            Key::KeyD => 0x9,
            Key::KeyF => 0xE,
            Key::KeyZ => 0xA,
            Key::KeyX => 0x0,
            Key::KeyC => 0xB,
            Key::KeyV => 0xF,
        }
    }

    #[verifier::when_used_as_spec(code_spec)]
    pub fn code(self) -> (code: u8)
        ensures
            code == self.code_spec(),
            code < 16,
    {
        match self {
            Key::Key1 => 0x1,
            Key::Key2 => 0x2,
            Key::Key3 => 0x3,
            Key::Key4 => 0xC,
            Key::KeyQ => 0x4,
            Key::KeyW => 0x5,
            Key::KeyE => 0x6,
            Key::KeyR => 0xD,
            Key::KeyA => 0x7,
            Key::KeyS => 0x8,
            Key::KeyD => 0x9,
            Key::KeyF => 0xE,
            Key::KeyZ => 0xA,
            Key::KeyX => 0x0,
            Key::KeyC => 0xB,
            Key::KeyV => 0xF,
        }
    }
}

/// What the keyboard feed carries.
#[derive(Clone, Copy, Debug, PartialEq, Eq)]
pub enum Event {
    KeyDown(Key),
    KeyUp(Key),
    Stop,
}

/// What a keypad holds, apart from its feed.
pub struct KeypadView {
    /// Press state of the keys `0x0..=0xF`.
    pub keys: Seq<bool>,
    /// The key released most recently and not yet read.
    pub released: Option<u8>,
    /// Whether a `Stop` has arrived.
    pub stopped: bool,
}

/// A keypad on which nothing has happened yet.
pub open spec fn idle_keypad() -> KeypadView {
    KeypadView { keys: Seq::new(16, |i: int| false), released: None, stopped: false }
}

/// The keypad after one event. A press sets the key; a release clears it and
/// becomes the pending release, replacing an unread one; `Stop` latches.
pub open spec fn after_event(keypad: KeypadView, event: Event) -> KeypadView {
    match event {
        Event::KeyDown(key) => KeypadView {
            keys: keypad.keys.update(key.code_spec() as int, true),
            ..keypad
        },
        Event::KeyUp(key) => KeypadView {
            keys: keypad.keys.update(key.code_spec() as int, false),
            released: Some(key.code_spec()),
            ..keypad
        },
        Event::Stop => KeypadView { stopped: true, ..keypad },
    }
}

/// The keypad after a run of events, oldest first.
pub open spec fn after_events(keypad: KeypadView, events: Seq<Event>) -> KeypadView
    decreases events.len(),
{
    if events.len() == 0 {
        keypad
    } else {
        after_event(after_events(keypad, events.drop_last()), events.last())
    }
}

/// The 16-key latch, fed by a channel of `Event`s.
pub struct Keypad {
    receiver: Receiver<Event>,
    has_stopped: bool,
    key_states: [bool; 16],
    released: Option<u8>,
}

impl View for Keypad {
    type V = KeypadView;

    closed spec fn view(&self) -> KeypadView {
        KeypadView { keys: self.key_states@, released: self.released, stopped: self.has_stopped }
    }
}

impl Keypad {
    pub fn new(receiver: Receiver<Event>) -> (keypad: Self)
        ensures
            keypad@ == idle_keypad(),
    {
        let keypad = Self {
            receiver,
            has_stopped: false,
            key_states: [false; 16],
            released: None,
        };
        assert(keypad.key_states@ =~= Seq::new(16, |i: int| false));
        keypad
    }

    /// A keypad always has sixteen keys.
    pub proof fn lemma_len(&self)
        ensures
            self@.keys.len() == 16,
    {
    }

    /// Takes in one event.
    pub fn apply(&mut self, event: Event)
        ensures
            final(self)@ == after_event(old(self)@, event),
    {
        match event {
            Event::KeyDown(key) => {
                self.key_states[key.code() as usize] = true;
            },
            Event::KeyUp(key) => {
                let code = key.code();
                self.key_states[code as usize] = false;
                self.released = Some(code);
            },
            Event::Stop => {
                self.has_stopped = true;
            },
        }
    }

    /// Takes in a run of events, oldest first.
    pub fn apply_all(&mut self, events: &Vec<Event>)
        ensures
            final(self)@ == after_events(old(self)@, events@),
    {
        let mut i: usize = 0;
        while i < events.len()
            invariant
                i <= events.len(),
                self@ == after_events(old(self)@, events@.take(i as int)),
            decreases events.len() - i,
        {
            proof {
                let next = events@.take(i + 1);
                assert(next.drop_last() =~= events@.take(i as int));
                assert(next.last() == events@[i as int]);
            }
            self.apply(events[i]);
            i += 1;
        }
        assert(events@.take(i as int) =~= events@);
    }

    /// Takes in everything that waits in the feed, without blocking. What
    /// waits there is for the senders to say: the keypad ends as it would
    /// after some run of events.
    pub fn process(&mut self)
        ensures
            exists|events: Seq<Event>| final(self)@ == after_events(old(self)@, events),
    {
        let events = pending_events(&self.receiver);
        self.apply_all(&events);
    }

    /// Whether the key with this code is down. Codes above `0xF` name no key.
    pub fn is_key_pressed(&self, key_number: u8) -> (pressed: bool)
        ensures
            pressed == (key_number < 16 && self@.keys[key_number as int]),
    {
        key_number < 16 && self.key_states[key_number as usize]
    }

    /// Hands out the pending release, once: afterwards none is pending.
    pub fn last_pressed(&mut self) -> (key: Option<u8>)
        ensures
            key == old(self)@.released,
            final(self)@ == (KeypadView { released: None, ..old(self)@ }),
    {
        let key = self.released;
        self.released = None;
        key
    }

    /// Whether a `Stop` has arrived. The keypad only records it; whoever
    /// drives the machine decides what to do about it.
    pub fn has_stopped(&self) -> (stopped: bool)
        ensures
            stopped == self@.stopped,
    {
        self.has_stopped
    }
}

} // verus!
