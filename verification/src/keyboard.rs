//! The 16-key keyboard: a debounced per-key state machine plus a
//! frame-scoped "any key pressed" flag and the last pressed key.

use vstd::prelude::*;

verus! {

/// The debounced state of one key.
#[derive(Clone, Copy, PartialEq, Eq, Structural, Debug)]
pub enum State {
    /// The key went down this frame.
    PRESSED,
    /// The key is still down after the frame it went down in.
    HELD,
    /// The key went up after having been down.
    RELEASED,
    /// The key has not been touched yet.
    NOTPRESSED,
}

/// How one key reacts to an incoming event: a key that is down moves to
/// `HELD` on a repeated press and to `RELEASED` on anything else; any
/// other key simply takes the incoming state.
pub open spec fn key_transition(cur: State, incoming: State) -> State {
    if cur is PRESSED || cur is HELD {
        if incoming is PRESSED {
            State::HELD
        } else {
            State::RELEASED
        }
    } else {
        incoming
    }
}

/// The 16 logical keys, the frame flag and the last key that produced a
/// press event.
pub struct Keyboard {
    /// One debounced state per logical key `0x0..=0xF`.
    pub keys: Vec<State>,
    /// Whether any key produced a press event since the last frame reset.
    pub key_pressed: bool,
    /// The key index of the most recent press event.
    pub last_key_pressed: u8,
}

impl Keyboard {
    /// There are exactly 16 keys and the recorded key is a valid index.
    pub open spec fn wf(self) -> bool {
        &&& self.keys@.len() == 16
        &&& self.last_key_pressed < 16
    }

    /// All keys untouched, no press seen yet.
    pub fn new() -> (kb: Keyboard)
        ensures
            kb.wf(),
            kb.keys@ == Seq::new(16, |j: int| State::NOTPRESSED),
            !kb.key_pressed,
            kb.last_key_pressed == 0,
    {
        let mut keys: Vec<State> = Vec::new();
        for k in 0..16
            invariant
                keys@.len() == k,
                forall|j: int| 0 <= j < k ==> keys@[j] is NOTPRESSED,
        {
            keys.push(State::NOTPRESSED);
        }
        proof {
            assert(keys@ =~= Seq::new(16, |j: int| State::NOTPRESSED));
        }
        Keyboard { keys, key_pressed: false, last_key_pressed: 0 }
    }

    /// Clear the frame-scoped flag; called once per driver frame before
    /// polling events.
    pub fn reset_key_press(&mut self)
        ensures
            final(self).keys == old(self).keys,
            !final(self).key_pressed,
            final(self).last_key_pressed == old(self).last_key_pressed,
    {
        self.key_pressed = false;
    }

    /// Feed one key event from the input source. A press event raises the
    /// frame flag and records the key; the key itself follows
    /// [`key_transition`].
    pub fn process_key(&mut self, key: usize, state: State)
        requires
            old(self).wf(),
            key < 16,
        ensures
            final(self).wf(),
            final(self).keys@ == old(self).keys@.update(
                key as int,
                key_transition(old(self).keys@[key as int], state),
            ),
            final(self).key_pressed == (old(self).key_pressed || state is PRESSED),
            final(self).last_key_pressed == if state is PRESSED {
                key as u8
            } else {
                old(self).last_key_pressed
            },
    {
        if state == State::PRESSED {
            self.key_pressed = true;
            self.last_key_pressed = key as u8;
        }
        if self.keys[key] == State::PRESSED || self.keys[key] == State::HELD {
            if state == State::PRESSED {
                self.keys.set(key, State::HELD);
            } else {
                self.keys.set(key, State::RELEASED);
            }
        } else {
            self.keys.set(key, state);
        }
    }

    /// Whether any key produced a press event since the last frame reset.
    pub fn was_any_key_pressed(&mut self) -> (r: bool)
        ensures
            *final(self) == *old(self),
            r == old(self).key_pressed,
    {
        self.key_pressed
    }

    /// The key index of the most recent press event.
    pub fn get_last_pressed_key(&mut self) -> (r: u8)
        ensures
            *final(self) == *old(self),
            r == old(self).last_key_pressed,
    {
        self.last_key_pressed
    }

    /// Whether key `key` went down this frame. A key that is merely held
    /// does not count as pressed.
    pub fn is_key_pressed(&mut self, key: usize) -> (r: bool)
        requires
            old(self).wf(),
            key < 16,
        ensures
            *final(self) == *old(self),
            r == (old(self).keys@[key as int] is PRESSED),
    {
        self.keys[key] == State::PRESSED
    }
}

} // verus!
