//! The keypad: sixteen keys, driven by key-down and key-up events.
//!
//! Where the events come from is the caller's business. The keyboard keeps a
//! reference to the caller's input context, whatever its type, and hands it
//! back on request; it never looks inside.
use vstd::prelude::*;

verus! {

/// What happened to a key, as the input source reports it. Key codes are the
/// character codes of the key caps: `0`-`9` are 48-57 and `a`-`f` are 97-102.
#[derive(Clone, Copy, Debug, PartialEq, Eq, Structural)]
pub enum KeyEvent {
    /// The key with this code went down.
    Down(i32),
    /// The key with this code came up.
    Up(i32),
    /// Anything else; the keypad ignores it.
    Other,
}

/// The keypad key that a key code stands for: the hexadecimal digit on its
/// cap, or `None` for a key that is not on the keypad.
pub open spec fn keypad_index(keycode: i32) -> Option<u8> {
    if 48 <= keycode <= 57 {
        Some((keycode - 48) as u8)
    } else if 97 <= keycode <= 102 {
        Some((keycode - 87) as u8)
    } else {
        None
    }
}

/// The key states after `event`: a keypad key that went down is 1, one that
/// came up is 0, everything else stays.
pub open spec fn after_event(keys: Seq<u8>, event: KeyEvent) -> Seq<u8> {
    match event {
        KeyEvent::Down(code) => match keypad_index(code) {
            Some(k) => keys.update(k as int, 1),
            None => keys,
        },
        KeyEvent::Up(code) => match keypad_index(code) {
            Some(k) => keys.update(k as int, 0),
            None => keys,
        },
        KeyEvent::Other => keys,
    }
}

/// The key states after all of `events`, taken in order.
pub open spec fn after_events(keys: Seq<u8>, events: Seq<KeyEvent>) -> Seq<u8>
    decreases events.len(),
{
    if events.len() == 0 {
        keys
    } else {
        after_event(after_events(keys, events.drop_last()), events.last())
    }
}

/// Sixteen key states, each 0 (up) or 1 (down), next to the input context
/// that the caller reads events from.
pub struct Keyboard<'b, C> {
    keys: [u8; 16],
    context: &'b C,
}

impl<'b, C> View for Keyboard<'b, C> {
    type V = Seq<u8>;

    closed spec fn view(&self) -> Seq<u8> {
        self.keys@
    }
}

impl<'b, C> Keyboard<'b, C> {
    #[verifier::type_invariant]
    spec fn inv(self) -> bool {
        forall|k: int| 0 <= k < 16 ==> #[trigger] self.keys[k] <= 1
    }

    /// The input context that the keyboard was built with.
    pub closed spec fn spec_context(&self) -> &'b C {
        self.context
    }

    /// Every key state is 0 or 1.
    pub open spec fn wf(&self) -> bool {
        &&& self@.len() == 16
        &&& forall|k: int| 0 <= k < 16 ==> #[trigger] self@[k] <= 1
    }

    /// Builds a keyboard with every key up.
    pub fn with_context(context: &'b C) -> (keyboard: Keyboard<'b, C>)
        ensures
            keyboard@ == Seq::new(16, |k: int| 0u8),
            keyboard.spec_context() == context,
            keyboard.wf(),
    {
        let keyboard = Keyboard { keys: [0u8; 16], context };
        assert(keyboard@ =~= Seq::new(16, |k: int| 0u8));
        keyboard
    }

    /// The input context that the keyboard was built with.
    pub fn context(&self) -> (context: &'b C)
        ensures
            context == self.spec_context(),
    {
        self.context
    }

    /// The keypad key that `keycode` stands for, if it stands for one.
    pub fn key_index(keycode: i32) -> (index: Option<u8>)
        ensures
            index == keypad_index(keycode),
            index matches Some(k) ==> k < 16,
    {
        if 48 <= keycode && keycode <= 57 {
            Some((keycode - 48) as u8)
        } else if 97 <= keycode && keycode <= 102 {
            Some((keycode - 87) as u8)
        } else {
            None
        }
    }

    /// Records one event.
    pub fn apply(&mut self, event: KeyEvent)
        ensures
            final(self)@ == after_event(old(self)@, event),
            final(self).spec_context() == old(self).spec_context(),
            final(self).wf(),
    {
        proof {
            use_type_invariant(&*self);
        }
        match event {
            KeyEvent::Down(code) => {
                if let Some(k) = Self::key_index(code) {
                    self.keys[k as usize] = 1;
                }
            },
            KeyEvent::Up(code) => {
                if let Some(k) = Self::key_index(code) {
                    self.keys[k as usize] = 0;
                }
            },
            KeyEvent::Other => {},
        }
    }

    /// Records `events` in order and returns the key states that result.
    pub fn keys(&mut self, events: &[KeyEvent]) -> (states: &[u8])
        ensures
            final(self)@ == after_events(old(self)@, events@),
            final(self).spec_context() == old(self).spec_context(),
            final(self).wf(),
            states@ == final(self)@,
    {
        proof {
            use_type_invariant(&*self);
        }
        let mut idx: usize = 0;
        while idx < events.len()
            invariant
                idx <= events@.len(),
                self.inv(),
                self.spec_context() == old(self).spec_context(),
                self@ == after_events(old(self)@, events@.take(idx as int)),
            decreases events@.len() - idx,
        {
            self.apply(events[idx]);
            idx += 1;
            assert(events@.take(idx as int).drop_last() =~= events@.take(idx - 1));
        }
        assert(events@.take(idx as int) =~= events@);
        self.keys.as_slice()
    }

    /// The key states as the truth values that a tick takes: key `k` is
    /// held where its state is not 0.
    pub fn pressed(&self) -> (held: [bool; 16])
        ensures
            forall|k: int| 0 <= k < 16 ==> held[k] == (self@[k] != 0),
    {
        let mut held = [false; 16];
        let mut k: usize = 0;
        while k < 16
            invariant
                k <= 16,
                forall|j: int| 0 <= j < k ==> held[j] == (self@[j] != 0),
            decreases 16 - k,
        {
            held[k] = self.keys[k] != 0;
            k += 1;
        }
        held
    }
}

} // verus!
