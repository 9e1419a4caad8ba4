//! Key-input state: 16 pressed/released flags and the pending register used
//! by the blocking wait-for-key instruction. The host updates the flags; the
//! core reads them and records the pending register.

use vstd::prelude::*;

verus! {

/// Number of keys on the CHIP-8 keypad.
pub const NUM_KEYS: usize = 16;

#[verifier::ext_equal]
pub ghost struct KeyboardView {
    pub keys: Seq<bool>,
    pub register: u8,
}

pub struct Keyboard {
    pub keys: Vec<bool>,
    pub register: u8,
}

impl View for Keyboard {
    type V = KeyboardView;

    open spec fn view(&self) -> KeyboardView {
        KeyboardView { keys: self.keys@, register: self.register }
    }
}

impl Keyboard {
    pub open spec fn wf(self) -> bool {
        self@.keys.len() == NUM_KEYS && self@.register < 16
    }

    pub fn new() -> (r: Keyboard)
        ensures
            r.wf(),
            r@.register == 0u8,
            forall|k: int| 0 <= k < NUM_KEYS ==> !r@.keys[k],
    {
        let mut keys: Vec<bool> = Vec::new();
        let mut k: usize = 0;
        while k < NUM_KEYS
            invariant
                keys@.len() == k,
                k <= NUM_KEYS,
                forall|j: int| 0 <= j < k ==> !keys@[j],
            decreases NUM_KEYS - k,
        {
            keys.push(false);
            k = k + 1;
        }
        Keyboard { keys, register: 0 }
    }

    /// Host interface: record that a key is currently pressed or released.
    pub fn set_key(&mut self, key: usize, pressed: bool)
        requires
            old(self).wf(),
            key < NUM_KEYS,
        ensures
            final(self).wf(),
            final(self)@ == (KeyboardView { keys: old(self)@.keys.update(key as int, pressed), ..old(self)@ }),
    {
        self.keys[key] = pressed;
    }

    pub fn key_pressed(&self, key: usize) -> (r: bool)
        requires
            self.wf(),
            key < NUM_KEYS,
        ensures
            r == self@.keys[key as int],
    {
        self.keys[key]
    }
}

} // verus!
