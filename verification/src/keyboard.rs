//! The one-key keyboard state: at most one key value is current at a time,
//! and the value 0 doubles as "no key held", so pressing key 0 is
//! indistinguishable from releasing.

use vstd::prelude::*;

verus! {

/// Largest key value on the sixteen-key pad.
pub const MAX_KEY: u8 = 0xF;

/// The keyboard state. Its view is the currently held key value, with 0
/// standing for "none".
pub struct Keyboard {
    key: u8,
}

impl View for Keyboard {
    type V = u8;

    closed spec fn view(&self) -> u8 {
        self.key
    }
}

impl Keyboard {
    /// The held key value always stays on the sixteen-key pad.
    pub open spec fn wf(&self) -> bool {
        self@ <= MAX_KEY
    }

    /// Fresh keyboard: no key held.
    pub fn new() -> (r: Keyboard)
        ensures
            r.wf(),
            r@ == 0,
    {
        Keyboard { key: 0 }
    }

    /// Records `key` as the currently held key, replacing any previous one.
    pub fn press_key(&mut self, key: u8)
        requires
            key <= MAX_KEY,
        ensures
            final(self).wf(),
            final(self)@ == key,
    {
        self.key = key;
    }

    /// Clears the held key.
    pub fn release_key(&mut self)
        ensures
            final(self).wf(),
            final(self)@ == 0,
    {
        self.key = 0;
    }

    /// The held key, or `None` when none is held.
    pub fn get_pressed_key(&self) -> (r: Option<u8>)
        ensures
            self@ != 0 ==> r == Some(self@),
            self@ == 0 ==> r == None::<u8>,
    {
        if self.key != 0 {
            Some(self.key)
        } else {
            None
        }
    }

    /// Whether `key` is the currently held key. Because 0 stands for "no
    /// key", asking for key 0 answers true exactly when no key is held.
    pub fn is_key_pressed(&self, key: u8) -> (r: bool)
        ensures
            r == (self@ == key),
    {
        self.key == key
    }
}

} // verus!
