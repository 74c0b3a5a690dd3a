//! The keypad: sixteen keys, each one up or down.

use vstd::prelude::*;
use crate::error::Chip8Error;
use crate::machine::KEYS;

verus! {

/// The keys of one machine.
pub struct Keypad {
    keys: Vec<bool>,
}

impl View for Keypad {
    type V = Seq<bool>;

    /// For each key, by its number, whether it is down.
    closed spec fn view(&self) -> Seq<bool> {
        self.keys@
    }
}

impl Keypad {
    /// A keypad always has `KEYS` keys.
    pub open spec fn wf(&self) -> bool {
        self@.len() == KEYS
    }

    /// A keypad with every key up.
    pub fn new() -> (pad: Keypad)
        ensures
            pad.wf(),
            pad@ == Seq::new(KEYS as nat, |k: int| false),
    {
        let mut keys: Vec<bool> = Vec::with_capacity(KEYS);
        let mut k: usize = 0;
        while k < KEYS
            invariant
                k <= KEYS,
                keys@.len() == k,
                forall|j: int| 0 <= j < k ==> !keys@[j],
            decreases KEYS - k,
        {
            keys.push(false);
            k += 1;
        }
        Keypad { keys }
    }

    /// Puts the key `key` down or up; `OutOfBounds` if there is no such key.
    pub fn set(&mut self, key: u8, down: bool) -> (res: Result<(), Chip8Error>)
        requires
            old(self).wf(),
        ensures
            final(self).wf(),
            key < KEYS ==> res == Ok::<(), Chip8Error>(()) && final(self)@ == old(self)@.update(
                key as int,
                down,
            ),
            key >= KEYS ==> res == Err::<(), Chip8Error>(Chip8Error::OutOfBounds) && final(self)@
                == old(self)@,
    {
        if key as usize >= KEYS {
            return Err(Chip8Error::OutOfBounds);
        }
        self.keys.set(key as usize, down);
        Ok(())
    }

    /// Whether the key whose number is the low hexadecimal digit of `value`
    /// is down.
    pub fn is_down(&self, value: u8) -> (down: bool)
        requires
            self.wf(),
        ensures
            down == self@[(value % 16) as int],
    {
        self.keys[(value % 16) as usize]
    }
}

} // verus!
