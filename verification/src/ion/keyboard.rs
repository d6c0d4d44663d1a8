use vstd::prelude::*;
use crate::ion::key::Key;

verus! {

/// The keys held down at one moment: one bit for each key, at the position
/// given by the key's number.
#[derive(Clone, Copy, PartialEq, Eq, PartialOrd, Ord, Debug, Hash)]
pub struct KeyboardState(u64);

/// Whether bit `n` of `bits` is set.
pub open spec fn bit_is_set(bits: u64, n: u8) -> bool {
    (bits >> n) & 1 == 1
}

impl View for KeyboardState {
    type V = u64;

    closed spec fn view(&self) -> u64 {
        self.0
    }
}

impl KeyboardState {
    /// The state that a scan of the keyboard reported as `bits`.
    pub fn new(bits: u64) -> (state: KeyboardState)
        ensures
            state@ == bits,
    {
        KeyboardState(bits)
    }

    /// The state as the keyboard reported it.
    pub fn inner(&self) -> (bits: &u64)
        ensures
            *bits == self@,
    {
        &self.0
    }

    /// Whether `key` is held down.
    pub fn key_down(&self, key: Key) -> (down: bool)
        ensures
            down == bit_is_set(self@, key.code_of()),
    {
        let n: u8 = key.code();
        let bits: u64 = *self.inner();
        assert(((bits >> n) & 1 != 0) == ((bits >> n) & 1 == 1)) by (bit_vector);
        (bits >> n) & 1 != 0
    }
}

} // verus!
