//! Keypad events and the key bitmaps the machine reads.

use vstd::prelude::*;

verus! {

/// A change of one key of the 16-key keypad.
#[derive(Debug, Clone, Copy, PartialEq, Eq, Structural)]
pub enum Input {
    Pressed(u8),
    Unpressed(u8),
}

impl Input {
    /// The key this event is about.
    pub open spec fn key(self) -> u8 {
        match self {
            Input::Pressed(k) | Input::Unpressed(k) => k,
        }
    }
}

/// Whether key `k` is held in bitmap `keys`; no key past 15 ever is.
pub open spec fn key_down(keys: u16, k: u8) -> bool {
    k < 16 && (keys >> (k as u16)) & 1u16 == 1u16
}

/// The greatest key below `k` that is held in `keys`, 0 if none is.
pub open spec fn highest_key_below(keys: u16, k: int) -> u8
    decreases k,
{
    if k <= 0 {
        0
    } else if key_down(keys, (k - 1) as u8) {
        (k - 1) as u8
    } else {
        highest_key_below(keys, k - 1)
    }
}

/// The greatest key held in `keys`, 0 if none is.
pub open spec fn highest_key(keys: u16) -> u8 {
    highest_key_below(keys, 16)
}

/// Whether key `k` is held in bitmap `keys`.
pub fn is_key_down(keys: u16, k: u8) -> (r: bool)
    ensures
        r == key_down(keys, k),
{
    k < 16 && (keys >> (k as u16)) & 1 == 1
}

/// The greatest key held in `keys`, 0 if none is.
pub fn greatest_key(keys: u16) -> (r: u8)
    ensures
        r == highest_key(keys),
        r < 16,
{
    let mut k: u8 = 16;
    while k > 0
        invariant
            k <= 16,
            highest_key_below(keys, k as int) == highest_key(keys),
        decreases k,
    {
        if is_key_down(keys, k - 1) {
            return k - 1;
        }
        k = k - 1;
    }
    0
}

} // verus!
