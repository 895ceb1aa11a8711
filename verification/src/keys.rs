//! The keys of the keyboard.

use vstd::prelude::*;

verus! {

/// The keys the game knows.
#[derive(Clone, Copy, Debug, PartialEq, Eq, Hash, Structural)]
pub enum KeyCode {
    D1,
    D2,
    D3,
    D4,
    D5,
    D6,
    D7,
    D8,
    D9,
    D0,
    A,
    B,
    C,
    D,
    E,
    F,
    G,
    H,
    I,
    J,
    K,
    L,
    M,
    N,
    O,
    P,
    Q,
    R,
    S,
    T,
    U,
    V,
    W,
    X,
    Y,
    Z,
    F1,
    F2,
    F3,
    F4,
    F5,
    F6,
    F7,
    F8,
    F9,
    F10,
    F11,
    F12,
    Right,
    Left,
    Down,
    Up,
    Enter,
    Space,
    Esc,
    QuestionMark,
    NumPad0,
    NumPad1,
    NumPad2,
    NumPad3,
    NumPad4,
    NumPad5,
    NumPad6,
    NumPad7,
    NumPad8,
    NumPad9,
}

/// One key press, with the modifier keys that were held down.
#[derive(Clone, Copy, Debug, PartialEq, Eq, Hash, Structural)]
pub struct Key {
    pub code: KeyCode,
    pub alt: bool,
    pub ctrl: bool,
    pub shift: bool,
    pub logo: bool,
}

impl Key {
    /// The key pressed on its own.
    pub fn plain(code: KeyCode) -> (key: Key)
        ensures
            key == (Key { code, alt: false, ctrl: false, shift: false, logo: false }),
    {
        Key { code, alt: false, ctrl: false, shift: false, logo: false }
    }
}

/// Whether one of the keys has the given code, whatever modifier keys were
/// held down with it.
pub open spec fn pressed(keys: Seq<Key>, code: KeyCode) -> bool {
    exists|i: int| 0 <= i < keys.len() && (#[trigger] keys[i]).code == code
}

/// Tells whether one of the keys has the given code.
pub fn matches_code(keys: &[Key], code: KeyCode) -> (yes: bool)
    ensures
        yes == pressed(keys@, code),
{
    let mut i: usize = 0;
    while i < keys.len()
        invariant
            0 <= i <= keys@.len(),
            forall|k: int| 0 <= k < i ==> (#[trigger] keys@[k]).code != code,
        decreases keys@.len() - i,
    {
        if keys[i].code == code {
            return true;
        }
        i = i + 1;
    }
    false
}

} // verus!
