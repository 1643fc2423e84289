use vstd::prelude::*;

verus! {

/// Number of keys on the hexadecimal CHIP-8 keypad.
pub const KEY_COUNT: usize = 16;

/// The lowest-numbered key at or above `k` that is held down, if any.
pub open spec fn first_pressed_from(keys: Seq<bool>, k: int) -> Option<u8>
    decreases 16 - k,
{
    if k < 0 || k >= 16 {
        None
    } else if keys[k] {
        Some(k as u8)
    } else {
        first_pressed_from(keys, k + 1)
    }
}

/// The lowest-numbered key that is held down, if any.
pub open spec fn first_pressed(keys: Seq<bool>) -> Option<u8> {
    first_pressed_from(keys, 0)
}

/// `first_pressed_from(keys, k)` is the lowest held key at or above `k`.
pub proof fn lemma_first_pressed_from(keys: Seq<bool>, k: int)
    requires
        0 <= k <= 16,
    ensures
        match first_pressed_from(keys, k) {
            Some(j) => k <= j < 16 && keys[j as int] && forall|i: int|
                k <= i < j ==> !#[trigger] keys[i],
            None => forall|i: int| k <= i < 16 ==> !#[trigger] keys[i],
        },
    decreases 16 - k,
{
    if k < 16 {
        lemma_first_pressed_from(keys, k + 1);
    }
}

/// `first_pressed(keys)` is the lowest held key, and `None` exactly when no
/// key is held.
pub proof fn lemma_first_pressed(keys: Seq<bool>)
    ensures
        match first_pressed(keys) {
            Some(j) => j < 16 && keys[j as int] && forall|i: int| 0 <= i < j ==> !#[trigger] keys[i],
            None => forall|i: int| 0 <= i < 16 ==> !#[trigger] keys[i],
        },
{
    lemma_first_pressed_from(keys, 0);
}

/// The state of the sixteen keys: `keys[k]` is true while key `k` is held.
pub struct Keypad {
    pub keys: [bool; 16],
}

impl Keypad {
    /// A keypad with no key held.
    pub fn new() -> (pad: Self)
        ensures
            forall|k: int| 0 <= k < 16 ==> !#[trigger] pad.keys@[k],
    {
        Keypad { keys: [false; 16] }
    }

    /// Whether key `key` is held down.
    pub fn is_key_pressed(&self, key: u8) -> (pressed: bool)
        requires
            key < 16,
        ensures
            pressed == self.keys@[key as int],
    {
        self.keys[key as usize]
    }

    /// The lowest-numbered key that is held down, or `None` when no key is.
    pub fn first_pressed_key(&self) -> (key: Option<u8>)
        ensures
            key == first_pressed(self.keys@),
            match key {
                Some(k) => k < 16 && self.keys@[k as int] && forall|j: int|
                    0 <= j < k ==> !#[trigger] self.keys@[j],
                None => forall|j: int| 0 <= j < 16 ==> !#[trigger] self.keys@[j],
            },
    {
        let mut i: usize = 0;
        while i < 16
            invariant
                i <= 16,
                forall|j: int| 0 <= j < i ==> !#[trigger] self.keys@[j],
                first_pressed(self.keys@) == first_pressed_from(self.keys@, i as int),
            decreases 16 - i,
        {
            if self.keys[i] {
                return Some(i as u8);
            }
            i = i + 1;
        }
        None
    }

    /// Marks key `key` as held (`pressed == true`) or released.
    pub fn set_pressed(&mut self, key: u8, pressed: bool)
        requires
            key < 16,
        ensures
            final(self).keys@ == old(self).keys@.update(key as int, pressed),
    {
        self.keys[key as usize] = pressed;
    }
}

} // verus!
