//! Down/up state of the sixteen logical keys of the keypad.

use vstd::prelude::*;

verus! {

/// The instantaneous state of the sixteen keys, key `0x0` through `0xF`.
/// The host refreshes it once per frame through `set_key`; the execution
/// engine only reads it.
pub struct Input {
    keys: Vec<bool>,
}

impl View for Input {
    type V = Seq<bool>;

    closed spec fn view(&self) -> Seq<bool> {
        self.keys@
    }
}

impl Input {
    pub open spec fn wf(&self) -> bool {
        self@.len() == 16
    }

    /// A keypad with every key up.
    pub fn new() -> (r: Input)
        ensures
            r.wf(),
            forall|k: int| 0 <= k < 16 ==> !r@[k],
    {
        let mut keys: Vec<bool> = Vec::new();
        let mut n: usize = 0;
        while n < 16
            invariant
                n <= 16,
                keys@.len() == n,
                forall|k: int| 0 <= k < n ==> !keys@[k],
            decreases 16 - n,
        {
            keys.push(false);
            n = n + 1;
        }
        Input { keys }
    }

    /// Record that key `key` went down or up.
    pub fn set_key(&mut self, key: u8, down: bool)
        requires
            old(self).wf(),
            key < 16,
        ensures
            final(self).wf(),
            final(self)@ == old(self)@.update(key as int, down),
    {
        self.keys[key as usize] = down;
    }

    /// Whether key `key` is currently down.
    pub fn is_key_pressed(&self, key: u8) -> (r: bool)
        requires
            self.wf(),
            key < 16,
        ensures
            r == self@[key as int],
    {
        self.keys[key as usize]
    }

    /// The lowest-numbered key that is currently down, if any key is.
    pub fn get_any_pressed_key(&self) -> (r: Option<u8>)
        requires
            self.wf(),
        ensures
            match r {
                Some(k) => k < 16 && self@[k as int] && forall|j: int| 0 <= j < k ==> !self@[j],
                None => forall|j: int| 0 <= j < 16 ==> !self@[j],
            },
    {
        let mut k: usize = 0;
        while k < 16
            invariant
                self.wf(),
                k <= 16,
                forall|j: int| 0 <= j < k ==> !self@[j],
            decreases 16 - k,
        {
            if self.keys[k] {
                return Some(k as u8);
            }
            k = k + 1;
        }
        None
    }
}

impl Default for Input {
    /// A keypad with every key up.
    fn default() -> (r: Input)
        ensures
            r.wf(),
            forall|k: int| 0 <= k < 16 ==> !r@[k],
    {
        Input::new()
    }
}

} // verus!
