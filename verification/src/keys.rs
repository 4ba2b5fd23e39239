//! The key-state tracker: the record of the emulated keys that are held,
//! and the actions that a player is asked for.

use vstd::prelude::*;

verus! {

/// The time, in microseconds, that is waited before the shift modifier
/// changes, so that the key events around the change are not taken for
/// shifted or unshifted ones by mistake.
pub const SETTLE_MICROS: u64 = 12_000;

/// One thing for the player to do.
#[derive(Clone, Copy, Debug, PartialEq, Eq, Structural)]
pub enum Action {
    /// Let this many microseconds pass.
    Wait { micros: u64 },
    /// Press the shift modifier.
    PressModifier,
    /// Release the shift modifier.
    ReleaseModifier,
    /// Press an emulated key.
    PressKey { key: char },
    /// Release an emulated key.
    ReleaseKey { key: char },
}

/// The emulated keys that are held, each once, in the order in which they
/// were pressed.
pub struct KeyStates {
    held: Vec<char>,
}

impl View for KeyStates {
    type V = Seq<char>;

    closed spec fn view(&self) -> Seq<char> {
        self.held@
    }
}

impl KeyStates {
    /// No key is listed twice.
    pub open spec fn wf(&self) -> bool {
        self@.no_duplicates()
    }

    /// A tracker with no key held.
    pub fn new() -> (keys: KeyStates)
        ensures
            keys.wf(),
            keys@ == Seq::<char>::empty(),
    {
        KeyStates { held: Vec::new() }
    }

    /// Where `key` stands among the held keys, if it is held.
    fn position(&self, key: char) -> (at: Option<usize>)
        requires
            self.wf(),
        ensures
            match at {
                Some(i) => i < self@.len() && self@[i as int] == key && self@.index_of(key) == i,
                None => !self@.contains(key),
            },
    {
        let mut i: usize = 0;
        while i < self.held.len()
            invariant
                self.wf(),
                i <= self.held@.len(),
                forall|j: int| 0 <= j < i ==> self.held@[j] != key,
            decreases self.held@.len() - i,
        {
            if self.held[i] == key {
                assert(self@.contains(key));
                return Some(i);
            }
            i += 1;
        }
        None
    }

    /// Whether `key` is held.
    pub fn is_held(&self, key: char) -> (held: bool)
        requires
            self.wf(),
        ensures
            held == self@.contains(key),
    {
        self.position(key).is_some()
    }

    /// How many keys are held.
    pub fn held_count(&self) -> (count: usize)
        ensures
            count == self@.len(),
    {
        self.held.len()
    }

    /// Marks `key` as held. A key that is held already stays where it is.
    pub fn hold(&mut self, key: char)
        requires
            old(self).wf(),
        ensures
            final(self).wf(),
            final(self)@ == held_with(old(self)@, key),
    {
        if self.position(key).is_none() {
            proof {
                lemma_held_with_distinct(self.held@, key);
            }
            self.held.push(key);
        }
    }

    /// Marks `key` as not held.
    pub fn let_go(&mut self, key: char)
        requires
            old(self).wf(),
        ensures
            final(self).wf(),
            final(self)@ == held_without(old(self)@, key),
    {
        if let Some(i) = self.position(key) {
            proof {
                lemma_held_without_distinct(self.held@, key);
            }
            self.held.remove(i);
        }
    }

    /// Marks every key as not held, and hands back those that were held,
    /// first pressed first.
    pub fn let_go_all(&mut self) -> (keys: Vec<char>)
        ensures
            final(self).wf(),
            keys@ == old(self)@,
            final(self)@ == Seq::<char>::empty(),
    {
        let mut keys: Vec<char> = Vec::new();
        std::mem::swap(&mut keys, &mut self.held);
        keys
    }
}

/// The held keys once `key` is not held any more: the others, in their
/// order.
pub open spec fn held_without(held: Seq<char>, key: char) -> Seq<char> {
    if held.contains(key) {
        held.remove(held.index_of(key))
    } else {
        held
    }
}

/// The held keys once `key` is held too.
pub open spec fn held_with(held: Seq<char>, key: char) -> Seq<char> {
    if held.contains(key) {
        held
    } else {
        held.push(key)
    }
}

/// Holding one key more leaves the held keys all different.
pub proof fn lemma_held_with_distinct(held: Seq<char>, key: char)
    requires
        held.no_duplicates(),
    ensures
        held_with(held, key).no_duplicates(),
{
    let after = held_with(held, key);
    assert forall|i: int, j: int| 0 <= i < after.len() && 0 <= j < after.len() && i != j implies after[i]
        != after[j] by {
        if after == held || (i < held.len() && j < held.len()) {
        } else if i < held.len() {
            assert(held.contains(held[i]));
        } else {
            assert(held.contains(held[j]));
        }
    }
}

/// Letting one key go leaves the held keys all different, and the key not
/// among them.
pub proof fn lemma_held_without_distinct(held: Seq<char>, key: char)
    requires
        held.no_duplicates(),
    ensures
        held_without(held, key).no_duplicates(),
        !held_without(held, key).contains(key),
{
    let after = held_without(held, key);
    let at = held.index_of(key);
    if held.contains(key) {
        assert forall|i: int| 0 <= i < after.len() implies after[i] != key by {
            let from_i = if i < at {
                i
            } else {
                i + 1
            };
            assert(after[i] == held[from_i]);
        }
    }
    assert forall|i: int, j: int| 0 <= i < after.len() && 0 <= j < after.len() && i != j implies after[i]
        != after[j] by {
        if held.contains(key) {
            let from_i = if i < at {
                i
            } else {
                i + 1
            };
            let from_j = if j < at {
                j
            } else {
                j + 1
            };
            assert(after[i] == held[from_i]);
            assert(after[j] == held[from_j]);
        }
    }
}

} // verus!
