//! The five keys that steer a piece.

use vstd::prelude::*;

verus! {

/// A key of the game.
#[derive(Clone, Copy, PartialEq, Eq, Structural, Debug)]
pub enum KeyCode {
    Left,
    Right,
    Up,
    Down,
    Space,
}

/// One flag for each key of the game. It serves both as the set of keys that
/// are held down during a tick and as the game's own record of the keys it
/// has already answered.
#[derive(Clone, Copy, PartialEq, Eq, Structural, Debug)]
pub struct KeySet {
    pub left: bool,
    pub right: bool,
    pub up: bool,
    pub down: bool,
    pub space: bool,
}

impl KeySet {
    /// Whether the flag of `key` is set.
    pub open spec fn has(self, key: KeyCode) -> bool {
        match key {
            KeyCode::Left => self.left,
            KeyCode::Right => self.right,
            KeyCode::Up => self.up,
            KeyCode::Down => self.down,
            KeyCode::Space => self.space,
        }
    }

    /// The set with the flag of `key` put to `flag` and the others kept.
    pub open spec fn with(self, key: KeyCode, flag: bool) -> KeySet {
        match key {
            KeyCode::Left => KeySet { left: flag, ..self },
            KeyCode::Right => KeySet { right: flag, ..self },
            KeyCode::Up => KeySet { up: flag, ..self },
            KeyCode::Down => KeySet { down: flag, ..self },
            KeyCode::Space => KeySet { space: flag, ..self },
        }
    }

    /// The set without a flag set.
    pub open spec fn nothing() -> KeySet {
        KeySet { left: false, right: false, up: false, down: false, space: false }
    }

    /// The set without a flag set.
    pub fn none() -> (keys: KeySet)
        ensures
            keys == KeySet::nothing(),
    {
        KeySet { left: false, right: false, up: false, down: false, space: false }
    }

    /// The set in which `key` alone is set.
    pub fn only(key: KeyCode) -> (keys: KeySet)
        ensures
            keys == KeySet::nothing().with(key, true),
    {
        let mut keys = KeySet::none();
        keys.set(key, true);
        keys
    }

    /// Whether the flag of `key` is set.
    pub fn contains(&self, key: KeyCode) -> (flag: bool)
        ensures
            flag == self.has(key),
    {
        match key {
            KeyCode::Left => self.left,
            KeyCode::Right => self.right,
            KeyCode::Up => self.up,
            KeyCode::Down => self.down,
            KeyCode::Space => self.space,
        }
    }

    /// Puts the flag of `key` to `flag`.
    pub fn set(&mut self, key: KeyCode, flag: bool)
        ensures
            *final(self) == old(self).with(key, flag),
    {
        match key {
            KeyCode::Left => {
                self.left = flag;
            },
            KeyCode::Right => {
                self.right = flag;
            },
            KeyCode::Up => {
                self.up = flag;
            },
            KeyCode::Down => {
                self.down = flag;
            },
            KeyCode::Space => {
                self.space = flag;
            },
        }
    }

    /// Clears every flag.
    pub fn clear(&mut self)
        ensures
            *final(self) == KeySet::nothing(),
    {
        self.left = false;
        self.right = false;
        self.up = false;
        self.down = false;
        self.space = false;
    }
}

} // verus!
