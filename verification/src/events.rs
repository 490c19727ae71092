//! Key events and the drop-oldest, keep-newest input buffer.
//!
//! The buffer itself is single-threaded and fully verified; the binary
//! shares it between the capture thread and the game loop behind one
//! mutual-exclusion lock held only for the brief push and take calls.

use vstd::prelude::*;

verus! {

/// A captured key, reduced to what the game reads: a character, an arrow,
/// or something it does not recognise.
#[derive(Clone, Copy, PartialEq, Eq, Structural, Debug)]
pub enum GameKey {
    Char(char),
    Up,
    Down,
    Left,
    Right,
    Other,
}

/// A logical action of the player. `Turn` carries a direction ordinal
/// (0 up, 1 right, 2 down, 3 left).
#[derive(Clone, Copy, PartialEq, Eq, Structural, Debug)]
pub enum GameAction {
    Quit,
    PauseToggle,
    Turn(usize),
}

/// The action a key stands for: q quits, space toggles pause, and both a
/// letter and the arrow key select each turn direction.
pub open spec fn action_spec(key: GameKey) -> Option<GameAction> {
    match key {
        GameKey::Char(c) => if c == 'q' {
            Some(GameAction::Quit)
        } else if c == ' ' {
            Some(GameAction::PauseToggle)
        } else if c == 'w' {
            Some(GameAction::Turn(0))
        } else if c == 'd' {
            Some(GameAction::Turn(1))
        } else if c == 's' {
            Some(GameAction::Turn(2))
        } else if c == 'a' {
            Some(GameAction::Turn(3))
        } else {
            None
        },
        GameKey::Up => Some(GameAction::Turn(0)),
        GameKey::Right => Some(GameAction::Turn(1)),
        GameKey::Down => Some(GameAction::Turn(2)),
        GameKey::Left => Some(GameAction::Turn(3)),
        GameKey::Other => None,
    }
}

/// Translates one key to its action; unrecognised keys mean no action.
pub fn action_for_key(key: GameKey) -> (a: Option<GameAction>)
    ensures
        a == action_spec(key),
        a matches Some(GameAction::Turn(d)) ==> d < 4,
{
    match key {
        GameKey::Char(c) => {
            if c == 'q' {
                Some(GameAction::Quit)
            } else if c == ' ' {
                Some(GameAction::PauseToggle)
            } else if c == 'w' {
                Some(GameAction::Turn(0))
            } else if c == 'd' {
                Some(GameAction::Turn(1))
            } else if c == 's' {
                Some(GameAction::Turn(2))
            } else if c == 'a' {
                Some(GameAction::Turn(3))
            } else {
                None
            }
        },
        GameKey::Up => Some(GameAction::Turn(0)),
        GameKey::Right => Some(GameAction::Turn(1)),
        GameKey::Down => Some(GameAction::Turn(2)),
        GameKey::Left => Some(GameAction::Turn(3)),
        GameKey::Other => None,
    }
}

/// What a take on a buffer with contents `s` returns: the most recent
/// event, or nothing from an empty buffer.
pub open spec fn take_latest_result(s: Seq<GameKey>) -> Option<GameKey> {
    if s.len() > 0 {
        Some(s.last())
    } else {
        None
    }
}

/// Pending key events in arrival order. The producer appends; the consumer
/// takes the newest event and discards the rest.
pub struct KeyEventQueue {
    pub events: Vec<GameKey>,
}

impl KeyEventQueue {
    /// An empty buffer.
    pub fn new() -> (q: KeyEventQueue)
        ensures
            q.events@ == Seq::<GameKey>::empty(),
    {
        KeyEventQueue { events: Vec::new() }
    }

    /// Appends one event at the tail; nothing already buffered is lost.
    pub fn add_event(&mut self, event: GameKey)
        ensures
            final(self).events@ == old(self).events@.push(event),
    {
        self.events.push(event);
    }

    /// Removes and returns the most recent event, discarding every older
    /// one; returns nothing if the buffer was empty. Either way the buffer
    /// is empty afterwards, so stale input is never processed once a newer
    /// event has arrived.
    pub fn get_last_event(&mut self) -> (r: Option<GameKey>)
        ensures
            r == take_latest_result(old(self).events@),
            final(self).events@ == Seq::<GameKey>::empty(),
    {
        let last_element = self.events.pop();
        self.events.clear();
        last_element
    }
}

/// Law: after events a, b, c arrive in order, one take returns c — the
/// newest — and leaves the buffer empty, so an immediate second take
/// returns nothing.
pub proof fn lemma_take_latest_newest_once(s: Seq<GameKey>, a: GameKey, b: GameKey, c: GameKey)
    ensures
        take_latest_result(s.push(a).push(b).push(c)) == Some(c),
        take_latest_result(Seq::<GameKey>::empty()) == None::<GameKey>,
{
}

} // verus!
