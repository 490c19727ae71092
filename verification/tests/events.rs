use snake_game::events::{action_for_key, GameAction, GameKey, KeyEventQueue};

#[test]
fn take_latest_returns_newest_exactly_once() {
    let mut queue = KeyEventQueue::new();
    queue.add_event(GameKey::Char('a'));
    queue.add_event(GameKey::Char('b'));
    queue.add_event(GameKey::Char('c'));
    assert_eq!(queue.get_last_event(), Some(GameKey::Char('c')));
    // Everything older was discarded along with the taken event.
    assert_eq!(queue.get_last_event(), None);
}

#[test]
fn take_latest_on_empty_queue() {
    let mut queue = KeyEventQueue::new();
    assert_eq!(queue.get_last_event(), None);
    queue.add_event(GameKey::Up);
    assert_eq!(queue.get_last_event(), Some(GameKey::Up));
    assert_eq!(queue.get_last_event(), None);
}

#[test]
fn producer_loses_nothing_before_a_take() {
    let mut queue = KeyEventQueue::new();
    for key in [GameKey::Up, GameKey::Down, GameKey::Left, GameKey::Right] {
        queue.add_event(key);
        assert_eq!(*queue.events.last().unwrap(), key);
    }
    assert_eq!(queue.events.len(), 4);
    assert_eq!(queue.get_last_event(), Some(GameKey::Right));
}

#[test]
fn letters_and_arrows_map_to_actions() {
    assert_eq!(action_for_key(GameKey::Char('q')), Some(GameAction::Quit));
    assert_eq!(action_for_key(GameKey::Char(' ')), Some(GameAction::PauseToggle));
    assert_eq!(action_for_key(GameKey::Char('w')), Some(GameAction::Turn(0)));
    assert_eq!(action_for_key(GameKey::Up), Some(GameAction::Turn(0)));
    assert_eq!(action_for_key(GameKey::Char('d')), Some(GameAction::Turn(1)));
    assert_eq!(action_for_key(GameKey::Right), Some(GameAction::Turn(1)));
    assert_eq!(action_for_key(GameKey::Char('s')), Some(GameAction::Turn(2)));
    assert_eq!(action_for_key(GameKey::Down), Some(GameAction::Turn(2)));
    assert_eq!(action_for_key(GameKey::Char('a')), Some(GameAction::Turn(3)));
    assert_eq!(action_for_key(GameKey::Left), Some(GameAction::Turn(3)));
    assert_eq!(action_for_key(GameKey::Char('x')), None);
    assert_eq!(action_for_key(GameKey::Other), None);
}
