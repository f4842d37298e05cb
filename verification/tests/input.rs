use snake::input::{
    direction_change_is_valid, map_key_event, Direction, GameInput, InputHandler, KeyCode,
    KeyEvent, KeyModifiers,
};

#[test]
fn opposite_direction_is_correct() {
    assert_eq!(Direction::Up.opposite(), Direction::Down);
    assert_eq!(Direction::Down.opposite(), Direction::Up);
    assert_eq!(Direction::Left.opposite(), Direction::Right);
    assert_eq!(Direction::Right.opposite(), Direction::Left);
}

#[test]
fn direction_buffer_rejects_reverse() {
    assert!(!direction_change_is_valid(Direction::Up, Direction::Down));
    assert!(!direction_change_is_valid(Direction::Down, Direction::Up));
    assert!(!direction_change_is_valid(
        Direction::Left,
        Direction::Right
    ));
    assert!(!direction_change_is_valid(
        Direction::Right,
        Direction::Left
    ));

    assert!(direction_change_is_valid(Direction::Up, Direction::Left));
    assert!(direction_change_is_valid(Direction::Up, Direction::Right));
}

#[test]
fn keyboard_mapping_supports_wasd_and_arrows() {
    let up = KeyEvent::new(KeyCode::Char('w'), KeyModifiers::none());
    let right = KeyEvent::new(KeyCode::Right, KeyModifiers::none());

    assert_eq!(map_key_event(up), Some(GameInput::Direction(Direction::Up)));
    assert_eq!(
        map_key_event(right),
        Some(GameInput::Direction(Direction::Right))
    );
}

#[test]
fn keyboard_mapping_supports_quit_pause_and_confirm() {
    let quit = KeyEvent::new(KeyCode::Char('q'), KeyModifiers::none());
    let pause = KeyEvent::new(KeyCode::Esc, KeyModifiers::none());
    let confirm = KeyEvent::new(KeyCode::Enter, KeyModifiers::none());
    let ctrl_c = KeyEvent::new(KeyCode::Char('c'), KeyModifiers::control());

    assert_eq!(map_key_event(quit), Some(GameInput::Quit));
    assert_eq!(map_key_event(pause), Some(GameInput::Pause));
    assert_eq!(map_key_event(confirm), Some(GameInput::Confirm));
    assert_eq!(map_key_event(ctrl_c), Some(GameInput::Quit));
}

#[test]
fn every_steering_key_maps_to_its_direction() {
    let none = KeyModifiers::none();
    for (code, direction) in [
        (KeyCode::Up, Direction::Up),
        (KeyCode::Char('w'), Direction::Up),
        (KeyCode::Char('W'), Direction::Up),
        (KeyCode::Down, Direction::Down),
        (KeyCode::Char('s'), Direction::Down),
        (KeyCode::Char('S'), Direction::Down),
        (KeyCode::Left, Direction::Left),
        (KeyCode::Char('a'), Direction::Left),
        (KeyCode::Char('A'), Direction::Left),
        (KeyCode::Right, Direction::Right),
        (KeyCode::Char('d'), Direction::Right),
        (KeyCode::Char('D'), Direction::Right),
    ] {
        assert_eq!(
            map_key_event(KeyEvent::new(code, none)),
            Some(GameInput::Direction(direction))
        );
    }
}

#[test]
fn other_keys_map_as_specified() {
    let none = KeyModifiers::none();
    assert_eq!(map_key_event(KeyEvent::new(KeyCode::Char('p'), none)), Some(GameInput::Pause));
    assert_eq!(map_key_event(KeyEvent::new(KeyCode::Char('P'), none)), Some(GameInput::Pause));
    assert_eq!(map_key_event(KeyEvent::new(KeyCode::Char('Q'), none)), Some(GameInput::Quit));
    assert_eq!(map_key_event(KeyEvent::new(KeyCode::Char(' '), none)), Some(GameInput::Confirm));
    assert_eq!(map_key_event(KeyEvent::new(KeyCode::Char('c'), none)), None);
    assert_eq!(map_key_event(KeyEvent::new(KeyCode::Char('x'), none)), None);
    assert_eq!(map_key_event(KeyEvent::new(KeyCode::Other, none)), None);
    // Control does not change the meaning of any key but `c`.
    assert_eq!(
        map_key_event(KeyEvent::new(KeyCode::Char('q'), KeyModifiers::control())),
        Some(GameInput::Quit)
    );
    assert_eq!(
        map_key_event(KeyEvent::new(KeyCode::Char('C'), KeyModifiers::control())),
        None
    );
}

#[test]
fn modifiers_contain_what_is_held() {
    assert!(KeyModifiers::control().contains(KeyModifiers::control()));
    assert!(KeyModifiers::control().contains(KeyModifiers::none()));
    assert!(KeyModifiers::none().contains(KeyModifiers::none()));
    assert!(!KeyModifiers::none().contains(KeyModifiers::control()));
}

#[test]
fn poll_input_maps_a_key_press_and_passes_over_nothing() {
    let mut handler = InputHandler::new();
    assert_eq!(handler.poll_input(None), None);
    let enter = KeyEvent::new(KeyCode::Enter, KeyModifiers::none());
    assert_eq!(handler.poll_input(Some(enter)), Some(GameInput::Confirm));
    let tab = KeyEvent::new(KeyCode::Other, KeyModifiers::none());
    assert_eq!(handler.poll_input(Some(tab)), None);
}

#[test]
fn opposite_twice_is_the_direction_itself() {
    for direction in [Direction::Up, Direction::Down, Direction::Left, Direction::Right] {
        assert_eq!(direction.opposite().opposite(), direction);
        assert_ne!(direction.opposite(), direction);
        assert!(!direction_change_is_valid(direction, direction.opposite()));
        assert!(direction_change_is_valid(direction, direction));
    }
}
