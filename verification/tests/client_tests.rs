use snakecli::client::user::{
    banner_layout, client_tick, filter_repeated, key_to_command, session_result, ClientPace,
    FASTER_DURATION, SLOWER_DURATION,
};
use snakecli::model::{CommandKeys, Direction, GameStatus, HostSideData, Key};

#[test]
fn keys_map_to_commands() {
    assert_eq!(key_to_command(Key::Up), Some(CommandKeys::Directions(Direction::Up)));
    assert_eq!(key_to_command(Key::Char('W')), Some(CommandKeys::Directions(Direction::Up)));
    assert_eq!(key_to_command(Key::Char('s')), Some(CommandKeys::Directions(Direction::Down)));
    assert_eq!(key_to_command(Key::Right), Some(CommandKeys::Directions(Direction::Right)));
    assert_eq!(key_to_command(Key::Char('a')), Some(CommandKeys::Directions(Direction::Left)));
    assert_eq!(key_to_command(Key::Char(' ')), Some(CommandKeys::ChangeSpeed));
    assert_eq!(key_to_command(Key::Esc), Some(CommandKeys::End));
    assert_eq!(key_to_command(Key::Char('q')), None);
    assert_eq!(key_to_command(Key::Other), None);
}

#[test]
fn repeated_directions_are_dropped() {
    let mut previous = CommandKeys::Idle;
    let up = CommandKeys::Directions(Direction::Up);
    assert_eq!(filter_repeated(&mut previous, up), Some(up));
    assert_eq!(filter_repeated(&mut previous, up), None);
    assert_eq!(filter_repeated(&mut previous, CommandKeys::ChangeSpeed), Some(CommandKeys::ChangeSpeed));
    assert_eq!(filter_repeated(&mut previous, CommandKeys::ChangeSpeed), Some(CommandKeys::ChangeSpeed));
    assert_eq!(filter_repeated(&mut previous, up), Some(up));
}

#[test]
fn speed_change_toggles_and_sheds_every_other_turn() {
    let mut pace = ClientPace { duration: SLOWER_DURATION, loose_weight: false };
    let sent = client_tick(&mut pace, CommandKeys::ChangeSpeed, 5, (80, 24));
    assert_eq!(sent.command, CommandKeys::Idle);
    assert_eq!(pace.duration, FASTER_DURATION);
    assert!(!sent.loose_weight);
    let sent = client_tick(&mut pace, CommandKeys::Idle, 5, (80, 24));
    assert!(sent.loose_weight);
    assert_eq!(sent.terminal_size, (80, 24));
    let sent = client_tick(&mut pace, CommandKeys::ChangeSpeed, 5, (80, 24));
    assert_eq!(pace.duration, SLOWER_DURATION);
    assert!(!sent.loose_weight);
}

#[test]
fn short_snake_slows_down() {
    let mut pace = ClientPace { duration: FASTER_DURATION, loose_weight: true };
    let sent = client_tick(&mut pace, CommandKeys::Directions(Direction::Left), 2, (80, 24));
    assert_eq!(pace.duration, SLOWER_DURATION);
    assert!(!sent.loose_weight);
    assert_eq!(sent.command, CommandKeys::Directions(Direction::Left));
}

#[test]
fn dead_status_ends_session() {
    let dead = HostSideData {
        display_data: String::new(),
        status: GameStatus::Dead("YOU LOST :(".to_string()),
        len: 4,
    };
    assert_eq!(session_result(&dead), Err("YOU LOST :(".to_string()));
    let alive = HostSideData { display_data: String::new(), status: GameStatus::Alive, len: 4 };
    assert_eq!(session_result(&alive), Ok(()));
}

#[test]
fn banner_is_centred() {
    let layout = banner_layout(&vec![5, 3], (20, 10));
    assert_eq!(layout.frame_width, 9);
    assert_eq!(layout.top, (5, 3));
    assert_eq!(layout.lines, vec![(7, 4), (8, 5)]);
    assert_eq!(layout.bottom, (5, 6));
}
