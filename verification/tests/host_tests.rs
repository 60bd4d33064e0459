use snakecli::model::{
    ClientSendData, CommandKeys, Direction, GameStatus, HostSideData, Playground,
    PlaygroundChanges, SessionError, SnakeBody,
};
use snakecli::server::host::{can_take_turn, client_turn, place_snake};

fn empty_changes() -> PlaygroundChanges {
    PlaygroundChanges { change_to_x: vec![], change_to_o: vec![], remove_char: vec![], add_food: vec![] }
}

fn host_data() -> HostSideData {
    HostSideData { display_data: String::new(), status: GameStatus::Alive, len: 2 }
}

#[test]
fn place_snake_uses_blank_corner() {
    let pg = Playground::new(6, 6);
    let s = place_snake(&pg).unwrap();
    assert_eq!(s.len, 2);
    assert_eq!(s.pieces, vec![(1, 0), (0, 0)]);
    assert_eq!(s.movement_adder, (-1, 0));
}

#[test]
fn place_snake_needs_two_blank_cells() {
    let mut pg = Playground::new(6, 6);
    for x in 0..6 {
        for y in 0..6 {
            pg.set(x, y, '#');
        }
    }
    pg.set(2, 3, ' ');
    assert!(place_snake(&pg).is_none());
    pg.set(3, 3, ' ');
    let s = place_snake(&pg).unwrap();
    assert_eq!(s.pieces, vec![(3, 3), (2, 3)]);
}

#[test]
fn client_turn_escape_ends_session() {
    let pg = Playground::new(10, 8);
    let mut s = SnakeBody { len: 2, pieces: vec![(5, 3), (4, 3)], movement_adder: (-1, 0) };
    let mut host = host_data();
    let mut ch = empty_changes();
    let mut cv = (0, 0);
    let data = ClientSendData { terminal_size: (5, 4), command: CommandKeys::End, loose_weight: false };
    assert!(can_take_turn(&s, cv, &pg, &data));
    let r = client_turn(&mut s, &mut host, &mut ch, &mut cv, &pg, &data);
    assert!(matches!(r, Err(SessionError::Escaped)));
    match host.status {
        GameStatus::Dead(m) => assert_eq!(m, "YOU LEFT\n HOPE YOU ENJOY THIS"),
        GameStatus::Alive => panic!("the session should have ended"),
    }
    assert_eq!(s.pieces, vec![(5, 3), (4, 3)]);
}

#[test]
fn client_turn_moves_and_sheds() {
    let mut pg = Playground::new(10, 8);
    pg.set(3, 3, '2');
    let mut s = SnakeBody { len: 3, pieces: vec![(6, 3), (5, 3), (4, 3)], movement_adder: (-1, 0) };
    let mut host = host_data();
    let mut ch = empty_changes();
    let mut cv = (0, 0);
    let data = ClientSendData {
        terminal_size: (5, 4),
        command: CommandKeys::Directions(Direction::Right),
        loose_weight: true,
    };
    assert!(can_take_turn(&s, cv, &pg, &data));
    let r = client_turn(&mut s, &mut host, &mut ch, &mut cv, &pg, &data);
    assert!(r.is_ok());
    assert_eq!(s.movement_adder, (-1, 0));
    assert_eq!(ch.change_to_x, vec![(3, 3)]);
    assert_eq!(ch.change_to_o, vec![(4, 3)]);
    assert_eq!(ch.remove_char, vec![(6, 3), (5, 3)]);
    assert_eq!(host.len, 2);
    assert_eq!(s.len, 4);
    assert_eq!(s.pieces, vec![(4, 3), (4, 3), (4, 3), (3, 3)]);
    assert_eq!(ch.add_food.len(), 1);
    assert!(matches!(host.status, GameStatus::Alive));
    assert_eq!(host.display_data.chars().filter(|c| *c == '2').count(), 1);
}

#[test]
fn client_turn_crash_loses() {
    let mut pg = Playground::new(10, 8);
    pg.set(4, 2, '#');
    let mut s = SnakeBody { len: 2, pieces: vec![(4, 4), (4, 3)], movement_adder: (-1, 0) };
    let mut host = host_data();
    let mut ch = empty_changes();
    let mut cv = (0, 0);
    let data = ClientSendData {
        terminal_size: (5, 4),
        command: CommandKeys::Directions(Direction::Up),
        loose_weight: false,
    };
    assert!(can_take_turn(&s, cv, &pg, &data));
    let r = client_turn(&mut s, &mut host, &mut ch, &mut cv, &pg, &data);
    assert!(matches!(r, Err(SessionError::Lost)));
    assert_eq!(s.movement_adder, (0, -1));
    assert_eq!(ch.change_to_x, vec![(4, 2)]);
    match host.status {
        GameStatus::Dead(m) => assert_eq!(m, "YOU LOST :("),
        GameStatus::Alive => panic!("the snake should be dead"),
    }
}

#[test]
fn can_take_turn_rejects_head_leaving_playground() {
    let pg = Playground::new(10, 8);
    let s = SnakeBody { len: 2, pieces: vec![(8, 3), (9, 3)], movement_adder: (1, 0) };
    let data = ClientSendData { terminal_size: (5, 4), command: CommandKeys::Idle, loose_weight: false };
    assert!(!can_take_turn(&s, (0, 0), &pg, &data));
    let empty = SnakeBody { len: 0, pieces: vec![], movement_adder: (1, 0) };
    assert!(!can_take_turn(&empty, (0, 0), &pg, &data));
}
