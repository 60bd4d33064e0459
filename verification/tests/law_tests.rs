use snakecli::client::user::{client_tick, ClientPace, SLOWER_DURATION};
use snakecli::game::model::CommandKeys as GameCommand;
use snakecli::game::snake::{can_tick, tick, SnakeGame, DEFAULT_DURATION};
use snakecli::model::{
    ClientSendData, CommandKeys, Direction, GameStatus, HostSideData, Playground, PlaygroundChanges,
    SessionError, SnakeBody,
};
use snakecli::server::host::{can_take_turn, client_turn};
use snakecli::server::functions::{loose, update_playground, user_display_generator};

fn headings() -> Vec<(i16, i16)> {
    vec![(0, -1), (0, 1), (-1, 0), (1, 0)]
}

#[test]
fn board_follows_snake_after_a_move() {
    let mut pg = Playground::new(8, 8);
    pg.set(2, 2, 'O');
    pg.set(2, 3, 'O');
    pg.set(2, 4, 'X');
    let mut s = SnakeBody { len: 3, pieces: vec![(2, 2), (2, 3), (2, 4)], movement_adder: (0, 1) };
    let changes = s.move_forward();
    update_playground(&mut pg, &changes);
    assert_eq!(pg.get(2, 2), ' ');
    assert_eq!(pg.get(2, 3), 'O');
    assert_eq!(pg.get(2, 4), 'O');
    assert_eq!(pg.get(2, 5), 'X');
    s.change_direction(&Direction::Right);
    let changes = s.move_forward();
    update_playground(&mut pg, &changes);
    assert_eq!(pg.get(2, 3), ' ');
    assert_eq!(pg.get(2, 4), 'O');
    assert_eq!(pg.get(2, 5), 'O');
    assert_eq!(pg.get(3, 5), 'X');
}

#[test]
fn view_keeps_head_in_sight() {
    let pg = Playground::new(30, 12);
    let ts = (7u16, 5u16);
    let mut cv = (0u16, 0u16);
    for step in 0..60u16 {
        let head = ((step * 7) % 30, (step * 3) % 12);
        let _ = user_display_generator(&pg, &head, &mut cv, &ts);
        assert!(cv.0 <= head.0 && head.0 < cv.0 + ts.0 && cv.0 + ts.0 <= 30);
        assert!(cv.1 <= head.1 && head.1 < cv.1 + ts.1 && cv.1 + ts.1 <= 12);
    }
}

#[test]
fn heading_never_reverses() {
    let directions = [Direction::Up, Direction::Down, Direction::Left, Direction::Right];
    for h in headings() {
        for d in directions.iter() {
            let mut s = SnakeBody { len: 1, pieces: vec![(5, 5)], movement_adder: h };
            s.change_direction(d);
            assert!(headings().contains(&s.movement_adder));
            assert_ne!(s.movement_adder, (-h.0, -h.1));
        }
    }
}

#[test]
fn length_counts_pieces() {
    let mut s = SnakeBody { len: 2, pieces: vec![(5, 5), (5, 6)], movement_adder: (0, 1) };
    for _ in 0..3 {
        s.move_forward();
        assert_eq!(s.len, s.pieces.len());
        s.eat_food();
        assert_eq!(s.len, s.pieces.len());
    }
    assert_eq!(s.len, 5);
}

#[test]
fn speed_toggle_round_trip() {
    let mut pace = ClientPace { duration: SLOWER_DURATION, loose_weight: false };
    client_tick(&mut pace, CommandKeys::ChangeSpeed, 10, (80, 24));
    client_tick(&mut pace, CommandKeys::ChangeSpeed, 10, (80, 24));
    assert_eq!(pace.duration, SLOWER_DURATION);
    let mut g = SnakeGame {
        snake: SnakeBody {
            len: 6,
            pieces: vec![(10, 10), (11, 10), (12, 10), (13, 10), (14, 10), (15, 10)],
            movement_adder: (1, 0),
        }
        .into_game(),
        playground: Playground::new(256, 256),
        conversion_vector: (0, 0),
        duration: DEFAULT_DURATION,
        snake_loose_weight: false,
    };
    tick(&mut g, GameCommand::Faster, (80, 24));
    tick(&mut g, GameCommand::Faster, (80, 24));
    assert_eq!(g.duration, DEFAULT_DURATION);
}

trait IntoGame {
    fn into_game(self) -> snakecli::game::model::SnakeBody;
}

impl IntoGame for SnakeBody {
    fn into_game(self) -> snakecli::game::model::SnakeBody {
        snakecli::game::model::SnakeBody {
            len: self.len,
            pieces: self.pieces,
            movement_adder: self.movement_adder,
        }
    }
}

#[test]
fn snake_keeps_two_pieces_at_speed() {
    let mut g = SnakeGame {
        snake: snakecli::game::model::SnakeBody {
            len: 4,
            pieces: vec![(10, 10), (11, 10), (12, 10), (13, 10)],
            movement_adder: (1, 0),
        },
        playground: Playground::new(256, 256),
        conversion_vector: (0, 0),
        duration: DEFAULT_DURATION,
        snake_loose_weight: false,
    };
    for i in 0..20 {
        let cmd = if i % 5 == 0 { GameCommand::Faster } else { GameCommand::Idle };
        assert!(can_tick(&g, cmd, (80, 24)));
        tick(&mut g, cmd, (80, 24));
        assert!(g.snake.len >= 2);
    }
}

#[test]
fn view_keeps_margin() {
    let pg = Playground::new(40, 20);
    let ts = (10u16, 10u16);
    let mut cv = (0u16, 0u16);
    for head_x in [5u16, 9, 14, 20, 27, 33, 38, 30, 22, 12, 6] {
        let head = (head_x, 10u16);
        let _ = user_display_generator(&pg, &head, &mut cv, &ts);
        let gap = ts.0 / 5;
        if cv.0 + ts.0 != 40 {
            assert!(head.0 - cv.0 >= gap);
            assert!(cv.0 + ts.0 - head.0 >= gap);
        }
    }
}

#[test]
fn finished_snake_is_cleared() {
    let mut pg = Playground::new(8, 8);
    pg.set(3, 1, 'O');
    pg.set(3, 2, 'O');
    pg.set(3, 3, 'X');
    pg.set(3, 4, '#');
    let mut s = SnakeBody { len: 3, pieces: vec![(3, 2), (3, 3), (3, 4)], movement_adder: (0, 1) };
    let last = PlaygroundChanges {
        change_to_x: vec![(3, 4)],
        change_to_o: vec![(3, 3)],
        remove_char: vec![(3, 1)],
        add_food: vec![((6, 6), '5')],
    };
    let changes = loose(&mut s, last, &SessionError::Lost);
    update_playground(&mut pg, &changes);
    assert_eq!(pg.get(3, 1), ' ');
    assert_eq!(pg.get(3, 2), ' ');
    assert_eq!(pg.get(3, 3), ' ');
    assert_eq!(pg.get(3, 4), '#');
    assert_eq!(pg.get(6, 6), '5');
}

#[test]
fn turn_changes_fit() {
    let mut pg = Playground::new(10, 8);
    pg.set(0, 0, '#');
    pg.set(4, 4, '1');
    let mut s = SnakeBody { len: 1, pieces: vec![(4, 3)], movement_adder: (0, 1) };
    let mut host = HostSideData { display_data: String::new(), status: GameStatus::Alive, len: 1 };
    let mut ch = PlaygroundChanges { change_to_x: vec![], change_to_o: vec![], remove_char: vec![], add_food: vec![] };
    let mut cv = (0, 0);
    let data = ClientSendData { terminal_size: (5, 4), command: CommandKeys::Idle, loose_weight: false };
    assert!(can_take_turn(&s, cv, &pg, &data));
    assert!(client_turn(&mut s, &mut host, &mut ch, &mut cv, &pg, &data).is_ok());
    let inside = |p: &(u16, u16)| p.0 < 10 && p.1 < 8;
    assert!(ch.change_to_x.iter().all(inside));
    assert!(ch.change_to_o.iter().all(inside));
    assert!(ch.remove_char.iter().all(inside));
    assert!(ch.add_food.iter().all(|f| inside(&f.0)));
    assert_eq!(ch.add_food.len(), 1);
    update_playground(&mut pg, &ch);
    assert_eq!(pg.get(4, 4), 'X');
}

#[test]
fn view_stays_on_playground_for_any_terminal() {
    let pg = Playground::new(12, 6);
    let mut cv = (0u16, 0u16);
    for (i, ts) in [(3u16, 2u16), (20, 4), (12, 6), (5, 30), (40, 40), (7, 3)].iter().enumerate() {
        let head = ((i as u16 * 5) % 12, (i as u16 * 2) % 6);
        let _ = user_display_generator(&pg, &head, &mut cv, ts);
        assert!(cv.0 as usize + (ts.0 as usize).min(12) <= 12);
        assert!(cv.1 as usize + (ts.1 as usize).min(6) <= 6);
        if ts.0 >= 12 {
            assert_eq!(cv.0, 0);
        }
        if ts.1 >= 6 {
            assert_eq!(cv.1, 0);
        }
    }
}
