use snakecli::game::init::{can_start, end_layout, start};
use snakecli::game::model::{CommandKeys, SnakeBody};
use snakecli::game::snake::{
    add_food, can_tick, key_to_command, prepare_display, snake_status_check, tick,
    update_playground, SnakeGame, StatusOutcome, TickOutcome, DEFAULT_DURATION,
    FASTER_DURATION,
};
use snakecli::model::{Direction, Key, Playground};

const GAME_FOODS: [char; 6] = ['1', '2', '3', '4', '8', '9'];

fn arena() -> Playground {
    Playground::new(256, 256)
}

fn game(pieces: Vec<(u16, u16)>, movement_adder: (i16, i16)) -> SnakeGame {
    SnakeGame {
        snake: SnakeBody { len: pieces.len(), pieces, movement_adder },
        playground: arena(),
        conversion_vector: (0, 0),
        duration: DEFAULT_DURATION,
        snake_loose_weight: false,
    }
}

#[test]
fn is_none_only_for_idle() {
    assert!(CommandKeys::Idle.is_none());
    assert!(!CommandKeys::End.is_none());
    assert!(!CommandKeys::Directions(Direction::Up).is_none());
}

#[test]
fn game_eat_food_continues_the_tail_line() {
    let mut s = SnakeBody { len: 2, pieces: vec![(5, 5), (6, 5)], movement_adder: (1, 0) };
    s.eat_food();
    assert_eq!(s.pieces, vec![(4, 5), (5, 5), (6, 5)]);
    assert_eq!(s.len, 3);
    let mut t = SnakeBody { len: 2, pieces: vec![(0, 5), (1, 5)], movement_adder: (1, 0) };
    t.eat_food();
    assert_eq!(t.pieces[0], (65535, 5));
}

#[test]
fn game_move_forward_reports_cells() {
    let mut s = SnakeBody { len: 2, pieces: vec![(1, 1), (1, 2)], movement_adder: (1, 0) };
    let (pieces, changes) = s.move_forward();
    assert_eq!(pieces, vec![(1, 2), (2, 2)]);
    assert_eq!(s.pieces, pieces);
    assert_eq!(changes.new_head, (2, 2));
    assert_eq!(changes.previous_head, (1, 2));
    assert_eq!(changes.removed_tail, (1, 1));
}

#[test]
fn game_change_direction_ignores_reverse() {
    let mut s = SnakeBody { len: 2, pieces: vec![(1, 1), (1, 2)], movement_adder: (0, 1) };
    s.change_direction(&Direction::Up);
    assert_eq!(s.movement_adder, (0, 1));
    s.change_direction(&Direction::Left);
    assert_eq!(s.movement_adder, (-1, 0));
}

#[test]
fn update_playground_redraws_snake_keeping_foods() {
    let mut pg = arena();
    pg.set(0, 7, '#');
    pg.set(9, 9, '5');
    pg.set(20, 20, 'O');
    pg.set(255, 3, '#');
    update_playground(&mut pg, &vec![(3, 4), (3, 5), (3, 6)]);
    assert_eq!(pg.get(3, 4), 'O');
    assert_eq!(pg.get(3, 5), 'O');
    assert_eq!(pg.get(3, 6), 'X');
    assert_eq!(pg.get(9, 9), '5');
    assert_eq!(pg.get(20, 20), ' ');
    assert_eq!(pg.get(0, 7), '#');
    assert_eq!(pg.get(255, 3), ' ');
}

#[test]
fn game_add_food_places_hex_food() {
    let mut pg = arena();
    pg.set(0, 0, '#');
    add_food(&mut pg);
    let mut found = 0;
    for x in 0..256 {
        for y in 0..256 {
            let c = pg.get(x, y);
            if c != ' ' && c != '#' {
                assert!(x >= 1 && y >= 1);
                assert!(GAME_FOODS.contains(&c));
                found += 1;
            }
        }
    }
    assert_eq!(found, 1);
}

#[test]
fn game_start_walls_and_two_hundred_foods() {
    let mut pg = arena();
    start(&mut pg);
    for i in 0..256 {
        assert_eq!(pg.get(0, i), '#');
        assert_eq!(pg.get(i, 0), '#');
        assert_eq!(pg.get(255, i), '#');
        assert_eq!(pg.get(i, 255), '#');
    }
    let mut foods = 0;
    for x in 1..255 {
        for y in 1..255 {
            let c = pg.get(x, y);
            if c != ' ' {
                assert!(GAME_FOODS.contains(&c));
                foods += 1;
            }
        }
    }
    assert_eq!(foods, 200);
}

#[test]
fn game_status_check_crash_and_food() {
    let mut pg = arena();
    pg.set(5, 5, '#');
    pg.set(6, 6, '2');
    pg.set(7, 7, 'c');
    let mut s = SnakeBody { len: 2, pieces: vec![(5, 3), (5, 4)], movement_adder: (0, 1) };
    assert_eq!(snake_status_check(&(5, 5), &pg, &mut s), StatusOutcome::Crashed { score: 2 });
    assert_eq!(snake_status_check(&(6, 6), &pg, &mut s), StatusOutcome::Fine);
    assert_eq!(s.len, 4);
    assert_eq!(s.pieces, vec![(5, 1), (5, 2), (5, 3), (5, 4)]);
    assert_eq!(snake_status_check(&(7, 7), &pg, &mut s), StatusOutcome::Fine);
    assert_eq!(s.len, 4);
}

#[test]
fn prepare_display_follows_head() {
    let mut pg = arena();
    let mut cv = (10, 10);
    prepare_display(&mut pg, &vec![(11, 20), (12, 20)], &mut cv, (80, 24));
    assert_eq!(cv, (9, 10));
    assert_eq!(pg.get(12, 20), 'X');
    let mut cv2 = (0, 0);
    prepare_display(&mut pg, &vec![(76, 5), (77, 5)], &mut cv2, (80, 24));
    assert_eq!(cv2, (1, 0));
    let mut cv3 = (0, 0);
    prepare_display(&mut pg, &vec![(30, 10), (30, 11)], &mut cv3, (80, 24));
    assert_eq!(cv3, (0, 0));
}

#[test]
fn game_keys() {
    assert_eq!(key_to_command(Key::Char(' ')), Some(CommandKeys::Faster));
    assert_eq!(key_to_command(Key::Char('D')), Some(CommandKeys::Directions(Direction::Right)));
    assert_eq!(key_to_command(Key::Esc), Some(CommandKeys::End));
    assert_eq!(key_to_command(Key::Char('x')), None);
}

#[test]
fn tick_moves_and_draws() {
    let mut g = game(vec![(10, 10), (11, 10)], (1, 0));
    assert!(can_tick(&g, CommandKeys::Idle, (80, 24)));
    assert_eq!(tick(&mut g, CommandKeys::Idle, (80, 24)), TickOutcome::Continue);
    assert_eq!(g.snake.pieces, vec![(11, 10), (12, 10)]);
    assert_eq!(g.playground.get(12, 10), 'X');
    assert_eq!(g.playground.get(11, 10), 'O');
    assert_eq!(g.playground.get(10, 10), ' ');
}

#[test]
fn tick_crash_reports_score() {
    let mut g = game(vec![(10, 10), (11, 10)], (1, 0));
    g.playground.set(12, 10, '#');
    assert_eq!(tick(&mut g, CommandKeys::Idle, (80, 24)), TickOutcome::Crashed { score: 2 });
}

#[test]
fn tick_quits_on_escape() {
    let mut g = game(vec![(10, 10), (11, 10)], (1, 0));
    assert_eq!(tick(&mut g, CommandKeys::End, (80, 24)), TickOutcome::Quit);
}

#[test]
fn tick_fast_mode_sheds_every_other_turn() {
    let mut g = game(vec![(10, 10), (11, 10), (12, 10), (13, 10)], (1, 0));
    assert_eq!(tick(&mut g, CommandKeys::Faster, (80, 24)), TickOutcome::Continue);
    assert_eq!(g.duration, FASTER_DURATION);
    assert_eq!(g.snake.len, 3);
    assert!(!g.snake_loose_weight);
    assert_eq!(tick(&mut g, CommandKeys::Idle, (80, 24)), TickOutcome::Continue);
    assert_eq!(g.snake.len, 3);
    assert!(g.snake_loose_weight);
    assert_eq!(tick(&mut g, CommandKeys::Idle, (80, 24)), TickOutcome::Continue);
    assert_eq!(g.snake.len, 2);
    tick(&mut g, CommandKeys::Idle, (80, 24));
    tick(&mut g, CommandKeys::Idle, (80, 24));
    assert_eq!(g.snake.len, 2);
    assert_eq!(g.duration, DEFAULT_DURATION);
    assert_eq!(tick(&mut g, CommandKeys::Faster, (80, 24)), TickOutcome::Continue);
    assert_eq!(g.duration, DEFAULT_DURATION);
    assert_eq!(g.snake.len, 2);
}

#[test]
fn can_tick_rejects_leaving_arena() {
    let g = game(vec![(254, 10), (255, 10)], (1, 0));
    assert!(!can_tick(&g, CommandKeys::Idle, (80, 24)));
}

#[test]
fn end_layout_centres_lines() {
    assert_eq!(end_layout(&vec![4, 10], (20, 10)), vec![(8, 5), (5, 6)]);
}

#[test]
fn game_start_needs_room() {
    let pg = arena();
    assert!(can_start(&pg));
    let mut full = arena();
    for x in 0..256 {
        for y in 0..256 {
            full.set(x, y, '#');
        }
    }
    for k in 0..199 {
        full.set(1 + k % 200, 1 + k / 200, ' ');
    }
    assert!(!can_start(&full));
    full.set(100, 100, ' ');
    assert!(can_start(&full));
}

#[test]
fn count_blank_counts_box() {
    let mut pg = Playground::new(5, 4);
    pg.set(1, 1, '#');
    pg.set(4, 3, '#');
    assert_eq!(pg.count_blank(0, 5, 0, 4), 18);
    assert_eq!(pg.count_blank(1, 4, 1, 3), 5);
    assert_eq!(pg.count_blank(3, 100, 2, 100), 3);
    assert_eq!(pg.count_blank(7, 9, 0, 4), 0);
}
