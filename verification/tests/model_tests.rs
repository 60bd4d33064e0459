use snakecli::model::{
    step_coordinate, CommandKeys, Direction, Playground, SessionError, SnakeBody,
};

fn snake(pieces: Vec<(u16, u16)>, movement_adder: (i16, i16)) -> SnakeBody {
    SnakeBody { len: pieces.len(), pieces, movement_adder }
}

#[test]
fn change_direction_turns_off_the_axis() {
    let mut s = snake(vec![(1, 1), (1, 2)], (1, 0));
    s.change_direction(&Direction::Up);
    assert_eq!(s.movement_adder, (0, -1));
    s.change_direction(&Direction::Right);
    assert_eq!(s.movement_adder, (1, 0));
    s.change_direction(&Direction::Down);
    assert_eq!(s.movement_adder, (0, 1));
}

#[test]
fn change_direction_ignores_reverse_and_same_heading() {
    let mut s = snake(vec![(1, 1), (1, 2)], (1, 0));
    s.change_direction(&Direction::Left);
    assert_eq!(s.movement_adder, (1, 0));
    s.change_direction(&Direction::Right);
    assert_eq!(s.movement_adder, (1, 0));
    assert_eq!(s.pieces, vec![(1, 1), (1, 2)]);
    assert_eq!(s.len, 2);
}

#[test]
fn move_forward_drops_tail_and_adds_head() {
    let mut s = snake(vec![(1, 1), (1, 2)], (1, 0));
    let changes = s.move_forward();
    assert_eq!(s.pieces, vec![(1, 2), (2, 2)]);
    assert_eq!(s.len, 2);
    assert_eq!(changes.change_to_x, vec![(2, 2)]);
    assert_eq!(changes.change_to_o, vec![(1, 2)]);
    assert_eq!(changes.remove_char, vec![(1, 1)]);
    assert!(changes.add_food.is_empty());
}

#[test]
fn move_forward_stops_at_zero() {
    let mut s = snake(vec![(1, 5), (0, 5)], (-1, 0));
    let changes = s.move_forward();
    assert_eq!(changes.change_to_x, vec![(0, 5)]);
    assert_eq!(s.pieces, vec![(0, 5), (0, 5)]);
}

#[test]
fn step_coordinate_reads_high_values_as_negative() {
    assert_eq!(step_coordinate(5, 1), 6);
    assert_eq!(step_coordinate(5, -1), 4);
    assert_eq!(step_coordinate(0, -1), 0);
    assert_eq!(step_coordinate(40000, 1), 0);
    assert_eq!(step_coordinate(32767, -1), 32766);
}

#[test]
fn eat_food_doubles_the_tail() {
    let mut s = snake(vec![(1, 1), (1, 2)], (1, 0));
    s.eat_food();
    assert_eq!(s.pieces, vec![(1, 1), (1, 1), (1, 2)]);
    assert_eq!(s.len, 3);
}

#[test]
fn playground_new_is_blank() {
    let mut pg = Playground::new(4, 3);
    assert_eq!(pg.width(), 4);
    assert_eq!(pg.height(), 3);
    assert_eq!(pg.get(3, 2), ' ');
    pg.set(3, 2, '#');
    assert_eq!(pg.get(3, 2), '#');
    assert_eq!(pg.get(2, 2), ' ');
}

#[test]
fn session_messages() {
    assert_eq!(SessionError::Lost.message(), "loose");
    assert_eq!(SessionError::Escaped.message(), "user pressed escape");
    assert_eq!(SessionError::Io("broken pipe".to_string()).message(), "broken pipe");
}

#[test]
fn commands_compare_by_value() {
    assert_eq!(CommandKeys::Directions(Direction::Up), CommandKeys::Directions(Direction::Up));
    assert_ne!(CommandKeys::Directions(Direction::Up), CommandKeys::Idle);
}
