use vstd::prelude::*;

use crate::model::{
    direction_vector, step_coord, step_coord_ok, step_fits, ClientSendData, CommandKeys,
    Direction, GameStatus, HostSideData, Playground, PlaygroundChanges, SessionError, SnakeBody,
};
use crate::server::functions::{
    food_spot, grown, has_food_spot, is_host_food, is_obstacle,
    snake_status_check, styled_outcome, dark_green_code, red_code, user_display_generator, view_offset, view_text, sat_sub,
};
use crate::text::{decimal_value, to_decimal};

verus! {

/// Where a new snake's head may go: the corner when it and the cell right of it are
/// blank, otherwise any cell inside the walls whose right neighbour is blank too.
pub open spec fn spawn_spot(pg: &Playground, x: int, y: int) -> bool {
    if pg.cell(0, 0) == ' ' && pg.cell(1, 0) == ' ' {
        x == 0 && y == 0
    } else {
        pg.blank_in(1, pg.spec_width() - 1, 1, pg.spec_height() - 1, 2, x, y)
    }
}

pub open spec fn has_spawn_spot(pg: &Playground) -> bool {
    (pg.cell(0, 0) == ' ' && pg.cell(1, 0) == ' ') || pg.has_blank_in(
        1,
        pg.spec_width() - 1,
        1,
        pg.spec_height() - 1,
        2,
    )
}

/// A new snake two pieces long, heading left, its head on a random spawn spot and its
/// tail just right of it; `None` when the playground has no spawn spot.
pub fn place_snake(playground: &Playground) -> (r: Option<SnakeBody>)
    requires
        playground.wf(),
        2 <= playground.spec_width() <= 32768,
    ensures
        r is None <==> !has_spawn_spot(playground),
        r matches Some(s) ==> {
            let head = s.pieces@[1];
            &&& s.len == 2
            &&& s.movement_adder == (-1i16, 0i16)
            &&& s.pieces@.len() == 2
            &&& spawn_spot(playground, head.0 as int, head.1 as int)
            &&& s.pieces@[0] == ((head.0 + 1) as u16, head.1)
        },
{
    let spot = if playground.get(0, 0) == ' ' && playground.get(1, 0) == ' ' {
        Some((0usize, 0usize))
    } else {
        let w = playground.width();
        let h = playground.height();
        playground.random_blank_run(1, w - 1, 1, h - 1, 2)
    };
    match spot {
        None => None,
        Some(p) => {
            let head = (p.0 as u16, p.1 as u16);
            let tail = ((p.0 + 1) as u16, p.1 as u16);
            Some(SnakeBody { len: 2, pieces: vec![tail, head], movement_adder: (-1, 0) })
        },
    }
}

/// The step a snake takes after a command: a new heading is taken only when it turns off
/// the current axis.
pub open spec fn steered(adder: (i16, i16), cmd: CommandKeys) -> (i16, i16) {
    match cmd {
        CommandKeys::Directions(d) => {
            let new = direction_vector(d);
            if new.0 * adder.0 != 0 || new.1 * adder.1 != 0 {
                adder
            } else {
                (new.0 as i16, new.1 as i16)
            }
        },
        _ => adder,
    }
}

/// The head a turn moves to.
pub open spec fn turn_head(s: &SnakeBody, cmd: CommandKeys) -> (u16, u16) {
    let a = steered(s.movement_adder, cmd);
    (step_coord(s.head().0, a.0), step_coord(s.head().1, a.1))
}

/// The pieces after a turn's move, before anything is eaten; shedding weight drops the
/// oldest piece too.
pub open spec fn turn_pieces(s: &SnakeBody, data: &ClientSendData) -> Seq<(u16, u16)> {
    let moved = s.pieces@.drop_first().push(turn_head(s, data.command));
    if data.loose_weight {
        moved.drop_first()
    } else {
        moved
    }
}

pub open spec fn turn_len(s: &SnakeBody, data: &ClientSendData) -> int {
    if data.loose_weight {
        s.len - 1
    } else {
        s.len as int
    }
}

/// The cells a turn blanks: the old tail, and the shed piece when shedding weight.
pub open spec fn turn_removed(s: &SnakeBody, data: &ClientSendData) -> Seq<(u16, u16)> {
    if data.loose_weight {
        seq![s.pieces@[0], s.pieces@.drop_first().push(turn_head(s, data.command))[0]]
    } else {
        seq![s.pieces@[0]]
    }
}

/// A client's turn runs without overflow or out-of-range access.
pub open spec fn turn_ok(
    snake: &SnakeBody,
    conversion_vector: (u16, u16),
    playground: &Playground,
    data: &ClientSendData,
) -> bool {
    data.command != CommandKeys::End ==> {
        let a = steered(snake.movement_adder, data.command);
        let nh = turn_head(snake, data.command);
        &&& 1 <= snake.len <= snake.pieces@.len()
        &&& step_coord_ok(snake.head().0, a.0)
        &&& step_coord_ok(snake.head().1, a.1)
        &&& playground.holds_point(nh)
        &&& decimal_value(playground.cell(nh.0 as int, nh.1 as int)) matches Some(n) ==> {
            &&& turn_pieces(snake, data).len() > 0
            &&& turn_len(snake, data) + n <= usize::MAX
        }
    }
}

/// Whether a client's turn can run: `turn_ok`, computed.
pub fn can_take_turn(
    snake: &SnakeBody,
    conversion_vector: (u16, u16),
    playground: &Playground,
    data: &ClientSendData,
) -> (r: bool)
    requires
        playground.wf(),
    ensures
        r == turn_ok(snake, conversion_vector, playground, data),
{
    if let CommandKeys::End = data.command {
        return true;
    }
    let cur = snake.movement_adder;
    let a: (i16, i16) = match data.command {
        CommandKeys::Directions(d) => {
            let new: (i16, i16) = match d {
                Direction::Up => (0, -1),
                Direction::Down => (0, 1),
                Direction::Left => (-1, 0),
                Direction::Right => (1, 0),
            };
            proof {
                crate::model::lemma_product_nonzero(new.0 as int, cur.0 as int);
                crate::model::lemma_product_nonzero(new.1 as int, cur.1 as int);
            }
            if (new.0 != 0 && cur.0 != 0) || (new.1 != 0 && cur.1 != 0) {
                cur
            } else {
                new
            }
        },
        _ => cur,
    };
    assert(a == steered(snake.movement_adder, data.command));
    if snake.len < 1 || snake.len > snake.pieces.len() {
        return false;
    }
    let head = snake.pieces[snake.len - 1];
    if !step_fits(head.0, a.0) || !step_fits(head.1, a.1) {
        return false;
    }
    let nh = (
        crate::model::step_coordinate(head.0, a.0),
        crate::model::step_coordinate(head.1, a.1),
    );
    if nh.0 as usize >= playground.width() || nh.1 as usize >= playground.height() {
        return false;
    }
    match to_decimal(playground.get(nh.0 as usize, nh.1 as usize)) {
        None => true,
        Some(n) => {
            let remaining = if data.loose_weight {
                snake.pieces.len() - 1
            } else {
                snake.pieces.len()
            };
            let len = if data.loose_weight {
                snake.len - 1
            } else {
                snake.len
            };
            remaining > 0 && len as u128 + n as u128 <= usize::MAX as u128
        },
    }
}

/// One turn of a client's session on the host. A direction steers the snake; escape
/// ends the session (`Dead("YOU LEFT\n HOPE YOU ENJOY THIS")`, `Escaped`). Otherwise the
/// snake moves, sheds its oldest piece when asked to, the client's view is written around
/// the head it moved from, and what the new head ran into is looked at: an obstacle ends
/// the session with `Lost`, food is eaten.
pub fn client_turn(
    snake: &mut SnakeBody,
    host_side_data: &mut HostSideData,
    playground_changes: &mut PlaygroundChanges,
    conversion_vector: &mut (u16, u16),
    playground: &Playground,
    client_side_data: &ClientSendData,
) -> (r: Result<(), SessionError>)
    requires
        playground.wf(),
        turn_ok(old(snake), *old(conversion_vector), playground, client_side_data),
    ensures
        client_side_data.command == CommandKeys::End ==> {
            &&& r == Err::<(), SessionError>(SessionError::Escaped)
            &&& final(host_side_data).status matches GameStatus::Dead(m) && m@
                == "YOU LEFT\n HOPE YOU ENJOY THIS"@
            &&& final(host_side_data).display_data == old(host_side_data).display_data
            &&& final(host_side_data).len == old(host_side_data).len
            &&& final(snake).len == old(snake).len
            &&& final(snake).pieces@ == old(snake).pieces@
            &&& final(snake).movement_adder == old(snake).movement_adder
            &&& *final(conversion_vector) == *old(conversion_vector)
            &&& final(playground_changes).change_to_x@ == old(playground_changes).change_to_x@
            &&& final(playground_changes).change_to_o@ == old(playground_changes).change_to_o@
            &&& final(playground_changes).remove_char@ == old(playground_changes).remove_char@
            &&& final(playground_changes).add_food@ == old(playground_changes).add_food@
        },
        client_side_data.command != CommandKeys::End ==> {
            let s = old(snake);
            let cmd = client_side_data.command;
            let ts = client_side_data.terminal_size;
            let nh = turn_head(s, cmd);
            let c = playground.cell(nh.0 as int, nh.1 as int);
            let pieces = turn_pieces(s, client_side_data);
            let len = turn_len(s, client_side_data);
            &&& final(snake).movement_adder == steered(s.movement_adder, cmd)
            &&& final(conversion_vector).0 == view_offset(
                s.head().0,
                old(conversion_vector).0,
                ts.0,
                playground.spec_width(),
            )
            &&& final(conversion_vector).1 == view_offset(
                s.head().1,
                old(conversion_vector).1,
                ts.1,
                playground.spec_height(),
            )
            &&& exists|head_mark: Seq<char>, enemy_mark: Seq<char>|
                {
                    &&& styled_outcome(head_mark, 'X', dark_green_code())
                    &&& styled_outcome(enemy_mark, 'X', red_code())
                    &&& final(host_side_data).display_data@ == view_text(
                        playground,
                        s.head(),
                        *final(conversion_vector),
                        if ts.0 >= playground.spec_width() {
                            playground.spec_width()
                        } else {
                            ts.0 as int
                        },
                        sat_sub(ts.0 as int, playground.spec_width()),
                        if ts.1 >= playground.spec_height() {
                            playground.spec_height()
                        } else {
                            ts.1 as int
                        },
                        head_mark,
                        enemy_mark,
                    )
                }
            &&& final(host_side_data).len == len
            &&& final(playground_changes).change_to_x@ == seq![nh]
            &&& final(playground_changes).change_to_o@ == seq![s.head()]
            &&& final(playground_changes).remove_char@ == turn_removed(s, client_side_data)
            &&& if is_obstacle(c) {
                &&& r == Err::<(), SessionError>(SessionError::Lost)
                &&& final(host_side_data).status matches GameStatus::Dead(m) && m@
                    == "YOU LOST :("@
                &&& final(snake).len == len
                &&& final(snake).pieces@ == pieces
                &&& final(playground_changes).add_food@.len() == 0
            } else {
                &&& r is Ok
                &&& final(host_side_data).status is Alive
                &&& match decimal_value(c) {
                    Some(n) => {
                        &&& final(snake).len == len + n
                        &&& final(snake).pieces@ == grown(pieces, n as nat)
                        &&& final(playground_changes).add_food@.len() <= 1
                        &&& (final(playground_changes).add_food@.len() == 0 <==> !has_food_spot(
                            playground,
                        ))
                        &&& (final(playground_changes).add_food@.len() == 1 ==> {
                            let f = final(playground_changes).add_food@[0];
                            food_spot(playground, f.0.0 as int, f.0.1 as int) && is_host_food(
                                f.1,
                            )
                        })
                    },
                    None => {
                        &&& final(snake).len == len
                        &&& final(snake).pieces@ == pieces
                        &&& final(playground_changes).add_food@.len() == 0
                    },
                }
            }
        },
{
    if let CommandKeys::Directions(direction) = client_side_data.command {
        snake.change_direction(&direction);
    }
    if let CommandKeys::End = client_side_data.command {
        host_side_data.status = GameStatus::Dead(
            String::from_str("YOU LEFT\n HOPE YOU ENJOY THIS"),
        );
        return Err(SessionError::Escaped);
    }
    let ghost s0 = *old(snake);
    assert(snake.movement_adder == steered(s0.movement_adder, client_side_data.command));
    assert(snake.head() == s0.head());
    *playground_changes = snake.move_forward();
    if client_side_data.loose_weight {
        let shed = snake.pieces.remove(0);
        playground_changes.remove_char.push(shed);
        snake.len = snake.len - 1;
    }
    let previous_head = playground_changes.change_to_o[0];
    let display_data = user_display_generator(
        playground,
        &previous_head,
        conversion_vector,
        &client_side_data.terminal_size,
    );
    *host_side_data = HostSideData { display_data, status: GameStatus::Alive, len: snake.len };
    snake_status_check(host_side_data, playground, snake, playground_changes)
}

} // verus!
