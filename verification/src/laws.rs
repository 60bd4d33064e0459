use vstd::prelude::*;

use crate::client::user::{client_key_command, paced, FASTER_DURATION, SLOWER_DURATION};
use crate::game::snake::{
    follow, game_key_command, game_steered, tick_final_count, tick_final_len, toggled, SnakeGame,
    DEFAULT_DURATION,
};
use crate::model::{
    ClientSendData, CommandKeys, Direction, Key, Playground, PlaygroundChanges, SessionError,
    SnakeBody,
};
use crate::server::functions::{
    cells_to_clear, changed_cell, changes_fit, food_spot, is_obstacle, point, sat_sub, view_gap,
    view_offset,
};
use crate::server::host::{steered, turn_head, turn_removed};
use crate::text::{decimal_value, digit_char};

verus! {

/// The playground shows the snake: its head as `X` and every other piece as `O`.
pub open spec fn shows_snake(pg: &Playground, pieces: Seq<(u16, u16)>) -> bool {
    &&& pieces.len() > 0
    &&& forall|i: int|
        0 <= i < pieces.len() - 1 ==> pg.cell((#[trigger] pieces[i]).0 as int, pieces[i].1 as int)
            == 'O'
    &&& pg.cell(pieces.last().0 as int, pieces.last().1 as int) == 'X'
}

/// The board follows the snake: when the playground shows a snake and the changes of one
/// `move_forward` are applied to it by `update_playground`, the playground shows the moved
/// snake, provided the snake neither runs into its own body nor has its tail lying on
/// another of its pieces.
pub proof fn law_board_follows_snake(
    before: Playground,
    after: Playground,
    s: SnakeBody,
    ch: PlaygroundChanges,
)
    requires
        before.wf(),
        s.can_move(),
        s.len == s.pieces@.len(),
        forall|i: int| 0 <= i < s.pieces@.len() ==> before.holds_point(#[trigger] s.pieces@[i]),
        before.holds_point(s.next_head()),
        shows_snake(&before, s.pieces@),
        !s.pieces@.drop_first().contains(s.pieces@[0]),
        !s.pieces@.drop_first().contains(s.next_head()),
        ch.change_to_x@ == seq![s.next_head()],
        ch.change_to_o@ == seq![s.head()],
        ch.remove_char@ == seq![s.pieces@[0]],
        ch.add_food@.len() == 0,
        after.same_shape(&before),
        forall|x: int, y: int|
            before.holds(x, y) ==> after.cell(x, y) == changed_cell(before.cell(x, y), &ch, x, y),
    ensures
        shows_snake(&after, s.moved_pieces()),
{
    let old_pieces = s.pieces@;
    let n = old_pieces.len();
    let moved = s.moved_pieces();
    assert forall|i: int| 0 <= i < moved.len() - 1 implies after.cell(
        (#[trigger] moved[i]).0 as int,
        moved[i].1 as int,
    ) == 'O' by {
        let p = old_pieces[i + 1];
        assert(moved[i] == p);
        assert(before.holds_point(p));
        assert(point(p.0 as int, p.1 as int) == p);
        assert(old_pieces.drop_first()[i] == p);
        assert(p != old_pieces[0]);
        assert(p != s.next_head());
        assert(!ch.remove_char@.contains(p));
        assert(!ch.change_to_x@.contains(p));
        if p == s.head() {
            assert(ch.change_to_o@[0] == p);
        } else {
            assert(!ch.change_to_o@.contains(p));
            assert(before.cell(p.0 as int, p.1 as int) == 'O');
        }
    }
    let nh = s.next_head();
    assert(moved.last() == nh);
    assert(point(nh.0 as int, nh.1 as int) == nh);
    assert(ch.change_to_x@[0] == nh);
}


/// A turn's changes can always be put on the board: when every piece of a snake lies on
/// the playground and its new head does too, every cell that the changes of
/// `client_turn` name lies on the playground, as `update_playground` asks.
pub proof fn law_turn_changes_fit(
    pg: Playground,
    s: SnakeBody,
    data: ClientSendData,
    ch: PlaygroundChanges,
)
    requires
        pg.wf(),
        1 <= s.len <= s.pieces@.len(),
        forall|i: int| 0 <= i < s.pieces@.len() ==> pg.holds_point(#[trigger] s.pieces@[i]),
        pg.holds_point(turn_head(&s, data.command)),
        ch.change_to_x@ == seq![turn_head(&s, data.command)],
        ch.change_to_o@ == seq![s.head()],
        ch.remove_char@ == turn_removed(&s, &data),
        forall|i: int|
            0 <= i < ch.add_food@.len() ==> food_spot(
                &pg,
                (#[trigger] ch.add_food@[i]).0.0 as int,
                ch.add_food@[i].0.1 as int,
            ),
    ensures
        changes_fit(&pg, &ch),
{
    assert(pg.holds_point(s.pieces@[0]));
    assert(pg.holds_point(s.head()));
    let moved = s.pieces@.drop_first().push(turn_head(&s, data.command));
    if s.pieces@.len() > 1 {
        assert(moved[0] == s.pieces@[1]);
        assert(pg.holds_point(s.pieces@[1]));
    } else {
        assert(moved[0] == turn_head(&s, data.command));
    }
    assert forall|i: int| 0 <= i < ch.add_food@.len() implies pg.holds_point(
        #[trigger] ch.add_food@[i].0,
    ) by {
        assert(food_spot(&pg, ch.add_food@[i].0.0 as int, ch.add_food@[i].0.1 as int));
    }
}

/// The view keeps the head in sight: on a terminal at least five cells wide and no wider
/// than the playground, the view that `user_display_generator` moves to lies inside the
/// playground and holds the head.
pub proof fn law_view_keeps_head_in_sight(head: u16, cv: u16, ts: u16, pg: int)
    requires
        5 <= ts <= pg,
        head < pg,
    ensures
        0 <= view_offset(head, cv, ts, pg),
        view_offset(head, cv, ts, pg) <= head < view_offset(head, cv, ts, pg) + ts,
        view_offset(head, cv, ts, pg) + ts <= pg,
{
    assert(view_gap(ts) >= 1);
}

/// The head keeps its margin: on a terminal at least five cells wide, a head at least a
/// fifth of the terminal away from the playground's near edge ends up at least that far
/// from both edges of the view, unless the view lies flush against the playground's far
/// edge.
pub proof fn law_view_keeps_margin(head: u16, cv: u16, ts: u16, pg: int)
    requires
        5 <= ts <= pg,
        head >= view_gap(ts),
    ensures
        view_offset(head, cv, ts, pg) + ts == pg || {
            &&& head - view_offset(head, cv, ts, pg) >= view_gap(ts)
            &&& view_offset(head, cv, ts, pg) + ts - head >= view_gap(ts)
        },
{
}

/// A finished snake leaves no trace: when the changes that `loose` makes are applied by
/// `update_playground`, every cell of the snake is blank afterwards, except the head of a
/// snake that crashed, which keeps what it ran into, provided no food of the changes
/// lands on the snake.
pub proof fn law_finished_snake_is_cleared(
    before: Playground,
    after: Playground,
    pieces: Seq<(u16, u16)>,
    listed: Seq<(u16, u16)>,
    err: SessionError,
    ch: PlaygroundChanges,
)
    requires
        before.wf(),
        ch.remove_char@ == cells_to_clear(listed, pieces, &err),
        ch.change_to_o@.len() == 0,
        ch.change_to_x@.len() == 0,
        forall|i: int| 0 <= i < ch.add_food@.len() ==> !pieces.contains(#[trigger] ch.add_food@[i].0),
        changes_fit(&before, &ch),
        after.same_shape(&before),
        forall|x: int, y: int|
            before.holds(x, y) ==> after.cell(x, y) == changed_cell(before.cell(x, y), &ch, x, y),
    ensures
        forall|i: int|
            0 <= i < pieces.len() && (i < pieces.len() - 1 || !(err is Lost)) ==> after.cell(
                (#[trigger] pieces[i]).0 as int,
                pieces[i].1 as int,
            ) == ' ',
{
    assert forall|i: int|
        0 <= i < pieces.len() && (i < pieces.len() - 1 || !(err is Lost)) implies after.cell(
        (#[trigger] pieces[i]).0 as int,
        pieces[i].1 as int,
    ) == ' ' by {
        let p = pieces[i];
        let all = listed + pieces;
        assert(all[listed.len() + i] == p);
        assert(ch.remove_char@[listed.len() + i] == p);
        assert(ch.remove_char@.contains(p));
        assert(point(p.0 as int, p.1 as int) == p);
        assert(before.holds_point(p)) by {
            assert(ch.remove_char@.contains(p));
            let k = choose|k: int| 0 <= k < ch.remove_char@.len() && ch.remove_char@[k] == p;
            assert(before.holds_point(ch.remove_char@[k]));
        }
        lemma_no_food_at(ch.add_food@, pieces, p, ' ', i);
        assert(!ch.change_to_o@.contains(p));
        assert(!ch.change_to_x@.contains(p));
        assert(after.cell(p.0 as int, p.1 as int) == changed_cell(
            before.cell(p.0 as int, p.1 as int),
            &ch,
            p.0 as int,
            p.1 as int,
        ));
    }
}

proof fn lemma_no_food_at(
    foods: Seq<((u16, u16), char)>,
    pieces: Seq<(u16, u16)>,
    p: (u16, u16),
    prev: char,
    i: int,
)
    requires
        0 <= i < pieces.len(),
        pieces[i] == p,
        forall|k: int| 0 <= k < foods.len() ==> !pieces.contains(#[trigger] foods[k].0),
    ensures
        crate::server::functions::fed(prev, foods, p.0 as int, p.1 as int) == prev,
    decreases foods.len(),
{
    assert(point(p.0 as int, p.1 as int) == p);
    if foods.len() > 0 {
        assert(!pieces.contains(foods[foods.len() - 1].0));
        assert(pieces.contains(p));
        lemma_no_food_at(foods.drop_last(), pieces, p, prev, i);
        assert forall|k: int| 0 <= k < foods.drop_last().len() implies !pieces.contains(
            #[trigger] foods.drop_last()[k].0,
        ) by {
            assert(foods.drop_last()[k] == foods[k]);
        }
    }
}

/// Resizing the terminal never breaks the display: whatever the terminal's size, the head
/// and the earlier view, the view that `user_display_generator` moves to lies on the
/// playground, and a terminal larger than the playground shows it from its first cell.
pub proof fn law_view_stays_on_playground(head: u16, cv: u16, ts: u16, pg: int)
    requires
        1 <= pg <= u16::MAX,
    ensures
        0 <= view_offset(head, cv, ts, pg),
        view_offset(head, cv, ts, pg) + (if ts > pg { pg } else { ts as int }) <= pg,
        ts >= pg ==> view_offset(head, cv, ts, pg) == 0,
{
}

/// One of the four headings.
pub open spec fn is_heading(a: (i16, i16)) -> bool {
    a == (0i16, -1i16) || a == (0i16, 1i16) || a == (-1i16, 0i16) || a == (1i16, 0i16)
}

/// A snake never turns back onto itself: from any of the four headings a command leads to
/// one of the four headings, never to the opposite one.
pub proof fn law_heading_never_reverses(adder: (i16, i16), cmd: CommandKeys)
    requires
        is_heading(adder),
    ensures
        is_heading(steered(adder, cmd)),
        steered(adder, cmd).0 != -adder.0 || steered(adder, cmd).1 != -adder.1,
{
}

/// The length counts the pieces: a snake whose length is its number of pieces keeps it so
/// through a move (same number of pieces) and through eating (one piece more).
pub proof fn law_length_counts_pieces(s: SnakeBody)
    requires
        s.len == s.pieces@.len(),
    ensures
        s.can_move() ==> s.moved_pieces().len() == s.len,
        s.pieces@.len() > 0 ==> s.fed_pieces().len() == s.len + 1,
{
}

/// Pressing the speed key twice gives back the speed one started from, on a client and
/// in the single-player game.
pub proof fn law_speed_toggle_round_trip(duration: u64, loose_weight: bool)
    ensures
        (duration == FASTER_DURATION || duration == SLOWER_DURATION) ==> {
            let once = paced(duration, loose_weight, CommandKeys::ChangeSpeed);
            paced(once.0, once.1, CommandKeys::ChangeSpeed).0 == duration
        },
        (duration == crate::game::snake::FASTER_DURATION || duration == DEFAULT_DURATION) ==> {
            let once = toggled(duration, loose_weight, crate::game::model::CommandKeys::Faster);
            toggled(once.0, once.1, crate::game::model::CommandKeys::Faster).0 == duration
        },
{
}


/// Speed never eats the whole snake: a single-player snake whose length counts its pieces
/// and is at least two still has a length that counts its pieces, and is at least two,
/// after any turn, since it sheds only while three or longer.
pub proof fn law_snake_keeps_two_pieces(game: SnakeGame, cmd: crate::game::model::CommandKeys)
    requires
        game.snake.len >= 2,
        game.snake.len == game.snake.pieces@.len(),
    ensures
        tick_final_len(&game, cmd) >= 2,
        tick_final_len(&game, cmd) == tick_final_count(&game, cmd),
{
}

/// What ends the game: a head that runs into a wall `#`, a body piece `O` or a head `X`
/// crashes, and nothing else stops it.
pub proof fn law_what_ends_the_game(c: char)
    ensures
        is_obstacle(c) <==> (c == '#' || c == 'O' || c == 'X'),
{
}

/// A snake stands in the way of every head: on a playground that shows a snake, each of
/// its cells, body and head alike, is one that a head crashes into.
pub proof fn law_snake_cells_stop_a_head(pg: Playground, pieces: Seq<(u16, u16)>)
    requires
        shows_snake(&pg, pieces),
    ensures
        forall|i: int|
            0 <= i < pieces.len() ==> is_obstacle(
                pg.cell((#[trigger] pieces[i]).0 as int, pieces[i].1 as int),
            ),
{
    assert forall|i: int| 0 <= i < pieces.len() implies is_obstacle(
        pg.cell((#[trigger] pieces[i]).0 as int, pieces[i].1 as int),
    ) by {
        if i == pieces.len() - 1 {
            assert(pieces[i] == pieces.last());
        }
    }
}

/// The arrow key that names a direction.
pub open spec fn arrow_key(d: Direction) -> Key {
    match d {
        Direction::Up => Key::Up,
        Direction::Down => Key::Down,
        Direction::Left => Key::Left,
        Direction::Right => Key::Right,
    }
}

/// The letter key that stands for a direction: `w`, `s`, `a` or `d`.
pub open spec fn letter_key(d: Direction) -> char {
    match d {
        Direction::Up => 'w',
        Direction::Down => 's',
        Direction::Left => 'a',
        Direction::Right => 'd',
    }
}

/// The same letter in upper case.
pub open spec fn capital_key(d: Direction) -> char {
    match d {
        Direction::Up => 'W',
        Direction::Down => 'S',
        Direction::Left => 'A',
        Direction::Right => 'D',
    }
}

/// Every arrow key steers the way it names, and its letter key, in either case, steers the
/// same way: on a client and in the single-player game alike.
pub proof fn law_keys_steer_as_named(d: Direction)
    ensures
        client_key_command(arrow_key(d)) == Some(CommandKeys::Directions(d)),
        client_key_command(Key::Char(letter_key(d))) == Some(CommandKeys::Directions(d)),
        client_key_command(Key::Char(capital_key(d))) == Some(CommandKeys::Directions(d)),
        game_key_command(arrow_key(d)) == Some(crate::game::model::CommandKeys::Directions(d)),
        game_key_command(Key::Char(letter_key(d))) == Some(
            crate::game::model::CommandKeys::Directions(d),
        ),
        game_key_command(Key::Char(capital_key(d))) == Some(
            crate::game::model::CommandKeys::Directions(d),
        ),
{
}

/// A client and the single-player game read the keys alike: a key steers the same way in
/// both, escape ends both, space changes the speed in both, and a key that one ignores the
/// other ignores too.
pub proof fn law_client_and_game_read_keys_alike(k: Key)
    ensures
        client_key_command(k) is None <==> game_key_command(k) is None,
        forall|d: Direction|
            client_key_command(k) == Some(CommandKeys::Directions(d)) <==> game_key_command(k)
                == Some(crate::game::model::CommandKeys::Directions(d)),
        client_key_command(k) == Some(CommandKeys::End) <==> game_key_command(k) == Some(
            crate::game::model::CommandKeys::End,
        ),
        client_key_command(k) == Some(CommandKeys::ChangeSpeed) <==> game_key_command(k) == Some(
            crate::game::model::CommandKeys::Faster,
        ),
{
}

/// A point with its two coordinates exchanged.
pub open spec fn swapped(p: (u16, u16)) -> (u16, u16) {
    (p.1, p.0)
}

/// The single-player view follows the head alike on both axes: when the head is two cells
/// from the top of the view and not two from its left, or two from the bottom while no
/// other edge is that close, the view moves as it moves along the other axis for the
/// mirrored head, view and terminal.
pub proof fn law_view_follows_alike_on_both_axes(head: (u16, u16), cv: (u16, u16), ts: (u16, u16))
    ensures
        ({
            let m = follow(swapped(head), swapped(cv), swapped(ts));
            sat_sub(head.0 as int, cv.0 as int) != 2 && sat_sub(head.1 as int, cv.1 as int) == 2
                ==> follow(head, cv, ts) == (m.1, m.0)
        }),
        ({
            &&& sat_sub(head.0 as int, cv.0 as int) != 2
            &&& sat_sub(head.1 as int, cv.1 as int) != 2
            &&& sat_sub(ts.0 - 1 + cv.0, head.0 as int) != 2
            &&& sat_sub(ts.1 - 1 + cv.1, head.1 as int) == 2
        } ==> {
            let m = follow(swapped(head), swapped(cv), swapped(ts));
            follow(head, cv, ts) == (m.1, m.0)
        }),
{
}

/// The single-player view keeps up with a head going up: after a step up from at least
/// three rows below the top of the view, on a terminal at least seven rows high, the head
/// is again at least three rows below the top of the view, unless the view has reached
/// the playground's top row. A head two columns from the view's left edge is left out:
/// that edge is looked at first, and the view does not move up in that turn.
pub proof fn law_view_keeps_up_going_up(head: (u16, u16), cv: (u16, u16), ts: (u16, u16))
    requires
        head.1 + 1 >= cv.1 + 3,
        sat_sub(head.0 as int, cv.0 as int) != 2,
        ts.1 >= 7,
    ensures
        follow(head, cv, ts).1 == 0 || follow(head, cv, ts).1 + 3 <= head.1,
{
}

/// The single-player view keeps up with a head going left: after a step left from at
/// least three columns right of the view's left edge, on a terminal at least seven columns
/// wide, the head is again at least three columns right of that edge, unless the view has
/// reached the playground's first column.
pub proof fn law_view_keeps_up_going_left(head: (u16, u16), cv: (u16, u16), ts: (u16, u16))
    requires
        head.0 + 1 >= cv.0 + 3,
        ts.0 >= 7,
    ensures
        follow(head, cv, ts).0 == 0 || follow(head, cv, ts).0 + 3 <= head.0,
{
}

/// The single-player view keeps up with a head going right: after a step right from at
/// least three columns left of the view's right edge, on a terminal at least seven columns
/// wide, the head is again at least three columns left of that edge. A head two rows from
/// the view's top is left out: that edge is looked at first.
pub proof fn law_view_keeps_up_going_right(head: (u16, u16), cv: (u16, u16), ts: (u16, u16))
    requires
        cv.0 + ts.0 - 1 >= head.0 - 1 + 3,
        sat_sub(head.1 as int, cv.1 as int) != 2,
        ts.0 >= 7,
    ensures
        follow(head, cv, ts).0 + ts.0 - 1 >= head.0 + 3,
{
}

/// The single-player view keeps up with a head going down: after a step down from at
/// least three rows above the view's bottom edge, on a terminal at least seven rows high,
/// the head is again at least three rows above that edge. A head two columns from the
/// view's left or right edge is left out: those edges are looked at first.
pub proof fn law_view_keeps_up_going_down(head: (u16, u16), cv: (u16, u16), ts: (u16, u16))
    requires
        cv.1 + ts.1 - 1 >= head.1 - 1 + 3,
        sat_sub(head.0 as int, cv.0 as int) != 2,
        sat_sub(ts.0 - 1 + cv.0, head.0 as int) != 2,
        ts.1 >= 7,
    ensures
        follow(head, cv, ts).1 + ts.1 - 1 >= head.1 + 3,
{
}

/// The step a snake heading the named way takes each turn: up and left lower a
/// coordinate, down and right raise it; rows grow downwards.
pub open spec fn heading_of(d: Direction) -> (i16, i16) {
    match d {
        Direction::Up => (0i16, -1i16),
        Direction::Down => (0i16, 1i16),
        Direction::Left => (-1i16, 0i16),
        Direction::Right => (1i16, 0i16),
    }
}

/// A snake turns the way a command names: a turn across its way takes the named heading,
/// while straight ahead or straight back keeps the heading it has, and so does every
/// command that names no direction. Alike for a client's snake and in the single-player
/// game.
pub proof fn law_snake_turns_as_named(
    adder: (i16, i16),
    d: Direction,
    cmd: CommandKeys,
    game_cmd: crate::game::model::CommandKeys,
)
    requires
        is_heading(adder),
    ensures
        (adder.0 == 0) != (heading_of(d).0 == 0) ==> {
            &&& steered(adder, CommandKeys::Directions(d)) == heading_of(d)
            &&& game_steered(adder, crate::game::model::CommandKeys::Directions(d)) == heading_of(d)
        },
        (adder.0 == 0) == (heading_of(d).0 == 0) ==> {
            &&& steered(adder, CommandKeys::Directions(d)) == adder
            &&& game_steered(adder, crate::game::model::CommandKeys::Directions(d)) == adder
        },
        !(cmd is Directions) ==> steered(adder, cmd) == adder,
        !(game_cmd is Directions) ==> game_steered(adder, game_cmd) == adder,
{
    let v = crate::model::direction_vector(d);
    crate::model::lemma_product_nonzero(v.0, adder.0 as int);
    crate::model::lemma_product_nonzero(v.1, adder.1 as int);
}

/// A food is worth what it shows: the digit written for a weight reads back as that
/// weight, and a character that reads as a digit is the one written for it.
pub proof fn law_food_digit_round_trip(d: u32, c: char)
    ensures
        d < 10 ==> decimal_value(digit_char(d)) == Some(d),
        decimal_value(c) matches Some(n) ==> n < 10 && digit_char(n) == c,
{
    if d < 10 {
        assert(digit_char(d) == ('0' as u32 + d) as char) by {
            if d == 0 {} else if d == 1 {} else if d == 2 {} else if d == 3 {} else if d == 4 {}
            else if d == 5 {} else if d == 6 {} else if d == 7 {} else if d == 8 {} else {}
        }
    }
    if decimal_value(c) is Some {
        let n = (c as u32 - '0' as u32) as u32;
        assert(n < 10);
        assert(digit_char(n) == c) by {
            if n == 0 {} else if n == 1 {} else if n == 2 {} else if n == 3 {} else if n == 4 {}
            else if n == 5 {} else if n == 6 {} else if n == 7 {} else if n == 8 {} else {}
        }
    }
}

} // verus!
