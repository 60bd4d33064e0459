use vstd::prelude::*;

use crate::chance::choose_weight;
use crate::game::model::{
    can_extend, extend_ok, extend_times_ok, extended_times, CommandKeys, SnakeBody,
};
use crate::model::{
    direction_vector, lemma_product_nonzero, step_coord, step_coord_ok, step_coordinate, step_fits,
    Direction, Key, Playground,
};
use crate::server::functions::{is_obstacle, point, sat_sub};
use crate::text::{decimal_value, digit_char, from_digit, to_decimal};

verus! {

/// The food weights of the single-player game.
pub open spec fn game_food_weights() -> Seq<u32> {
    seq![1, 1, 1, 2, 2, 4, 4, 3, 3, 8, 9, 2, 9, 8]
}

fn food_weights() -> (v: Vec<u32>)
    ensures
        v@ == game_food_weights(),
{
    vec![1, 1, 1, 2, 2, 4, 4, 3, 3, 8, 9, 2, 9, 8]
}

/// A food of the single-player game: a weight written as a decimal digit.
pub open spec fn is_game_food(c: char) -> bool {
    exists|w: u32| game_food_weights().contains(w) && c == #[trigger] digit_char(w)
}

/// Every food of the single-player game is a decimal digit, so it can be eaten; a blank
/// cell holds no food.
pub proof fn lemma_game_food_is_decimal(c: char)
    ensures
        is_game_food(c) ==> decimal_value(c) is Some,
        !is_game_food(' '),
{
    if is_game_food(c) {
        let w = choose|w: u32| game_food_weights().contains(w) && c == #[trigger] digit_char(w);
        let q = choose|q: int| 0 <= q < 14 && game_food_weights()[q] == w;
    }
    if is_game_food(' ') {
        let w = choose|w: u32| game_food_weights().contains(w) && ' ' == #[trigger] digit_char(w);
        let q = choose|q: int| 0 <= q < 14 && game_food_weights()[q] == w;
    }
}

/// The single-player playground is 256 by 256 cells.
pub open spec fn is_arena(pg: &Playground) -> bool {
    pg.wf() && pg.spec_width() == 256 && pg.spec_height() == 256
}

/// Where a new food may go: the corner when it is blank, otherwise a blank cell off the
/// first row and column.
pub open spec fn game_food_spot(pg: &Playground, x: int, y: int) -> bool {
    if pg.cell(0, 0) == ' ' {
        x == 0 && y == 0
    } else {
        pg.blank_in(1, 256, 1, 256, 1, x, y)
    }
}

pub open spec fn has_game_food_spot(pg: &Playground) -> bool {
    pg.cell(0, 0) == ' ' || pg.has_blank_in(1, 256, 1, 256, 1)
}

/// Puts a random food, a decimal digit, on a blank cell: the corner when it is blank,
/// otherwise any blank cell off the first row and column may be drawn. With no such cell
/// nothing changes.
pub fn add_food(playground: &mut Playground)
    requires
        is_arena(old(playground)),
    ensures
        is_arena(final(playground)),
        !has_game_food_spot(old(playground)) ==> final(playground).cells@ == old(
            playground,
        ).cells@,
        has_game_food_spot(old(playground)) ==> exists|x: int, y: int|
            {
                &&& game_food_spot(old(playground), x, y)
                &&& is_game_food(final(playground).cell(x, y))
                &&& decimal_value(final(playground).cell(x, y)) is Some
                &&& forall|i: int, j: int|
                    old(playground).holds(i, j) && (i != x || j != y) ==> final(playground).cell(
                        i,
                        j,
                    ) == old(playground).cell(i, j)
            },
{
    let spot = if playground.get(0, 0) == ' ' {
        Some((0usize, 0usize))
    } else {
        playground.random_blank_run(1, 256, 1, 256, 1)
    };
    if let Some(p) = spot {
        let weights = food_weights();
        let weight = choose_weight(weights.as_slice());
        assert(weight < 10) by {
            let k = choose|k: int| 0 <= k < 14 && game_food_weights()[k] == weight;
        }
        let ghost before = *playground;
        playground.set(p.0, p.1, from_digit(weight));
        assert(game_food_spot(&before, p.0 as int, p.1 as int));
        assert(is_game_food(playground.cell(p.0 as int, p.1 as int)));
        proof {
            lemma_game_food_is_decimal(playground.cell(p.0 as int, p.1 as int));
        }
    }
}

/// What a cell shows after the snake is drawn anew: its head `X`, its other pieces `O`;
/// off the first row and column every other cell is blanked unless it holds a decimal
/// digit.
pub open spec fn redrawn(prev: char, pieces: Seq<(u16, u16)>, x: int, y: int) -> char {
    if pieces.len() > 0 && pieces.last() == point(x, y) {
        'X'
    } else if pieces.contains(point(x, y)) {
        'O'
    } else if x >= 1 && y >= 1 && decimal_value(prev) is None {
        ' '
    } else {
        prev
    }
}

pub open spec fn pieces_on_arena(pieces: Seq<(u16, u16)>) -> bool {
    forall|i: int| 0 <= i < pieces.len() ==> (#[trigger] pieces[i]).0 < 256 && pieces[i].1 < 256
}

/// Clears the arena but for foods and the first row and column, then draws the snake.
pub fn update_playground(playground: &mut Playground, pieces_pos: &Vec<(u16, u16)>)
    requires
        is_arena(old(playground)),
        pieces_on_arena(pieces_pos@),
    ensures
        is_arena(final(playground)),
        forall|x: int, y: int|
            old(playground).holds(x, y) ==> final(playground).cell(x, y) == redrawn(
                old(playground).cell(x, y),
                pieces_pos@,
                x,
                y,
            ),
{
    let ghost g0 = *playground;
    let mut x: usize = 1;
    while x < 256
        invariant
            1 <= x <= 256,
            is_arena(playground),
            is_arena(&g0),
            forall|i: int, j: int|
                g0.holds(i, j) ==> playground.cell(i, j) == if 1 <= i < x && j >= 1
                    && decimal_value(g0.cell(i, j)) is None {
                    ' '
                } else {
                    g0.cell(i, j)
                },
        decreases 256 - x,
    {
        let mut y: usize = 1;
        while y < 256
            invariant
                1 <= x < 256,
                1 <= y <= 256,
                is_arena(playground),
                is_arena(&g0),
                forall|i: int, j: int|
                    g0.holds(i, j) ==> playground.cell(i, j) == if (1 <= i < x && j >= 1) || (i
                        == x && 1 <= j < y) {
                        if decimal_value(g0.cell(i, j)) is None {
                            ' '
                        } else {
                            g0.cell(i, j)
                        }
                    } else {
                        g0.cell(i, j)
                    },
            decreases 256 - y,
        {
            if to_decimal(playground.get(x, y)).is_none() {
                playground.set(x, y, ' ');
            }
            y = y + 1;
        }
        x = x + 1;
    }
    let ghost g1 = *playground;
    let len = pieces_pos.len();
    let mut k: usize = 0;
    while k < len
        invariant
            len == pieces_pos@.len(),
            k <= len,
            is_arena(playground),
            is_arena(&g1),
            pieces_on_arena(pieces_pos@),
            forall|i: int, j: int|
                g1.holds(i, j) ==> playground.cell(i, j) == if pieces_pos@.take(k as int).contains(
                    point(i, j),
                ) {
                    if k == len && pieces_pos@.last() == point(i, j) {
                        'X'
                    } else {
                        'O'
                    }
                } else {
                    g1.cell(i, j)
                },
        decreases len - k,
    {
        let p = pieces_pos[k];
        assert(p.0 < 256 && p.1 < 256);
        if k == len - 1 {
            playground.set(p.0 as usize, p.1 as usize, 'X');
        } else {
            playground.set(p.0 as usize, p.1 as usize, 'O');
        }
        assert forall|i: int, j: int| g1.holds(i, j) implies playground.cell(i, j) == if pieces_pos@.take(k + 1).contains(point(i, j)) {
            if k + 1 == len && pieces_pos@.last() == point(i, j) {
                'X'
            } else {
                'O'
            }
        } else {
            g1.cell(i, j)
        } by {
            assert(pieces_pos@.take(k + 1) == pieces_pos@.take(k as int).push(p));
            let q = point(i, j);
            assert((q == p) == (i == p.0 && j == p.1));
            if q == p {
                assert(pieces_pos@.take(k + 1)[k as int] == q);
            } else if pieces_pos@.take(k + 1).contains(q) {
                let m = choose|m: int|
                    0 <= m < pieces_pos@.take(k + 1).len() && #[trigger] pieces_pos@.take(
                        k + 1,
                    )[m] == q;
                assert(pieces_pos@.take(k as int)[m] == q);
            }
        }
        k = k + 1;
    }
    assert(pieces_pos@.take(len as int) == pieces_pos@);
    assert forall|x: int, y: int| g0.holds(x, y) implies playground.cell(x, y) == redrawn(
        g0.cell(x, y),
        pieces_pos@,
        x,
        y,
    ) by {
        assert(g1.holds(x, y));
        assert((point(x, y).0 as int, point(x, y).1 as int) == (x, y));
    }
}


/// How a look at the new head's cell ended.
#[derive(Clone, Copy, Debug, PartialEq, Eq, Structural)]
pub enum StatusOutcome {
    /// The head ran into an obstacle; the score is the snake's length.
    Crashed { score: usize },
    /// The game goes on.
    Fine,
}

/// Growing `n` times keeps each single step in range.
pub proof fn lemma_extend_steps(pieces: Seq<(u16, u16)>, n: nat, i: nat)
    requires
        extend_times_ok(pieces, n),
        i < n,
    ensures
        extend_ok(extended_times(pieces, i)),
        extend_times_ok(pieces, i),
    decreases n,
{
    if i + 1 < n {
        lemma_extend_steps(pieces, (n - 1) as nat, i);
    }
}

/// Looks at the cell under the head: an obstacle ends the game with the snake's length as
/// the score; a decimal digit `n` makes the snake grow `n` times; anything else changes
/// nothing.
pub fn snake_status_check(head: &(u16, u16), playground: &Playground, snake: &mut SnakeBody) -> (r:
    StatusOutcome)
    requires
        is_arena(playground),
        head.0 < 256 && head.1 < 256,
        decimal_value(playground.cell(head.0 as int, head.1 as int)) matches Some(n) ==> {
            &&& extend_times_ok(old(snake).pieces@, n as nat)
            &&& old(snake).len + n <= usize::MAX
        },
    ensures
        final(snake).movement_adder == old(snake).movement_adder,
        ({
            let c = playground.cell(head.0 as int, head.1 as int);
            if c == '#' || c == 'O' || c == 'X' {
                &&& r == StatusOutcome::Crashed { score: old(snake).len }
                &&& final(snake).len == old(snake).len
                &&& final(snake).pieces@ == old(snake).pieces@
            } else {
                &&& r == StatusOutcome::Fine
                &&& match decimal_value(c) {
                    Some(n) => {
                        &&& final(snake).len == old(snake).len + n
                        &&& final(snake).pieces@ == extended_times(old(snake).pieces@, n as nat)
                    },
                    None => {
                        &&& final(snake).len == old(snake).len
                        &&& final(snake).pieces@ == old(snake).pieces@
                    },
                }
            }
        }),
{
    let character = playground.get(head.0 as usize, head.1 as usize);
    if character == '#' || character == 'O' || character == 'X' {
        return StatusOutcome::Crashed { score: snake.len };
    }
    if let Some(n) = to_decimal(character) {
        let ghost start = snake.pieces@;
        let ghost len0 = snake.len;
        let mut i: u32 = 0;
        while i < n
            invariant
                i <= n,
                extend_times_ok(start, n as nat),
                len0 + n <= usize::MAX,
                snake.len == len0 + i,
                snake.pieces@ == extended_times(start, i as nat),
                snake.movement_adder == old(snake).movement_adder,
            decreases n - i,
        {
            proof {
                lemma_extend_steps(start, n as nat, i as nat);
            }
            snake.eat_food();
            i = i + 1;
        }
    }
    StatusOutcome::Fine
}

/// The view offset after the head moved: the view shifts by one cell when the head comes
/// within two cells of an edge, checking the left, top, right and bottom edges in turn.
pub open spec fn follow(head: (u16, u16), cv: (u16, u16), ts: (u16, u16)) -> (int, int) {
    if sat_sub(head.0 as int, cv.0 as int) == 2 {
        (sat_sub(cv.0 as int, 1), cv.1 as int)
    } else if sat_sub(head.1 as int, cv.1 as int) == 2 {
        (cv.0 as int, sat_sub(cv.1 as int, 1))
    } else if sat_sub(ts.0 - 1 + cv.0, head.0 as int) == 2 {
        (cv.0 + 1, cv.1 as int)
    } else if sat_sub(ts.1 - 1 + cv.1, head.1 as int) == 2 {
        (cv.0 as int, cv.1 + 1)
    } else {
        (cv.0 as int, cv.1 as int)
    }
}

/// The `u16` arithmetic of `follow` stays in range.
pub open spec fn follow_ok(head: (u16, u16), cv: (u16, u16), ts: (u16, u16)) -> bool {
    sat_sub(head.0 as int, cv.0 as int) != 2 && sat_sub(head.1 as int, cv.1 as int) != 2 ==> {
        &&& 1 <= ts.0
        &&& ts.0 - 1 + cv.0 <= u16::MAX
        &&& (sat_sub(ts.0 - 1 + cv.0, head.0 as int) == 2 ==> cv.0 + 1 <= u16::MAX)
        &&& (sat_sub(ts.0 - 1 + cv.0, head.0 as int) != 2 ==> {
            &&& 1 <= ts.1
            &&& ts.1 - 1 + cv.1 <= u16::MAX
            &&& (sat_sub(ts.1 - 1 + cv.1, head.1 as int) == 2 ==> cv.1 + 1 <= u16::MAX)
        })
    }
}

/// Whether `follow` stays in range: `follow_ok`, computed.
pub fn follow_fits(head: (u16, u16), cv: (u16, u16), ts: (u16, u16)) -> (r: bool)
    ensures
        r == follow_ok(head, cv, ts),
{
    if head.0.saturating_sub(cv.0) == 2 || head.1.saturating_sub(cv.1) == 2 {
        return true;
    }
    if ts.0 < 1 || ts.0 as u32 - 1 + cv.0 as u32 > 65535 {
        return false;
    }
    if (ts.0 - 1 + cv.0).saturating_sub(head.0) == 2 {
        return cv.0 < 65535;
    }
    if ts.1 < 1 || ts.1 as u32 - 1 + cv.1 as u32 > 65535 {
        return false;
    }
    if (ts.1 - 1 + cv.1).saturating_sub(head.1) == 2 {
        return cv.1 < 65535;
    }
    true
}

/// Draws the snake anew on the arena and moves the view after its head.
pub fn prepare_display(
    playground: &mut Playground,
    pieces_pos: &Vec<(u16, u16)>,
    conversion_vector: &mut (u16, u16),
    terminal_size: (u16, u16),
)
    requires
        is_arena(old(playground)),
        pieces_on_arena(pieces_pos@),
        pieces_pos@.len() > 0,
        follow_ok(pieces_pos@.last(), *old(conversion_vector), terminal_size),
    ensures
        is_arena(final(playground)),
        forall|x: int, y: int|
            old(playground).holds(x, y) ==> final(playground).cell(x, y) == redrawn(
                old(playground).cell(x, y),
                pieces_pos@,
                x,
                y,
            ),
        final(conversion_vector).0 == follow(
            pieces_pos@.last(),
            *old(conversion_vector),
            terminal_size,
        ).0,
        final(conversion_vector).1 == follow(
            pieces_pos@.last(),
            *old(conversion_vector),
            terminal_size,
        ).1,
{
    update_playground(playground, pieces_pos);
    let snake_head = pieces_pos[pieces_pos.len() - 1];
    let cv = *conversion_vector;
    if snake_head.0.saturating_sub(cv.0) == 2 {
        *conversion_vector = (cv.0.saturating_sub(1), cv.1);
    } else if snake_head.1.saturating_sub(cv.1) == 2 {
        *conversion_vector = (cv.0, cv.1.saturating_sub(1));
    } else if (terminal_size.0 - 1 + cv.0).saturating_sub(snake_head.0) == 2 {
        *conversion_vector = (cv.0 + 1, cv.1);
    } else if (terminal_size.1 - 1 + cv.1).saturating_sub(snake_head.1) == 2 {
        *conversion_vector = (cv.0, cv.1 + 1);
    }
}

/// The command a key stands for in the single-player game; `None` for keys it ignores.
pub open spec fn game_key_command(key: Key) -> Option<CommandKeys> {
    match key {
        Key::Up | Key::Char('w') | Key::Char('W') => Some(CommandKeys::Directions(Direction::Up)),
        Key::Down | Key::Char('s') | Key::Char('S') => Some(
            CommandKeys::Directions(Direction::Down),
        ),
        Key::Right | Key::Char('d') | Key::Char('D') => Some(
            CommandKeys::Directions(Direction::Right),
        ),
        Key::Left | Key::Char('a') | Key::Char('A') => Some(
            CommandKeys::Directions(Direction::Left),
        ),
        Key::Char(' ') => Some(CommandKeys::Faster),
        Key::Esc => Some(CommandKeys::End),
        _ => None,
    }
}

/// Turns a pressed key into a command: arrows or `w`, `s`, `d`, `a` (either case) steer,
/// space toggles the speed, escape ends the game; other keys give nothing.
pub fn key_to_command(key: Key) -> (r: Option<CommandKeys>)
    ensures
        r == game_key_command(key),
{
    match key {
        Key::Up | Key::Char('w') | Key::Char('W') => Some(CommandKeys::Directions(Direction::Up)),
        Key::Down | Key::Char('s') | Key::Char('S') => Some(
            CommandKeys::Directions(Direction::Down),
        ),
        Key::Right | Key::Char('d') | Key::Char('D') => Some(
            CommandKeys::Directions(Direction::Right),
        ),
        Key::Left | Key::Char('a') | Key::Char('A') => Some(
            CommandKeys::Directions(Direction::Left),
        ),
        Key::Char(' ') => Some(CommandKeys::Faster),
        Key::Esc => Some(CommandKeys::End),
        _ => None,
    }
}


/// The pause between turns at normal speed, in milliseconds.
pub const DEFAULT_DURATION: u64 = 100;

/// The pause between turns at high speed, in milliseconds.
pub const FASTER_DURATION: u64 = 50;

/// The state of a single-player game between turns.
pub struct SnakeGame {
    pub snake: SnakeBody,
    pub playground: Playground,
    pub conversion_vector: (u16, u16),
    pub duration: u64,
    pub snake_loose_weight: bool,
}

/// How a turn of the single-player game ended.
#[derive(Clone, Copy, Debug, PartialEq, Eq, Structural)]
pub enum TickOutcome {
    /// The snake crashed; the game is over with this score.
    Crashed { score: usize },
    /// The player pressed escape.
    Quit,
    /// Draw the arena and wait `duration` milliseconds.
    Continue,
}

/// The step after a command: a new heading is taken only when it turns off the current axis.
pub open spec fn game_steered(adder: (i16, i16), cmd: CommandKeys) -> (i16, i16) {
    match cmd {
        CommandKeys::Directions(d) => {
            let new = direction_vector(d);
            if new.0 * adder.0 != 0 || new.1 * adder.1 != 0 {
                adder
            } else {
                (new.0 as i16, new.1 as i16)
            }
        },
        _ => adder,
    }
}

pub open spec fn tick_head(s: &SnakeBody, cmd: CommandKeys) -> (u16, u16) {
    let a = game_steered(s.movement_adder, cmd);
    (step_coord(s.head().0, a.0), step_coord(s.head().1, a.1))
}

pub open spec fn tick_moved(s: &SnakeBody, cmd: CommandKeys) -> Seq<(u16, u16)> {
    s.pieces@.drop_first().push(tick_head(s, cmd))
}

/// The speed and shedding flag after a speed toggle.
pub open spec fn toggled(duration: u64, lw: bool, cmd: CommandKeys) -> (u64, bool) {
    if cmd == CommandKeys::Faster {
        if duration == FASTER_DURATION {
            (DEFAULT_DURATION, false)
        } else {
            (FASTER_DURATION, true)
        }
    } else {
        (duration, lw)
    }
}

/// The snake's length after a turn.
pub open spec fn tick_final_len(game: &SnakeGame, cmd: CommandKeys) -> int {
    let s = &game.snake;
    let nh = tick_head(s, cmd);
    let c = game.playground.cell(nh.0 as int, nh.1 as int);
    let n: int = match decimal_value(c) {
        Some(n) => n as int,
        None => 0,
    };
    let len = s.len + n;
    let (d, lw) = toggled(game.duration, game.snake_loose_weight, cmd);
    if is_obstacle(c) {
        s.len as int
    } else if cmd == CommandKeys::End {
        len
    } else if d == FASTER_DURATION && lw && len >= 3 {
        len - 1
    } else {
        len
    }
}

/// The snake's number of pieces after a turn.
pub open spec fn tick_final_count(game: &SnakeGame, cmd: CommandKeys) -> int {
    let s = &game.snake;
    let nh = tick_head(s, cmd);
    let c = game.playground.cell(nh.0 as int, nh.1 as int);
    let n: int = match decimal_value(c) {
        Some(n) => n as int,
        None => 0,
    };
    let len = s.len + n;
    let (d, lw) = toggled(game.duration, game.snake_loose_weight, cmd);
    if is_obstacle(c) {
        s.pieces@.len() as int
    } else if cmd == CommandKeys::End {
        s.pieces@.len() + n
    } else if d == FASTER_DURATION && lw && len >= 3 {
        s.pieces@.len() + n - 1
    } else {
        s.pieces@.len() + n
    }
}

/// Growing `n` times adds `n` pieces.
pub proof fn lemma_extended_times_len(pieces: Seq<(u16, u16)>, n: nat)
    ensures
        extended_times(pieces, n).len() == pieces.len() + n,
    decreases n,
{
    if n > 0 {
        lemma_extended_times_len(pieces, (n - 1) as nat);
    }
}

/// A turn of the single-player game runs without overflow or out-of-range access.
pub open spec fn tick_ok(game: &SnakeGame, cmd: CommandKeys, terminal_size: (u16, u16)) -> bool {
    let s = &game.snake;
    let a = game_steered(s.movement_adder, cmd);
    let nh = tick_head(s, cmd);
    &&& 1 <= s.len <= s.pieces@.len()
    &&& step_coord_ok(s.head().0, a.0)
    &&& step_coord_ok(s.head().1, a.1)
    &&& nh.0 < 256 && nh.1 < 256
    &&& decimal_value(game.playground.cell(nh.0 as int, nh.1 as int)) matches Some(n) ==> {
        &&& extend_times_ok(tick_moved(s, cmd), n as nat)
        &&& s.len + n <= usize::MAX
    }
    &&& !is_obstacle(game.playground.cell(nh.0 as int, nh.1 as int)) && cmd != CommandKeys::End
        ==> {
        &&& pieces_on_arena(tick_moved(s, cmd))
        &&& follow_ok(nh, game.conversion_vector, terminal_size)
    }
}

/// One turn of the single-player game: steer, move, look under the new head (an obstacle
/// ends the game), stop on escape, redraw the arena and move the view, toggle the speed
/// on space; at high speed the snake sheds its oldest piece every other turn, and falls
/// back to normal speed once it is shorter than three.
pub fn tick(game: &mut SnakeGame, command: CommandKeys, terminal_size: (u16, u16)) -> (r:
    TickOutcome)
    requires
        is_arena(&old(game).playground),
        tick_ok(old(game), command, terminal_size),
    ensures
        is_arena(&final(game).playground),
        final(game).snake.movement_adder == game_steered(old(game).snake.movement_adder, command),
        final(game).snake.len == tick_final_len(old(game), command),
        final(game).snake.pieces@.len() == tick_final_count(old(game), command),
        ({
            let g = old(game);
            let s = &g.snake;
            let nh = tick_head(s, command);
            let moved = tick_moved(s, command);
            let c = g.playground.cell(nh.0 as int, nh.1 as int);
            let n = match decimal_value(c) {
                Some(n) => n as nat,
                None => 0,
            };
            let fed = extended_times(moved, n);
            let len = s.len + n;
            if is_obstacle(c) {
                &&& r == TickOutcome::Crashed { score: s.len }
                &&& final(game).snake.len == s.len
                &&& final(game).snake.pieces@ == moved
                &&& final(game).playground == g.playground
                &&& final(game).conversion_vector == g.conversion_vector
                &&& final(game).duration == g.duration
                &&& final(game).snake_loose_weight == g.snake_loose_weight
            } else if command == CommandKeys::End {
                &&& r == TickOutcome::Quit
                &&& final(game).snake.len == len
                &&& final(game).snake.pieces@ == fed
                &&& final(game).playground == g.playground
                &&& final(game).conversion_vector == g.conversion_vector
                &&& final(game).duration == g.duration
                &&& final(game).snake_loose_weight == g.snake_loose_weight
            } else {
                let (d, lw) = toggled(g.duration, g.snake_loose_weight, command);
                &&& r == TickOutcome::Continue
                &&& forall|x: int, y: int|
                    g.playground.holds(x, y) ==> final(game).playground.cell(x, y) == redrawn(
                        g.playground.cell(x, y),
                        moved,
                        x,
                        y,
                    )
                &&& final(game).conversion_vector.0 == follow(nh, g.conversion_vector, terminal_size).0
                &&& final(game).conversion_vector.1 == follow(nh, g.conversion_vector, terminal_size).1
                &&& if d == FASTER_DURATION {
                    &&& final(game).snake_loose_weight == !lw
                    &&& if lw && len < 3 {
                        &&& final(game).duration == DEFAULT_DURATION
                        &&& final(game).snake.len == len
                        &&& final(game).snake.pieces@ == fed
                    } else if lw {
                        &&& final(game).duration == d
                        &&& final(game).snake.len == len - 1
                        &&& final(game).snake.pieces@ == fed.drop_first()
                    } else {
                        &&& final(game).duration == d
                        &&& final(game).snake.len == len
                        &&& final(game).snake.pieces@ == fed
                    }
                } else {
                    &&& final(game).duration == d
                    &&& final(game).snake_loose_weight == lw
                    &&& final(game).snake.len == len
                    &&& final(game).snake.pieces@ == fed
                }
            }
        }),
{
    if let CommandKeys::Directions(direction) = command {
        game.snake.change_direction(&direction);
    }
    let (pieces_pos, _) = game.snake.move_forward();
    let head = pieces_pos[pieces_pos.len() - 1];
    let status = snake_status_check(&head, &game.playground, &mut game.snake);
    proof {
        let n: nat = match decimal_value(game.playground.cell(head.0 as int, head.1 as int)) {
            Some(n) => n as nat,
            None => 0,
        };
        lemma_extended_times_len(pieces_pos@, n);
    }
    if let StatusOutcome::Crashed { score } = status {
        return TickOutcome::Crashed { score };
    }
    if let CommandKeys::End = command {
        return TickOutcome::Quit;
    }
    prepare_display(&mut game.playground, &pieces_pos, &mut game.conversion_vector, terminal_size);
    if let CommandKeys::Faster = command {
        if game.duration == FASTER_DURATION {
            game.duration = DEFAULT_DURATION;
            game.snake_loose_weight = false;
        } else {
            game.duration = FASTER_DURATION;
            game.snake_loose_weight = true;
        }
    }
    if game.duration == FASTER_DURATION {
        if game.snake_loose_weight {
            if game.snake.len < 3 {
                game.duration = DEFAULT_DURATION;
            } else {
                game.snake.pieces.remove(0);
                game.snake.len = game.snake.len - 1;
            }
        }
        game.snake_loose_weight = !game.snake_loose_weight;
    }
    TickOutcome::Continue
}


/// Whether every piece lies on the arena: `pieces_on_arena`, computed.
fn all_on_arena(pieces: &Vec<(u16, u16)>) -> (r: bool)
    ensures
        r == pieces_on_arena(pieces@),
{
    let mut i: usize = 0;
    while i < pieces.len()
        invariant
            i <= pieces@.len(),
            forall|k: int| 0 <= k < i ==> (#[trigger] pieces@[k]).0 < 256 && pieces@[k].1 < 256,
        decreases pieces@.len() - i,
    {
        if pieces[i].0 >= 256 || pieces[i].1 >= 256 {
            assert(!((pieces@[i as int]).0 < 256 && pieces@[i as int].1 < 256));
            return false;
        }
        i = i + 1;
    }
    true
}

/// Whether the pieces can grow `n` times: `extend_times_ok`, computed.
fn can_extend_times(pieces: &Vec<(u16, u16)>, n: u32) -> (r: bool)
    ensures
        r == extend_times_ok(pieces@, n as nat),
{
    let mut t = SnakeBody { len: 0, pieces: crate::game::model::copy_points(pieces), movement_adder: (0, 0) };
    let mut i: u32 = 0;
    while i < n
        invariant
            i <= n,
            t.len == i,
            t.pieces@ == extended_times(pieces@, i as nat),
            extend_times_ok(pieces@, i as nat),
        decreases n - i,
    {
        if !can_extend(&t.pieces) {
            proof {
                if extend_times_ok(pieces@, n as nat) {
                    lemma_extend_steps(pieces@, n as nat, i as nat);
                }
            }
            return false;
        }
        t.eat_food();
        i = i + 1;
    }
    true
}

/// Whether a turn of the single-player game can run: `tick_ok`, computed.
pub fn can_tick(game: &SnakeGame, command: CommandKeys, terminal_size: (u16, u16)) -> (r: bool)
    requires
        is_arena(&game.playground),
    ensures
        r == tick_ok(game, command, terminal_size),
{
    let cur = game.snake.movement_adder;
    let a: (i16, i16) = match command {
        CommandKeys::Directions(d) => {
            let new: (i16, i16) = match d {
                Direction::Up => (0, -1),
                Direction::Down => (0, 1),
                Direction::Left => (-1, 0),
                Direction::Right => (1, 0),
            };
            proof {
                lemma_product_nonzero(new.0 as int, cur.0 as int);
                lemma_product_nonzero(new.1 as int, cur.1 as int);
            }
            if (new.0 != 0 && cur.0 != 0) || (new.1 != 0 && cur.1 != 0) {
                cur
            } else {
                new
            }
        },
        _ => cur,
    };
    assert(a == game_steered(game.snake.movement_adder, command));
    let s = &game.snake;
    if s.len < 1 || s.len > s.pieces.len() {
        return false;
    }
    let head = s.pieces[s.len - 1];
    if !step_fits(head.0, a.0) || !step_fits(head.1, a.1) {
        return false;
    }
    let nh = (step_coordinate(head.0, a.0), step_coordinate(head.1, a.1));
    assert(nh == tick_head(s, command));
    if nh.0 >= 256 || nh.1 >= 256 {
        return false;
    }
    let mut moved = crate::game::model::copy_points(&s.pieces);
    moved.remove(0);
    moved.push(nh);
    assert(moved@ == tick_moved(s, command));
    let c = game.playground.get(nh.0 as usize, nh.1 as usize);
    if let Some(n) = to_decimal(c) {
        if !can_extend_times(&moved, n) || s.len as u128 + n as u128 > usize::MAX as u128 {
            return false;
        }
    }
    let blocked = c == '#' || c == 'O' || c == 'X';
    let quitting = command == CommandKeys::End;
    if !blocked && !quitting {
        all_on_arena(&moved) && follow_fits(nh, game.conversion_vector, terminal_size)
    } else {
        true
    }
}

} // verus!
