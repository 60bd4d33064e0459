use crossterm::style::Stylize;
use vstd::prelude::*;

use crate::chance::{choose_weight, random_in};
use crate::model::{GameStatus, HostSideData, Playground, PlaygroundChanges, SessionError, SnakeBody};
use crate::text::{decimal_value, digit_char, from_digit, push_char, spaces, to_decimal};

verus! {

/// The food weights the host draws from.
pub open spec fn host_food_weights() -> Seq<u32> {
    seq![1, 1, 1, 1, 2, 2, 3, 3, 5, 5, 5, 7, 8, 8, 9]
}

fn food_weights() -> (v: Vec<u32>)
    ensures
        v@ == host_food_weights(),
{
    vec![1, 1, 1, 1, 2, 2, 3, 3, 5, 5, 5, 7, 8, 8, 9]
}

/// A food the host can put on the playground.
pub open spec fn is_host_food(c: char) -> bool {
    exists|w: u32| host_food_weights().contains(w) && c == #[trigger] digit_char(w)
}

/// A blank cell holds no food.
pub proof fn lemma_blank_is_not_food()
    ensures
        !is_host_food(' '),
{
    if is_host_food(' ') {
        let wt = choose|wt: u32| host_food_weights().contains(wt) && ' ' == #[trigger] digit_char(wt);
        let q = choose|q: int| 0 <= q < 15 && host_food_weights()[q] == wt;
    }
}

/// Cells that the host may put food on: inside the walls.
pub open spec fn inside_walls(pg: &Playground, x: int, y: int) -> bool {
    1 <= x < pg.spec_width() - 1 && 1 <= y < pg.spec_height() - 1
}

/// Where a new food may go: the corner cell when it is blank, otherwise a blank cell
/// inside the walls.
pub open spec fn food_spot(pg: &Playground, x: int, y: int) -> bool {
    if pg.cell(0, 0) == ' ' {
        x == 0 && y == 0
    } else {
        inside_walls(pg, x, y) && pg.cell(x, y) == ' '
    }
}

/// There is a cell a new food can go to.
pub open spec fn has_food_spot(pg: &Playground) -> bool {
    pg.cell(0, 0) == ' ' || exists|x: int, y: int|
        inside_walls(pg, x, y) && #[trigger] pg.cell(x, y) == ' '
}

/// Draws where a new food goes and which food it is, without touching the playground.
pub fn pick_food(playground: &Playground) -> (r: Option<((u16, u16), char)>)
    requires
        playground.wf(),
    ensures
        r is None <==> !has_food_spot(playground),
        r matches Some(f) ==> food_spot(playground, f.0.0 as int, f.0.1 as int) && is_host_food(
            f.1,
        ),
{
    let spot = if playground.get(0, 0) == ' ' {
        Some((0usize, 0usize))
    } else {
        let w = playground.width();
        let h = playground.height();
        let r = playground.random_blank_run(1, w - 1, 1, h - 1, 1);
        proof {
            if r is None {
                assert forall|x: int, y: int|
                    inside_walls(playground, x, y) implies #[trigger] playground.cell(x, y)
                    != ' ' by {
                    assert(!playground.blank_in(1, w - 1, 1, h - 1, 1, x, y));
                }
            } else {
                let p = r->0;
                assert(inside_walls(playground, p.0 as int, p.1 as int));
                assert(playground.cell(p.0 as int, p.1 as int) == ' ');
            }
        }
        r
    };
    match spot {
        None => None,
        Some(p) => {
            let weights = food_weights();
            let weight = choose_weight(weights.as_slice());
            proof {
                assert(host_food_weights().contains(weight));
                assert(weight < 10) by {
                    let k = choose|k: int| 0 <= k < 15 && host_food_weights()[k] == weight;
                }
            }
            let food = from_digit(weight);
            Some(((p.0 as u16, p.1 as u16), food))
        },
    }
}

/// Puts a random food on a blank cell and hands back where it went and which food it is.
/// The corner cell is taken when it is blank; otherwise any blank cell inside the walls may
/// be drawn. With no such cell, nothing changes and nothing is handed back.
pub fn add_food(playground: &mut Playground) -> (r: Vec<((u16, u16), char)>)
    requires
        old(playground).wf(),
    ensures
        final(playground).wf(),
        final(playground).same_shape(old(playground)),
        r@.len() == 0 <==> !has_food_spot(old(playground)),
        r@.len() == 0 ==> final(playground).cells@ == old(playground).cells@,
        r@.len() <= 1,
        r@.len() == 1 ==> {
            let (p, c) = r@[0];
            &&& food_spot(old(playground), p.0 as int, p.1 as int)
            &&& is_host_food(c)
            &&& final(playground).cell(p.0 as int, p.1 as int) == c
            &&& forall|x: int, y: int|
                old(playground).holds(x, y) && (x != p.0 || y != p.1)
                    ==> final(playground).cell(x, y) == old(playground).cell(x, y)
        },
{
    match pick_food(playground) {
        None => Vec::new(),
        Some(f) => {
            playground.set(f.0.0 as usize, f.0.1 as usize, f.1);
            vec![f]
        },
    }
}


/// The point of a playground cell.
pub open spec fn point(x: int, y: int) -> (u16, u16) {
    (x as u16, y as u16)
}

/// A cell after `c` is written on every point of `cells`.
pub open spec fn painted(prev: char, cells: Seq<(u16, u16)>, x: int, y: int, c: char) -> char {
    if cells.contains(point(x, y)) {
        c
    } else {
        prev
    }
}

/// A cell after the foods are put down one after the other: the last food on it stays.
pub open spec fn fed(prev: char, foods: Seq<((u16, u16), char)>, x: int, y: int) -> char
    decreases foods.len(),
{
    if foods.len() == 0 {
        prev
    } else if foods.last().0 == point(x, y) {
        foods.last().1
    } else {
        fed(prev, foods.drop_last(), x, y)
    }
}

/// A cell after a turn's changes: blanks first, then body pieces, then heads, then foods.
pub open spec fn changed_cell(prev: char, ch: &PlaygroundChanges, x: int, y: int) -> char {
    fed(
        painted(
            painted(painted(prev, ch.remove_char@, x, y, ' '), ch.change_to_o@, x, y, 'O'),
            ch.change_to_x@,
            x,
            y,
            'X',
        ),
        ch.add_food@,
        x,
        y,
    )
}

/// Every point that the changes name lies on the playground.
pub open spec fn changes_fit(pg: &Playground, ch: &PlaygroundChanges) -> bool {
    &&& forall|i: int| 0 <= i < ch.remove_char@.len() ==> pg.holds_point(#[trigger] ch.remove_char@[i])
    &&& forall|i: int| 0 <= i < ch.change_to_o@.len() ==> pg.holds_point(#[trigger] ch.change_to_o@[i])
    &&& forall|i: int| 0 <= i < ch.change_to_x@.len() ==> pg.holds_point(#[trigger] ch.change_to_x@[i])
    &&& forall|i: int| 0 <= i < ch.add_food@.len() ==> pg.holds_point(#[trigger] ch.add_food@[i].0)
}

proof fn lemma_point_eq(x: int, y: int, p: (u16, u16))
    requires
        0 <= x < 65536,
        0 <= y < 65536,
    ensures
        (point(x, y) == p) == (x == p.0 && y == p.1),
{
}

/// Writes `c` on every point of `cells`.
fn paint_all(playground: &mut Playground, cells: &Vec<(u16, u16)>, c: char)
    requires
        old(playground).wf(),
        forall|i: int| 0 <= i < cells@.len() ==> old(playground).holds_point(#[trigger] cells@[i]),
    ensures
        final(playground).wf(),
        final(playground).same_shape(old(playground)),
        forall|x: int, y: int|
            old(playground).holds(x, y) ==> final(playground).cell(x, y) == painted(
                old(playground).cell(x, y),
                cells@,
                x,
                y,
                c,
            ),
{
    let ghost start = *playground;
    let mut i: usize = 0;
    while i < cells.len()
        invariant
            i <= cells@.len(),
            playground.wf(),
            playground.same_shape(&start),
            start.wf(),
            forall|k: int| 0 <= k < cells@.len() ==> start.holds_point(#[trigger] cells@[k]),
            forall|x: int, y: int|
                start.holds(x, y) ==> playground.cell(x, y) == painted(
                    start.cell(x, y),
                    cells@.take(i as int),
                    x,
                    y,
                    c,
                ),
        decreases cells@.len() - i,
    {
        let p = cells[i];
        assert(start.holds_point(cells@[i as int]));
        let ghost before = *playground;
        playground.set(p.0 as usize, p.1 as usize, c);
        assert forall|x: int, y: int| start.holds(x, y) implies playground.cell(x, y) == painted(
            start.cell(x, y),
            cells@.take(i + 1),
            x,
            y,
            c,
        ) by {
            assert(cells@.take(i + 1) == cells@.take(i as int).push(p));
            lemma_point_eq(x, y, p);
            if x == p.0 && y == p.1 {
                assert(cells@.take(i + 1).contains(point(x, y))) by {
                    assert(cells@.take(i + 1)[i as int] == point(x, y));
                }
            } else {
                assert(cells@.take(i + 1).contains(point(x, y)) == cells@.take(i as int).contains(
                    point(x, y),
                )) by {
                    if cells@.take(i + 1).contains(point(x, y)) {
                        let k = choose|k: int|
                            0 <= k < cells@.take(i + 1).len() && #[trigger] cells@.take(i + 1)[k] == point(
                                x,
                                y,
                            );
                        assert(k < i);
                        assert(cells@.take(i as int)[k] == point(x, y));
                    }
                }
            }
        }
        i = i + 1;
    }
    assert(cells@.take(cells@.len() as int) == cells@);
}

/// Puts every food of `foods` down, in order.
fn feed_all(playground: &mut Playground, foods: &Vec<((u16, u16), char)>)
    requires
        old(playground).wf(),
        forall|i: int| 0 <= i < foods@.len() ==> old(playground).holds_point(#[trigger] foods@[i].0),
    ensures
        final(playground).wf(),
        final(playground).same_shape(old(playground)),
        forall|x: int, y: int|
            old(playground).holds(x, y) ==> final(playground).cell(x, y) == fed(
                old(playground).cell(x, y),
                foods@,
                x,
                y,
            ),
{
    let ghost start = *playground;
    let mut i: usize = 0;
    while i < foods.len()
        invariant
            i <= foods@.len(),
            playground.wf(),
            playground.same_shape(&start),
            start.wf(),
            forall|k: int| 0 <= k < foods@.len() ==> start.holds_point(#[trigger] foods@[k].0),
            forall|x: int, y: int|
                start.holds(x, y) ==> playground.cell(x, y) == fed(
                    start.cell(x, y),
                    foods@.take(i as int),
                    x,
                    y,
                ),
        decreases foods@.len() - i,
    {
        let f = foods[i];
        assert(start.holds_point(foods@[i as int].0));
        playground.set(f.0.0 as usize, f.0.1 as usize, f.1);
        assert forall|x: int, y: int| start.holds(x, y) implies playground.cell(x, y) == fed(
            start.cell(x, y),
            foods@.take(i + 1),
            x,
            y,
        ) by {
            assert(foods@.take(i + 1).drop_last() == foods@.take(i as int));
            assert(foods@.take(i + 1).last() == f);
            lemma_point_eq(x, y, f.0);
        }
        i = i + 1;
    }
    assert(foods@.take(foods@.len() as int) == foods@);
}

/// Applies one turn's changes to the playground: the `remove_char` cells become blank, then
/// the `change_to_o` cells become body pieces, the `change_to_x` cells heads, and last the
/// foods of `add_food` are put down.
pub fn update_playground(playground: &mut Playground, playground_changes: &PlaygroundChanges)
    requires
        old(playground).wf(),
        changes_fit(old(playground), playground_changes),
    ensures
        final(playground).wf(),
        final(playground).same_shape(old(playground)),
        forall|x: int, y: int|
            old(playground).holds(x, y) ==> final(playground).cell(x, y) == changed_cell(
                old(playground).cell(x, y),
                playground_changes,
                x,
                y,
            ),
{
    let ghost g0 = *playground;
    paint_all(playground, &playground_changes.remove_char, ' ');
    let ghost g1 = *playground;
    paint_all(playground, &playground_changes.change_to_o, 'O');
    let ghost g2 = *playground;
    paint_all(playground, &playground_changes.change_to_x, 'X');
    let ghost g3 = *playground;
    feed_all(playground, &playground_changes.add_food);
    assert forall|x: int, y: int| g0.holds(x, y) implies playground.cell(x, y) == changed_cell(
        g0.cell(x, y),
        playground_changes,
        x,
        y,
    ) by {
        assert(g1.holds(x, y));
        assert(g2.holds(x, y));
        assert(g3.holds(x, y));
    }
}


/// The blank cells inside the walls.
pub open spec fn blank_inside(pg: &Playground) -> Set<(int, int)> {
    pg.blank_box(1, pg.spec_width() - 1, 1, pg.spec_height() - 1)
}

/// The cells inside the walls that differ between two playgrounds.
pub open spec fn changed_inside(before: &Playground, after: &Playground) -> Set<(int, int)> {
    Set::new(
        |p: (int, int)| inside_walls(before, p.0, p.1) && before.cell(p.0, p.1) != after.cell(p.0, p.1),
    )
}

/// The smaller of two integers.
pub open spec fn min(a: int, b: int) -> int {
    if a <= b {
        a
    } else {
        b
    }
}

/// The food count after one more `add_food` on a playground whose walls are up.
proof fn lemma_one_more_food(
    g0: &Playground,
    cur: &Playground,
    next: &Playground,
    placed: Seq<((u16, u16), char)>,
    k: int,
)
    requires
        g0.wf(),
        cur.wf(),
        cur.same_shape(g0),
        cur.cell(0, 0) == '#',
        forall|i: int, j: int|
            g0.holds(i, j) && !on_border(g0, i, j) ==> {
                ||| cur.cell(i, j) == g0.cell(i, j)
                ||| g0.cell(i, j) == ' ' && is_host_food(cur.cell(i, j))
            },
        changed_inside(g0, cur).len() == min(k, blank_inside(g0).len() as int),
        next.wf(),
        next.same_shape(cur),
        placed.len() == 0 <==> !has_food_spot(cur),
        placed.len() == 0 ==> next.cells@ == cur.cells@,
        placed.len() <= 1,
        placed.len() == 1 ==> {
            let (p, c) = placed[0];
            &&& food_spot(cur, p.0 as int, p.1 as int)
            &&& is_host_food(c)
            &&& next.cell(p.0 as int, p.1 as int) == c
            &&& forall|x: int, y: int|
                cur.holds(x, y) && (x != p.0 || y != p.1) ==> next.cell(x, y) == cur.cell(x, y)
        },
    ensures
        changed_inside(g0, next).len() == min(k + 1, blank_inside(g0).len() as int),
        changed_inside(g0, next).finite(),
{
    let b = blank_inside(g0);
    let f = changed_inside(g0, cur);
    g0.lemma_blank_box_finite(1, g0.spec_width() - 1, 1, g0.spec_height() - 1);
    lemma_blank_is_not_food();
    assert(f.subset_of(b));
    vstd::set_lib::lemma_len_subset(f, b);
    if placed.len() == 1 {
        let (p, c) = placed[0];
        let q = (p.0 as int, p.1 as int);
        assert(inside_walls(cur, q.0, q.1) && cur.cell(q.0, q.1) == ' ');
        assert(b.contains(q));
        assert(!f.contains(q));
        assert(changed_inside(g0, next) =~= f.insert(q)) by {
            assert forall|r: (int, int)| #[trigger] changed_inside(g0, next).contains(r) <==> f.insert(
                q,
            ).contains(r) by {
                if r != q && inside_walls(g0, r.0, r.1) {
                    assert(next.cell(r.0, r.1) == cur.cell(r.0, r.1));
                }
            }
        }
        if f.len() == b.len() {
            vstd::set_lib::lemma_subset_equality(f, b);
        }
    } else {
        assert(next.cells@ == cur.cells@);
        assert(changed_inside(g0, next) =~= f);
        assert(f =~= b) by {
            assert forall|r: (int, int)| #[trigger] b.contains(r) implies f.contains(r) by {
                assert(cur.cell(r.0, r.1) != ' ');
            }
        }
    }
}

pub open spec fn on_border(pg: &Playground, x: int, y: int) -> bool {
    x == 0 || y == 0 || x == pg.spec_width() - 1 || y == pg.spec_height() - 1
}

/// The number of foods `start` puts down: one for every hundred cells.
pub open spec fn food_count(pg: &Playground) -> int {
    pg.spec_width() * pg.spec_height() / 100
}

/// `start` can put its foods down: there is room inside the walls for them (otherwise
/// the search for a blank cell never ends), and the walls leave an inside at all when
/// any food is due (otherwise the search draws from an empty range).
pub open spec fn start_ok(pg: &Playground) -> bool {
    &&& food_count(pg) >= 1 ==> pg.spec_width() >= 3 && pg.spec_height() >= 3
    &&& food_count(pg) <= blank_inside(pg).len()
}

/// Whether `start` can put its foods down: `start_ok`, computed.
pub fn can_start(playground: &Playground) -> (r: bool)
    requires
        playground.wf(),
    ensures
        r == start_ok(playground),
{
    let w = playground.width();
    let h = playground.height();
    assert((w as int) * (h as int) <= 65535 * 65535) by (nonlinear_arith)
        requires
            w <= 65535,
            h <= 65535,
    ;
    let n = (w as u64) * (h as u64) / 100;
    if n >= 1 && (w < 3 || h < 3) {
        return false;
    }
    n <= playground.count_blank(1, w - 1, 1, h - 1)
}

/// Walls `#` all around the playground, then one random food for every hundred cells.
pub fn start(playground: &mut Playground)
    requires
        old(playground).wf(),
        start_ok(old(playground)),
    ensures
        final(playground).wf(),
        final(playground).same_shape(old(playground)),
        forall|x: int, y: int|
            old(playground).holds(x, y) && on_border(old(playground), x, y)
                ==> final(playground).cell(x, y) == '#',
        forall|x: int, y: int|
            old(playground).holds(x, y) && !on_border(old(playground), x, y) ==> {
                ||| final(playground).cell(x, y) == old(playground).cell(x, y)
                ||| old(playground).cell(x, y) == ' ' && is_host_food(final(playground).cell(x, y))
            },
        changed_inside(old(playground), final(playground)).len() == food_count(old(playground)),
{
    let ghost g0 = *playground;
    let w = playground.width();
    let h = playground.height();
    let mut x: usize = 0;
    while x < w
        invariant
            g0.wf(),
            w == g0.spec_width(),
            h == g0.spec_height(),
            x <= w,
            playground.wf(),
            playground.same_shape(&g0),
            forall|i: int, j: int|
                g0.holds(i, j) ==> playground.cell(i, j) == if i < x && (j == 0 || j == h - 1) {
                    '#'
                } else {
                    g0.cell(i, j)
                },
        decreases w - x,
    {
        playground.set(x, 0, '#');
        playground.set(x, h - 1, '#');
        x = x + 1;
    }
    let mut y: usize = 0;
    while y < h
        invariant
            g0.wf(),
            w == g0.spec_width(),
            h == g0.spec_height(),
            y <= h,
            playground.wf(),
            playground.same_shape(&g0),
            forall|i: int, j: int|
                g0.holds(i, j) ==> playground.cell(i, j) == if (j == 0 || j == h - 1) || (j < y
                    && (i == 0 || i == w - 1)) {
                    '#'
                } else {
                    g0.cell(i, j)
                },
        decreases h - y,
    {
        playground.set(0, y, '#');
        playground.set(w - 1, y, '#');
        y = y + 1;
    }
    assert((w as int) * (h as int) <= 65535 * 65535) by (nonlinear_arith)
        requires
            w <= 65535,
            h <= 65535,
    ;
    let n = w * h / 100;
    assert forall|p: (int, int)| !#[trigger] changed_inside(&g0, playground).contains(p) by {
        if inside_walls(&g0, p.0, p.1) {
            assert(g0.holds(p.0, p.1));
        }
    }
    assert(changed_inside(&g0, playground) =~= Set::<(int, int)>::empty());
    let mut k: usize = 0;
    while k < n
        invariant
            g0.wf(),
            w == g0.spec_width(),
            h == g0.spec_height(),
            k <= n,
            playground.wf(),
            playground.same_shape(&g0),
            forall|i: int, j: int|
                g0.holds(i, j) && on_border(&g0, i, j) ==> playground.cell(i, j) == '#',
            forall|i: int, j: int|
                g0.holds(i, j) && !on_border(&g0, i, j) ==> {
                    ||| playground.cell(i, j) == g0.cell(i, j)
                    ||| g0.cell(i, j) == ' ' && is_host_food(playground.cell(i, j))
                },
            changed_inside(&g0, playground).len() == min(k as int, blank_inside(&g0).len() as int),
        decreases n - k,
    {
        let ghost before = *playground;
        let placed = add_food(playground);
        proof {
            assert(g0.holds(0, 0) && on_border(&g0, 0, 0));
            assert(before.cell(0, 0) == '#');
            lemma_one_more_food(&g0, &before, playground, placed@, k as int);
            if placed@.len() == 1 {
                let p = placed@[0].0;
                assert(inside_walls(&before, p.0 as int, p.1 as int));
            }
            assert forall|i: int, j: int|
                g0.holds(i, j) && !on_border(&g0, i, j) implies {
                ||| playground.cell(i, j) == g0.cell(i, j)
                ||| g0.cell(i, j) == ' ' && is_host_food(playground.cell(i, j))
            } by {
                assert(before.holds(i, j));
                lemma_blank_is_not_food();
            }
        }
        k = k + 1;
    }
}


/// The cells a finished snake leaves behind for removal: all its pieces after the cells
/// already listed, except the head when it crashed (it lies on what it ran into).
pub open spec fn cells_to_clear(
    listed: Seq<(u16, u16)>,
    pieces: Seq<(u16, u16)>,
    err: &SessionError,
) -> Seq<(u16, u16)> {
    let all = listed + pieces;
    if *err is Lost && all.len() > 0 {
        all.drop_last()
    } else {
        all
    }
}

/// Takes a finished snake off the board: its pieces move into the removal list (keeping
/// the crashed head when the snake lost), and no head or body piece is drawn any more.
/// The snake is left without pieces.
pub fn loose(snake: &mut SnakeBody, playground_changes: PlaygroundChanges, err: &SessionError) -> (r:
    PlaygroundChanges)
    ensures
        final(snake).pieces@.len() == 0,
        final(snake).len == old(snake).len,
        final(snake).movement_adder == old(snake).movement_adder,
        r.remove_char@ == cells_to_clear(
            playground_changes.remove_char@,
            old(snake).pieces@,
            err,
        ),
        r.change_to_o@.len() == 0,
        r.change_to_x@.len() == 0,
        r.add_food@ == playground_changes.add_food@,
{
    let mut playground_changes = playground_changes;
    playground_changes.remove_char.append(&mut snake.pieces);
    if let SessionError::Lost = err {
        playground_changes.remove_char.pop();
    }
    playground_changes.change_to_o.clear();
    playground_changes.change_to_x.clear();
    playground_changes
}

/// What a head cannot run into.
pub open spec fn is_obstacle(c: char) -> bool {
    c == '#' || c == 'O' || c == 'X'
}

/// The pieces after eating `n` times: the tail piece repeated `n` more times.
pub open spec fn grown(pieces: Seq<(u16, u16)>, n: nat) -> Seq<(u16, u16)> {
    Seq::new(n, |i: int| pieces[0]) + pieces
}

/// The character under the head that a turn's changes draw.
pub open spec fn char_under_head(pg: &Playground, ch: &PlaygroundChanges) -> char {
    pg.cell(ch.change_to_x@[0].0 as int, ch.change_to_x@[0].1 as int)
}

/// A snake can eat whatever lies under its new head.
pub open spec fn can_digest(snake: &SnakeBody, c: char) -> bool {
    decimal_value(c) matches Some(n) ==> {
        &&& snake.pieces@.len() > 0
        &&& snake.len + n <= usize::MAX
    }
}

/// Eats `n` foods.
fn eat_times(snake: &mut SnakeBody, n: u32)
    requires
        old(snake).pieces@.len() > 0,
        old(snake).len + n <= usize::MAX,
    ensures
        final(snake).len == old(snake).len + n,
        final(snake).movement_adder == old(snake).movement_adder,
        final(snake).pieces@ == grown(old(snake).pieces@, n as nat),
{
    let ghost start = snake.pieces@;
    let ghost len0 = snake.len;
    let mut i: u32 = 0;
    assert(grown(start, 0) == start);
    while i < n
        invariant
            i <= n,
            start.len() > 0,
            len0 + n <= usize::MAX,
            snake.len == len0 + i,
            snake.movement_adder == old(snake).movement_adder,
            start == old(snake).pieces@,
            len0 == old(snake).len,
            snake.pieces@ == grown(start, i as nat),
        decreases n - i,
    {
        snake.eat_food();
        assert(snake.pieces@ == grown(start, (i + 1) as nat));
        i = i + 1;
    }
}

/// Looks at what the new head ran into. An obstacle (`#`, `O` or `X`) ends the game:
/// the status becomes `Dead("YOU LOST :(")` and `Lost` comes back. A digit `n` is food: the
/// snake eats `n` times and a new food is drawn for the changes. Anything else changes
/// nothing.
pub fn snake_status_check(
    host_side_data: &mut HostSideData,
    playground: &Playground,
    snake: &mut SnakeBody,
    playground_changes: &mut PlaygroundChanges,
) -> (r: Result<(), SessionError>)
    requires
        playground.wf(),
        old(playground_changes).change_to_x@.len() > 0,
        playground.holds_point(old(playground_changes).change_to_x@[0]),
        can_digest(old(snake), char_under_head(playground, old(playground_changes))),
    ensures
        ({
            let c = char_under_head(playground, old(playground_changes));
            if c == '#' || c == 'O' || c == 'X' {
                &&& r == Err::<(), SessionError>(SessionError::Lost)
                &&& final(host_side_data).status matches GameStatus::Dead(m) && m@ == "YOU LOST :("@
                &&& final(host_side_data).display_data == old(host_side_data).display_data
                &&& final(host_side_data).len == old(host_side_data).len
                &&& final(snake).len == old(snake).len
                &&& final(snake).pieces@ == old(snake).pieces@
                &&& final(snake).movement_adder == old(snake).movement_adder
                &&& final(playground_changes).add_food@ == old(playground_changes).add_food@
            } else {
                &&& r is Ok
                &&& *final(host_side_data) == *old(host_side_data)
                &&& final(snake).movement_adder == old(snake).movement_adder
                &&& match decimal_value(c) {
                    Some(n) => {
                        &&& final(snake).len == old(snake).len + n
                        &&& final(snake).pieces@ == grown(old(snake).pieces@, n as nat)
                        &&& final(playground_changes).add_food@.len() <= 1
                        &&& (final(playground_changes).add_food@.len() == 0 <==> !has_food_spot(
                            playground,
                        ))
                        &&& (final(playground_changes).add_food@.len() == 1 ==> {
                            let f = final(playground_changes).add_food@[0];
                            food_spot(playground, f.0.0 as int, f.0.1 as int) && is_host_food(f.1)
                        })
                    },
                    None => {
                        &&& final(snake).len == old(snake).len
                        &&& final(snake).pieces@ == old(snake).pieces@
                        &&& final(playground_changes).add_food@ == old(
                            playground_changes,
                        ).add_food@
                    },
                }
            }
        }),
        final(playground_changes).change_to_x@ == old(playground_changes).change_to_x@,
        final(playground_changes).change_to_o@ == old(playground_changes).change_to_o@,
        final(playground_changes).remove_char@ == old(playground_changes).remove_char@,
{
    let head = playground_changes.change_to_x[0];
    let character = playground.get(head.0 as usize, head.1 as usize);
    if character == '#' || character == 'O' || character == 'X' {
        host_side_data.status = GameStatus::Dead(String::from_str("YOU LOST :("));
        return Err(SessionError::Lost);
    }
    if let Some(n) = to_decimal(character) {
        eat_times(snake, n);
        let food = match pick_food(playground) {
            None => Vec::new(),
            Some(f) => vec![f],
        };
        playground_changes.add_food = food;
    }
    Ok(())
}

/// A random spot for a new head, away from the outermost rows and columns.
pub fn generate_head_location(playground_size: (usize, usize)) -> (r: (usize, usize))
    requires
        playground_size.0 >= 3,
        playground_size.1 >= 3,
    ensures
        1 <= r.0 < playground_size.0 - 1,
        1 <= r.1 < playground_size.1 - 1,
{
    (random_in(1, playground_size.0 - 1), random_in(1, playground_size.1 - 1))
}


/// `a - b`, or zero when `b` is larger.
pub open spec fn sat_sub(a: int, b: int) -> int {
    if a > b {
        a - b
    } else {
        0
    }
}

/// The margin kept between the head and the edges of the view: a fifth of the terminal.
pub open spec fn view_gap(ts: u16) -> int {
    ts as int / 5
}

/// The offset after making room on the near side of the head.
pub open spec fn offset_near(head: u16, cv: u16, ts: u16) -> int {
    if sat_sub(head as int, cv as int) < view_gap(ts) {
        sat_sub(head as int, view_gap(ts))
    } else {
        cv as int
    }
}

/// The offset after making room on the far side of the head.
pub open spec fn offset_far(head: u16, c1: int, ts: u16) -> int {
    if sat_sub(ts + c1, head as int) < view_gap(ts) {
        sat_sub(head as int, ts - view_gap(ts))
    } else {
        c1
    }
}

/// The view must be pulled back inside the playground.
pub open spec fn view_overruns(head: u16, c3: int, ts: u16, pg: int) -> bool {
    ts + c3 > pg || head + view_gap(ts) > pg
}

/// The view offset along one axis after the head moved: on a terminal larger than the
/// playground the whole playground is shown from its first cell; otherwise room is made on
/// both sides of the head, then the view is pulled back inside the playground.
pub open spec fn view_offset(head: u16, cv: u16, ts: u16, pg: int) -> int {
    if ts > pg {
        0
    } else {
        let c3 = offset_far(head, offset_near(head, cv, ts), ts);
        if view_overruns(head, c3, ts, pg) {
            pg - ts
        } else {
            c3
        }
    }
}

/// Moves the view along one axis so that the head keeps its distance from the edges,
/// never leaving the playground; any terminal size is accepted.
fn scroll_axis(head: u16, cv: u16, ts: u16, pg: u16) -> (r: u16)
    ensures
        r == view_offset(head, cv, ts, pg as int),
        r + (if ts > pg { pg } else { ts }) <= pg,
{
    if ts > pg {
        return 0;
    }
    let gap: u32 = ts as u32 / 5;
    let head = head as u32;
    let ts = ts as u32;
    let pg = pg as u32;
    let mut c: u32 = cv as u32;
    let near_gap = if head > c {
        head - c
    } else {
        0
    };
    if near_gap < gap {
        c = if head > gap {
            head - gap
        } else {
            0
        };
    }
    let far_gap = if ts + c > head {
        ts + c - head
    } else {
        0
    };
    if far_gap < gap {
        c = if head > ts - gap {
            head - (ts - gap)
        } else {
            0
        };
    }
    if ts + c > pg || head + gap > pg {
        c = pg - ts;
    }
    c as u16
}

/// The characters standing for one cell of the view.
pub open spec fn cell_text(
    pg: &Playground,
    head: (u16, u16),
    cv: (u16, u16),
    x: int,
    y: int,
    head_mark: Seq<char>,
    enemy_mark: Seq<char>,
) -> Seq<char> {
    let c = pg.cell(x + cv.0, y + cv.1);
    if c == 'X' {
        if x + cv.0 == head.0 && y + cv.1 == head.1 {
            head_mark
        } else {
            enemy_mark
        }
    } else {
        seq![c]
    }
}

/// The first `n` cells of row `y` of the view.
pub open spec fn row_text(
    pg: &Playground,
    head: (u16, u16),
    cv: (u16, u16),
    y: int,
    n: int,
    head_mark: Seq<char>,
    enemy_mark: Seq<char>,
) -> Seq<char>
    decreases n,
{
    if n <= 0 {
        seq![]
    } else {
        row_text(pg, head, cv, y, n - 1, head_mark, enemy_mark) + cell_text(
            pg,
            head,
            cv,
            n - 1,
            y,
            head_mark,
            enemy_mark,
        )
    }
}

/// The first `m` rows of the view, each `cols` cells then `pad` blanks wide.
pub open spec fn view_text(
    pg: &Playground,
    head: (u16, u16),
    cv: (u16, u16),
    cols: int,
    pad: int,
    m: int,
    head_mark: Seq<char>,
    enemy_mark: Seq<char>,
) -> Seq<char>
    decreases m,
{
    if m <= 0 {
        seq![]
    } else {
        view_text(pg, head, cv, cols, pad, m - 1, head_mark, enemy_mark) + row_text(
            pg,
            head,
            cv,
            m - 1,
            cols,
            head_mark,
            enemy_mark,
        ) + spaces(pad)
    }
}

/// The colour code crossterm writes for dark green.
pub open spec fn dark_green_code() -> Seq<char> {
    seq!['3', '8', ';', '5', ';', '2']
}

/// The colour code crossterm writes for red.
pub open spec fn red_code() -> Seq<char> {
    seq!['3', '8', ';', '5', ';', '9']
}

/// How crossterm writes a character styled with one foreground colour: nothing at all on
/// a Windows console without ANSI support; bare escape sequences around the character
/// when the `NO_COLOR` environment variable is set; otherwise the colour's escape
/// sequence, the character, and the sequence that resets the foreground colour.
pub open spec fn styled_outcome(s: Seq<char>, c: char, code: Seq<char>) -> bool {
    ||| s.len() == 0
    ||| s == seq!['\u{1b}', '[', 'm', c, '\u{1b}', '[', 'm']
    ||| s == seq!['\u{1b}', '['] + code + seq!['m', c, '\u{1b}', '[', '3', '9', 'm']
}

/// Calls crossterm's `Stylize::dark_green` on a char and writes it out with `to_string`.
/// Its contract claims one of the three texts crossterm writes (see `styled_outcome`):
/// which one depends on the platform and the `NO_COLOR` environment variable, so it is
/// not stated.
#[verifier::external_body]
fn head_marker(c: char) -> (r: String)
    ensures
        styled_outcome(r@, c, dark_green_code()),
{
    c.dark_green().to_string()
}

/// Calls crossterm's `Stylize::red` on a char and writes it out with `to_string`. Its
/// contract claims one of the three texts crossterm writes (see `styled_outcome`); which
/// one is not stated, as for `head_marker`.
#[verifier::external_body]
fn enemy_marker(c: char) -> (r: String)
    ensures
        styled_outcome(r@, c, red_code()),
{
    c.red().to_string()
}

/// Writes the part of the playground under the view, row by row: a head is written as
/// `head_mark` when it is the player's own and as `enemy_mark` otherwise; each row is
/// padded with the blanks by which the terminal is wider than the playground.
pub fn render_view(
    playground: &Playground,
    snake_head: (u16, u16),
    conversion_vector: (u16, u16),
    terminal_size: (u16, u16),
    head_mark: &String,
    enemy_mark: &String,
) -> (data: String)
    requires
        playground.wf(),
        ({
            let cols = if terminal_size.0 >= playground.spec_width() {
                playground.spec_width()
            } else {
                terminal_size.0 as int
            };
            let rows = if terminal_size.1 >= playground.spec_height() {
                playground.spec_height()
            } else {
                terminal_size.1 as int
            };
            &&& cols + conversion_vector.0 <= playground.spec_width()
            &&& rows + conversion_vector.1 <= playground.spec_height()
        }),
    ensures
        ({
            let cols = if terminal_size.0 >= playground.spec_width() {
                playground.spec_width()
            } else {
                terminal_size.0 as int
            };
            let rows = if terminal_size.1 >= playground.spec_height() {
                playground.spec_height()
            } else {
                terminal_size.1 as int
            };
            data@ == view_text(
                playground,
                snake_head,
                conversion_vector,
                cols,
                sat_sub(terminal_size.0 as int, playground.spec_width()),
                rows,
                head_mark@,
                enemy_mark@,
            )
        }),
{
    let pw = playground.width() as u16;
    let ph = playground.height() as u16;
    let cols: u16 = if terminal_size.0 >= pw {
        pw
    } else {
        terminal_size.0
    };
    let rows: u16 = if terminal_size.1 >= ph {
        ph
    } else {
        terminal_size.1
    };
    let pad: u16 = terminal_size.0.saturating_sub(pw);
    let ghost hm = head_mark@;
    let ghost bm = enemy_mark@;
    let mut data = String::new();
    let mut y: u16 = 0;
    while y < rows
        invariant
            playground.wf(),
            pw == playground.spec_width(),
            ph == playground.spec_height(),
            rows + conversion_vector.1 <= ph,
            cols + conversion_vector.0 <= pw,
            y <= rows,
            hm == head_mark@,
            bm == enemy_mark@,
            data@ == view_text(
                playground,
                snake_head,
                conversion_vector,
                cols as int,
                pad as int,
                y as int,
                hm,
                bm,
            ),
        decreases rows - y,
    {
        let mut x: u16 = 0;
        while x < cols
            invariant
                playground.wf(),
                pw == playground.spec_width(),
                ph == playground.spec_height(),
                rows + conversion_vector.1 <= ph,
                cols + conversion_vector.0 <= pw,
                y < rows,
                x <= cols,
                hm == head_mark@,
                bm == enemy_mark@,
                data@ == view_text(
                    playground,
                    snake_head,
                    conversion_vector,
                    cols as int,
                    pad as int,
                    y as int,
                    hm,
                    bm,
                ) + row_text(playground, snake_head, conversion_vector, y as int, x as int, hm, bm),
            decreases cols - x,
        {
            let cx = x + conversion_vector.0;
            let cy = y + conversion_vector.1;
            let item = playground.get(cx as usize, cy as usize);
            if item == 'X' {
                if cx == snake_head.0 && cy == snake_head.1 {
                    data.append(head_mark.as_str());
                } else {
                    data.append(enemy_mark.as_str());
                }
            } else {
                push_char(&mut data, item);
            }
            x = x + 1;
        }
        let mut k: u16 = 0;
        while k < pad
            invariant
                k <= pad,
                data@ == view_text(
                    playground,
                    snake_head,
                    conversion_vector,
                    cols as int,
                    pad as int,
                    y as int,
                    hm,
                    bm,
                ) + row_text(playground, snake_head, conversion_vector, y as int, cols as int, hm, bm)
                    + spaces(k as int),
            decreases pad - k,
        {
            push_char(&mut data, ' ');
            assert(spaces(k + 1) == spaces(k as int).push(' '));
            k = k + 1;
        }
        y = y + 1;
    }
    data
}

/// Writes what a client sees: the view follows the snake's head, keeping a fifth of the
/// terminal between the head and each edge, but never leaves the playground; along an axis
/// where the terminal is larger than the playground, the whole playground is shown from its
/// first cell and each row is padded with blanks. Any terminal size is accepted. The
/// player's own head is written with a dark green style, other heads with a red one.
pub fn user_display_generator(
    playground: &Playground,
    snake_head: &(u16, u16),
    conversion_vector: &mut (u16, u16),
    terminal_size: &(u16, u16),
) -> (data: String)
    requires
        playground.wf(),
    ensures
        final(conversion_vector).0 == view_offset(
            snake_head.0,
            old(conversion_vector).0,
            terminal_size.0,
            playground.spec_width(),
        ),
        final(conversion_vector).1 == view_offset(
            snake_head.1,
            old(conversion_vector).1,
            terminal_size.1,
            playground.spec_height(),
        ),
        exists|head_mark: Seq<char>, enemy_mark: Seq<char>|
            {
                &&& styled_outcome(head_mark, 'X', dark_green_code())
                &&& styled_outcome(enemy_mark, 'X', red_code())
                &&& data@ == view_text(
                    playground,
                    *snake_head,
                    *final(conversion_vector),
                    if terminal_size.0 >= playground.spec_width() {
                        playground.spec_width()
                    } else {
                        terminal_size.0 as int
                    },
                    sat_sub(terminal_size.0 as int, playground.spec_width()),
                    if terminal_size.1 >= playground.spec_height() {
                        playground.spec_height()
                    } else {
                        terminal_size.1 as int
                    },
                    head_mark,
                    enemy_mark,
                )
            },
{
    let pw = playground.width() as u16;
    let ph = playground.height() as u16;
    let cv0 = scroll_axis(snake_head.0, conversion_vector.0, terminal_size.0, pw);
    let cv1 = scroll_axis(snake_head.1, conversion_vector.1, terminal_size.1, ph);
    *conversion_vector = (cv0, cv1);
    let head_mark = head_marker('X');
    let enemy_mark = enemy_marker('X');
    let data = render_view(
        playground,
        *snake_head,
        *conversion_vector,
        *terminal_size,
        &head_mark,
        &enemy_mark,
    );
    assert(styled_outcome(head_mark@, 'X', dark_green_code()));
    assert(styled_outcome(enemy_mark@, 'X', red_code()));
    data
}

} // verus!
