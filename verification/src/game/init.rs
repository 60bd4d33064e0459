use vstd::prelude::*;

use crate::game::snake::{add_food, has_game_food_spot, game_food_spot, is_arena, is_game_food};
use crate::model::Playground;
use crate::server::functions::min;

verus! {

pub open spec fn on_arena_border(x: int, y: int) -> bool {
    x == 0 || y == 0 || x == 255 || y == 255
}

/// A cell off the walls of the arena.
pub open spec fn inside_arena(x: int, y: int) -> bool {
    1 <= x < 255 && 1 <= y < 255
}

/// The blank cells off the walls of the arena.
pub open spec fn blank_in_arena(pg: &Playground) -> Set<(int, int)> {
    pg.blank_box(1, 255, 1, 255)
}

/// The arena has room off its walls for the two hundred foods of `start`; otherwise the
/// search for a blank cell never ends.
pub open spec fn arena_start_ok(pg: &Playground) -> bool {
    200 <= blank_in_arena(pg).len()
}

/// Whether `start` can put its foods down: `arena_start_ok`, computed.
pub fn can_start(playground: &Playground) -> (r: bool)
    requires
        is_arena(playground),
    ensures
        r == arena_start_ok(playground),
{
    200 <= playground.count_blank(1, 255, 1, 255)
}

/// The cells off the walls that differ between two arenas.
pub open spec fn changed_in_arena(before: &Playground, after: &Playground) -> Set<(int, int)> {
    Set::new(
        |p: (int, int)| inside_arena(p.0, p.1) && before.cell(p.0, p.1) != after.cell(p.0, p.1),
    )
}

/// The food count after one more `add_food` on an arena whose walls are up.
proof fn lemma_one_more_game_food(g0: &Playground, cur: &Playground, next: &Playground, k: int)
    requires
        is_arena(g0),
        is_arena(cur),
        is_arena(next),
        forall|x: int, y: int| g0.holds(x, y) && on_arena_border(x, y) ==> cur.cell(x, y) == '#',
        forall|x: int, y: int|
            g0.holds(x, y) && !on_arena_border(x, y) ==> {
                ||| cur.cell(x, y) == g0.cell(x, y)
                ||| g0.cell(x, y) == ' ' && is_game_food(cur.cell(x, y))
            },
        changed_in_arena(g0, cur).len() == min(k, blank_in_arena(g0).len() as int),
        !has_game_food_spot(cur) ==> next.cells@ == cur.cells@,
        has_game_food_spot(cur) ==> exists|x: int, y: int|
            {
                &&& game_food_spot(cur, x, y)
                &&& is_game_food(next.cell(x, y))
                &&& forall|i: int, j: int|
                    cur.holds(i, j) && (i != x || j != y) ==> next.cell(i, j) == cur.cell(i, j)
            },
    ensures
        changed_in_arena(g0, next).len() == min(k + 1, blank_in_arena(g0).len() as int),
        changed_in_arena(g0, next).finite(),
{
    let b = blank_in_arena(g0);
    let f = changed_in_arena(g0, cur);
    g0.lemma_blank_box_finite(1, 255, 1, 255);
    crate::game::snake::lemma_game_food_is_decimal(' ');
    assert(f.subset_of(b)) by {
        assert forall|r: (int, int)| #[trigger] f.contains(r) implies b.contains(r) by {
            assert(g0.holds(r.0, r.1) && !on_arena_border(r.0, r.1));
        }
    }
    vstd::set_lib::lemma_len_subset(f, b);
    assert(g0.holds(0, 0) && on_arena_border(0, 0));
    if has_game_food_spot(cur) {
        let (px, py) = choose|x: int, y: int|
            {
                &&& game_food_spot(cur, x, y)
                &&& is_game_food(next.cell(x, y))
                &&& forall|i: int, j: int|
                    cur.holds(i, j) && (i != x || j != y) ==> next.cell(i, j) == cur.cell(i, j)
            };
        let q = (px, py);
        assert(cur.cell(px, py) == ' ');
        assert(px < 255) by {
            if px == 255 {
                assert(g0.holds(px, py) && on_arena_border(px, py));
            }
        }
        assert(py < 255) by {
            if py == 255 {
                assert(g0.holds(px, py) && on_arena_border(px, py));
            }
        }
        assert(g0.holds(px, py) && !on_arena_border(px, py));
        assert(b.contains(q));
        assert(!f.contains(q));
        assert(changed_in_arena(g0, next) =~= f.insert(q)) by {
            assert forall|r: (int, int)| #[trigger] changed_in_arena(g0, next).contains(r)
                <==> f.insert(q).contains(r) by {
                if r != q && inside_arena(r.0, r.1) {
                    assert(cur.holds(r.0, r.1));
                    assert(next.cell(r.0, r.1) == cur.cell(r.0, r.1));
                }
            }
        }
        if f.len() == b.len() {
            vstd::set_lib::lemma_subset_equality(f, b);
        }
    } else {
        assert(changed_in_arena(g0, next) =~= f);
        assert(f =~= b) by {
            assert forall|r: (int, int)| #[trigger] b.contains(r) implies f.contains(r) by {
                assert(!cur.blank_in(1, 256, 1, 256, 1, r.0, r.1));
                assert(cur.cell(r.0, r.1) != ' ');
            }
        }
    }
}

/// Walls `#` all around the arena, then two hundred random foods.
pub fn start(playground: &mut Playground)
    requires
        is_arena(old(playground)),
        arena_start_ok(old(playground)),
    ensures
        is_arena(final(playground)),
        forall|x: int, y: int|
            old(playground).holds(x, y) && on_arena_border(x, y) ==> final(playground).cell(x, y)
                == '#',
        forall|x: int, y: int|
            old(playground).holds(x, y) && !on_arena_border(x, y) ==> {
                ||| final(playground).cell(x, y) == old(playground).cell(x, y)
                ||| old(playground).cell(x, y) == ' ' && is_game_food(final(playground).cell(x, y))
            },
        changed_in_arena(old(playground), final(playground)).len() == 200,
{
    let ghost g0 = *playground;
    let len: usize = 256;
    let mut i: usize = 0;
    while i < len
        invariant
            len == 256,
            i <= len,
            is_arena(playground),
            is_arena(&g0),
            forall|x: int, y: int|
                g0.holds(x, y) ==> playground.cell(x, y) == if (x == 0 || x == 255) && y < i || (
                y == 0 || y == 255) && x < i {
                    '#'
                } else {
                    g0.cell(x, y)
                },
        decreases len - i,
    {
        playground.set(0, i, '#');
        playground.set(i, 0, '#');
        playground.set(len - 1, i, '#');
        playground.set(i, len - 1, '#');
        i = i + 1;
    }
    assert forall|p: (int, int)| !#[trigger] changed_in_arena(&g0, playground).contains(p) by {
        if inside_arena(p.0, p.1) {
            assert(g0.holds(p.0, p.1));
        }
    }
    assert(changed_in_arena(&g0, playground) =~= Set::<(int, int)>::empty());
    let mut k: usize = 0;
    while k < 200
        invariant
            k <= 200,
            is_arena(playground),
            is_arena(&g0),
            forall|x: int, y: int|
                g0.holds(x, y) && on_arena_border(x, y) ==> playground.cell(x, y) == '#',
            forall|x: int, y: int|
                g0.holds(x, y) && !on_arena_border(x, y) ==> {
                    ||| playground.cell(x, y) == g0.cell(x, y)
                    ||| g0.cell(x, y) == ' ' && is_game_food(playground.cell(x, y))
                },
            changed_in_arena(&g0, playground).len() == min(k as int, blank_in_arena(&g0).len() as int),
        decreases 200 - k,
    {
        let ghost before = *playground;
        assert(g0.holds(0, 0) && on_arena_border(0, 0));
        add_food(playground);
        proof {
            lemma_one_more_game_food(&g0, &before, playground, k as int);
            crate::game::snake::lemma_game_food_is_decimal(' ');
            if has_game_food_spot(&before) {
                let (px, py) = choose|px: int, py: int|
                    {
                        &&& game_food_spot(&before, px, py)
                        &&& is_game_food(playground.cell(px, py))
                        &&& forall|i: int, j: int|
                            before.holds(i, j) && (i != px || j != py) ==> playground.cell(i, j)
                                == before.cell(i, j)
                    };
                assert(before.cell(px, py) == ' ');
                assert forall|x: int, y: int| g0.holds(x, y) implies playground.cell(x, y) == if x
                    == px && y == py {
                    playground.cell(x, y)
                } else {
                    before.cell(x, y)
                } by {
                    assert(before.holds(x, y));
                }
            }
        }
        k = k + 1;
    }
}

/// Where each line of a closing message goes: centred across the terminal, one line per
/// row from the middle row down. Lengths and row numbers are taken modulo 65536, as a
/// cast to `u16` takes them.
pub open spec fn end_line_position(len: usize, i: int, size: (u16, u16)) -> (u16, u16) {
    (((size.0 - len % 65536) / 2) as u16, (size.1 / 2 + i % 65536) as u16)
}

pub open spec fn end_layout_ok(line_lengths: Seq<usize>, size: (u16, u16)) -> bool {
    forall|i: int|
        0 <= i < line_lengths.len() ==> {
            &&& #[trigger] line_lengths[i] % 65536 <= size.0
            &&& size.1 / 2 + i % 65536 <= u16::MAX
        }
}

/// Whether a closing message fits the terminal: `end_layout_ok`, computed.
pub fn end_layout_fits(line_lengths: &Vec<usize>, size: (u16, u16)) -> (r: bool)
    ensures
        r == end_layout_ok(line_lengths@, size),
{
    let mut i: usize = 0;
    while i < line_lengths.len()
        invariant
            i <= line_lengths@.len(),
            forall|k: int|
                0 <= k < i ==> {
                    &&& #[trigger] line_lengths@[k] % 65536 <= size.0
                    &&& size.1 / 2 + k % 65536 <= u16::MAX
                },
        decreases line_lengths@.len() - i,
    {
        if line_lengths[i] % 65536 > size.0 as usize || (size.1 / 2) as usize + i % 65536 > 65535 {
            assert(!({
                &&& line_lengths@[i as int] % 65536 <= size.0
                &&& size.1 / 2 + i % 65536 <= u16::MAX
            }));
            return false;
        }
        i = i + 1;
    }
    true
}

/// The positions of the lines of a closing message.
pub fn end_layout(line_lengths: &Vec<usize>, size: (u16, u16)) -> (r: Vec<(u16, u16)>)
    requires
        end_layout_ok(line_lengths@, size),
    ensures
        r@.len() == line_lengths@.len(),
        forall|i: int|
            0 <= i < r@.len() ==> #[trigger] r@[i] == end_line_position(line_lengths@[i], i, size),
{
    let mut r: Vec<(u16, u16)> = Vec::new();
    let mut i: usize = 0;
    while i < line_lengths.len()
        invariant
            i <= line_lengths@.len(),
            end_layout_ok(line_lengths@, size),
            r@.len() == i,
            forall|k: int|
                0 <= k < i ==> #[trigger] r@[k] == end_line_position(line_lengths@[k], k, size),
        decreases line_lengths@.len() - i,
    {
        let len = (line_lengths[i] % 65536) as u16;
        let row = (i % 65536) as u16;
        assert(line_lengths@[i as int] % 65536 <= size.0);
        r.push(((size.0 - len) / 2, size.1 / 2 + row));
        i = i + 1;
    }
    r
}

} // verus!
