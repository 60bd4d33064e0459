use vstd::prelude::*;

pub use crate::model::Direction;
use crate::model::{
    as_i16, as_signed, direction_vector, in_i16, lemma_product_nonzero, step_coord, step_coord_ok,
    step_coordinate,
};

verus! {

/// What the player asked for in the single-player game.
#[derive(Clone, Copy, Debug, PartialEq, Eq, Structural)]
pub enum CommandKeys {
    Directions(Direction),
    EatFood,
    Invalid,
    Exit,
    End,
    Faster,
    Idle,
}

impl CommandKeys {
    /// No command is waiting.
    pub fn is_none(&self) -> (r: bool)
        ensures
            r == (*self == CommandKeys::Idle),
    {
        if let CommandKeys::Idle = *self {
            return true;
        }
        false
    }
}

/// A piece of a snake with its heading.
pub struct BodyPieces {
    pub direction: Direction,
    pub coordinate: (u16, u16),
}

/// The cells one move of the single-player snake touches.
pub struct SnakeChanges {
    pub new_head: (u16, u16),
    pub previous_head: (u16, u16),
    pub removed_tail: (u16, u16),
}

/// The single-player snake: its length, its pieces from tail to head, and its step.
pub struct SnakeBody {
    pub len: usize,
    pub pieces: Vec<(u16, u16)>,
    pub movement_adder: (i16, i16),
}

/// The coordinate one step beyond `t0` on the line from `t1` through `t0`, in `i16`
/// arithmetic read back as a `u16`.
pub open spec fn extend_coord(t0: u16, t1: u16) -> u16 {
    let v = 2 * as_i16(t0) - as_i16(t1);
    if v >= 0 {
        v as u16
    } else {
        (v + 65536) as u16
    }
}

pub open spec fn extend_coord_ok(t0: u16, t1: u16) -> bool {
    in_i16(as_i16(t0) - as_i16(t1)) && in_i16(2 * as_i16(t0) - as_i16(t1))
}

/// The pieces can grow by one at the tail without leaving `i16` arithmetic.
pub open spec fn extend_ok(pieces: Seq<(u16, u16)>) -> bool {
    &&& pieces.len() >= 2
    &&& extend_coord_ok(pieces[0].0, pieces[1].0)
    &&& extend_coord_ok(pieces[0].1, pieces[1].1)
}

/// The pieces after growing by one: a new tail continues the line of the last two.
pub open spec fn extended(pieces: Seq<(u16, u16)>) -> Seq<(u16, u16)> {
    seq![(extend_coord(pieces[0].0, pieces[1].0), extend_coord(pieces[0].1, pieces[1].1))]
        + pieces
}

pub open spec fn extended_times(pieces: Seq<(u16, u16)>, n: nat) -> Seq<(u16, u16)>
    decreases n,
{
    if n == 0 {
        pieces
    } else {
        extended(extended_times(pieces, (n - 1) as nat))
    }
}

pub open spec fn extend_times_ok(pieces: Seq<(u16, u16)>, n: nat) -> bool
    decreases n,
{
    n == 0 || (extend_times_ok(pieces, (n - 1) as nat) && extend_ok(
        extended_times(pieces, (n - 1) as nat),
    ))
}

/// One coordinate of the new tail.
fn extend_coordinate(t0: u16, t1: u16) -> (r: u16)
    requires
        extend_coord_ok(t0, t1),
    ensures
        r == extend_coord(t0, t1),
{
    let w0: i32 = as_signed(t0);
    let w1: i32 = as_signed(t1);
    let v: i32 = (w0 - w1) + w0;
    if v >= 0 {
        v as u16
    } else {
        (v + 65536) as u16
    }
}

/// Whether the pieces can grow by one: `extend_ok`, computed.
pub fn can_extend(pieces: &Vec<(u16, u16)>) -> (r: bool)
    ensures
        r == extend_ok(pieces@),
{
    if pieces.len() < 2 {
        return false;
    }
    let t0 = pieces[0];
    let t1 = pieces[1];
    let d0 = as_signed(t0.0) - as_signed(t1.0);
    let d1 = as_signed(t0.1) - as_signed(t1.1);
    let e0 = d0 + as_signed(t0.0);
    let e1 = d1 + as_signed(t0.1);
    -32768 <= d0 && d0 <= 32767 && -32768 <= e0 && e0 <= 32767 && -32768 <= d1 && d1 <= 32767
        && -32768 <= e1 && e1 <= 32767
}

/// Copies a list of points.
pub fn copy_points(points: &Vec<(u16, u16)>) -> (r: Vec<(u16, u16)>)
    ensures
        r@ == points@,
{
    let mut r: Vec<(u16, u16)> = Vec::new();
    let mut i: usize = 0;
    while i < points.len()
        invariant
            i <= points@.len(),
            r@ == points@.take(i as int),
        decreases points@.len() - i,
    {
        r.push(points[i]);
        assert(points@.take(i + 1) == points@.take(i as int).push(points@[i as int]));
        i = i + 1;
    }
    assert(points@.take(points@.len() as int) == points@);
    r
}

impl SnakeBody {
    pub open spec fn head(&self) -> (u16, u16) {
        self.pieces@[self.len - 1]
    }

    pub open spec fn can_move(&self) -> bool {
        &&& 1 <= self.len <= self.pieces@.len()
        &&& step_coord_ok(self.head().0, self.movement_adder.0)
        &&& step_coord_ok(self.head().1, self.movement_adder.1)
    }

    pub open spec fn next_head(&self) -> (u16, u16) {
        (
            step_coord(self.head().0, self.movement_adder.0),
            step_coord(self.head().1, self.movement_adder.1),
        )
    }

    pub open spec fn moved_pieces(&self) -> Seq<(u16, u16)> {
        self.pieces@.drop_first().push(self.next_head())
    }

    /// Takes a new heading, unless it lies on the axis the snake already moves along.
    pub fn change_direction(&mut self, direction: &Direction)
        ensures
            final(self).len == old(self).len,
            final(self).pieces@ == old(self).pieces@,
            ({
                let new = direction_vector(*direction);
                let cur = old(self).movement_adder;
                if new.0 * cur.0 != 0 || new.1 * cur.1 != 0 {
                    final(self).movement_adder == cur
                } else {
                    final(self).movement_adder.0 == new.0 && final(self).movement_adder.1 == new.1
                }
            }),
    {
        let new_movement_adder: (i16, i16) = match direction {
            Direction::Up => (0, -1),
            Direction::Down => (0, 1),
            Direction::Left => (-1, 0),
            Direction::Right => (1, 0),
        };
        let cur = self.movement_adder;
        proof {
            lemma_product_nonzero(new_movement_adder.0 as int, cur.0 as int);
            lemma_product_nonzero(new_movement_adder.1 as int, cur.1 as int);
        }
        if (new_movement_adder.0 != 0 && cur.0 != 0) || (new_movement_adder.1 != 0 && cur.1
            != 0) {
            return;
        }
        self.movement_adder = new_movement_adder;
    }

    /// Moves one step: the tail leaves and a new head joins. Hands back the pieces after
    /// the move and the three cells the move touched.
    pub fn move_forward(&mut self) -> (r: (Vec<(u16, u16)>, SnakeChanges))
        requires
            old(self).can_move(),
        ensures
            final(self).len == old(self).len,
            final(self).movement_adder == old(self).movement_adder,
            final(self).pieces@ == old(self).moved_pieces(),
            r.0@ == final(self).pieces@,
            r.1.new_head == old(self).next_head(),
            r.1.previous_head == old(self).head(),
            r.1.removed_tail == old(self).pieces@[0],
    {
        let previous_head = self.pieces[self.len - 1];
        let removed_tail = self.pieces.remove(0);
        let new_head = (
            step_coordinate(previous_head.0, self.movement_adder.0),
            step_coordinate(previous_head.1, self.movement_adder.1),
        );
        self.pieces.push(new_head);
        (copy_points(&self.pieces), SnakeChanges { new_head, previous_head, removed_tail })
    }

    /// Grows by one piece at the tail, continuing the line of the last two pieces.
    pub fn eat_food(&mut self)
        requires
            extend_ok(old(self).pieces@),
            old(self).len < usize::MAX,
        ensures
            final(self).len == old(self).len + 1,
            final(self).movement_adder == old(self).movement_adder,
            final(self).pieces@ == extended(old(self).pieces@),
    {
        let tail0 = self.pieces[0];
        let tail1 = self.pieces[1];
        let new_tail = (extend_coordinate(tail0.0, tail1.0), extend_coordinate(tail0.1, tail1.1));
        self.pieces.insert(0, new_tail);
        self.len = self.len + 1;
    }
}

} // verus!
