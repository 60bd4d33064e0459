use vstd::prelude::*;

use crate::chance::random_in;

verus! {

/// A heading the snake can take on the playground.
#[derive(Clone, Copy, Debug, PartialEq, Eq, Structural)]
pub enum Direction {
    Up,
    Down,
    Left,
    Right,
}

/// What a player asked for in one turn.
#[derive(Clone, Copy, Debug, PartialEq, Eq, Structural)]
pub enum CommandKeys {
    Directions(Direction),
    EatFood,
    Invalid,
    Exit,
    End,
    ChangeSpeed,
    Idle,
}

/// The per-axis step that a heading stands for.
pub open spec fn direction_vector(d: Direction) -> (int, int) {
    match d {
        Direction::Up => (0, -1),
        Direction::Down => (0, 1),
        Direction::Left => (-1, 0),
        Direction::Right => (1, 0),
    }
}

/// The value a `u16` holds when its bits are read as an `i16`.
pub open spec fn as_i16(p: u16) -> int {
    if p < 32768 {
        p as int
    } else {
        p as int - 65536
    }
}

pub open spec fn in_i16(v: int) -> bool {
    -32768 <= v <= 32767
}

/// One step of a coordinate stays inside `i16` arithmetic.
pub open spec fn step_coord_ok(p: u16, a: i16) -> bool {
    in_i16(as_i16(p) + a)
}

/// A coordinate after one step; a step below zero lands on zero.
pub open spec fn step_coord(p: u16, a: i16) -> u16 {
    let s = as_i16(p) + a;
    if s >= 0 {
        s as u16
    } else {
        0
    }
}

/// The value of a `u16` whose bits are read as an `i16`.
pub fn as_signed(p: u16) -> (r: i32)
    ensures
        r == as_i16(p),
{
    if p < 32768 {
        p as i32
    } else {
        p as i32 - 65536
    }
}

/// Moves a coordinate by one step, reading it as an `i16` and falling back to zero below zero.
pub fn step_coordinate(p: u16, a: i16) -> (r: u16)
    requires
        step_coord_ok(p, a),
    ensures
        r == step_coord(p, a),
{
    let w: i32 = as_signed(p);
    let s: i32 = w + a as i32;
    if s >= 0 {
        s as u16
    } else {
        0
    }
}

/// Whether one step of a coordinate stays inside `i16` arithmetic.
pub fn step_fits(p: u16, a: i16) -> (r: bool)
    ensures
        r == step_coord_ok(p, a),
{
    let w: i32 = as_signed(p);
    let s: i32 = w + a as i32;
    -32768 <= s && s <= 32767
}

/// A piece of a snake with its heading.
pub struct BodyPieces {
    pub direction: Direction,
    pub coordinate: (u16, u16),
}

/// The cells that one turn changes on the playground.
#[derive(Clone)]
pub struct PlaygroundChanges {
    pub change_to_x: Vec<(u16, u16)>,
    pub change_to_o: Vec<(u16, u16)>,
    pub remove_char: Vec<(u16, u16)>,
    pub add_food: Vec<((u16, u16), char)>,
}

/// Whether a player is still in the game; a finished game carries its message.
pub enum GameStatus {
    Dead(String),
    Alive,
}

/// What a client sends each turn.
pub struct ClientSendData {
    pub terminal_size: (u16, u16),
    pub command: CommandKeys,
    pub loose_weight: bool,
}

/// What the host answers each turn.
pub struct HostSideData {
    pub display_data: String,
    pub status: GameStatus,
    pub len: usize,
}

/// Why a player's session ended.
pub enum SessionError {
    /// The snake ran into a wall, a body piece or a head.
    Lost,
    /// The player pressed escape.
    Escaped,
    /// The connection failed or carried something unreadable.
    Io(String),
}

impl SessionError {
    pub open spec fn spec_message(&self) -> Seq<char> {
        match self {
            SessionError::Lost => "loose"@,
            SessionError::Escaped => "user pressed escape"@,
            SessionError::Io(m) => m@,
        }
    }

    /// The message the session ends with.
    pub fn message(&self) -> (r: String)
        ensures
            r@ == self.spec_message(),
    {
        match self {
            SessionError::Lost => String::from_str("loose"),
            SessionError::Escaped => String::from_str("user pressed escape"),
            SessionError::Io(m) => m.clone(),
        }
    }
}

/// A key the player pressed, as far as the game tells keys apart.
#[derive(Clone, Copy, Debug, PartialEq, Eq, Structural)]
pub enum Key {
    Up,
    Down,
    Left,
    Right,
    Char(char),
    Esc,
    Other,
}

/// A snake: its length, its pieces from tail to head, and the step it takes each turn.
pub struct SnakeBody {
    pub len: usize,
    pub pieces: Vec<(u16, u16)>,
    pub movement_adder: (i16, i16),
}

/// A product of integers is nonzero exactly when both factors are.
pub proof fn lemma_product_nonzero(a: int, b: int)
    ensures
        (a * b != 0) == (a != 0 && b != 0),
{
    assert((a * b != 0) == (a != 0 && b != 0)) by (nonlinear_arith);
}

impl SnakeBody {
    /// The piece that `len` marks as the head.
    pub open spec fn head(&self) -> (u16, u16) {
        self.pieces@[self.len - 1]
    }

    /// The head reaches a cell in this turn without leaving `i16` arithmetic.
    pub open spec fn can_move(&self) -> bool {
        &&& 1 <= self.len <= self.pieces@.len()
        &&& step_coord_ok(self.head().0, self.movement_adder.0)
        &&& step_coord_ok(self.head().1, self.movement_adder.1)
    }

    pub open spec fn next_head(&self) -> (u16, u16) {
        (
            step_coord(self.head().0, self.movement_adder.0),
            step_coord(self.head().1, self.movement_adder.1),
        )
    }

    /// The pieces after one move: the tail leaves, the new head joins at the end.
    pub open spec fn moved_pieces(&self) -> Seq<(u16, u16)> {
        self.pieces@.drop_first().push(self.next_head())
    }

    /// The pieces after eating once: the tail piece is doubled.
    pub open spec fn fed_pieces(&self) -> Seq<(u16, u16)> {
        seq![self.pieces@[0]] + self.pieces@
    }

    /// Moves one step: the tail piece leaves and a new head joins one step beyond the head.
    /// Hands back the changes for the playground: the new head, the old head that becomes a
    /// body piece, and the tail cell to blank.
    pub fn move_forward(&mut self) -> (changes: PlaygroundChanges)
        requires
            old(self).can_move(),
        ensures
            final(self).len == old(self).len,
            final(self).movement_adder == old(self).movement_adder,
            final(self).pieces@ == old(self).moved_pieces(),
            changes.change_to_x@ == seq![old(self).next_head()],
            changes.change_to_o@ == seq![old(self).head()],
            changes.remove_char@ == seq![old(self).pieces@[0]],
            changes.add_food@.len() == 0,
    {
        let previous_head = self.pieces[self.len - 1];
        let removed_tail = self.pieces.remove(0);
        let new_head = (
            step_coordinate(previous_head.0, self.movement_adder.0),
            step_coordinate(previous_head.1, self.movement_adder.1),
        );
        self.pieces.push(new_head);
        PlaygroundChanges {
            change_to_x: vec![new_head],
            change_to_o: vec![previous_head],
            remove_char: vec![removed_tail],
            add_food: Vec::new(),
        }
    }

    /// Grows by one piece: the tail piece is doubled, so the snake gets longer on its next
    /// move.
    pub fn eat_food(&mut self)
        requires
            old(self).pieces@.len() > 0,
            old(self).len < usize::MAX,
        ensures
            final(self).len == old(self).len + 1,
            final(self).movement_adder == old(self).movement_adder,
            final(self).pieces@ == old(self).fed_pieces(),
    {
        let tail = self.pieces[0];
        self.pieces.insert(0, tail);
        self.len = self.len + 1;
    }

    /// Takes a new heading, unless it lies on the axis the snake already moves along (a
    /// snake cannot turn back onto itself).
    pub fn change_direction(&mut self, direction: &Direction)
        ensures
            final(self).len == old(self).len,
            final(self).pieces@ == old(self).pieces@,
            ({
                let new = direction_vector(*direction);
                let cur = old(self).movement_adder;
                if new.0 * cur.0 != 0 || new.1 * cur.1 != 0 {
                    final(self).movement_adder == cur
                } else {
                    final(self).movement_adder.0 == new.0 && final(self).movement_adder.1 == new.1
                }
            }),
    {
        let new_movement_adder: (i16, i16) = match direction {
            Direction::Up => (0, -1),
            Direction::Down => (0, 1),
            Direction::Left => (-1, 0),
            Direction::Right => (1, 0),
        };
        let cur = self.movement_adder;
        proof {
            lemma_product_nonzero(new_movement_adder.0 as int, cur.0 as int);
            lemma_product_nonzero(new_movement_adder.1 as int, cur.1 as int);
        }
        if (new_movement_adder.0 != 0 && cur.0 != 0) || (new_movement_adder.1 != 0 && cur.1 != 0) {
            return;
        }
        self.movement_adder = new_movement_adder;
    }
}

/// The cells of a `w` by `h` rectangle.
pub open spec fn rect(w: int, h: int) -> Set<(int, int)> {
    Set::new(|p: (int, int)| 0 <= p.0 < w && 0 <= p.1 < h)
}

/// A rectangle has finitely many cells.
pub proof fn lemma_rect_finite(w: int, h: int)
    requires
        0 <= w,
        0 <= h,
    ensures
        rect(w, h).finite(),
    decreases w,
{
    if w == 0 {
        assert(rect(w, h) =~= Set::<(int, int)>::empty());
    } else {
        lemma_rect_finite(w - 1, h);
        vstd::set_lib::lemma_int_range(0, h);
        let column = vstd::set_lib::set_int_range(0, h).map(|y: int| (w - 1, y));
        vstd::set_lib::set_int_range(0, h).lemma_map_finite(|y: int| (w - 1, y));
        assert forall|p: (int, int)| #[trigger] rect(w, h).contains(p) implies rect(
            w - 1,
            h,
        ).union(column).contains(p) by {
            if p.0 == w - 1 {
                assert(vstd::set_lib::set_int_range(0, h).contains(p.1));
                assert(column.contains((w - 1, p.1)));
            }
        }
        assert(rect(w, h) =~= rect(w - 1, h).union(column));
    }
}

/// A playground: `cells[x][y]` is the character shown at column `x`, row `y`.
#[derive(Clone)]
pub struct Playground {
    pub cells: Vec<Vec<char>>,
}

impl Playground {
    pub open spec fn spec_width(&self) -> int {
        self.cells@.len() as int
    }

    pub open spec fn spec_height(&self) -> int {
        if self.cells@.len() == 0 {
            0
        } else {
            self.cells@[0]@.len() as int
        }
    }

    /// Rectangular, not empty, and small enough that every coordinate fits in a `u16`.
    pub open spec fn wf(&self) -> bool {
        &&& 1 <= self.spec_width() <= 65535
        &&& 1 <= self.spec_height() <= 65535
        &&& forall|x: int|
            0 <= x < self.spec_width() ==> #[trigger] self.cells@[x]@.len() == self.spec_height()
    }

    pub open spec fn cell(&self, x: int, y: int) -> char {
        self.cells@[x]@[y]
    }

    pub open spec fn holds(&self, x: int, y: int) -> bool {
        0 <= x < self.spec_width() && 0 <= y < self.spec_height()
    }

    pub open spec fn holds_point(&self, p: (u16, u16)) -> bool {
        self.holds(p.0 as int, p.1 as int)
    }

    /// Two playgrounds of one shape.
    pub open spec fn same_shape(&self, other: &Playground) -> bool {
        &&& self.spec_width() == other.spec_width()
        &&& self.spec_height() == other.spec_height()
        &&& (self.wf() <==> other.wf())
    }

    /// A blank playground `width` columns wide and `height` rows high.
    pub fn new(width: u16, height: u16) -> (r: Playground)
        requires
            width >= 1,
            height >= 1,
        ensures
            r.wf(),
            r.spec_width() == width,
            r.spec_height() == height,
            forall|x: int, y: int| r.holds(x, y) ==> r.cell(x, y) == ' ',
    {
        let mut cells: Vec<Vec<char>> = Vec::new();
        let mut i: u16 = 0;
        while i < width
            invariant
                i <= width,
                height >= 1,
                cells@.len() == i,
                forall|x: int| 0 <= x < i ==> #[trigger] cells@[x]@.len() == height,
                forall|x: int, y: int|
                    0 <= x < i && 0 <= y < height ==> #[trigger] cells@[x]@[y] == ' ',
            decreases width - i,
        {
            let mut row: Vec<char> = Vec::new();
            let mut j: u16 = 0;
            while j < height
                invariant
                    j <= height,
                    row@.len() == j,
                    forall|y: int| 0 <= y < j ==> #[trigger] row@[y] == ' ',
                decreases height - j,
            {
                row.push(' ');
                j = j + 1;
            }
            cells.push(row);
            i = i + 1;
        }
        Playground { cells }
    }

    /// The number of columns.
    pub fn width(&self) -> (r: usize)
        ensures
            r == self.spec_width(),
    {
        self.cells.len()
    }

    /// The number of rows.
    pub fn height(&self) -> (r: usize)
        ensures
            r == self.spec_height(),
    {
        if self.cells.len() == 0 {
            0
        } else {
            self.cells[0].len()
        }
    }

    /// The character at column `x`, row `y`.
    pub fn get(&self, x: usize, y: usize) -> (c: char)
        requires
            self.wf(),
            self.holds(x as int, y as int),
        ensures
            c == self.cell(x as int, y as int),
    {
        self.cells[x][y]
    }

    /// The blank cells of the box `[x_lo, x_hi) x [y_lo, y_hi)`.
    pub open spec fn blank_box(&self, x_lo: int, x_hi: int, y_lo: int, y_hi: int) -> Set<(int, int)> {
        Set::new(
            |p: (int, int)|
                x_lo <= p.0 < x_hi && y_lo <= p.1 < y_hi && self.holds(p.0, p.1) && self.cell(
                    p.0,
                    p.1,
                ) == ' ',
        )
    }

    pub proof fn lemma_blank_box_finite(&self, x_lo: int, x_hi: int, y_lo: int, y_hi: int)
        requires
            self.wf(),
        ensures
            self.blank_box(x_lo, x_hi, y_lo, y_hi).finite(),
    {
        lemma_rect_finite(self.spec_width(), self.spec_height());
        assert(self.blank_box(x_lo, x_hi, y_lo, y_hi).subset_of(
            rect(self.spec_width(), self.spec_height()),
        ));
        vstd::set_lib::lemma_len_subset(
            self.blank_box(x_lo, x_hi, y_lo, y_hi),
            rect(self.spec_width(), self.spec_height()),
        );
    }

    /// The blank cells of the box `[x_lo, x_hi) x [y_lo, y_hi)` already counted when the
    /// count has reached column `x`, row `y`.
    pub open spec fn blank_box_before(
        &self,
        x_lo: int,
        x_hi: int,
        y_lo: int,
        y_hi: int,
        x: int,
        y: int,
    ) -> Set<(int, int)> {
        self.blank_box(x_lo, x_hi, y_lo, y_hi).filter(
            |p: (int, int)| p.0 < x || (p.0 == x && p.1 < y),
        )
    }

    /// The number of blank cells in the box `[x_lo, x_hi) x [y_lo, y_hi)`.
    pub fn count_blank(&self, x_lo: usize, x_hi: usize, y_lo: usize, y_hi: usize) -> (r: u64)
        requires
            self.wf(),
        ensures
            r == self.blank_box(x_lo as int, x_hi as int, y_lo as int, y_hi as int).len(),
    {
        let ghost bx = self.blank_box(x_lo as int, x_hi as int, y_lo as int, y_hi as int);
        proof {
            self.lemma_blank_box_finite(x_lo as int, x_hi as int, y_lo as int, y_hi as int);
        }
        let w = self.width();
        let h = self.height();
        let x_end = if x_hi < w {
            x_hi
        } else {
            w
        };
        let y_end = if y_hi < h {
            y_hi
        } else {
            h
        };
        let mut count: u64 = 0;
        let mut x = x_lo;
        proof {
            assert(self.blank_box_before(
                x_lo as int,
                x_hi as int,
                y_lo as int,
                y_hi as int,
                x as int,
                y_lo as int,
            ) =~= Set::<(int, int)>::empty());
        }
        while x < x_end
            invariant
                self.wf(),
                bx == self.blank_box(x_lo as int, x_hi as int, y_lo as int, y_hi as int),
                bx.finite(),
                w == self.spec_width(),
                h == self.spec_height(),
                x_end <= w,
                y_end <= h,
                x_end == w || x_end == x_hi,
                y_end == h || y_end == y_hi,
                x_end <= x_hi,
                y_end <= y_hi,
                x_lo <= x,
                x == x_lo || x <= x_end,
                count <= (x - x_lo) * 65536,
                count == self.blank_box_before(
                    x_lo as int,
                    x_hi as int,
                    y_lo as int,
                    y_hi as int,
                    x as int,
                    y_lo as int,
                ).len(),
            decreases x_end - x,
        {
            let mut y = y_lo;
            while y < y_end
                invariant
                    self.wf(),
                    bx == self.blank_box(x_lo as int, x_hi as int, y_lo as int, y_hi as int),
                    bx.finite(),
                    w == self.spec_width(),
                    h == self.spec_height(),
                    x_lo <= x < x_end,
                    x_end <= w,
                    y_end <= h,
                    y_end == h || y_end == y_hi,
                    x_end <= x_hi,
                    y_end <= y_hi,
                    y_lo <= y,
                    y == y_lo || y <= y_end,
                    count <= (x - x_lo) * 65536 + (y - y_lo),
                    count == self.blank_box_before(
                        x_lo as int,
                        x_hi as int,
                        y_lo as int,
                        y_hi as int,
                        x as int,
                        y as int,
                    ).len(),
                decreases y_end - y,
            {
                let ghost before = self.blank_box_before(
                    x_lo as int,
                    x_hi as int,
                    y_lo as int,
                    y_hi as int,
                    x as int,
                    y as int,
                );
                let ghost after = self.blank_box_before(
                    x_lo as int,
                    x_hi as int,
                    y_lo as int,
                    y_hi as int,
                    x as int,
                    y + 1,
                );
                proof {
                    assert(before.subset_of(bx));
                    vstd::set_lib::lemma_len_subset(before, bx);
                }
                if self.cells[x][y] == ' ' {
                    proof {
                        assert(after =~= before.insert((x as int, y as int)));
                        assert(!before.contains((x as int, y as int)));
                    }
                    count = count + 1;
                } else {
                    assert(after =~= before);
                }
                y = y + 1;
            }
            proof {
                assert(self.blank_box_before(
                    x_lo as int,
                    x_hi as int,
                    y_lo as int,
                    y_hi as int,
                    x as int,
                    y as int,
                ) =~= self.blank_box_before(
                    x_lo as int,
                    x_hi as int,
                    y_lo as int,
                    y_hi as int,
                    x + 1,
                    y_lo as int,
                ));
            }
            x = x + 1;
        }
        proof {
            assert(self.blank_box_before(
                x_lo as int,
                x_hi as int,
                y_lo as int,
                y_hi as int,
                x as int,
                y_lo as int,
            ) =~= bx);
        }
        count
    }

    /// The `run` cells from `(x, y)` rightwards lie on the playground and are blank.
    pub open spec fn blank_run(&self, x: int, y: int, run: int) -> bool {
        forall|i: int|
            #![trigger self.cell(i, y)]
            x <= i < x + run ==> self.holds(i, y) && self.cell(i, y) == ' '
    }

    /// A blank run of `run` cells starts at `(x, y)`, inside the box `[x_lo, x_hi) x [y_lo, y_hi)`.
    pub open spec fn blank_in(
        &self,
        x_lo: int,
        x_hi: int,
        y_lo: int,
        y_hi: int,
        run: int,
        x: int,
        y: int,
    ) -> bool {
        &&& x_lo <= x < x_hi
        &&& y_lo <= y < y_hi
        &&& self.blank_run(x, y, run)
    }

    pub open spec fn has_blank_in(&self, x_lo: int, x_hi: int, y_lo: int, y_hi: int, run: int) -> bool {
        exists|x: int, y: int| self.blank_in(x_lo, x_hi, y_lo, y_hi, run, x, y)
    }

    /// Whether the `run` cells from `(x, y)` rightwards lie on the playground and are blank.
    pub fn is_blank_run(&self, x: usize, y: usize, run: usize) -> (r: bool)
        requires
            self.wf(),
            x < 65536,
            1 <= run < 65536,
        ensures
            r == self.blank_run(x as int, y as int, run as int),
    {
        let w = self.width();
        let h = self.height();
        if y >= h {
            proof {
                assert(!self.blank_run(x as int, y as int, run as int)) by {
                    let c = self.cell(x as int, y as int);
                }
            }
            return false;
        }
        let mut k: usize = 0;
        while k < run
            invariant
                self.wf(),
                w == self.spec_width(),
                h == self.spec_height(),
                y < h,
                x < 65536,
                run < 65536,
                k <= run,
                self.blank_run(x as int, y as int, k as int),
            decreases run - k,
        {
            if x + k >= w || self.cells[x + k][y] != ' ' {
                assert(!self.blank_run(x as int, y as int, run as int)) by {
                    let c = self.cell(x + k, y as int);
                }
                return false;
            }
            k = k + 1;
        }
        true
    }

    /// Every start of a blank run of `run` cells inside the box, each once, column by
    /// column and, within a column, row by row.
    pub fn blank_runs(&self, x_lo: usize, x_hi: usize, y_lo: usize, y_hi: usize, run: usize) -> (found:
        Vec<(usize, usize)>)
        requires
            self.wf(),
            1 <= run < 65536,
        ensures
            forall|i: int|
                0 <= i < found@.len() ==> self.blank_in(
                    x_lo as int,
                    x_hi as int,
                    y_lo as int,
                    y_hi as int,
                    run as int,
                    (#[trigger] found@[i]).0 as int,
                    found@[i].1 as int,
                ),
            forall|x: int, y: int|
                #![trigger self.blank_in(x_lo as int, x_hi as int, y_lo as int, y_hi as int, run as int, x, y)]
                self.blank_in(x_lo as int, x_hi as int, y_lo as int, y_hi as int, run as int, x, y)
                    ==> found@.contains((x as usize, y as usize)),
            found@.no_duplicates(),
    {
        let w = self.width();
        let h = self.height();
        let x_end = if x_hi < w {
            x_hi
        } else {
            w
        };
        let y_end = if y_hi < h {
            y_hi
        } else {
            h
        };
        let mut found: Vec<(usize, usize)> = Vec::new();
        let mut x = x_lo;
        while x < x_end
            invariant
                self.wf(),
                w == self.spec_width(),
                h == self.spec_height(),
                x_end <= w,
                y_end <= h,
                x_end <= x_hi,
                y_end <= y_hi,
                1 <= run < 65536,
                x_end == w || x_end == x_hi,
                y_end == h || y_end == y_hi,
                x_lo <= x,
                forall|i: int|
                    0 <= i < found@.len() ==> self.blank_in(
                        x_lo as int,
                        x_hi as int,
                        y_lo as int,
                        y_hi as int,
                        run as int,
                        (#[trigger] found@[i]).0 as int,
                        found@[i].1 as int,
                    ),
                forall|i: int| 0 <= i < found@.len() ==> (#[trigger] found@[i]).0 < x,
                found@.no_duplicates(),
                forall|i: int, j: int|
                    #![trigger self.blank_in(x_lo as int, x_hi as int, y_lo as int, y_hi as int, run as int, i, j)]
                    x_lo <= i < x && self.blank_in(
                        x_lo as int,
                        x_hi as int,
                        y_lo as int,
                        y_hi as int,
                        run as int,
                        i,
                        j,
                    ) ==> found@.contains((i as usize, j as usize)),
            decreases x_end - x,
        {
            let mut y = y_lo;
            while y < y_end
                invariant
                    self.wf(),
                    w == self.spec_width(),
                    h == self.spec_height(),
                    x_lo <= x < x_end,
                    x_end <= w,
                    y_end <= h,
                    x_end <= x_hi,
                    y_end <= y_hi,
                    1 <= run < 65536,
                    y_end == h || y_end == y_hi,
                    y_lo <= y,
                    forall|i: int|
                        0 <= i < found@.len() ==> self.blank_in(
                            x_lo as int,
                            x_hi as int,
                            y_lo as int,
                            y_hi as int,
                            run as int,
                            (#[trigger] found@[i]).0 as int,
                            found@[i].1 as int,
                        ),
                    forall|i: int|
                        0 <= i < found@.len() ==> (#[trigger] found@[i]).0 < x || (found@[i].0
                            == x && found@[i].1 < y),
                    found@.no_duplicates(),
                    forall|i: int, j: int|
                        #![trigger self.blank_in(x_lo as int, x_hi as int, y_lo as int, y_hi as int, run as int, i, j)]
                        (x_lo <= i < x || (i == x && y_lo <= j < y)) && self.blank_in(
                            x_lo as int,
                            x_hi as int,
                            y_lo as int,
                            y_hi as int,
                            run as int,
                            i,
                            j,
                        ) ==> found@.contains((i as usize, j as usize)),
                decreases y_end - y,
            {
                let ghost before = found@;
                if self.is_blank_run(x, y, run) {
                    found.push((x, y));
                    proof {
                        assert forall|i: int, j: int|
                            (x_lo <= i < x || (i == x && y_lo <= j < y + 1)) && self.blank_in(
                                x_lo as int,
                                x_hi as int,
                                y_lo as int,
                                y_hi as int,
                                run as int,
                                i,
                                j,
                            ) implies found@.contains((i as usize, j as usize)) by {
                            if i == x && j == y {
                                assert(found@[before.len() as int] == (x, y));
                            } else {
                                let k = choose|k: int|
                                    0 <= k < before.len() && before[k] == (i as usize, j as usize);
                                assert(found@[k] == before[k]);
                            }
                        }
                        assert forall|a: int, b: int|
                            0 <= a < found@.len() && 0 <= b < found@.len() && a != b implies found@[a]
                            != found@[b] by {
                            if a < before.len() && b < before.len() {
                                assert(before[a] != before[b]);
                            }
                        }
                    }
                } else {
                    proof {
                        assert forall|i: int, j: int|
                            (x_lo <= i < x || (i == x && y_lo <= j < y + 1)) && self.blank_in(
                                x_lo as int,
                                x_hi as int,
                                y_lo as int,
                                y_hi as int,
                                run as int,
                                i,
                                j,
                            ) implies found@.contains((i as usize, j as usize)) by {
                            if i == x && j == y {
                                assert(!self.blank_run(x as int, y as int, run as int));
                            }
                        }
                    }
                }
                y = y + 1;
            }
            proof {
                assert forall|i: int, j: int|
                    x_lo <= i < x + 1 && self.blank_in(
                        x_lo as int,
                        x_hi as int,
                        y_lo as int,
                        y_hi as int,
                        run as int,
                        i,
                        j,
                    ) implies found@.contains((i as usize, j as usize)) by {
                    if i == x && j >= y {
                        let c = self.cell(i, j);
                    }
                }
            }
            x = x + 1;
        }
        proof {
            assert forall|i: int, j: int|
                self.blank_in(x_lo as int, x_hi as int, y_lo as int, y_hi as int, run as int, i, j)
                implies found@.contains((i as usize, j as usize)) by {
                if i >= x {
                    let c = self.cell(i, j);
                }
            }
        }
        found
    }

    /// The start of a blank run of `run` cells inside the box, drawn at random among all
    /// of them (those of `blank_runs`); `None` when the box holds none.
    pub fn random_blank_run(&self, x_lo: usize, x_hi: usize, y_lo: usize, y_hi: usize, run: usize) -> (r:
        Option<(usize, usize)>)
        requires
            self.wf(),
            1 <= run < 65536,
        ensures
            r is None <==> !self.has_blank_in(x_lo as int, x_hi as int, y_lo as int, y_hi as int, run as int),
            r matches Some(p) ==> self.blank_in(
                x_lo as int,
                x_hi as int,
                y_lo as int,
                y_hi as int,
                run as int,
                p.0 as int,
                p.1 as int,
            ),
    {
        let found = self.blank_runs(x_lo, x_hi, y_lo, y_hi, run);
        if found.len() == 0 {
            proof {
                assert forall|i: int, j: int|
                    !self.blank_in(x_lo as int, x_hi as int, y_lo as int, y_hi as int, run as int, i, j) by {
                    if self.blank_in(x_lo as int, x_hi as int, y_lo as int, y_hi as int, run as int, i, j) {
                        assert(found@.contains((i as usize, j as usize)));
                    }
                }
            }
            None
        } else {
            let k = random_in(0, found.len());
            proof {
                let p = found@[k as int];
                assert(self.blank_in(x_lo as int, x_hi as int, y_lo as int, y_hi as int, run as int, p.0 as int, p.1 as int));
            }
            Some(found[k])
        }
    }

    /// Writes `c` at column `x`, row `y`, leaving every other cell as it was.
    pub fn set(&mut self, x: usize, y: usize, c: char)
        requires
            old(self).wf(),
            old(self).holds(x as int, y as int),
        ensures
            final(self).wf(),
            final(self).same_shape(old(self)),
            final(self).cell(x as int, y as int) == c,
            forall|i: int, j: int|
                old(self).holds(i, j) && (i != x || j != y) ==> final(self).cell(i, j) == old(
                    self,
                ).cell(i, j),
    {
        self.cells[x][y] = c;
    }
}

} // verus!
