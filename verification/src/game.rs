use vstd::prelude::*;
use rand::seq::IndexedRandom;

verus! {

/// A board cell, identified by its row and column.
#[derive(Copy, Clone, Debug, Eq, PartialEq, Structural)]
pub struct Position {
    pub row: i32,
    pub col: i32,
}

impl Position {
    pub fn new(row: i32, col: i32) -> (p: Position)
        ensures
            p == (Position { row, col }),
    {
        Position { row, col }
    }
}

/// The two perpendicular groups of directions. A requested turn is rejected
/// when it shares its axis with the current direction. (The labels are
/// deliberately inverted relative to visual movement: Up/Down belong to
/// `Horizontal`, Left/Right to `Vertical`; only the grouping matters.)
#[derive(Copy, Clone, Debug, Eq, PartialEq, Structural)]
pub enum Axis {
    Horizontal,
    Vertical,
}

/// The four directions the snake can move in.
#[derive(Copy, Clone, Debug, Eq, PartialEq, Structural)]
pub enum Direction {
    Up,
    Down,
    Left,
    Right,
}

/// The axis a direction belongs to.
pub open spec fn axis_of(d: Direction) -> Axis {
    match d {
        Direction::Up => Axis::Horizontal,
        Direction::Down => Axis::Horizontal,
        Direction::Left => Axis::Vertical,
        Direction::Right => Axis::Vertical,
    }
}

impl Direction {
    pub fn to_axis(&self) -> (a: Axis)
        ensures
            a == axis_of(*self),
    {
        match self {
            Direction::Up | Direction::Down => Axis::Horizontal,
            Direction::Left | Direction::Right => Axis::Vertical,
        }
    }
}

/// The board spans rows and columns -5 through 4 inclusive.
pub open spec fn in_board(p: Position) -> bool {
    -5 <= p.row && p.row <= 4 && -5 <= p.col && p.col <= 4
}

/// The cell one step from `p` in direction `d`; `p` itself when no
/// direction has been chosen yet.
pub open spec fn stepped(p: Position, d: Option<Direction>) -> Position {
    match d {
        Some(Direction::Up) => Position { row: (p.row - 1) as i32, col: p.col },
        Some(Direction::Down) => Position { row: (p.row + 1) as i32, col: p.col },
        Some(Direction::Left) => Position { row: p.row, col: (p.col - 1) as i32 },
        Some(Direction::Right) => Position { row: p.row, col: (p.col + 1) as i32 },
        None => p,
    }
}

/// Everything one `tick` guarantees about the step from `pre` to `post`.
/// The apple's new cell is chosen at random, so this is a relation rather
/// than a function of `pre`.
pub open spec fn tick_rel(pre: GameState, post: GameState) -> bool {
    let eaten = pre.head_position == pre.apple_position;
    &&& post.direction == pre.direction
    &&& post.head_position == stepped(pre.head_position, pre.direction)
    &&& post.tail_positions@ == (if eaten {
        pre.tail_positions@.push(pre.head_position)
    } else {
        pre.tail_positions@.push(pre.head_position).remove(0)
    })
    &&& (!eaten ==> post.apple_position == pre.apple_position)
    &&& (eaten && !pre.board_full() ==> in_board(post.apple_position)
        && !pre.occupies(post.apple_position))
    &&& (eaten && pre.board_full() ==> post.apple_position == pre.apple_position)
}

/// The whole state of one game session.
#[derive(Debug)]
pub struct GameState {
    /// Current movement direction; `None` until the first accepted request.
    pub direction: Option<Direction>,
    /// The leading cell of the snake.
    pub head_position: Position,
    /// Body cells excluding the head, oldest first.
    pub tail_positions: Vec<Position>,
    /// The cell the snake must reach to grow.
    pub apple_position: Position,
}

impl GameState {
    /// The snake's cells: tail segments in stored order, head last.
    pub open spec fn snake_cells(self) -> Seq<Position> {
        self.tail_positions@.push(self.head_position)
    }

    /// The snake (head or some tail segment) sits on `p`.
    pub open spec fn occupies(self, p: Position) -> bool {
        p == self.head_position || self.tail_positions@.contains(p)
    }

    /// The snake covers every board cell, leaving no room for an apple.
    pub open spec fn board_full(self) -> bool {
        forall|p: Position| in_board(p) ==> self.occupies(p)
    }

    /// A direction request is accepted only before the first request or
    /// across axes; a request along the current axis is ignored.
    pub open spec fn turn_allowed(self, d: Direction) -> bool {
        match self.direction {
            Some(c) => axis_of(c) != axis_of(d),
            None => true,
        }
    }

    pub fn new() -> (g: GameState)
        ensures
            g.direction is None,
            g.head_position == (Position { row: 0, col: 0 }),
            g.tail_positions@ == Seq::<Position>::empty(),
            g.apple_position == (Position { row: -1i32, col: -1i32 }),
    {
        GameState {
            direction: None,
            head_position: Position { row: 0, col: 0 },
            tail_positions: Vec::new(),
            apple_position: Position { row: -1, col: -1 },
        }
    }

    /// The score is the number of tail segments.
    pub fn get_score(&self) -> (score: i32)
        requires
            self.tail_positions@.len() <= i32::MAX,
        ensures
            score == self.tail_positions@.len(),
    {
        self.tail_positions.len() as i32
    }

    /// The head has left the board.
    pub fn is_out_of_bound(&self) -> (r: bool)
        ensures
            r == !in_board(self.head_position),
    {
        let pos = self.head_position;
        pos.row < -5 || pos.row > 4 || pos.col < -5 || pos.col > 4
    }

    pub fn get_apple_position(&self) -> (p: Position)
        ensures
            p == self.apple_position,
    {
        self.apple_position
    }

    /// The head sits on a pre-existing body cell.
    pub fn is_suicide(&self) -> (r: bool)
        ensures
            r == self.tail_positions@.contains(self.head_position),
    {
        contains_position(&self.tail_positions, self.head_position)
    }

    /// The game is over: the score threshold is reached, the head left the
    /// board, or the head ran into the body.
    pub fn is_end(&self) -> (r: bool)
        requires
            self.tail_positions@.len() <= i32::MAX,
        ensures
            r == (self.tail_positions@.len() >= 100 || !in_board(self.head_position)
                || self.tail_positions@.contains(self.head_position)),
    {
        self.get_score() >= 100 || self.is_out_of_bound() || self.is_suicide()
    }

    /// All snake cells, oldest tail segment first, head last.
    pub fn get_snake_positions(&self) -> (cells: Vec<Position>)
        ensures
            cells@ == self.snake_cells(),
    {
        let mut cells: Vec<Position> = Vec::new();
        let mut i: usize = 0;
        while i < self.tail_positions.len()
            invariant
                i <= self.tail_positions@.len(),
                cells@ == self.tail_positions@.subrange(0, i as int),
            decreases self.tail_positions@.len() - i,
        {
            cells.push(self.tail_positions[i]);
            proof {
                assert(cells@ =~= self.tail_positions@.subrange(0, i + 1));
            }
            i = i + 1;
        }
        proof {
            assert(cells@ =~= self.tail_positions@);
        }
        cells.push(self.head_position);
        cells
    }

    /// Adopt the requested direction when its axis differs from the current
    /// one (or none was set); otherwise leave everything unchanged.
    pub fn set_direction(&mut self, direction: Direction)
        ensures
            old(self).turn_allowed(direction) ==> final(self).direction == Some(direction),
            !old(self).turn_allowed(direction) ==> final(self).direction == old(self).direction,
            final(self).head_position == old(self).head_position,
            final(self).tail_positions@ == old(self).tail_positions@,
            final(self).apple_position == old(self).apple_position,
    {
        if self.can_turn_to(direction) {
            self.direction = Some(direction);
        }
    }

    /// Move the apple to a cell chosen at random among the board cells the
    /// snake does not occupy; when no such cell is left, leave it where it is.
    pub fn regenerate_apple(&mut self)
        ensures
            final(self).direction == old(self).direction,
            final(self).head_position == old(self).head_position,
            final(self).tail_positions@ == old(self).tail_positions@,
            !old(self).board_full() ==> in_board(final(self).apple_position)
                && !old(self).occupies(final(self).apple_position),
            old(self).board_full() ==> final(self).apple_position == old(self).apple_position,
    {
        let mut remaining_space: Vec<Position> = Vec::new();
        let mut row: i32 = -5;
        while row <= 4
            invariant
                *self == *old(self),
                -5 <= row <= 5,
                forall|q: Position| #[trigger]
                    remaining_space@.contains(q) ==> in_board(q) && !old(self).occupies(q),
                forall|q: Position|
                    in_board(q) && q.row < row && !old(self).occupies(q)
                        ==> #[trigger] remaining_space@.contains(q),
            decreases 5 - row,
        {
            let mut col: i32 = -5;
            while col <= 4
                invariant
                    *self == *old(self),
                    -5 <= row <= 4,
                    -5 <= col <= 5,
                    forall|q: Position| #[trigger]
                        remaining_space@.contains(q) ==> in_board(q) && !old(self).occupies(q),
                    forall|q: Position|
                        in_board(q) && !old(self).occupies(q)
                            && (q.row < row || (q.row == row && q.col < col))
                            ==> #[trigger] remaining_space@.contains(q),
                decreases 5 - col,
            {
                let p = Position::new(row, col);
                if !self.is_occupied(p) {
                    let ghost before = remaining_space@;
                    remaining_space.push(p);
                    proof {
                        assert forall|q: Position|
                            #[trigger] remaining_space@.contains(q)
                                == (before.contains(q) || q == p) by {
                            lemma_push_contains(before, p, q);
                        }
                    }
                }
                col = col + 1;
            }
            row = row + 1;
        }
        proof {
            if !old(self).board_full() {
                let w = choose|q: Position| in_board(q) && !old(self).occupies(q);
                assert(remaining_space@.contains(w));
            }
            if old(self).board_full() && remaining_space@.len() > 0 {
                assert(remaining_space@.contains(remaining_space@[0]));
            }
        }
        let new_position = choose_position(&remaining_space);
        if let Some(np) = new_position {
            self.apple_position = np;
        }
    }

    /// Advance the game by one step: the head's old cell joins the tail; the
    /// oldest tail segment is dropped unless the head sat on the apple, in
    /// which case the snake keeps it and the apple is placed anew; finally the
    /// head moves one cell in the current direction (or stays put when no
    /// direction was ever accepted).
    pub fn tick(&mut self)
        requires
            old(self).direction == Some(Direction::Up) ==> old(self).head_position.row > i32::MIN,
            old(self).direction == Some(Direction::Down) ==> old(self).head_position.row < i32::MAX,
            old(self).direction == Some(Direction::Left) ==> old(self).head_position.col > i32::MIN,
            old(self).direction == Some(Direction::Right) ==> old(self).head_position.col < i32::MAX,
        ensures
            tick_rel(*old(self), *final(self)),
    {
        let apple_eaten = self.head_position == self.apple_position;
        self.tail_positions.push(self.head_position);
        proof {
            assert forall|q: Position| self.occupies(q) == old(self).occupies(q) by {
                lemma_push_contains(old(self).tail_positions@, old(self).head_position, q);
            }
            assert(self.board_full() == old(self).board_full());
        }
        if apple_eaten {
            self.regenerate_apple();
        } else {
            self.tail_positions.remove(0);
        }

        let p = self.head_position;
        self.head_position = match self.direction {
            Some(Direction::Up) => Position::new(p.row - 1, p.col),
            Some(Direction::Down) => Position::new(p.row + 1, p.col),
            Some(Direction::Left) => Position::new(p.row, p.col - 1),
            Some(Direction::Right) => Position::new(p.row, p.col + 1),
            None => self.head_position,
        };
    }

    fn is_occupied(&self, p: Position) -> (r: bool)
        ensures
            r == self.occupies(p),
    {
        p == self.head_position || contains_position(&self.tail_positions, p)
    }

    fn can_turn_to(&self, d: Direction) -> (r: bool)
        ensures
            r == self.turn_allowed(d),
    {
        if let Some(direction) = self.direction {
            direction.to_axis() != d.to_axis()
        } else {
            true
        }
    }
}

/// Across one tick the snake keeps its cell count, unless the pre-tick head
/// sat on the pre-tick apple, in which case the count grows by exactly one.
pub proof fn lemma_tick_snake_length(pre: GameState, post: GameState)
    requires
        tick_rel(pre, post),
    ensures
        pre.head_position == pre.apple_position
            ==> post.snake_cells().len() == pre.snake_cells().len() + 1,
        pre.head_position != pre.apple_position
            ==> post.snake_cells().len() == pre.snake_cells().len(),
{
}

/// The snake's cell list is never empty and always ends with the current head.
pub proof fn lemma_snake_ends_with_head(g: GameState)
    ensures
        g.snake_cells().len() >= 1,
        g.snake_cells().last() == g.head_position,
{
}

/// A sequence extended by one element contains exactly what it contained
/// before, plus that element.
proof fn lemma_push_contains(s: Seq<Position>, x: Position, y: Position)
    ensures
        s.push(x).contains(y) == (s.contains(y) || y == x),
{
    if s.contains(y) {
        let i = choose|i: int| 0 <= i < s.len() && s[i] == y;
        assert(s.push(x)[i] == y);
    }
    if y == x {
        assert(s.push(x)[s.len() as int] == y);
    }
    if s.push(x).contains(y) {
        let i = choose|i: int| 0 <= i < s.push(x).len() && s.push(x)[i] == y;
        if i < s.len() {
            assert(s[i] == y);
        }
    }
}

/// Relies on rand's `IndexedRandom::choose` (driven by the thread-local
/// generator `rand::rng()`): it returns a uniformly sampled element of the
/// slice, or `None` exactly when the slice is empty.
#[verifier::external_body]
fn choose_position(cells: &Vec<Position>) -> (r: Option<Position>)
    ensures
        r is Some <==> cells@.len() > 0,
        r matches Some(p) ==> cells@.contains(p),
{
    cells.as_slice().choose(&mut rand::rng()).copied()
}

/// Whether `p` occurs among `cells`.
fn contains_position(cells: &Vec<Position>, p: Position) -> (r: bool)
    ensures
        r == cells@.contains(p),
{
    let mut i: usize = 0;
    while i < cells.len()
        invariant
            i <= cells@.len(),
            forall|j: int| 0 <= j < i ==> cells@[j] != p,
        decreases cells@.len() - i,
    {
        if cells[i] == p {
            return true;
        }
        i = i + 1;
    }
    false
}

} // verus!
