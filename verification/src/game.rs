//! The game engine: grid coordinates, the snake, movement with wrap-around,
//! food placement, score, and the per-tick state machine.

use vstd::prelude::*;

verus! {

use vstd::arithmetic::div_mod::{lemma_fundamental_div_mod, lemma_mod_bound, lemma_multiply_divide_lt};
use vstd::relations::injective_on;
use vstd::seq_lib::seq_to_set_is_finite;
use vstd::set_lib::{lemma_int_range, lemma_len_subset, lemma_map_size, set_int_range};
use crate::sampling::sample_below;

/// A cell of the square grid: a column and a row, each in `[0, size)`.
#[derive(Clone, Copy, PartialEq, Eq, Structural, Debug)]
pub struct Pos {
    pub col: u16,
    pub row: u16,
}

/// The direction the snake is travelling in.
#[derive(Clone, Copy, PartialEq, Eq, Structural, Debug)]
pub enum Direction {
    Up,
    Right,
    Left,
    Down,
}

/// Whether a coordinate lies on a grid of the given side length.
pub open spec fn in_grid(p: Pos, size: u16) -> bool {
    p.col < size && p.row < size
}

/// The direct reverse of a direction; a request for it is ignored.
pub open spec fn opposite(d: Direction) -> Direction {
    match d {
        Direction::Up => Direction::Down,
        Direction::Down => Direction::Up,
        Direction::Left => Direction::Right,
        Direction::Right => Direction::Left,
    }
}

/// One move of a coordinate in a direction. Leaving the grid either wraps to
/// the opposite edge (`warping`) or leaves the coordinate unchanged on that
/// axis (the frozen-edge policy).
pub open spec fn step_spec(p: Pos, d: Direction, size: u16, warping: bool) -> Pos {
    match d {
        Direction::Up => if p.row > 0 {
            Pos { col: p.col, row: (p.row - 1) as u16 }
        } else if warping {
            Pos { col: p.col, row: (size - 1) as u16 }
        } else {
            p
        },
        Direction::Left => if p.col > 0 {
            Pos { col: (p.col - 1) as u16, row: p.row }
        } else if warping {
            Pos { col: (size - 1) as u16, row: p.row }
        } else {
            p
        },
        Direction::Down => if p.row < size - 1 {
            Pos { col: p.col, row: (p.row + 1) as u16 }
        } else if warping {
            Pos { col: p.col, row: 0 }
        } else {
            p
        },
        Direction::Right => if p.col < size - 1 {
            Pos { col: (p.col + 1) as u16, row: p.row }
        } else if warping {
            Pos { col: 0, row: p.row }
        } else {
            p
        },
    }
}

/// Executable counterpart of `step_spec`; the result stays on the grid.
pub fn step(p: Pos, d: Direction, size: u16, warping: bool) -> (q: Pos)
    requires
        1 <= size,
        in_grid(p, size),
    ensures
        q == step_spec(p, d, size, warping),
        in_grid(q, size),
{
    match d {
        Direction::Up => {
            if p.row > 0 {
                Pos { col: p.col, row: p.row - 1 }
            } else if warping {
                Pos { col: p.col, row: size - 1 }
            } else {
                p
            }
        },
        Direction::Left => {
            if p.col > 0 {
                Pos { col: p.col - 1, row: p.row }
            } else if warping {
                Pos { col: size - 1, row: p.row }
            } else {
                p
            }
        },
        Direction::Down => {
            if p.row < size - 1 {
                Pos { col: p.col, row: p.row + 1 }
            } else if warping {
                Pos { col: p.col, row: 0 }
            } else {
                p
            }
        },
        Direction::Right => {
            if p.col < size - 1 {
                Pos { col: p.col + 1, row: p.row }
            } else if warping {
                Pos { col: 0, row: p.row }
            } else {
                p
            }
        },
    }
}

/// A keyboard event, already decoded: quit, a direction request, or a key
/// the game ignores.
#[derive(Clone, Copy, PartialEq, Eq, Structural, Debug)]
pub enum Key {
    Quit,
    Arrow(Direction),
    Other,
}

/// The whole game state.
pub struct Game {
    /// Side length of the square grid.
    pub size: u16,
    /// Edge policy: wrap to the opposite edge, or freeze at the boundary.
    pub warping: bool,
    /// Number of food items eaten so far.
    pub score: usize,
    /// The snake's cells, head first, tail last.
    pub snake: Vec<Pos>,
    /// The current food coordinate.
    pub food: Pos,
    /// The direction the next tick will move the head in.
    pub direction: Direction,
}

impl Game {
    /// Well-formedness: the grid is non-degenerate, the snake's length tracks
    /// the score, every cell lies on the grid, and the food lies on the grid
    /// off the snake.
    pub open spec fn wf(self) -> bool {
        &&& 1 <= self.size
        &&& self.snake@.len() == self.score + 1
        &&& forall|i: int| 0 <= i < self.snake@.len() ==> in_grid(#[trigger] self.snake@[i], self.size)
        &&& in_grid(self.food, self.size)
        &&& !self.snake@.contains(self.food)
    }

    /// A fresh game on the default grid: one-cell snake at the origin,
    /// heading right, food at (2, 2), score zero.
    pub fn new() -> (g: Game)
        ensures
            g.wf(),
            g.size == 25,
            g.warping == true,
            g.score == 0,
            g.snake@ == seq![Pos { col: 0, row: 0 }],
            g.food == (Pos { col: 2, row: 2 }),
            g.direction == Direction::Right,
    {
        Game::with_config(25, true)
    }

    /// A fresh game on a grid of the given side length and edge policy; the
    /// initial food at (2, 2) asks for a side of at least 3.
    pub fn with_config(size: u16, warping: bool) -> (g: Game)
        requires
            3 <= size,
        ensures
            g.wf(),
            g.size == size,
            g.warping == warping,
            g.score == 0,
            g.snake@ == seq![Pos { col: 0, row: 0 }],
            g.food == (Pos { col: 2, row: 2 }),
            g.direction == Direction::Right,
    {
        let snake: Vec<Pos> = vec![Pos { col: 0, row: 0 }];
        let g = Game {
            size,
            warping,
            score: 0,
            snake,
            food: Pos { col: 2, row: 2 },
            direction: Direction::Right,
        };
        proof {
            assert(g.snake@ == seq![Pos { col: 0, row: 0 }]);
            assert(!g.snake@.contains(g.food)) by {
                assert(forall|i: int| 0 <= i < g.snake@.len() ==> g.snake@[i] == (Pos { col: 0, row: 0 }));
            }
        }
        g
    }

    /// Apply a requested direction; the direct reverse of the current
    /// direction is silently dropped.
    pub fn set_direction(&mut self, d: Direction)
        ensures
            final(self).direction == (if d == opposite(old(self).direction) {
                old(self).direction
            } else {
                d
            }),
            final(self).size == old(self).size,
            final(self).warping == old(self).warping,
            final(self).score == old(self).score,
            final(self).snake == old(self).snake,
            final(self).food == old(self).food,
    {
        let rejected = match (d, self.direction) {
            (Direction::Up, Direction::Down) => true,
            (Direction::Down, Direction::Up) => true,
            (Direction::Left, Direction::Right) => true,
            (Direction::Right, Direction::Left) => true,
            _ => false,
        };
        if !rejected {
            self.direction = d;
        }
    }

    /// Digest one polled key: `Quit` asks the loop to stop, an arrow is a
    /// direction request, anything else (or no key at all) changes nothing.
    pub fn handle_key(&mut self, key: Option<Key>) -> (continue_running: bool)
        ensures
            continue_running == (key != Some(Key::Quit)),
            final(self).direction == (match key {
                Some(Key::Arrow(d)) => if d == opposite(old(self).direction) {
                    old(self).direction
                } else {
                    d
                },
                _ => old(self).direction,
            }),
            final(self).size == old(self).size,
            final(self).warping == old(self).warping,
            final(self).score == old(self).score,
            final(self).snake == old(self).snake,
            final(self).food == old(self).food,
    {
        match key {
            Some(Key::Quit) => false,
            Some(Key::Arrow(d)) => {
                self.set_direction(d);
                true
            },
            _ => true,
        }
    }
}

/// Whether the vector holds the given coordinate.
pub fn contains_pos(v: &Vec<Pos>, p: Pos) -> (found: bool)
    ensures
        found == v@.contains(p),
{
    let mut i: usize = 0;
    while i < v.len()
        invariant
            i <= v@.len(),
            forall|k: int| 0 <= k < i ==> v@[k] != p,
        decreases v@.len() - i,
    {
        if v[i] == p {
            return true;
        }
        i = i + 1;
    }
    false
}

/// Pigeonhole: a snake with fewer cells than the grid has leaves at least one
/// grid cell free, so food placement can always succeed.
pub proof fn lemma_free_cell_exists(s: Seq<Pos>, size: u16)
    requires
        s.len() < (size as int) * (size as int),
    ensures
        exists|p: Pos| in_grid(p, size) && !s.contains(p),
{
    let n = size as int;
    assert(n > 0) by (nonlinear_arith)
        requires
            s.len() < n * n,
            s.len() >= 0,
            n >= 0,
    ;
    if !(exists|p: Pos| in_grid(p, size) && !s.contains(p)) {
        assert(forall|p: Pos| in_grid(p, size) ==> s.contains(p));
        let idx = set_int_range(0, n * n);
        lemma_int_range(0, n * n);
        let f = |i: int| Pos { col: (i % n) as u16, row: (i / n) as u16 };
        assert forall|i: int| idx.contains(i) implies in_grid(#[trigger] f(i), size) by {
            lemma_mod_bound(i, n);
            lemma_multiply_divide_lt(i, n, n);
        }
        assert(injective_on(f, idx)) by {
            assert forall|i: int, j: int|
                idx.contains(i) && idx.contains(j) && #[trigger] f(i) == #[trigger] f(j)
            implies i == j by {
                lemma_mod_bound(i, n);
                lemma_mod_bound(j, n);
                lemma_multiply_divide_lt(i, n, n);
                lemma_multiply_divide_lt(j, n, n);
                assert(i % n == j % n);
                assert(i / n == j / n);
                lemma_fundamental_div_mod(i, n);
                lemma_fundamental_div_mod(j, n);
            }
        }
        let cells = idx.map(f);
        lemma_map_size(idx, cells, f);
        seq_to_set_is_finite(s);
        assert forall|p: Pos| cells.contains(p) implies s.to_set().contains(p) by {
            let i = choose|i: int| idx.contains(i) && p == f(i);
            lemma_mod_bound(i, n);
            lemma_multiply_divide_lt(i, n, n);
            assert(in_grid(p, size));
            assert(s.contains(p));
        }
        lemma_len_subset(cells, s.to_set());
        s.lemma_cardinality_of_set();
        assert(false);
    }
}

/// The first grid cell, scanning column by column, that the snake does not
/// occupy. The pigeonhole bound guarantees one exists.
fn first_free_cell(snake: &Vec<Pos>, size: u16) -> (p: Pos)
    requires
        1 <= size,
        snake@.len() < (size as int) * (size as int),
    ensures
        in_grid(p, size),
        !snake@.contains(p),
{
    let mut col: u16 = 0;
    while col < size
        invariant
            col <= size,
            forall|q: Pos| q.col < col && q.row < size ==> snake@.contains(q),
        decreases size - col,
    {
        let mut row: u16 = 0;
        while row < size
            invariant
                row <= size,
                col < size,
                forall|q: Pos| q.col < col && q.row < size ==> snake@.contains(q),
                forall|q: Pos| q.col == col && q.row < row ==> snake@.contains(q),
            decreases size - row,
        {
            let p = Pos { col, row };
            if !contains_pos(snake, p) {
                return p;
            }
            row = row + 1;
        }
        col = col + 1;
    }
    proof {
        lemma_free_cell_exists(snake@, size);
        let w = choose|q: Pos| in_grid(q, size) && !snake@.contains(q);
        assert(snake@.contains(w));
        assert(false);
    }
    Pos { col: 0, row: 0 }
}

impl Game {
    /// The cell the head moves to on the next tick.
    pub open spec fn next_head(self) -> Pos {
        step_spec(self.snake@[0], self.direction, self.size, self.warping)
    }

    /// If the food lies on the snake, award a point and place new food;
    /// otherwise change nothing. The snake itself is untouched.
    pub fn check_collision(&mut self)
        requires
            1 <= old(self).size,
            old(self).score < usize::MAX,
            old(self).snake@.len() < (old(self).size as int) * (old(self).size as int),
        ensures
            final(self).size == old(self).size,
            final(self).warping == old(self).warping,
            final(self).direction == old(self).direction,
            final(self).snake == old(self).snake,
            old(self).snake@.contains(old(self).food) ==> {
                &&& final(self).score == old(self).score + 1
                &&& in_grid(final(self).food, final(self).size)
                &&& !final(self).snake@.contains(final(self).food)
            },
            !old(self).snake@.contains(old(self).food) ==> {
                &&& final(self).score == old(self).score
                &&& final(self).food == old(self).food
            },
    {
        if contains_pos(&self.snake, self.food) {
            self.score = self.score + 1;
            self.generate_food();
        }
    }

    /// One tick of motion: the head advances one cell (wrapping or freezing
    /// at the edge), landing on the food awards a point and replaces it, and
    /// the tail is trimmed so the length ends at `score + 1`.
    pub fn move_snake(&mut self)
        requires
            old(self).wf(),
            old(self).score + 2 <= usize::MAX,
            old(self).snake@.len() + 1 < (old(self).size as int) * (old(self).size as int),
        ensures
            final(self).wf(),
            final(self).size == old(self).size,
            final(self).warping == old(self).warping,
            final(self).direction == old(self).direction,
            final(self).snake@.len() == final(self).score + 1,
            final(self).snake@[0] == old(self).next_head(),
            final(self).score == old(self).score
                + (if old(self).next_head() == old(self).food { 1int } else { 0int }),
            final(self).score >= old(self).score,
            final(self).snake@ == seq![old(self).next_head()].add(
                old(self).snake@.take(final(self).score as int)),
            old(self).next_head() != old(self).food ==> final(self).food == old(self).food,
    {
        let head = self.snake[0];
        let new_head = step(head, self.direction, self.size, self.warping);
        self.snake.insert(0, new_head);
        proof {
            assert(self.snake@ =~= seq![new_head].add(old(self).snake@));
            // the food can only sit on the new head: the old body is clear of it
            if self.snake@.contains(self.food) {
                let i = choose|i: int| 0 <= i < self.snake@.len() && self.snake@[i] == self.food;
                if i > 0 {
                    assert(old(self).snake@[i - 1] == self.food);
                    assert(old(self).snake@.contains(self.food));
                    assert(false);
                }
            }
            assert(self.snake@[0] == new_head);
            assert(new_head == self.food ==> self.snake@.contains(self.food));
            assert(self.snake@.contains(self.food) <==> new_head == self.food);
        }
        self.check_collision();
        let ghost mid = *self;
        while self.snake.len() > self.score + 1
            invariant
                self.size == mid.size,
                self.warping == mid.warping,
                self.score == mid.score,
                self.food == mid.food,
                self.direction == mid.direction,
                self.score < usize::MAX,
                self.snake@.len() >= self.score + 1,
                self.snake@.len() <= mid.snake@.len(),
                forall|i: int| 0 <= i < self.snake@.len() ==> self.snake@[i] == mid.snake@[i],
            decreases self.snake@.len(),
        {
            self.snake.pop();
        }
        proof {
            let fin = *self;
            let h = old(self).next_head();
            assert(mid.snake@ == seq![h].add(old(self).snake@));
            assert(mid.snake@[0] == h);
            assert(fin.snake@[0] == h);
            let rhs = seq![h].add(old(self).snake@.take(fin.score as int));
            assert(fin.score as int <= old(self).score + 1);
            assert(old(self).snake@.take(fin.score as int).len() == fin.score as int);
            assert(fin.snake@.len() == rhs.len());
            assert forall|i: int| 0 <= i < fin.snake@.len() implies fin.snake@[i] == rhs[i] by {
                assert(fin.snake@[i] == mid.snake@[i]);
                if i > 0 {
                    assert(mid.snake@[i] == old(self).snake@[i - 1]);
                    assert(rhs[i] == old(self).snake@.take(fin.score as int)[i - 1]);
                }
            }
            assert(fin.snake@ =~= rhs);
            // the food stays off the snake: it is off `mid`'s cells, and the
            // final cells are a prefix of those
            assert(!mid.snake@.contains(mid.food));
            if fin.snake@.contains(fin.food) {
                let i = choose|i: int| 0 <= i < fin.snake@.len() && fin.snake@[i] == fin.food;
                assert(mid.snake@[i] == fin.food);
                assert(mid.snake@.contains(fin.food));
                assert(false);
            }
            assert forall|i: int| 0 <= i < fin.snake@.len() implies in_grid(
                #[trigger] fin.snake@[i], fin.size) by {
                if i > 0 {
                    assert(old(self).snake@[i - 1] == fin.snake@[i]);
                }
            }
        }
    }

    /// One full tick of the frame driver's state machine: advance the snake,
    /// then digest the key polled afterwards. Returns whether the game goes
    /// on; only a `Quit` key stops it.
    pub fn run(&mut self, key: Option<Key>) -> (continue_running: bool)
        requires
            old(self).wf(),
            old(self).score + 2 <= usize::MAX,
            old(self).snake@.len() + 1 < (old(self).size as int) * (old(self).size as int),
        ensures
            continue_running == (key != Some(Key::Quit)),
            final(self).wf(),
            final(self).size == old(self).size,
            final(self).warping == old(self).warping,
            final(self).snake@.len() == final(self).score + 1,
            final(self).snake@[0] == old(self).next_head(),
            final(self).score == old(self).score
                + (if old(self).next_head() == old(self).food { 1int } else { 0int }),
            final(self).score >= old(self).score,
            final(self).snake@ == seq![old(self).next_head()].add(
                old(self).snake@.take(final(self).score as int)),
            old(self).next_head() != old(self).food ==> final(self).food == old(self).food,
            final(self).direction == (match key {
                Some(Key::Arrow(d)) => if d == opposite(old(self).direction) {
                    old(self).direction
                } else {
                    d
                },
                _ => old(self).direction,
            }),
    {
        self.move_snake();
        self.handle_key(key)
    }

    /// Map a grid cell to the terminal cell it is drawn at, given the
    /// top-left corner of the play area's frame: one cell in from the frame,
    /// two terminal columns per grid column.
    pub fn as_real_coords(&self, coord: Pos, left_corner: Pos) -> (r: Pos)
        requires
            left_corner.col + 1 + 2 * coord.col <= u16::MAX,
            left_corner.row + 1 + coord.row <= u16::MAX,
        ensures
            r.col == left_corner.col + 1 + 2 * coord.col,
            r.row == left_corner.row + 1 + coord.row,
    {
        Pos {
            col: left_corner.col + 1 + 2 * coord.col,
            row: left_corner.row + 1 + coord.row,
        }
    }

    /// Place the food on a uniformly sampled free cell: random cells are
    /// drawn until one off the snake comes up, falling back to a scan of the
    /// grid if sampling keeps hitting the snake. Only the food moves.
    pub fn generate_food(&mut self)
        requires
            1 <= old(self).size,
            old(self).snake@.len() < (old(self).size as int) * (old(self).size as int),
        ensures
            in_grid(final(self).food, final(self).size),
            !final(self).snake@.contains(final(self).food),
            final(self).size == old(self).size,
            final(self).warping == old(self).warping,
            final(self).score == old(self).score,
            final(self).snake == old(self).snake,
            final(self).direction == old(self).direction,
    {
        let mut attempts: u16 = 0;
        while attempts < 32
            invariant
                self.size == old(self).size,
                self.warping == old(self).warping,
                self.score == old(self).score,
                self.snake == old(self).snake,
                self.direction == old(self).direction,
                1 <= self.size,
                self.snake@.len() < (self.size as int) * (self.size as int),
            decreases 32 - attempts,
        {
            let p = Pos { col: sample_below(self.size), row: sample_below(self.size) };
            if !contains_pos(&self.snake, p) {
                self.food = p;
                return;
            }
            attempts = attempts + 1;
        }
        let p = first_free_cell(&self.snake, self.size);
        self.food = p;
    }
}

/// Wrap-around law: with warping on, moving Right from the last column lands
/// in column 0 of the same row, and moving Up from row 0 lands in the last
/// row of the same column.
pub proof fn lemma_wrap_around(p: Pos, size: u16)
    requires
        1 <= size,
        in_grid(p, size),
    ensures
        p.col == size - 1 ==> step_spec(p, Direction::Right, size, true)
            == (Pos { col: 0, row: p.row }),
        p.row == 0 ==> step_spec(p, Direction::Up, size, true)
            == (Pos { col: p.col, row: (size - 1) as u16 }),
{
}

} // verus!
