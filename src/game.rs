//! The rules of the game: a snake on a fixed grid, moved one cell per tick.
use std::collections::VecDeque;
use vstd::prelude::*;

use crate::random::{next_state, random_range, range_value};

verus! {

/// A cell of the grid, as `(x, y)`; `y` grows downwards.
pub type Position = (usize, usize);

/// The seed that `SnakeGame::new` starts its food generator from.
pub const DEFAULT_SEED: u64 = 0x9e37_79b9_7f4a_7c15;

#[derive(Clone, Copy, Debug, PartialEq, Eq, Structural)]
pub enum Direction {
    Up,
    Right,
    Down,
    Left,
}

/// The direction that points back the way `d` came.
pub open spec fn opposite(d: Direction) -> Direction {
    match d {
        Direction::Up => Direction::Down,
        Direction::Right => Direction::Left,
        Direction::Down => Direction::Up,
        Direction::Left => Direction::Right,
    }
}

/// The heading changes that are ignored: a repeat of the current heading,
/// and a reversal onto it.
pub open spec fn is_refused(current: Direction, requested: Direction) -> bool {
    requested == current || requested == opposite(current)
}

/// The heading after a request for `requested` while heading `current`.
pub open spec fn turned(current: Direction, requested: Direction) -> Direction {
    if is_refused(current, requested) {
        current
    } else {
        requested
    }
}

/// The cell one step from `p` towards `d`, in integers: it may lie at -1.
pub open spec fn step(p: Position, d: Direction) -> (int, int) {
    match d {
        Direction::Up => (p.0 as int, p.1 - 1),
        Direction::Right => (p.0 + 1, p.1 as int),
        Direction::Down => (p.0 as int, p.1 + 1),
        Direction::Left => (p.0 - 1, p.1 as int),
    }
}

/// The playable interior: strictly inside on all four sides, so column 0
/// and row 0 are outside although they are cells of the grid.
pub open spec fn inside(width: int, height: int, x: int, y: int) -> bool {
    0 < x < width && 0 < y < height
}

/// `p` is a cell of a `width` by `height` grid.
pub open spec fn on_grid(width: usize, height: usize, p: Position) -> bool {
    p.0 < width && p.1 < height
}

/// The cells `(0, y)` .. `(n - 1, y)` that `body` does not occupy, in order.
pub open spec fn free_in_row(body: Seq<Position>, y: usize, n: nat) -> Seq<Position>
    decreases n,
{
    if n == 0 {
        Seq::empty()
    } else {
        let rest = free_in_row(body, y, (n - 1) as nat);
        let c: Position = ((n - 1) as usize, y);
        if body.contains(c) {
            rest
        } else {
            rest.push(c)
        }
    }
}

/// The cells of rows `0 .. rows` of a grid `width` wide that `body` does not
/// occupy, row by row and left to right within a row.
pub open spec fn free_cells(body: Seq<Position>, width: usize, rows: nat) -> Seq<Position>
    decreases rows,
{
    if rows == 0 {
        Seq::empty()
    } else {
        free_cells(body, width, (rows - 1) as nat) + free_in_row(body, (rows - 1) as usize, width as nat)
    }
}

/// The abstract state of a game.
pub struct GameView {
    pub width: usize,
    pub height: usize,
    /// Head first, tail last.
    pub snake: Seq<Position>,
    pub direction: Direction,
    pub food: Position,
    pub game_over: bool,
    pub points: usize,
    /// The state of the generator that places the food.
    pub seed: u64,
}

impl GameView {
    /// The state that a new game of the given size starts in.
    pub open spec fn initial(width: usize, height: usize, seed: u64) -> GameView {
        GameView {
            width,
            height,
            snake: seq![((width / 2) as usize, (height / 2) as usize)],
            direction: Direction::Up,
            food: (
                if width - 1 < 2 { (width - 1) as usize } else { 2usize },
                if height - 1 < 2 { (height - 1) as usize } else { 2usize },
            ),
            game_over: false,
            points: 0,
            seed,
        }
    }

    /// The invariant of every game: a non-empty snake of distinct cells, and
    /// food, all on the grid.
    pub open spec fn wf(self) -> bool {
        &&& self.width >= 1
        &&& self.height >= 1
        &&& self.snake.len() >= 1
        &&& self.snake.no_duplicates()
        &&& forall|i: int| 0 <= i < self.snake.len() ==> on_grid(self.width, self.height, #[trigger] self.snake[i])
        &&& on_grid(self.width, self.height, self.food)
    }

    /// Where the head goes on the next tick, in integers.
    pub open spec fn target(self) -> (int, int) {
        step(self.snake[0], self.direction)
    }

    /// `target` as a cell; meaningful where `target` is inside.
    pub open spec fn target_cell(self) -> Position {
        (self.target().0 as usize, self.target().1 as usize)
    }

    /// The next move leaves the interior or runs into the body (the tail
    /// included, though it would move away).
    pub open spec fn collides(self) -> bool {
        ||| !inside(self.width as int, self.height as int, self.target().0, self.target().1)
        ||| self.snake.contains(self.target_cell())
    }

    /// The cells that neither the snake nor the cell it moves into occupy,
    /// in row-major order: where new food may go.
    pub open spec fn free(self) -> Seq<Position> {
        free_cells(seq![self.target_cell()] + self.snake, self.width, self.height as nat)
    }

    /// The state after one tick.
    pub open spec fn ticked(self) -> GameView {
        if self.game_over || self.snake.len() == 0 {
            self
        } else if self.collides() {
            GameView { game_over: true, ..self }
        } else if self.target_cell() != self.food {
            GameView { snake: seq![self.target_cell()] + self.snake.drop_last(), ..self }
        } else if self.free().len() == 0 {
            GameView { game_over: true, ..self }
        } else {
            GameView {
                snake: seq![self.target_cell()] + self.snake,
                food: self.free()[range_value(self.seed, 0, self.free().len() as int)],
                seed: next_state(self.seed),
                ..self
            }
        }
    }
}

#[derive(Debug)]
pub struct SnakeGame {
    width: usize,
    height: usize,
    snake: VecDeque<Position>,
    direction: Direction,
    food: Position,
    game_over: bool,
    points: usize,
    seed: u64,
}

impl View for SnakeGame {
    type V = GameView;

    closed spec fn view(&self) -> GameView {
        GameView {
            width: self.width,
            height: self.height,
            snake: self.snake@,
            direction: self.direction,
            food: self.food,
            game_over: self.game_over,
            points: self.points,
            seed: self.seed,
        }
    }
}

/// Every cell that `free_in_row` lists is in row `y`, left of `n`, and not
/// occupied by `body`.
proof fn lemma_free_in_row_members(body: Seq<Position>, y: usize, n: nat)
    requires
        n <= usize::MAX,
    ensures
        forall|i: int|
            0 <= i < free_in_row(body, y, n).len() ==> {
                let c = #[trigger] free_in_row(body, y, n)[i];
                &&& c.0 < n
                &&& c.1 == y
                &&& !body.contains(c)
            },
    decreases n,
{
    if n > 0 {
        let rest = free_in_row(body, y, (n - 1) as nat);
        lemma_free_in_row_members(body, y, (n - 1) as nat);
        assert forall|i: int| 0 <= i < free_in_row(body, y, n).len() implies {
            let c = #[trigger] free_in_row(body, y, n)[i];
            &&& c.0 < n
            &&& c.1 == y
            &&& !body.contains(c)
        } by {
            if i < rest.len() {
                assert(free_in_row(body, y, n)[i] == rest[i]);
            }
        }
    }
}

/// Every cell that `free_cells` lists lies on the grid and is not occupied
/// by `body`.
pub(crate) proof fn lemma_free_cells_members(body: Seq<Position>, width: usize, rows: nat)
    requires
        rows <= usize::MAX + 1,
    ensures
        forall|i: int|
            0 <= i < free_cells(body, width, rows).len() ==> {
                let c = #[trigger] free_cells(body, width, rows)[i];
                &&& c.0 < width
                &&& c.1 < rows
                &&& !body.contains(c)
            },
    decreases rows,
{
    if rows > 0 {
        let prev = free_cells(body, width, (rows - 1) as nat);
        let row = free_in_row(body, (rows - 1) as usize, width as nat);
        lemma_free_cells_members(body, width, (rows - 1) as nat);
        lemma_free_in_row_members(body, (rows - 1) as usize, width as nat);
        assert forall|i: int| 0 <= i < free_cells(body, width, rows).len() implies {
            let c = #[trigger] free_cells(body, width, rows)[i];
            &&& c.0 < width
            &&& c.1 < rows
            &&& !body.contains(c)
        } by {
            if i >= prev.len() {
                assert(free_cells(body, width, rows)[i] == row[i - prev.len()]);
            } else {
                assert(free_cells(body, width, rows)[i] == prev[i]);
            }
        }
    }
}

/// `body` holds `p`.
fn occupies(body: &VecDeque<Position>, p: Position) -> (r: bool)
    ensures
        r == body@.contains(p),
{
    let mut i: usize = 0;
    while i < body.len()
        invariant
            i <= body@.len(),
            forall|j: int| 0 <= j < i ==> body@[j] != p,
        decreases body@.len() - i,
    {
        let c = body[i];
        if c.0 == p.0 && c.1 == p.1 {
            assert(body@[i as int] == p);
            return true;
        }
        i += 1;
    }
    false
}

/// A cell lies in `seq![a] + s` exactly when it is `a` or lies in `s`.
pub(crate) proof fn lemma_contains_prepend(a: Position, s: Seq<Position>, c: Position)
    ensures
        (seq![a] + s).contains(c) == (c == a || s.contains(c)),
{
    let t = seq![a] + s;
    if c == a {
        assert(t[0] == c);
    } else if s.contains(c) {
        let j = choose|j: int| 0 <= j < s.len() && s[j] == c;
        assert(t[j + 1] == c);
    }
    if t.contains(c) {
        let j = choose|j: int| 0 <= j < t.len() && t[j] == c;
        if j > 0 {
            assert(s[j - 1] == c);
        }
    }
}

/// A free cell of row `y` left of `n` is listed by `free_in_row`.
proof fn lemma_free_in_row_complete(body: Seq<Position>, y: usize, n: nat, c: Position)
    requires
        n <= usize::MAX,
        c.0 < n,
        c.1 == y,
        !body.contains(c),
    ensures
        free_in_row(body, y, n).contains(c),
    decreases n,
{
    let all = free_in_row(body, y, n);
    let rest = free_in_row(body, y, (n - 1) as nat);
    if c.0 == n - 1 {
        assert(all[all.len() - 1] == c);
    } else {
        lemma_free_in_row_complete(body, y, (n - 1) as nat, c);
        let k = choose|k: int| 0 <= k < rest.len() && rest[k] == c;
        assert(all[k] == c);
    }
}

/// A free cell of the first `rows` rows is listed by `free_cells`.
pub(crate) proof fn lemma_free_cells_complete(body: Seq<Position>, width: usize, rows: nat, c: Position)
    requires
        rows <= usize::MAX + 1,
        c.0 < width,
        c.1 < rows,
        !body.contains(c),
    ensures
        free_cells(body, width, rows).contains(c),
    decreases rows,
{
    let all = free_cells(body, width, rows);
    let prev = free_cells(body, width, (rows - 1) as nat);
    let row = free_in_row(body, (rows - 1) as usize, width as nat);
    if c.1 == rows - 1 {
        lemma_free_in_row_complete(body, (rows - 1) as usize, width as nat, c);
        let k = choose|k: int| 0 <= k < row.len() && row[k] == c;
        assert(all[prev.len() + k] == c);
    } else {
        lemma_free_cells_complete(body, width, (rows - 1) as nat, c);
        let k = choose|k: int| 0 <= k < prev.len() && prev[k] == c;
        assert(all[k] == c);
    }
}

impl SnakeGame {
    /// Whether `pos` lies in the playable interior: `0 < x < width` and
    /// `0 < y < height`.
    pub fn in_bounds(&self, pos: Position) -> (r: bool)
        ensures
            r == inside(self@.width as int, self@.height as int, pos.0 as int, pos.1 as int),
    {
        (pos.0 < self.width && pos.1 < self.height) && (pos.0 > 0 && pos.1 > 0)
    }

    /// The cells that neither the snake nor `head` occupy, in row-major
    /// order.
    fn free_positions(&self, head: Position) -> (r: Vec<Position>)
        ensures
            r@ == free_cells(seq![head] + self@.snake, self@.width, self@.height as nat),
    {
        let ghost body = seq![head] + self.snake@;
        let mut free: Vec<Position> = Vec::new();
        let mut y: usize = 0;
        while y < self.height
            invariant
                y <= self.height,
                body == seq![head] + self.snake@,
                free@ == free_cells(body, self.width, y as nat),
            decreases self.height - y,
        {
            let mut x: usize = 0;
            while x < self.width
                invariant
                    x <= self.width,
                    y < self.height,
                    body == seq![head] + self.snake@,
                    free@ == free_cells(body, self.width, y as nat) + free_in_row(
                        body,
                        y,
                        x as nat,
                    ),
                decreases self.width - x,
            {
                let taken = (x == head.0 && y == head.1) || occupies(&self.snake, (x, y));
                proof {
                    lemma_contains_prepend(head, self.snake@, (x, y));
                }
                if !taken {
                    free.push((x, y));
                }
                assert(free@ =~= free_cells(body, self.width, y as nat) + free_in_row(
                    body,
                    y,
                    (x + 1) as nat,
                ));
                x += 1;
            }
            assert(free_cells(body, self.width, (y + 1) as nat) == free_cells(
                body,
                self.width,
                y as nat,
            ) + free_in_row(body, y, self.width as nat));
            y += 1;
        }
        free
    }

    /// Advances the game by one step. A finished game does not change. The
    /// head moves one cell along the heading; leaving the interior or running
    /// into the body ends the game. Onto the food the snake grows by one and
    /// the food moves to a cell, drawn from the generator, off the grown
    /// snake; with no such cell left the game ends instead. Elsewhere the
    /// tail follows.
    pub fn tick(&mut self)
        requires
            old(self)@.wf(),
        ensures
            final(self)@ == old(self)@.ticked(),
            final(self)@.wf(),
    {
        if self.game_over || self.snake.len() == 0 {
            return;
        }
        let ghost g = self@;
        let (x, y) = self.snake[0];
        assert(on_grid(g.width, g.height, g.snake[0]));
        let target: Option<Position> = match self.direction {
            Direction::Up => if y == 0 {
                None
            } else {
                Some((x, y - 1))
            },
            Direction::Right => Some((x + 1, y)),
            Direction::Down => Some((x, y + 1)),
            Direction::Left => if x == 0 {
                None
            } else {
                Some((x - 1, y))
            },
        };
        let new_head = match target {
            None => {
                self.game_over = true;
                return;
            },
            Some(p) => p,
        };
        assert(new_head == g.target_cell());
        if !self.in_bounds(new_head) || occupies(&self.snake, new_head) {
            self.game_over = true;
            return;
        }
        if new_head.0 != self.food.0 || new_head.1 != self.food.1 {
            self.snake.pop_back();
        } else {
            let free = self.free_positions(new_head);
            if free.len() == 0 {
                self.game_over = true;
                return;
            }
            let i = random_range(&mut self.seed, 0, free.len());
            proof {
                lemma_free_cells_members(seq![new_head] + g.snake, g.width, g.height as nat);
            }
            self.food = free[i];
        }
        self.snake.push_front(new_head);
        proof {
            let n = self@.snake;
            assert forall|i: int| 0 <= i < n.len() implies on_grid(g.width, g.height, #[trigger] n[i]) by {
                if i > 0 {
                    assert(n[i] == g.snake[i - 1]);
                }
            }
            assert(n.no_duplicates()) by {
                assert forall|i: int, j: int| 0 <= i < n.len() && 0 <= j < n.len() && i != j implies n[i] != n[j] by {
                    if i > 0 && j > 0 {
                        assert(n[i] == g.snake[i - 1]);
                        assert(n[j] == g.snake[j - 1]);
                    } else if i == 0 {
                        assert(n[j] == g.snake[j - 1]);
                    } else {
                        assert(n[i] == g.snake[i - 1]);
                    }
                }
            }
            assert(self@ =~= g.ticked());
        }
    }
}

impl SnakeGame {
    /// A game on a `width` by `height` grid, its food placed from
    /// `DEFAULT_SEED`.
    pub fn new(width: usize, height: usize) -> (g: SnakeGame)
        requires
            width >= 1,
            height >= 1,
        ensures
            g@ == GameView::initial(width, height, DEFAULT_SEED),
            g@.wf(),
    {
        SnakeGame::with_seed(width, height, DEFAULT_SEED)
    }

    /// A game on a `width` by `height` grid, its food placed from `seed`: the
    /// snake is one cell at the centre `(width / 2, height / 2)`, heading up,
    /// and the food starts at `(min(2, width - 1), min(2, height - 1))`.
    pub fn with_seed(width: usize, height: usize, seed: u64) -> (g: SnakeGame)
        requires
            width >= 1,
            height >= 1,
        ensures
            g@ == GameView::initial(width, height, seed),
            g@.wf(),
    {
        let mut snake: VecDeque<Position> = VecDeque::new();
        snake.push_back((width / 2, height / 2));
        let food_x = if width - 1 < 2 {
            width - 1
        } else {
            2
        };
        let food_y = if height - 1 < 2 {
            height - 1
        } else {
            2
        };
        let g = SnakeGame {
            width,
            height,
            snake,
            direction: Direction::Up,
            food: (food_x, food_y),
            game_over: false,
            points: 0,
            seed,
        };
        assert(g@ =~= GameView::initial(width, height, seed));
        g
    }

    /// Turns the snake towards `direction`, unless that repeats the current
    /// heading or is one of the refused pairs; a refused request is ignored.
    pub fn change_direction(&mut self, direction: Direction)
        ensures
            final(self)@ == (GameView { direction: turned(old(self)@.direction, direction), ..old(self)@ }),
    {
        match (self.direction, direction) {
            (Direction::Up, Direction::Up)
            | (Direction::Up, Direction::Down)
            | (Direction::Right, Direction::Right)
            | (Direction::Right, Direction::Left)
            | (Direction::Down, Direction::Up)
            | (Direction::Down, Direction::Down)
            | (Direction::Left, Direction::Right)
            | (Direction::Left, Direction::Left) => {},
            (_, requested) => self.direction = requested,
        }
        assert(self@ =~= (GameView { direction: turned(old(self)@.direction, direction), ..old(self)@ }));
    }
}

impl SnakeGame {
    pub fn width(&self) -> (r: usize)
        ensures
            r == self@.width,
    {
        self.width
    }

    pub fn height(&self) -> (r: usize)
        ensures
            r == self@.height,
    {
        self.height
    }

    /// The cells of the snake, head first.
    pub fn snake(&self) -> (r: Vec<Position>)
        ensures
            r@ == self@.snake,
    {
        let mut r: Vec<Position> = Vec::new();
        let mut i: usize = 0;
        while i < self.snake.len()
            invariant
                i <= self.snake@.len(),
                r@ == self.snake@.subrange(0, i as int),
            decreases self.snake@.len() - i,
        {
            r.push(self.snake[i]);
            i += 1;
            assert(r@ =~= self.snake@.subrange(0, i as int));
        }
        assert(r@ =~= self.snake@);
        r
    }

    pub fn food(&self) -> (r: Position)
        ensures
            r == self@.food,
    {
        self.food
    }

    pub fn direction(&self) -> (r: Direction)
        ensures
            r == self@.direction,
    {
        self.direction
    }

    pub fn is_game_over(&self) -> (r: bool)
        ensures
            r == self@.game_over,
    {
        self.game_over
    }

    /// The score; no rule of the game changes it.
    pub fn points(&self) -> (r: usize)
        ensures
            r == self@.points,
    {
        self.points
    }
}

} // verus!
