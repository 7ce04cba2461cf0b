//! The snake and the world: body representation, the tick state machine,
//! reward placement, and the win/loss policy.

use vstd::prelude::*;

verus! {

use crate::grid::{lemma_next_head_in_bounds, lemma_right_then_left, next_head_index, Direction};
use crate::host::Host;
use vstd::arithmetic::div_mod::{lemma_fundamental_div_mod, lemma_mod_bound};
use vstd::set_lib::{lemma_int_range, lemma_len_subset, set_int_range};

/// How far the game has progressed.  A freshly created world has no status
/// yet; `start_game` sets `PLAYED`; `WON` and `LOSS` are terminal.
#[allow(non_camel_case_types)]
#[derive(Clone, Copy, Debug, PartialEq, Eq, Structural)]
pub enum GameStatus {
    WON,
    LOSS,
    PLAYED,
}

/// A single grid position, identified by its linear cell index.
#[derive(Clone, Copy, Debug, PartialEq, Eq, Structural)]
pub struct SnakeCell(usize);

/// The indices held by a sequence of snake cells, in body order.
spec fn cell_indices(cells: Seq<SnakeCell>) -> Seq<usize> {
    cells.map_values(|c: SnakeCell| c.0)
}

/// The snake: an ordered body of cells (head first, tail last), its current
/// heading, and the optional precomputed next head cell that buffers one
/// direction change until the next tick.
pub struct Snake {
    body: Vec<SnakeCell>,
    direction: Direction,
    next_cell: Option<SnakeCell>,
}

impl Snake {
    /// The body as a sequence of cell indices, head first.
    pub closed spec fn cells(&self) -> Seq<usize> {
        cell_indices(self.body@)
    }

    /// The current heading.
    pub closed spec fn heading(&self) -> Direction {
        self.direction
    }

    /// The buffered next head cell, when a direction change is pending.
    pub closed spec fn pending(&self) -> Option<usize> {
        match self.next_cell {
            Some(c) => Some(c.0),
            None => None,
        }
    }

    /// Builds the initial body of `length` cells laid out backwards from
    /// `spawn_index` in raw index arithmetic, head first.  The caller must
    /// choose spawn and length so that every index stays non-negative; the
    /// constructor does not wrap.
    pub fn new(spawn_index: usize, length: usize, direction: Direction) -> (s: Snake)
        requires
            1 <= length,
            length <= spawn_index + 1,
        ensures
            s.cells() == Seq::new(length as nat, |i: int| (spawn_index - i) as usize),
            s.heading() == direction,
            s.pending() is None,
    {
        let mut body: Vec<SnakeCell> = Vec::new();
        let mut i: usize = 0;
        while i < length
            invariant
                i <= length,
                length <= spawn_index + 1,
                body@.len() == i,
                forall|j: int| 0 <= j < i ==> (#[trigger] body@[j]).0 == spawn_index - j,
            decreases length - i,
        {
            body.push(SnakeCell(spawn_index - i));
            i = i + 1;
        }
        proof {
            assert(cell_indices(body@) =~= Seq::new(
                length as nat,
                |j: int| (spawn_index - j) as usize,
            ));
        }
        Snake { body, direction, next_cell: None }
    }
}

/// Whether `cell` is occupied by some segment of `body`.
fn body_contains(body: &Vec<SnakeCell>, cell: usize) -> (present: bool)
    ensures
        present == cell_indices(body@).contains(cell),
{
    let n = body.len();
    let mut i: usize = 0;
    while i < n
        invariant
            i <= n,
            n == body@.len(),
            forall|j: int| 0 <= j < i ==> (#[trigger] body@[j]).0 != cell,
        decreases n - i,
    {
        if body[i].0 == cell {
            proof {
                assert(cell_indices(body@)[i as int] == cell);
            }
            return true;
        }
        i = i + 1;
    }
    proof {
        assert(forall|j: int|
            0 <= j < cell_indices(body@).len() ==> #[trigger] cell_indices(body@)[j] != cell);
    }
    false
}

/// Pigeonhole: a body with fewer segments than the grid has cells leaves at
/// least one grid cell unoccupied.
proof fn lemma_free_cell_exists(cells: Seq<usize>, size: usize)
    requires
        cells.len() < size,
    ensures
        exists|c: usize| c < size && !cells.contains(c),
{
    broadcast use vstd::seq_lib::seq_to_set_is_finite;

    let ints = cells.map_values(|c: usize| c as int);
    ints.lemma_cardinality_of_set();
    lemma_int_range(0, size as int);
    if forall|c: usize| c < size ==> cells.contains(c) {
        assert forall|x: int| set_int_range(0, size as int).contains(x)
            implies ints.to_set().contains(x) by {
            assert(cells.contains(x as usize));
            let k = choose|k: int| 0 <= k < cells.len() && cells[k] == x as usize;
            assert(ints[k] == x);
            assert(ints.contains(x));
        }
        assert(set_int_range(0, size as int).subset_of(ints.to_set()));
        lemma_len_subset(set_int_range(0, size as int), ints.to_set());
        assert(false);
    }
    assert(!(forall|c: usize| c < size ==> cells.contains(c)));
    let w = choose|c: usize| !(c < size ==> cells.contains(c));
    assert(w < size && !cells.contains(w));
}

/// The lowest unoccupied cell index below `max`.
fn first_free_cell(max: usize, snake_body: &Vec<SnakeCell>) -> (r: usize)
    requires
        exists|c: usize| c < max && !cell_indices(snake_body@).contains(c),
    ensures
        r < max,
        !cell_indices(snake_body@).contains(r),
{
    let mut c: usize = 0;
    while c < max
        invariant
            c <= max,
            forall|j: usize| j < c ==> cell_indices(snake_body@).contains(j),
        decreases max - c,
    {
        if !body_contains(snake_body, c) {
            return c;
        }
        c = c + 1;
    }
    proof {
        let w = choose|w: usize| w < max && !cell_indices(snake_body@).contains(w);
        assert(cell_indices(snake_body@).contains(w));
        assert(false);
    }
    0
}

/// How far the game has progressed, the snake, the reward cell and the grid
/// dimensions: the whole game state, owned and mutated only through the
/// operations below.
pub struct World {
    width: usize,
    size: usize,
    snake: Snake,
    reward_cell: usize,
    status: Option<GameStatus>,
}

impl World {
    /// The side length of the square grid.
    pub closed spec fn spec_width(&self) -> usize {
        self.width
    }

    /// The number of cells of the grid.
    pub closed spec fn spec_size(&self) -> usize {
        self.size
    }

    /// The snake body as a sequence of cell indices, head first.
    pub closed spec fn spec_cells(&self) -> Seq<usize> {
        self.snake.cells()
    }

    /// The snake's current heading.
    pub closed spec fn spec_heading(&self) -> Direction {
        self.snake.heading()
    }

    /// The snake's buffered next head cell, when a direction change is
    /// pending.
    pub closed spec fn spec_pending(&self) -> Option<usize> {
        self.snake.pending()
    }

    /// The cell currently holding the reward.
    pub closed spec fn spec_reward(&self) -> usize {
        self.reward_cell
    }

    /// The game status; `None` until `start_game` is called.
    pub closed spec fn spec_status(&self) -> Option<GameStatus> {
        self.status
    }

    /// Well-formedness: the grid is square and non-degenerate, the body is
    /// non-empty, lies on the grid and never overlaps itself, the reward lies
    /// on the grid and off the body (except once the game is won, when the
    /// body covers the whole board), and a buffered next head cell lies on
    /// the grid.
    pub open spec fn wf(&self) -> bool {
        &&& 1 <= self.spec_width()
        &&& self.spec_size() == self.spec_width() * self.spec_width()
        &&& 1 <= self.spec_cells().len()
        &&& forall|i: int|
            0 <= i < self.spec_cells().len() ==> #[trigger] self.spec_cells()[i]
                < self.spec_size()
        &&& forall|i: int, j: int|
            0 <= i < j < self.spec_cells().len() ==> self.spec_cells()[i] != self.spec_cells()[j]
        &&& self.spec_reward() < self.spec_size()
        &&& (self.spec_status() != Some(GameStatus::WON) ==> !self.spec_cells().contains(
            self.spec_reward(),
        ))
        &&& (self.spec_pending() matches Some(c) ==> c < self.spec_size())
    }

    /// The cell the snake's head moves to on the next tick: the buffered
    /// pending cell when one is set, else one toroidal step from the head
    /// along the current heading.
    pub open spec fn spec_next_head(&self) -> usize {
        match self.spec_pending() {
            Some(c) => c,
            None => next_head_index(
                self.spec_cells()[0] as int,
                self.spec_width() as int,
                self.spec_size() as int,
                self.spec_heading(),
            ) as usize,
        }
    }

    /// The side length of the square grid.
    pub fn width(&self) -> (w: usize)
        ensures
            w == self.spec_width(),
    {
        self.width
    }

    /// The number of cells of the grid.
    pub fn size(&self) -> (s: usize)
        ensures
            s == self.spec_size(),
    {
        self.size
    }

    /// The cell index of the snake's head.
    pub fn snake_head_idx(&self) -> (head: usize)
        requires
            1 <= self.spec_cells().len(),
        ensures
            head == self.spec_cells()[0],
    {
        self.snake.body[0].0
    }

    /// The number of cells of the snake's body.
    pub fn snake_length(&self) -> (n: usize)
        ensures
            n == self.spec_cells().len(),
    {
        self.snake.body.len()
    }

    /// A read-only snapshot of the snake body, head first.
    pub fn snake_cells(&self) -> (cells: Vec<usize>)
        ensures
            cells@ == self.spec_cells(),
    {
        let n = self.snake.body.len();
        let mut cells: Vec<usize> = Vec::new();
        let mut i: usize = 0;
        while i < n
            invariant
                i <= n,
                n == self.snake.body@.len(),
                cells@.len() == i,
                forall|j: int| 0 <= j < i ==> cells@[j] == (#[trigger] self.snake.body@[j]).0,
            decreases n - i,
        {
            cells.push(self.snake.body[i].0);
            i = i + 1;
        }
        proof {
            assert(cells@ =~= self.spec_cells());
        }
        cells
    }

    /// The cell currently holding the reward.
    pub fn reward_cell(&self) -> (r: usize)
        ensures
            r == self.spec_reward(),
    {
        self.reward_cell
    }

    /// The game status; `None` until `start_game` is called.
    pub fn status(&self) -> (s: Option<GameStatus>)
        ensures
            s == self.spec_status(),
    {
        self.status
    }

    /// Picks a reward cell that is not occupied by the snake body, by
    /// rejection sampling from the host's random source: up to `max` draws,
    /// and, should every draw land on the body, the lowest free cell, so
    /// that placement terminates whenever a free cell exists.
    fn gen_reward_cell<H: Host>(host: &mut H, max: usize, snake_body: &Vec<SnakeCell>) -> (r:
        usize)
        requires
            1 <= max,
            exists|c: usize| c < max && !cell_indices(snake_body@).contains(c),
        ensures
            r < max,
            !cell_indices(snake_body@).contains(r),
    {
        let mut attempts: usize = max;
        while 0 < attempts
            invariant
                1 <= max,
            decreases attempts,
        {
            let candidate = host.random_int(max);
            if !body_contains(snake_body, candidate) {
                return candidate;
            }
            attempts = attempts - 1;
        }
        first_free_cell(max, snake_body)
    }

    /// Builds a world on a `width` x `width` grid, with a snake of
    /// `snake_size` cells laid out backwards from `spawn_index`, heading
    /// `direction`, the reward placed on a free cell, and the game not yet
    /// started.
    pub fn new<H: Host>(
        host: &mut H,
        width: usize,
        spawn_index: usize,
        snake_size: usize,
        direction: Direction,
    ) -> (w: World)
        requires
            1 <= width,
            width * width <= usize::MAX,
            spawn_index < width * width,
            1 <= snake_size,
            snake_size <= spawn_index + 1,
            snake_size < width * width,
        ensures
            w.wf(),
            w.spec_width() == width,
            w.spec_size() == width * width,
            w.spec_status() is None,
            w.spec_heading() == direction,
            w.spec_pending() is None,
            w.spec_cells() == Seq::new(snake_size as nat, |i: int| (spawn_index - i) as usize),
            !w.spec_cells().contains(w.spec_reward()),
    {
        let size = width * width;
        let snake = Snake::new(spawn_index, snake_size, direction);
        proof {
            lemma_free_cell_exists(snake.cells(), size);
        }
        let reward_cell = World::gen_reward_cell(host, size, &snake.body);
        let w = World { width, size, snake, reward_cell, status: None };
        proof {
            assert forall|i: int, j: int| 0 <= i < j < w.spec_cells().len()
                implies w.spec_cells()[i] != w.spec_cells()[j] by {
                assert(w.spec_cells()[i] == spawn_index - i);
                assert(w.spec_cells()[j] == spawn_index - j);
            }
        }
        w
    }

    /// The cell one toroidal step from the snake's head in `direction`,
    /// following the edge-threshold wrap rule of [`next_head_index`].
    fn gen_next_snake_head_cell(&self, direction: &Direction) -> (r: SnakeCell)
        requires
            self.wf(),
        ensures
            r.0 == next_head_index(
                self.spec_cells()[0] as int,
                self.spec_width() as int,
                self.spec_size() as int,
                *direction,
            ),
            r.0 < self.spec_size(),
    {
        let snake_idx = self.snake_head_idx();
        let row = snake_idx / self.width;
        let col = snake_idx % self.width;
        proof {
            assert(self.spec_cells()[0] < self.spec_size());
            let w = self.width as int;
            let s = self.size as int;
            let h = snake_idx as int;
            lemma_fundamental_div_mod(h, w);
            lemma_mod_bound(h, w);
            assert(0 <= h / w < w && (h / w) * w == w * (h / w) && 0 <= (h / w) * w && w <= s && (h
                / w) * w <= s - w && (h / w >= 1 ==> h >= w) && (h / w < w - 1 ==> h + w < s) && (h
                % w < w - 1 ==> h + 1 < s)) by (nonlinear_arith)
                requires
                    1 <= w,
                    s == w * w,
                    h == w * (h / w) + h % w,
                    0 <= h % w < w,
                    0 <= h < s,
            ;
            lemma_next_head_in_bounds(h, w, s, *direction);
        }
        match direction {
            Direction::Right => {
                if col == self.width - 1 {
                    SnakeCell(row * self.width)
                } else {
                    SnakeCell(snake_idx + 1)
                }
            },
            Direction::Left => {
                if col == 0 {
                    SnakeCell(row * self.width + (self.width - 1))
                } else {
                    SnakeCell(snake_idx - 1)
                }
            },
            Direction::Up => {
                if row == 0 {
                    SnakeCell((self.size - self.width) + col)
                } else {
                    SnakeCell(snake_idx - self.width)
                }
            },
            Direction::Down => {
                if row == self.width - 1 {
                    SnakeCell(col)
                } else {
                    SnakeCell(snake_idx + self.width)
                }
            },
        }
    }

    /// Buffers a direction change for the next tick: computes the head's
    /// neighbour in `next_direction` and records it as the pending next head
    /// cell, updating the heading -- unless the snake is longer than one
    /// cell and that neighbour is its second body segment, in which case the
    /// call is a silent no-op (a 180-degree reversal that would immediately
    /// self-collide is rejected).
    pub fn change_snake_direction(&mut self, next_direction: Direction)
        requires
            old(self).wf(),
        ensures
            final(self).wf(),
            final(self).spec_width() == old(self).spec_width(),
            final(self).spec_size() == old(self).spec_size(),
            final(self).spec_status() == old(self).spec_status(),
            final(self).spec_reward() == old(self).spec_reward(),
            final(self).spec_cells() == old(self).spec_cells(),
            ({
                let nh = next_head_index(
                    old(self).spec_cells()[0] as int,
                    old(self).spec_width() as int,
                    old(self).spec_size() as int,
                    next_direction,
                ) as usize;
                if old(self).spec_cells().len() > 1 && old(self).spec_cells()[1] == nh {
                    final(self).spec_heading() == old(self).spec_heading() && final(self).spec_pending() == old(self).spec_pending()
                } else {
                    final(self).spec_heading() == next_direction && final(self).spec_pending()
                        == Some(nh)
                }
            }),
    {
        let next_cell = self.gen_next_snake_head_cell(&next_direction);
        if self.snake_length() > 1 && self.snake.body[1].0 == next_cell.0 {
            return;
        }
        self.snake.next_cell = Some(next_cell);
        self.snake.direction = next_direction;
    }

    /// Starts (or restarts) play: sets the status to `PLAYED` and changes
    /// nothing else.
    pub fn start_game(&mut self)
        ensures
            final(self).spec_status() == Some(GameStatus::PLAYED),
            final(self).spec_width() == old(self).spec_width(),
            final(self).spec_size() == old(self).spec_size(),
            final(self).spec_cells() == old(self).spec_cells(),
            final(self).spec_reward() == old(self).spec_reward(),
            final(self).spec_heading() == old(self).spec_heading(),
            final(self).spec_pending() == old(self).spec_pending(),
            old(self).wf() && old(self).spec_status() != Some(GameStatus::WON) ==> final(self).wf(),
    {
        self.status = Some(GameStatus::PLAYED);
    }

    /// The collision check and head move of one tick: when `next_head` is
    /// already on the body, the game is lost, the loss is notified and the
    /// body stays as it is; otherwise the head moves to `next_head` and
    /// every segment shifts one position toward the tail, dropping the old
    /// tail cell.
    fn check_and_update_head<H: Host>(&mut self, host: &mut H, next_head: &SnakeCell) -> (can_go:
        bool)
        requires
            1 <= old(self).spec_cells().len(),
        ensures
            can_go == !old(self).spec_cells().contains(next_head.0),
            final(self).spec_width() == old(self).spec_width(),
            final(self).spec_size() == old(self).spec_size(),
            final(self).spec_reward() == old(self).spec_reward(),
            final(self).spec_heading() == old(self).spec_heading(),
            final(self).spec_pending() == old(self).spec_pending(),
            can_go ==> final(self).spec_cells() == seq![next_head.0] + old(self).spec_cells().drop_last() && final(self).spec_status() == old(self).spec_status(),
            !can_go ==> final(self).spec_cells() == old(self).spec_cells() && final(self).spec_status() == Some(GameStatus::LOSS),
    {
        if body_contains(&self.snake.body, next_head.0) {
            self.status = Some(GameStatus::LOSS);
            host.notify("YOU LOSS!");
            false
        } else {
            self.snake.body.insert(0, *next_head);
            let _popped = self.snake.body.pop();
            proof {
                assert(self.spec_cells() =~= seq![next_head.0] + old(self).spec_cells().drop_last());
            }
            true
        }
    }

    /// One simulation tick.  Only a world in play changes: the head moves to
    /// the buffered pending cell if one is set, else one step along the
    /// current heading.  Moving onto the body loses the game and leaves the
    /// body untouched; moving onto the reward grows the snake by re-adding
    /// the departing tail cell and then either places a fresh reward on a
    /// free cell or, when the body now covers the whole board, wins the
    /// game.
    pub fn update<H: Host>(&mut self, host: &mut H)
        requires
            old(self).wf(),
        ensures
            final(self).wf(),
            final(self).spec_width() == old(self).spec_width(),
            final(self).spec_size() == old(self).spec_size(),
            old(self).spec_status() != Some(GameStatus::PLAYED) ==> *final(self) == *old(self),
            old(self).spec_status() == Some(GameStatus::PLAYED) ==> ({
                let nh = old(self).spec_next_head();
                &&& final(self).spec_heading() == old(self).spec_heading()
                &&& final(self).spec_pending() is None
                &&& if old(self).spec_cells().contains(nh) {
                    &&& final(self).spec_status() == Some(GameStatus::LOSS)
                    &&& final(self).spec_cells() == old(self).spec_cells()
                    &&& final(self).spec_reward() == old(self).spec_reward()
                } else if nh == old(self).spec_reward() {
                    &&& final(self).spec_cells() == seq![nh] + old(self).spec_cells()
                    &&& if old(self).spec_cells().len() + 1 < old(self).spec_size() {
                        &&& final(self).spec_status() == Some(GameStatus::PLAYED)
                        &&& final(self).spec_reward() < final(self).spec_size()
                        &&& !final(self).spec_cells().contains(final(self).spec_reward())
                    } else {
                        &&& final(self).spec_status() == Some(GameStatus::WON)
                        &&& final(self).spec_reward() == old(self).spec_reward()
                    }
                } else {
                    &&& final(self).spec_cells() == seq![nh] + old(self).spec_cells().drop_last()
                    &&& final(self).spec_status() == Some(GameStatus::PLAYED)
                    &&& final(self).spec_reward() == old(self).spec_reward()
                }
            }),
    {
        match self.status {
            Some(GameStatus::PLAYED) => {},
            _ => { return; },
        }
        let len = self.snake_length();
        let old_tail = self.snake.body[len - 1];
        let next_head = match self.snake.next_cell {
            Some(pending) => {
                self.snake.next_cell = None;
                pending
            },
            None => self.gen_next_snake_head_cell(&self.snake.direction),
        };
        let can_go = self.check_and_update_head(host, &next_head);
        if !can_go {
            return;
        }
        if self.reward_cell == self.snake_head_idx() {
            let ghost prev_body = self.snake.body@;
            let ghost prev_cells = self.spec_cells();
            self.snake.body.push(old_tail);
            proof {
                assert(old_tail.0 == old(self).spec_cells()[len - 1]);
                assert(cell_indices(prev_body.push(old_tail)) =~= cell_indices(prev_body).push(
                    old_tail.0,
                ));
                assert(self.spec_cells() == prev_cells.push(old_tail.0));
                assert((seq![next_head.0] + old(self).spec_cells().drop_last()).push(
                    old_tail.0,
                ) =~= seq![next_head.0] + old(self).spec_cells());
            }
            if self.snake_length() < self.size {
                proof {
                    lemma_free_cell_exists(self.spec_cells(), self.size);
                }
                self.reward_cell = World::gen_reward_cell(host, self.size, &self.snake.body);
            } else {
                self.status = Some(GameStatus::WON);
                host.notify("You Won!");
            }
        }
    }
}

/// No mid-flight reversal: when the snake is longer than one cell, is
/// heading Right, and its head has just moved Right out of its second body
/// segment, the Left neighbour of the head is exactly that second segment --
/// so by the contract of [`World::change_snake_direction`], asking for
/// `Direction::Left` leaves both the heading and the pending cell unchanged.
pub proof fn lemma_no_reversal(w: World)
    requires
        w.wf(),
        1 < w.spec_cells().len(),
        w.spec_heading() == Direction::Right,
        w.spec_cells()[0] == next_head_index(
            w.spec_cells()[1] as int,
            w.spec_width() as int,
            w.spec_size() as int,
            Direction::Right,
        ) as usize,
    ensures
        next_head_index(
            w.spec_cells()[0] as int,
            w.spec_width() as int,
            w.spec_size() as int,
            Direction::Left,
        ) as usize == w.spec_cells()[1],
{
    let wd = w.spec_width() as int;
    let s = w.spec_size() as int;
    let second = w.spec_cells()[1] as int;
    assert(w.spec_cells()[1] < w.spec_size());
    lemma_next_head_in_bounds(second, wd, s, Direction::Right);
    lemma_right_then_left(second, wd, s);
}

} // verus!
