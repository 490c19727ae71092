//! The game world: the snake, the food cell, the grid bounds, score and
//! speed, and the rules that tie them together — turn dispatch, movement
//! with toroidal wrap, self-collision, eating, and food placement.

use vstd::prelude::*;

use crate::rng::rand_range;
use crate::snake::{cells_view, delta_col, delta_row, turn_spec, Snake, SnakeView};

verus! {

/// Grid dimensions never exceed this, which keeps every coordinate
/// computation comfortably inside `isize`.
pub const MAX_DIM: usize = 0x1000_0000;

/// The fatal conditions the game rules themselves can raise. Terminal and
/// input failures are the binary's to report.
#[derive(Clone, Copy, PartialEq, Eq, Structural, Debug)]
pub enum GameError {
    /// The grid cannot hold the requested snake with the centered spawn
    /// band the rules demand.
    InvalidConfig,
    /// No free cell is left to hold food: the snake covers the grid.
    FoodPlacementExhausted,
}

/// Mathematical value of a world.
#[verifier::ext_equal]
pub ghost struct WorldView {
    pub snake: SnakeView,
    /// Grid height: rows are numbered `0 .. rows`.
    pub rows: int,
    /// Grid width: columns are numbered `0 .. cols`.
    pub cols: int,
    pub food: (int, int),
    pub score: int,
    pub speed: int,
    pub reward: int,
    pub paused: bool,
}

pub struct World {
    pub snake: Snake,
    pub size: (usize, usize),
    pub food_position: (isize, isize),
    pub score: usize,
    pub speed: usize,
    pub reward: usize,
    pub paused: bool,
}

impl View for World {
    type V = WorldView;

    open spec fn view(&self) -> WorldView {
        WorldView {
            snake: self.snake@,
            rows: self.size.0 as int,
            cols: self.size.1 as int,
            food: (self.food_position.0 as int, self.food_position.1 as int),
            score: self.score as int,
            speed: self.speed as int,
            reward: self.reward as int,
            paused: self.paused,
        }
    }
}

/// A cell lies on a grid of `rows` by `cols` cells.
pub open spec fn in_bounds(c: (int, int), rows: int, cols: int) -> bool {
    0 <= c.0 < rows && 0 <= c.1 < cols
}

/// Toroidal wrap of a cell at most one step off the grid.
pub open spec fn wrap_cell(c: (int, int), rows: int, cols: int) -> (int, int) {
    ((rows + c.0) % rows, (cols + c.1) % cols)
}

/// The head cell after one step in the current direction, before wrapping.
pub open spec fn pre_wrap_head(v: WorldView) -> (int, int) {
    (v.snake.body[0].0 + delta_row(v.snake.dir), v.snake.body[0].1 + delta_col(v.snake.dir))
}

/// The head cell after one step, wrapped back onto the grid.
pub open spec fn wrapped_head(v: WorldView) -> (int, int) {
    wrap_cell(pre_wrap_head(v), v.rows, v.cols)
}

/// The body right after a step: the wrapped head in front, the old tail
/// cell vacated, everything else shifted back one place.
pub open spec fn moved_body(v: WorldView) -> Seq<(int, int)> {
    seq![wrapped_head(v)] + v.snake.body.take(v.snake.body.len() - 1)
}

/// The step ends on a cell the rest of the body still occupies.
pub open spec fn collides(v: WorldView) -> bool {
    v.snake.body.take(v.snake.body.len() - 1).contains(wrapped_head(v))
}

/// The step ends on the food cell.
pub open spec fn eats(v: WorldView) -> bool {
    wrapped_head(v) == v.food
}

/// The world after one move, food cell left untouched: a paused or dead
/// world is unchanged; otherwise the snake advances with wraparound, dies
/// exactly on self-collision, and on eating re-grows by the vacated tail
/// while score rises by the reward and speed by one.
pub open spec fn move_spec(v: WorldView) -> WorldView {
    if !v.snake.alive || v.paused {
        v
    } else {
        WorldView {
            snake: SnakeView {
                alive: !collides(v),
                body: if eats(v) {
                    moved_body(v).push(v.snake.body.last())
                } else {
                    moved_body(v)
                },
                dir: v.snake.dir,
            },
            score: if eats(v) {
                v.score + v.reward
            } else {
                v.score
            },
            speed: if eats(v) {
                v.speed + 1
            } else {
                v.speed
            },
            ..v
        }
    }
}

/// A move eats the food and leaves the snake alive, so a fresh food cell
/// is owed.
pub open spec fn needs_food(v: WorldView) -> bool {
    v.snake.alive && !v.paused && eats(v) && !collides(v)
}

/// `v` with its food cell moved to `f`.
pub open spec fn with_food(v: WorldView, f: (int, int)) -> WorldView {
    WorldView { food: f, ..v }
}

/// `v` with its direction turned by `action`, unless paused.
pub open spec fn turn_world(v: WorldView, action: int) -> WorldView {
    if v.paused {
        v
    } else {
        WorldView {
            snake: SnakeView { dir: turn_spec(v.snake.dir, action), ..v.snake },
            ..v
        }
    }
}

/// The snake covers the whole grid: no cell is free for food.
pub open spec fn body_covers_grid(v: WorldView) -> bool {
    forall|c: (int, int)| in_bounds(c, v.rows, v.cols) ==> v.snake.body.contains(c)
}

pub open spec fn size_ok(v: WorldView) -> bool {
    2 <= v.rows <= MAX_DIM && 2 <= v.cols <= MAX_DIM
}

pub open spec fn snake_ok(v: WorldView) -> bool {
    &&& 0 <= v.snake.dir < 4
    &&& v.snake.body.len() >= 2
    &&& forall|k: int| 0 <= k < v.snake.body.len() ==> in_bounds(v.snake.body[k], v.rows, v.cols)
}

pub open spec fn food_ok(v: WorldView) -> bool {
    in_bounds(v.food, v.rows, v.cols)
}

/// Well-formedness of a world: a modest grid, a snake of at least two
/// cells lying on it with a meaningful direction, and food on the grid.
pub open spec fn wf(v: WorldView) -> bool {
    size_ok(v) && snake_ok(v) && food_ok(v)
}

/// Food does not sit on the snake.
pub open spec fn food_free(v: WorldView) -> bool {
    !v.snake.body.contains(v.food)
}

/// The centered spawn band exists: the grid leaves room, in both axes, for
/// a head at least `snake_size` cells from every border, and the snake is
/// long enough to move (two cells).
pub open spec fn valid_config(size: (usize, usize), snake_size: usize) -> bool {
    &&& 2 <= snake_size
    &&& 2 * snake_size + 2 <= size.0 <= MAX_DIM
    &&& 2 * snake_size + 2 <= size.1 <= MAX_DIM
}

/// True exactly when the cells of `blocks` from `start` on hold `cell`.
fn contains_from(blocks: &Vec<(isize, isize)>, start: usize, cell: (isize, isize)) -> (r: bool)
    requires
        start <= blocks@.len(),
    ensures
        r == cells_view(blocks@).skip(start as int).contains((cell.0 as int, cell.1 as int)),
{
    let ghost target: (int, int) = (cell.0 as int, cell.1 as int);
    let ghost cv = cells_view(blocks@);
    let mut i: usize = start;
    while i < blocks.len()
        invariant
            start <= i <= blocks@.len(),
            cv == cells_view(blocks@),
            target == (cell.0 as int, cell.1 as int),
            forall|k: int| start <= k < i ==> cv[k] != target,
        decreases blocks@.len() - i,
    {
        let b = blocks[i];
        if b.0 == cell.0 && b.1 == cell.1 {
            proof {
                assert(cv[i as int] == target);
                assert(cv.skip(start as int)[i - start] == target);
                assert(cv.skip(start as int).contains(target));
            }
            return true;
        }
        i = i + 1;
    }
    proof {
        assert forall|k: int| 0 <= k < cv.skip(start as int).len() implies cv.skip(start as int)[k]
            != target by {
            assert(cv.skip(start as int)[k] == cv[k + start]);
        }
        assert(!cv.skip(start as int).contains(target));
    }
    false
}

/// The cells of a pushed vector are the pushed cells.
proof fn lemma_cells_view_push(s: Seq<(isize, isize)>, c: (isize, isize))
    ensures
        cells_view(s.push(c)) =~= cells_view(s).push((c.0 as int, c.1 as int)),
{
    assert forall|k: int| 0 <= k < s.len() + 1 implies cells_view(s.push(c))[k] == cells_view(
        s,
    ).push((c.0 as int, c.1 as int))[k] by {
        if k < s.len() {
            assert(s.push(c)[k] == s[k]);
        } else {
            assert(s.push(c)[k] == c);
        }
    }
}

/// Pushing keeps every held cell held, and holds the new one.
proof fn lemma_push_contains(s: Seq<(int, int)>, c: (int, int), x: (int, int))
    requires
        s.contains(x) || x == c,
    ensures
        s.push(c).contains(x),
{
    if s.contains(x) {
        let k = choose|k: int| 0 <= k < s.len() && s[k] == x;
        assert(s.push(c)[k] == x);
    } else {
        assert(s.push(c)[s.len() as int] == x);
    }
}

/// Law: wrapping lands on the grid — after any move on a well-formed world,
/// the head's coordinates lie within the grid bounds, whatever the
/// direction and however far off the edge the pre-wrap step went.
pub proof fn lemma_wrap_in_bounds(c: (int, int), rows: int, cols: int)
    requires
        rows >= 1,
        cols >= 1,
    ensures
        in_bounds(wrap_cell(c, rows, cols), rows, cols),
{
    vstd::arithmetic::div_mod::lemma_mod_bound(rows + c.0, rows);
    vstd::arithmetic::div_mod::lemma_mod_bound(cols + c.1, cols);
}

/// Law: a move of a well-formed world yields a well-formed world, and its
/// head lies within the grid (the wrapped-head form of the wrap law).
pub proof fn lemma_move_preserves_wf(v: WorldView)
    requires
        wf(v),
    ensures
        wf(move_spec(v)),
        v.snake.alive && !v.paused ==> move_spec(v).snake.body[0] == wrapped_head(v) && in_bounds(
            wrapped_head(v),
            v.rows,
            v.cols,
        ),
{
    if v.snake.alive && !v.paused {
        lemma_wrap_in_bounds(pre_wrap_head(v), v.rows, v.cols);
        let m = move_spec(v);
        let n = v.snake.body.len() as int;
        assert(moved_body(v)[0] == wrapped_head(v));
        assert forall|k: int| 0 <= k < m.snake.body.len() implies in_bounds(
            #[trigger] m.snake.body[k],
            v.rows,
            v.cols,
        ) by {
            if k == 0 {
            } else if k < n {
                assert(moved_body(v)[k] == v.snake.body[k - 1]);
            } else {
                assert(m.snake.body[k] == v.snake.body.last());
            }
        }
    }
}

/// Law: eating raises the score by exactly the reward, the speed by
/// exactly one, and the body length by exactly one.
pub proof fn lemma_eating_effects(v: WorldView)
    requires
        wf(v),
        v.snake.alive,
        !v.paused,
        eats(v),
    ensures
        move_spec(v).score == v.score + v.reward,
        move_spec(v).speed == v.speed + 1,
        move_spec(v).snake.body.len() == v.snake.body.len() + 1,
{
}

/// Law: a collision kills — when the wrapped head lands on a cell the rest
/// of the body still occupies, the snake of the moved world is dead.
pub proof fn lemma_collision_kills(v: WorldView)
    requires
        v.snake.alive,
        !v.paused,
        collides(v),
    ensures
        !move_spec(v).snake.alive,
{
}

/// Law: death is terminal — a move of a dead world changes nothing, so no
/// score, speed or length change ever follows a self-collision.
pub proof fn lemma_death_is_terminal(v: WorldView)
    requires
        !v.snake.alive,
    ensures
        move_spec(v) == v,
{
}

/// The code a grid cell renders as: the head wins over the body, the body
/// over food, and anything else is empty.
pub open spec fn cell_code(v: WorldView, i: int, j: int) -> int {
    if v.snake.body[0] == (i, j) {
        2
    } else if v.snake.body.contains((i, j)) {
        1
    } else if v.food == (i, j) {
        3
    } else {
        0
    }
}

impl World {
    /// The render code of one cell.
    fn code_at(&self, i: usize, j: usize) -> (c: isize)
        requires
            wf(self@),
            i < self@.rows,
            j < self@.cols,
        ensures
            c == cell_code(self@, i as int, j as int),
    {
        let cell: (isize, isize) = (i as isize, j as isize);
        proof {
            assert(self@.snake.body.skip(0) =~= self@.snake.body);
        }
        let head = self.snake.blocks[0];
        if head.0 == cell.0 && head.1 == cell.1 {
            2
        } else if contains_from(&self.snake.blocks, 0, cell) {
            1
        } else if self.food_position.0 == cell.0 && self.food_position.1 == cell.1 {
            3
        } else {
            0
        }
    }

    /// The rendered state of every grid cell: 0 empty, 1 snake body,
    /// 2 snake head, 3 food, row by row.
    pub fn get_state(&self) -> (grid: Vec<Vec<isize>>)
        requires
            wf(self@),
        ensures
            grid@.len() == self@.rows,
            forall|i: int| 0 <= i < self@.rows ==> #[trigger] grid@[i]@.len() == self@.cols,
            forall|i: int, j: int|
                0 <= i < self@.rows && 0 <= j < self@.cols ==> #[trigger] grid@[i]@[j] == cell_code(
                    self@,
                    i,
                    j,
                ),
    {
        let mut grid: Vec<Vec<isize>> = Vec::new();
        let mut i: usize = 0;
        while i < self.size.0
            invariant
                wf(self@),
                i <= self@.rows,
                grid@.len() == i,
                forall|a: int| 0 <= a < i ==> #[trigger] grid@[a]@.len() == self@.cols,
                forall|a: int, b: int|
                    0 <= a < i && 0 <= b < self@.cols ==> #[trigger] grid@[a]@[b] == cell_code(
                        self@,
                        a,
                        b,
                    ),
            decreases self@.rows - i,
        {
            let mut row: Vec<isize> = Vec::new();
            let mut j: usize = 0;
            while j < self.size.1
                invariant
                    wf(self@),
                    i < self@.rows,
                    j <= self@.cols,
                    row@.len() == j,
                    forall|b: int|
                        0 <= b < j ==> #[trigger] row@[b] == cell_code(self@, i as int, b),
                decreases self@.cols - j,
            {
                let c = self.code_at(i, j);
                row.push(c);
                j = j + 1;
            }
            grid.push(row);
            i = i + 1;
        }
        grid
    }

    /// Forwards the turn request to the snake, unless the world is paused.
    pub fn turn_snake(&mut self, action: usize)
        requires
            action < 4,
        ensures
            final(self)@ == turn_world(old(self)@, action as int),
    {
        if !self.paused {
            self.snake.turn(action);
            proof {
                assert(self@ =~~= turn_world(old(self)@, action as int));
            }
        } else {
            proof {
                assert(self@ =~~= turn_world(old(self)@, action as int));
            }
        }
    }

    /// A new game world: a uniformly random starting direction, a head
    /// placed uniformly at random so that the whole starting snake — laid
    /// out as a straight line behind the head — keeps at least `snake_size`
    /// cells of margin to every border, score zero, speed one, food on a
    /// random free cell. Rejected exactly when the grid cannot hold that
    /// centered spawn band or the snake is too short to move.
    pub fn new(size: (usize, usize), snake_size: usize, reward: usize) -> (r: Result<
        World,
        GameError,
    >)
        ensures
            match r {
                Ok(w) => {
                    &&& valid_config(size, snake_size)
                    &&& wf(w@)
                    &&& food_free(w@)
                    &&& w@.rows == size.0 && w@.cols == size.1
                    &&& w@.score == 0 && w@.speed == 1 && w@.reward == reward
                    &&& !w@.paused
                    &&& w@.snake.alive
                    &&& 0 <= w@.snake.dir < 4
                    &&& w@.snake.body.len() == snake_size
                    &&& snake_size <= w@.snake.body[0].0 <= size.0 - snake_size - 2
                    &&& snake_size <= w@.snake.body[0].1 <= size.1 - snake_size - 2
                    &&& forall|k: int|
                        0 <= k < snake_size ==> #[trigger] w@.snake.body[k] == (
                            w@.snake.body[0].0 - k * delta_row(w@.snake.dir),
                            w@.snake.body[0].1 - k * delta_col(w@.snake.dir),
                        )
                },
                Err(e) => e == GameError::InvalidConfig && !valid_config(size, snake_size),
            },
    {
        if snake_size < 2 || size.0 < 2 || size.1 < 2 || size.0 > MAX_DIM || size.1 > MAX_DIM {
            return Err(GameError::InvalidConfig);
        }
        if snake_size > (size.0 - 2) / 2 || snake_size > (size.1 - 2) / 2 {
            return Err(GameError::InvalidConfig);
        }
        let direction = rand_range(0, 4);
        let hx = rand_range(snake_size, size.0 - snake_size - 1);
        let hy = rand_range(snake_size, size.1 - snake_size - 1);
        let head: (isize, isize) = (hx as isize, hy as isize);
        let snake = Snake::new(head, direction, snake_size);
        let mut world = World {
            snake,
            size,
            food_position: (-1, -1),
            score: 0,
            speed: 1,
            reward,
            paused: false,
        };
        proof {
            assert forall|k: int| 0 <= k < world@.snake.body.len() implies in_bounds(
                #[trigger] world@.snake.body[k],
                world@.rows,
                world@.cols,
            ) && world@.snake.body[k].0 >= 1 by {
                crate::snake::lemma_mul_unit_bound(k, delta_row(direction as int));
                crate::snake::lemma_mul_unit_bound(k, delta_col(direction as int));
            }
            assert(!world@.snake.body.contains((0int, 0int))) by {
                if world@.snake.body.contains((0int, 0int)) {
                    let k = choose|k: int|
                        0 <= k < world@.snake.body.len() && world@.snake.body[k] == (0int, 0int);
                    assert(world@.snake.body[k].0 >= 1);
                }
            }
            assert(in_bounds((0int, 0int), world@.rows, world@.cols));
            assert(!body_covers_grid(world@));
        }
        match world.init_food() {
            Ok(()) => Ok(world),
            Err(_) => {
                proof {
                    assert(false);
                }
                Err(GameError::InvalidConfig)
            },
        }
    }

    /// Picks a fresh food cell uniformly at random among the cells the
    /// snake does not occupy, if any is left; a snake that covers the grid
    /// leaves nowhere to place food. A dead snake keeps its food.
    #[verifier::loop_isolation(false)]
    fn init_food(&mut self) -> (r: Result<(), GameError>)
        requires
            size_ok(old(self)@),
            snake_ok(old(self)@),
        ensures
            !old(self)@.snake.alive ==> r == Ok::<(), GameError>(()) && final(self)@ == old(
                self,
            )@,
            old(self)@.snake.alive ==> match r {
                Ok(()) => {
                    &&& final(self)@ == with_food(old(self)@, final(self)@.food)
                    &&& food_ok(final(self)@)
                    &&& food_free(final(self)@)
                },
                Err(e) => {
                    &&& e == GameError::FoodPlacementExhausted
                    &&& final(self)@ == old(self)@
                    &&& body_covers_grid(old(self)@)
                },
            },
            (r == Err::<(), GameError>(GameError::FoodPlacementExhausted)) <==> (
            old(self)@.snake.alive && body_covers_grid(old(self)@)),
    {
        if !self.snake.is_alive {
            return Ok(());
        }
        let ghost bv = self@.snake.body;
        proof {
            assert(bv.skip(0) =~= bv);
        }
        let rows = self.size.0;
        let cols = self.size.1;
        let mut free: Vec<(isize, isize)> = Vec::new();
        let mut i: usize = 0;
        while i < rows
            invariant
                i <= rows,
                forall|k: int|
                    0 <= k < free@.len() ==> in_bounds(
                        #[trigger] cells_view(free@)[k],
                        rows as int,
                        cols as int,
                    ) && !bv.contains(cells_view(free@)[k]),
                forall|a: int, b: int|
                    0 <= a < i && 0 <= b < cols ==> bv.contains((a, b)) || cells_view(
                        free@,
                    ).contains((a, b)),
            decreases rows - i,
        {
            let mut j: usize = 0;
            while j < cols
                invariant
                    i < rows,
                    j <= cols,
                    forall|k: int|
                        0 <= k < free@.len() ==> in_bounds(
                            #[trigger] cells_view(free@)[k],
                            rows as int,
                            cols as int,
                        ) && !bv.contains(cells_view(free@)[k]),
                    forall|a: int, b: int|
                        0 <= a < i && 0 <= b < cols ==> bv.contains((a, b)) || cells_view(
                            free@,
                        ).contains((a, b)),
                    forall|b: int|
                        0 <= b < j ==> bv.contains((i as int, b)) || cells_view(free@).contains(
                            (i as int, b),
                        ),
                decreases cols - j,
            {
                let c: (isize, isize) = (i as isize, j as isize);
                proof {
                    assert((c.0 as int, c.1 as int) == (i as int, j as int));
                }
                let ghost prev = free@;
                let found = contains_from(&self.snake.blocks, 0, c);
                if !found {
                    free.push(c);
                    proof {
                        lemma_cells_view_push(prev, c);
                    }
                }
                proof {
                    assert forall|a: int, b: int|
                        cells_view(prev).contains((a, b)) || (!found && a == i as int && b
                            == j as int) implies cells_view(free@).contains((a, b)) by {
                        if !found {
                            lemma_push_contains(cells_view(prev), (c.0 as int, c.1 as int), (a, b));
                        }
                    }
                    assert forall|b: int| 0 <= b <= j implies bv.contains((i as int, b))
                        || cells_view(free@).contains((i as int, b)) by {
                        if b == j {
                            if found {
                                assert(bv.contains((i as int, j as int)));
                            } else {
                                lemma_push_contains(
                                    cells_view(prev),
                                    (c.0 as int, c.1 as int),
                                    (i as int, b),
                                );
                            }
                        } else {
                            assert(bv.contains((i as int, b)) || cells_view(prev).contains(
                                (i as int, b),
                            ));
                        }
                    }
                }
                j = j + 1;
            }
            i = i + 1;
        }
        if free.len() == 0 {
            proof {
                assert forall|c2: (int, int)| in_bounds(
                    c2,
                    self@.rows,
                    self@.cols,
                ) implies self@.snake.body.contains(c2) by {
                    assert(bv.contains((c2.0, c2.1)) || cells_view(free@).contains((c2.0, c2.1)));
                    assert((c2.0, c2.1) == c2);
                }
            }
            return Err(GameError::FoodPlacementExhausted);
        }
        let idx = rand_range(0, free.len());
        let f = free[idx];
        self.food_position = f;
        proof {
            assert(cells_view(free@)[idx as int] == (f.0 as int, f.1 as int));
            assert(self@ =~~= with_food(old(self)@, self@.food));
        }
        Ok(())
    }

    /// One tick of the game rules. A paused or dead world is untouched.
    /// Otherwise the snake advances one cell in its direction, the head
    /// wraps toroidally back onto the grid, a head landing on any other
    /// body cell kills the snake, and a head landing on the food grows the
    /// snake by the vacated tail, adds the reward to the score, adds one to
    /// the speed, and relocates the food to a random cell the snake does
    /// not occupy. The only error is a snake that has just covered the
    /// whole grid, leaving no cell for food.
    pub fn move_snake(&mut self) -> (r: Result<(), GameError>)
        requires
            wf(old(self)@),
            old(self)@.score + old(self)@.reward <= usize::MAX,
            old(self)@.speed + 1 <= usize::MAX,
        ensures
            wf(final(self)@),
            !needs_food(old(self)@) ==> r == Ok::<(), GameError>(()) && final(self)@ == move_spec(
                old(self)@,
            ),
            needs_food(old(self)@) ==> match r {
                Ok(()) => {
                    &&& final(self)@ == with_food(move_spec(old(self)@), final(self)@.food)
                    &&& food_ok(final(self)@)
                    &&& !move_spec(old(self)@).snake.body.contains(final(self)@.food)
                },
                Err(e) => {
                    &&& e == GameError::FoodPlacementExhausted
                    &&& final(self)@ == move_spec(old(self)@)
                    &&& body_covers_grid(move_spec(old(self)@))
                },
            },
            (r == Err::<(), GameError>(GameError::FoodPlacementExhausted)) <==> (needs_food(
                old(self)@,
            ) && body_covers_grid(move_spec(old(self)@))),
    {
        let ghost pre = self@;
        if self.paused || !self.snake.is_alive {
            return Ok(());
        }
        proof {
            assert(pre.snake.body[0] == (
                self.snake.blocks@[0].0 as int,
                self.snake.blocks@[0].1 as int,
            ));
        }
        let step_result = self.snake.step();
        let new_head: (isize, isize) = step_result.0;
        let old_tail: (isize, isize) = step_result.1;
        let rows = self.size.0 as isize;
        let cols = self.size.1 as isize;
        let wrapped: (isize, isize) = ((rows + new_head.0) % rows, (cols + new_head.1) % cols);
        proof {
            lemma_wrap_in_bounds(pre_wrap_head(pre), pre.rows, pre.cols);
            assert((wrapped.0 as int, wrapped.1 as int) == wrapped_head(pre));
        }
        let ghost mid = self@.snake.body;
        self.snake.blocks.set(0, wrapped);
        proof {
            assert forall|k: int| 0 <= k < self@.snake.body.len() implies self@.snake.body[k]
                == moved_body(pre)[k] by {
                if k == 0 {
                    assert(self.snake.blocks@[0] == wrapped);
                } else {
                    assert(self@.snake.body[k] == mid[k]);
                    assert(mid[k] == pre.snake.body.take(pre.snake.body.len() - 1)[k - 1]);
                }
            }
            assert(self@.snake.body =~= moved_body(pre));
            assert(self@.snake.body.skip(1) =~= pre.snake.body.take(pre.snake.body.len() - 1));
        }
        let collided = contains_from(&self.snake.blocks, 1, wrapped);
        if collided {
            self.snake.is_alive = false;
        }
        let ate = wrapped.0 == self.food_position.0 && wrapped.1 == self.food_position.1;
        if ate {
            let ghost grown = self.snake.blocks@;
            self.snake.blocks.push(old_tail);
            proof {
                lemma_cells_view_push(grown, old_tail);
            }
            self.score = self.score + self.reward;
            self.speed = self.speed + 1;
        }
        proof {
            assert(ate == eats(pre));
            assert(collided == collides(pre));
            lemma_move_preserves_wf(pre);
            assert(self@ =~~= move_spec(pre));
        }
        if ate && self.snake.is_alive {
            self.init_food()
        } else {
            Ok(())
        }
    }

    /// Toggles the pause flag; while paused, turning, moving and drawing
    /// all freeze.
    pub fn pause(&mut self)
        ensures
            final(self)@ == (WorldView { paused: !old(self)@.paused, ..old(self)@ }),
    {
        self.paused = !self.paused;
        proof {
            assert(self@ =~~= WorldView { paused: !old(self)@.paused, ..old(self)@ });
        }
    }
}

} // verus!
