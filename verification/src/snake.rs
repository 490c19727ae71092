//! The snake itself: an ordered body of grid cells, head first, with a
//! current direction and an alive flag.

use vstd::prelude::*;

verus! {

/// Row delta of a unit step in direction `d` (0 up, 1 right, 2 down, 3 left).
pub open spec fn delta_row(d: int) -> int {
    if d == 0 {
        -1
    } else if d == 2 {
        1
    } else {
        0
    }
}

/// Column delta of a unit step in direction `d`.
pub open spec fn delta_col(d: int) -> int {
    if d == 1 {
        1
    } else if d == 3 {
        -1
    } else {
        0
    }
}

/// The direction after requesting to turn toward `action` while moving
/// toward `dir`. The request is honoured exactly when it changes axis
/// (directions of the same parity share an axis), so an instant reversal
/// into the snake's own neck is impossible, and a same-direction request
/// is a no-op.
pub open spec fn turn_spec(dir: int, action: int) -> int {
    if dir % 2 != action % 2 {
        action
    } else {
        dir
    }
}

/// The cells of a block vector as unbounded integer pairs.
pub open spec fn cells_view(blocks: Seq<(isize, isize)>) -> Seq<(int, int)> {
    Seq::new(blocks.len(), |i: int| (blocks[i].0 as int, blocks[i].1 as int))
}

/// Mathematical value of a snake: cells as unbounded integers.
#[verifier::ext_equal]
pub ghost struct SnakeView {
    pub alive: bool,
    pub body: Seq<(int, int)>,
    pub dir: int,
}

pub struct Snake {
    pub is_alive: bool,
    /// Body cells, head first, in the order they were occupied.
    pub blocks: Vec<(isize, isize)>,
    /// One of 0 (up), 1 (right), 2 (down), 3 (left).
    pub direction: usize,
}

impl View for Snake {
    type V = SnakeView;

    open spec fn view(&self) -> SnakeView {
        SnakeView {
            alive: self.is_alive,
            body: cells_view(self.blocks@),
            dir: self.direction as int,
        }
    }
}

/// Unit step of direction `direction`, as executable deltas.
fn unit_delta(direction: usize) -> (d: (isize, isize))
    requires
        direction < 4,
    ensures
        d.0 == delta_row(direction as int),
        d.1 == delta_col(direction as int),
{
    if direction == 0 {
        (-1, 0)
    } else if direction == 1 {
        (0, 1)
    } else if direction == 2 {
        (1, 0)
    } else {
        (0, -1)
    }
}

/// A product `k * u` with a unit-bounded factor stays within `[-k, k]`.
pub proof fn lemma_mul_unit_bound(k: int, u: int)
    requires
        0 <= k,
        -1 <= u <= 1,
    ensures
        -k <= k * u <= k,
{
    if u == -1 {
        assert(k * u == -k) by (nonlinear_arith)
            requires u == -1;
    } else if u == 0 {
        assert(k * u == 0) by (nonlinear_arith)
            requires u == 0;
    } else {
        assert(k * u == k) by (nonlinear_arith)
            requires u == 1;
    }
}

impl Snake {
    /// Builds a body of `length` cells: the head at `head_position`, each
    /// following cell one unit step backward, opposite to `direction`.
    /// No wrapping is applied; the caller keeps the body on the grid.
    pub fn new(head_position: (isize, isize), direction: usize, length: usize) -> (s: Snake)
        requires
            direction < 4,
            1 <= length,
            isize::MIN + length <= head_position.0 <= isize::MAX - length,
            isize::MIN + length <= head_position.1 <= isize::MAX - length,
        ensures
            s@.alive,
            s@.dir == direction,
            s@.body.len() == length,
            forall|k: int|
                0 <= k < length ==> s@.body[k] == (
                    head_position.0 - k * delta_row(direction as int),
                    head_position.1 - k * delta_col(direction as int),
                ),
    {
        let mut blocks: Vec<(isize, isize)> = Vec::new();
        blocks.push(head_position);
        let mut pos: (isize, isize) = (head_position.0, head_position.1);
        let d = unit_delta(direction);
        let mut i: usize = 1;
        while i < length
            invariant
                1 <= i <= length || (length < 1 && i == 1),
                d.0 == delta_row(direction as int),
                d.1 == delta_col(direction as int),
                isize::MIN + length <= head_position.0 <= isize::MAX - length,
                isize::MIN + length <= head_position.1 <= isize::MAX - length,
                blocks@.len() == i,
                pos.0 == head_position.0 - (i - 1) * delta_row(direction as int),
                pos.1 == head_position.1 - (i - 1) * delta_col(direction as int),
                forall|k: int|
                    0 <= k < i ==> blocks@[k] == (
                        (head_position.0 - k * delta_row(direction as int)) as isize,
                        (head_position.1 - k * delta_col(direction as int)) as isize,
                    ),
            decreases length - i,
        {
            proof {
                lemma_mul_unit_bound(i - 1, delta_row(direction as int));
                lemma_mul_unit_bound(i - 1, delta_col(direction as int));
                assert(i * delta_row(direction as int) == (i - 1) * delta_row(direction as int)
                    + delta_row(direction as int)) by (nonlinear_arith);
                assert(i * delta_col(direction as int) == (i - 1) * delta_col(direction as int)
                    + delta_col(direction as int)) by (nonlinear_arith);
                lemma_mul_unit_bound(i as int, delta_row(direction as int));
                lemma_mul_unit_bound(i as int, delta_col(direction as int));
            }
            pos.0 = pos.0 - d.0;
            pos.1 = pos.1 - d.1;
            blocks.push(pos);
            i = i + 1;
        }
        let s = Snake { is_alive: true, blocks, direction };
        proof {
            assert forall|k: int| 0 <= k < length implies s@.body[k] == (
                head_position.0 - k * delta_row(direction as int),
                head_position.1 - k * delta_col(direction as int),
            ) by {
                lemma_mul_unit_bound(k, delta_row(direction as int));
                lemma_mul_unit_bound(k, delta_col(direction as int));
            }
        }
        s
    }

    /// Replaces the current direction by `action` exactly when `action`
    /// lies on the other axis; otherwise the request is ignored.
    pub fn turn(&mut self, action: usize)
        ensures
            final(self)@.dir == turn_spec(old(self)@.dir, action as int),
            final(self)@.body == old(self)@.body,
            final(self)@.alive == old(self)@.alive,
    {
        if (self.direction % 2) != (action % 2) {
            self.direction = action;
        }
    }

    /// One step in the current direction: the tail cell vacates, a new
    /// head cell (not yet wrapped, so possibly off the grid) takes the
    /// front. Returns the new head and the vacated tail so the caller can
    /// wrap the head and, on eating, re-append the tail.
    pub fn step(&mut self) -> (r: ((isize, isize), (isize, isize)))
        requires
            old(self)@.dir < 4,
            old(self)@.body.len() >= 2,
            isize::MIN < old(self).blocks@[0].0 < isize::MAX,
            isize::MIN < old(self).blocks@[0].1 < isize::MAX,
        ensures
            (r.0.0 as int, r.0.1 as int) == (
                old(self)@.body[0].0 + delta_row(old(self)@.dir),
                old(self)@.body[0].1 + delta_col(old(self)@.dir),
            ),
            (r.1.0 as int, r.1.1 as int) == old(self)@.body.last(),
            final(self)@.body =~= seq![(r.0.0 as int, r.0.1 as int)]
                + old(self)@.body.take(old(self)@.body.len() - 1),
            final(self)@.dir == old(self)@.dir,
            final(self)@.alive == old(self)@.alive,
    {
        let tail: (isize, isize) = match self.blocks.pop() {
            Some(t) => t,
            None => {
                proof {
                    assert(false);
                }
                (0, 0)
            },
        };
        let d = unit_delta(self.direction);
        let head: (isize, isize) = self.blocks[0];
        let new_head: (isize, isize) = (head.0 + d.0, head.1 + d.1);
        self.blocks.insert(0, new_head);
        (new_head, tail)
    }
}

/// Law: a turn request is rejected (the direction is unchanged) exactly
/// when it shares axis parity with the current direction — the reverse and
/// the same direction are no-ops; any other request is honoured.
pub proof fn lemma_turn_rejected_iff(dir: int, action: int)
    requires
        0 <= dir < 4,
        0 <= action < 4,
    ensures
        turn_spec(dir, action) == if dir % 2 == action % 2 {
            dir
        } else {
            action
        },
{
}

} // verus!
