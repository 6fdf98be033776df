use vstd::prelude::*;
use crate::direction::{Direction, spec_delta};
use crate::grid::{Cell, cell};

verus! {

/// The cell one step from `c` in direction `d`.
pub open spec fn spec_step(c: Cell, d: Direction) -> Cell {
    cell(c.x + spec_delta(d).0, c.y + spec_delta(d).1)
}

/// A step from `c` in any direction stays within `i32`.
pub open spec fn can_step(c: Cell) -> bool {
    i32::MIN < c.x < i32::MAX && i32::MIN < c.y < i32::MAX
}

/// The body after one move: the head steps in direction `d` and every other
/// segment takes the place of the one before it.
pub open spec fn spec_move(body: Seq<Cell>, d: Direction) -> Seq<Cell> {
    Seq::new(body.len(), |i: int| if i == 0 { spec_step(body[0], d) } else { body[i - 1] })
}

/// The body after eating: one move, then the former last segment is added
/// back at the end.
pub open spec fn spec_eat(body: Seq<Cell>, d: Direction) -> Seq<Cell> {
    spec_move(body, d).push(body.last())
}

/// `a` and `b` are neighbouring cells: they differ by one in exactly one
/// coordinate.
pub open spec fn adjacent(a: Cell, b: Cell) -> bool {
    ||| a.x == b.x && (a.y - b.y == 1 || b.y - a.y == 1)
    ||| a.y == b.y && (a.x - b.x == 1 || b.x - a.x == 1)
}

/// Each segment of `body` lies next to the segment before it: the body is a
/// connected chain of cells.
pub open spec fn connected(body: Seq<Cell>) -> bool {
    forall|i: int| 0 <= i < body.len() - 1 ==> #[trigger] adjacent(body[i], body[i + 1])
}

/// The snake's body at the start of a game, head first.
pub open spec fn spec_initial_body() -> Seq<Cell> {
    seq![cell(9, 10), cell(8, 10)]
}

/// The snake: its segments, head first, and the direction of its next move.
pub struct Snake {
    pub snake_array: Vec<Cell>,
    pub snake_direction: Direction,
}

impl Snake {
    /// A snake of two segments in the middle of the grid, heading right.
    pub fn new() -> (snake: Snake)
        ensures
            snake.snake_array@ == spec_initial_body(),
            snake.snake_direction == Direction::Right,
    {
        let snake_array = vec![Cell { x: 9, y: 10 }, Cell { x: 8, y: 10 }];
        Snake { snake_array, snake_direction: Direction::Right }
    }

    /// Moves the snake one step and lets it grow by the segment it left behind.
    pub fn eat_food(&mut self)
        requires
            old(self).snake_array.len() >= 1,
            can_step(old(self).snake_array@[0]),
        ensures
            final(self).snake_array@ == spec_eat(old(self).snake_array@, old(self).snake_direction),
            final(self).snake_direction == old(self).snake_direction,
            // one segment longer, the old tail kept at the end
            final(self).snake_array.len() == old(self).snake_array.len() + 1,
            final(self).snake_array@.last() == old(self).snake_array@.last(),
            // the head takes one step in the snake's own direction
            final(self).snake_array@[0].x == old(self).snake_array@[0].x + if old(self).snake_direction == Direction::Left {
                -1int
            } else if old(self).snake_direction == Direction::Right {
                1int
            } else {
                0int
            },
            final(self).snake_array@[0].y == old(self).snake_array@[0].y + if old(self).snake_direction == Direction::Up {
                -1int
            } else if old(self).snake_direction == Direction::Down {
                1int
            } else {
                0int
            },
            // every other segment takes the place of the one before it
            forall|i: int| 1 <= i < old(self).snake_array.len() ==> final(self).snake_array@[i] == old(self).snake_array@[i - 1],
    {
        let tail: Cell = self.snake_array[self.snake_array.len() - 1];
        self.move_snake();
        self.snake_array.push(tail);
    }

    /// Moves the snake one step: the head steps in the snake's direction and
    /// every other segment takes the place of the one before it.
    pub fn move_snake(&mut self)
        requires
            old(self).snake_array.len() >= 1,
            can_step(old(self).snake_array@[0]),
        ensures
            final(self).snake_array@ == spec_move(old(self).snake_array@, old(self).snake_direction),
            final(self).snake_direction == old(self).snake_direction,
            final(self).snake_array.len() == old(self).snake_array.len(),
            // the head takes one step in the snake's direction
            final(self).snake_array@[0].x == old(self).snake_array@[0].x + if old(self).snake_direction == Direction::Left {
                -1int
            } else if old(self).snake_direction == Direction::Right {
                1int
            } else {
                0int
            },
            final(self).snake_array@[0].y == old(self).snake_array@[0].y + if old(self).snake_direction == Direction::Up {
                -1int
            } else if old(self).snake_direction == Direction::Down {
                1int
            } else {
                0int
            },
            // every other segment takes the place of the one before it
            forall|i: int| 1 <= i < old(self).snake_array.len() ==> final(self).snake_array@[i] == old(self).snake_array@[i - 1],
    {
        let movment = Direction::convert_dir(&self.snake_direction);
        let ghost body = self.snake_array@;
        let mut i: usize = self.snake_array.len() - 1;
        while i >= 1
            invariant
                0 <= i < body.len(),
                self.snake_array.len() == body.len(),
                self.snake_direction == old(self).snake_direction,
                body == old(self).snake_array@,
                forall|k: int| 0 <= k <= i ==> self.snake_array@[k] == body[k],
                forall|k: int| i < k < body.len() ==> self.snake_array@[k] == body[k - 1],
            decreases i,
        {
            let new_pos: Cell = self.snake_array[i - 1];
            self.snake_array.set(i, new_pos);
            i = i - 1;
        }
        let head = self.snake_array[0];
        self.snake_array.set(0, Cell { x: head.x + movment.0, y: head.y + movment.1 });
        assert(self.snake_array@ =~= spec_move(body, self.snake_direction));
    }
}

/// Moving keeps the length of the snake.
pub proof fn lemma_move_keeps_length(body: Seq<Cell>, d: Direction)
    ensures
        spec_move(body, d).len() == body.len(),
{
}

/// Eating makes the snake one segment longer, and its new last segment is the
/// one it had before the meal.
pub proof fn lemma_eat_grows_by_one(body: Seq<Cell>, d: Direction)
    requires
        body.len() >= 1,
    ensures
        spec_eat(body, d).len() == body.len() + 1,
        spec_eat(body, d).last() == body.last(),
{
}

/// A move keeps the body a connected chain, and the new head lies next to
/// the old one.
pub proof fn lemma_move_keeps_connected(body: Seq<Cell>, d: Direction)
    requires
        body.len() >= 1,
        connected(body),
        can_step(body[0]),
    ensures
        connected(spec_move(body, d)),
        adjacent(spec_move(body, d)[0], body[0]),
{
    let moved = spec_move(body, d);
    assert forall|i: int| 0 <= i < moved.len() - 1 implies #[trigger] adjacent(moved[i], moved[i + 1]) by {
        if i > 0 {
            let j = i - 1;
            assert(adjacent(body[j], body[j + 1]));
        }
    }
}

/// Eating keeps the body a connected chain.
pub proof fn lemma_eat_keeps_connected(body: Seq<Cell>, d: Direction)
    requires
        body.len() >= 1,
        connected(body),
        can_step(body[0]),
    ensures
        connected(spec_eat(body, d)),
{
    lemma_move_keeps_connected(body, d);
    let eaten = spec_eat(body, d);
    let n = body.len();
    assert forall|i: int| 0 <= i < eaten.len() - 1 implies #[trigger] adjacent(eaten[i], eaten[i + 1]) by {
        if i < n - 1 {
            assert(adjacent(spec_move(body, d)[i], spec_move(body, d)[i + 1]));
        } else if n >= 2 {
            let j = n - 2;
            assert(adjacent(body[j], body[j + 1]));
        }
    }
}

/// A move sends the head exactly one cell up, down, left or right, whatever
/// the cell it starts from (rows grow downwards), and every other segment
/// takes the place of the one before it.
pub proof fn lemma_move_steps_head(body: Seq<Cell>, d: Direction)
    requires
        body.len() >= 1,
        can_step(body[0]),
    ensures
        spec_move(body, d).len() == body.len(),
        d == Direction::Up ==> spec_move(body, d)[0].x == body[0].x && spec_move(body, d)[0].y == body[0].y - 1,
        d == Direction::Down ==> spec_move(body, d)[0].x == body[0].x && spec_move(body, d)[0].y == body[0].y + 1,
        d == Direction::Left ==> spec_move(body, d)[0].x == body[0].x - 1 && spec_move(body, d)[0].y == body[0].y,
        d == Direction::Right ==> spec_move(body, d)[0].x == body[0].x + 1 && spec_move(body, d)[0].y == body[0].y,
        forall|i: int| 1 <= i < body.len() ==> spec_move(body, d)[i] == body[i - 1],
{
}

/// Eating is a move in the same direction followed by putting the old last
/// segment back at the end.
pub proof fn lemma_eat_is_move_then_tail(body: Seq<Cell>, d: Direction)
    requires
        body.len() >= 1,
        can_step(body[0]),
    ensures
        spec_eat(body, d).len() == body.len() + 1,
        spec_eat(body, d).subrange(0, body.len() as int) == spec_move(body, d),
        spec_eat(body, d)[body.len() as int] == body[body.len() - 1],
        d == Direction::Up ==> spec_eat(body, d)[0].x == body[0].x && spec_eat(body, d)[0].y == body[0].y - 1,
        d == Direction::Down ==> spec_eat(body, d)[0].x == body[0].x && spec_eat(body, d)[0].y == body[0].y + 1,
        d == Direction::Left ==> spec_eat(body, d)[0].x == body[0].x - 1 && spec_eat(body, d)[0].y == body[0].y,
        d == Direction::Right ==> spec_eat(body, d)[0].x == body[0].x + 1 && spec_eat(body, d)[0].y == body[0].y,
{
    assert(spec_eat(body, d).subrange(0, body.len() as int) =~= spec_move(body, d));
}

} // verus!
