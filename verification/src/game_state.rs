use vstd::prelude::*;
use crate::grid::{Cell, GRID_WIDTH};

verus! {

/// The head `c` touches the wall: one of its coordinates is 0 or the last
/// index of the grid.
pub open spec fn hits_wall(c: Cell) -> bool {
    c.x == 0 || c.y == 0 || c.x == GRID_WIDTH - 1 || c.y == GRID_WIDTH - 1
}

/// The head of `body` lies on one of its other segments.
pub open spec fn bites_itself(body: Seq<Cell>) -> bool {
    exists|i: int| 1 <= i < body.len() && #[trigger] body[i] == body[0]
}

/// The game is lost when the head meets the body or the wall.
pub open spec fn collides(body: Seq<Cell>) -> bool {
    bites_itself(body) || hits_wall(body[0])
}

/// Whether the game has started or ended, and how much food was eaten.
pub struct GameState {
    pub game_over: bool,
    pub food_count: i32,
    pub game_start: bool,
}

impl GameState {
    /// A game that has neither started nor ended, with no food eaten.
    pub fn new() -> (state: GameState)
        ensures
            !state.game_over,
            state.food_count == 0,
            !state.game_start,
    {
        GameState { game_over: false, food_count: 0, game_start: false }
    }

    /// Ends the game when the head of `pos_array` meets another segment or the
    /// wall. A game that has ended stays ended.
    pub fn check_game_state(&mut self, pos_array: Vec<Cell>)
        requires
            pos_array.len() >= 1,
        ensures
            final(self).game_over == (old(self).game_over || collides(pos_array@)),
            // the head on any other segment, at any index, ends the game
            forall|i: int| 1 <= i < pos_array.len() && #[trigger] pos_array@[i] == pos_array@[0] ==> final(self).game_over,
            // so does a head on the wall
            pos_array@[0].x == 0 || pos_array@[0].y == 0 || pos_array@[0].x == 19 || pos_array@[0].y == 19
                ==> final(self).game_over,
            // otherwise the flag is left as it was
            final(self).game_over && !old(self).game_over ==> (
                (exists|i: int| 1 <= i < pos_array.len() && #[trigger] pos_array@[i] == pos_array@[0])
                || pos_array@[0].x == 0 || pos_array@[0].y == 0 || pos_array@[0].x == 19 || pos_array@[0].y == 19),
            old(self).game_over ==> final(self).game_over,
            final(self).food_count == old(self).food_count,
            final(self).game_start == old(self).game_start,
    {
        let head = pos_array[0];
        let mut i: usize = 1;
        while i <= pos_array.len() - 1
            invariant_except_break
                1 <= i <= pos_array.len(),
                self.game_over == old(self).game_over,
                forall|k: int| 1 <= k < i ==> pos_array@[k] != head,
            invariant
                head == pos_array@[0],
                self.food_count == old(self).food_count,
                self.game_start == old(self).game_start,
            ensures
                self.game_over == (old(self).game_over || bites_itself(pos_array@)),
            decreases pos_array.len() - i,
        {
            if head == pos_array[i] {
                assert(pos_array@[i as int] == pos_array@[0]);
                self.game_over = true;
                break;
            }
            i = i + 1;
        }
        if head.x == 0 || head.y == 0 || head.x == GRID_WIDTH - 1 || head.y == GRID_WIDTH - 1 {
            self.game_over = true;
        }
    }
}

/// The game is lost exactly when the head lies on another segment, at any
/// index of the body, or on one of the four walls (column or row 0 or 19).
pub proof fn lemma_collides_exactly(body: Seq<Cell>)
    requires
        body.len() >= 1,
    ensures
        collides(body) <==> (
            (exists|i: int| 1 <= i < body.len() && #[trigger] body[i] == body[0])
            || body[0].x == 0 || body[0].y == 0 || body[0].x == 19 || body[0].y == 19),
{
    if exists|i: int| 1 <= i < body.len() && #[trigger] body[i] == body[0] {
        let i = choose|i: int| 1 <= i < body.len() && #[trigger] body[i] == body[0];
        assert(body[i] == body[0]);
    }
}

/// A head that meets any other segment, however far down the body, bites
/// the snake.
pub proof fn lemma_bite_anywhere(body: Seq<Cell>, i: int)
    requires
        1 <= i < body.len(),
        body[i] == body[0],
    ensures
        bites_itself(body),
        collides(body),
{
    assert(body[i] == body[0]);
}

} // verus!
