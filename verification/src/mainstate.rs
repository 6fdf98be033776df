use vstd::prelude::*;
use crate::button::Button;
use crate::direction::{
    Direction, Key, perpendicular, spec_check_direction, steering_key,
    lemma_check_direction_is_perpendicular,
};
use crate::food::{
    Food, free_cells, spec_free, spec_initial_food, lemma_free_is_sublist, lemma_free_avoids_snake,
};
use crate::game_state::{GameState, collides};
use crate::grid::{
    Cell, Grid, GRID_HEIGHT, GRID_WIDTH, cell, in_interior, on_grid, spec_grid, lemma_grid_is_interior, lemma_grid_len, lemma_grid_no_duplicates,
};
use crate::snake::{
    Snake, connected, spec_eat, spec_initial_body, spec_move, lemma_eat_keeps_connected,
    lemma_move_keeps_connected,
};

verus! {

/// What the caller has to do after a key press.
#[derive(Clone, Copy, Debug, PartialEq, Eq, Structural)]
pub enum KeyOutcome {
    /// Nothing beyond what the game state already records.
    Continue,
    /// The game was restarted: everything drawn from the old game is stale.
    Reset,
    /// The player asked to leave.
    Quit,
}

/// Every two neighbouring directions of the queue are perpendicular.
pub open spec fn quarter_turns(queue: Seq<Direction>) -> bool {
    forall|i: int| 0 <= i < queue.len() - 1 ==> #[trigger] perpendicular(queue[i], queue[i + 1])
}

/// The direction that a steering key asks for; `None` for every other key.
pub open spec fn spec_key_direction(key: Key) -> Option<Direction> {
    match key {
        Key::W | Key::Up => Some(Direction::Up),
        Key::S | Key::Down => Some(Direction::Down),
        Key::A | Key::Left => Some(Direction::Left),
        Key::D | Key::Right => Some(Direction::Right),
        _ => None,
    }
}

/// The key restarts the game.
pub open spec fn is_reset_key(key: Key) -> bool {
    key == Key::R || key == Key::Space
}

/// The whole game: snake, food, score and flags, the queue of accepted turns
/// (its first entry is the snake's current direction), the board and the
/// start button.
pub struct Mainstate {
    pub snake: Snake,
    pub food: Food,
    pub game_state: GameState,
    pub valid_direction: Vec<Direction>,
    pub board: Vec<Cell>,
    pub start_button: Button,
}

impl Mainstate {
    /// The state in which every game begins.
    pub open spec fn is_initial(self) -> bool {
        &&& self.snake.snake_array@ == spec_initial_body()
        &&& self.snake.snake_direction == Direction::Right
        &&& self.food.food_pos == spec_initial_food()
        &&& !self.game_state.game_over
        &&& self.game_state.food_count == 0
        &&& !self.game_state.game_start
        &&& self.valid_direction@ == seq![Direction::Right]
        &&& self.board@ == spec_grid()
        &&& self.start_button.button_bouds@ == seq![cell(5, 5), cell(9, 9)]
        &&& self.start_button.button_render
        &&& self.start_button.button_size == 4
    }

    /// What holds of every state that the game reaches.
    pub open spec fn wf(self) -> bool {
        // the queue of turns starts with the current direction, and each turn
        // in it is a quarter turn
        &&& self.valid_direction.len() >= 1
        &&& self.snake.snake_direction == self.valid_direction@[0]
        &&& quarter_turns(self.valid_direction@)
        // the board is the grid's playable area
        &&& self.board@ == spec_grid()
        // the snake has grown by one segment per food eaten
        &&& self.game_state.food_count >= 0
        &&& self.snake.snake_array.len() == self.game_state.food_count + 2
        // the snake never leaves the grid, and a running game keeps its head
        // off the wall
        &&& forall|i: int| 0 <= i < self.snake.snake_array.len() ==> on_grid(#[trigger] self.snake.snake_array@[i])
        &&& !self.game_state.game_over ==> in_interior(self.snake.snake_array@[0])
        // the body is a connected chain of cells
        &&& connected(self.snake.snake_array@)
        // the food lies on a playable cell that the snake does not cover
        &&& in_interior(self.food.food_pos)
        &&& !self.snake.snake_array@.contains(self.food.food_pos)
    }

    /// Whether `update` moves the snake.
    pub open spec fn spec_moving(self, tick: bool) -> bool {
        tick && !self.game_state.game_over && self.game_state.game_start
    }

    /// The direction of the next move: the next queued turn, if any.
    pub open spec fn spec_next_direction(self) -> Direction {
        if self.valid_direction.len() > 1 {
            self.valid_direction@[1]
        } else {
            self.snake.snake_direction
        }
    }

    /// The queue once the next queued turn, if any, has been taken.
    pub open spec fn spec_next_queue(self) -> Seq<Direction> {
        if self.valid_direction.len() > 1 {
            self.valid_direction@.drop_first()
        } else {
            self.valid_direction@
        }
    }

    /// The body after the move.
    pub open spec fn spec_moved_body(self) -> Seq<Cell> {
        spec_move(self.snake.snake_array@, self.spec_next_direction())
    }

    /// Whether `update` finds the head on the food.
    pub open spec fn spec_eats(self, tick: bool) -> bool {
        self.spec_moving(tick) && self.spec_moved_body()[0] == self.food.food_pos
    }

    /// The body at the end of `update`: unchanged, moved, or moved and grown.
    pub open spec fn spec_body_after(self, tick: bool) -> Seq<Cell> {
        if !self.spec_moving(tick) {
            self.snake.snake_array@
        } else if self.spec_eats(tick) {
            spec_eat(self.spec_moved_body(), self.spec_next_direction())
        } else {
            self.spec_moved_body()
        }
    }

    /// `update` can do its work: after a meal the score still fits an `i32`
    /// and the board has a free cell for the next food.
    pub open spec fn spec_update_possible(self, tick: bool) -> bool {
        self.spec_eats(tick) ==> {
            &&& self.game_state.food_count < i32::MAX
            &&& spec_free(self.spec_body_after(tick), self.board@).len() > 0
        }
    }

    /// A new game: the snake in the middle heading right, the food ahead of
    /// it, no score, not yet started.
    pub fn new() -> (state: Mainstate)
        ensures
            state.is_initial(),
            state.wf(),
    {
        let snake = Snake::new();
        let food = Food::new();
        let start_button = Button::new(4, Cell { x: 5, y: 5 });
        let game_state = GameState::new();
        let valid_direction = vec![snake.snake_direction];
        let board = Grid::get_grid();
        let state = Mainstate { food, snake, game_state, valid_direction, board, start_button };
        assert(state.start_button.button_bouds@ =~= seq![cell(5, 5), cell(9, 9)]);
        assert(state.valid_direction@ =~= seq![Direction::Right]);
        state
    }

    /// Starts the game over.
    pub fn reset(&mut self)
        ensures
            final(self).is_initial(),
            final(self).wf(),
    {
        *self = Mainstate::new();
    }

    /// One tick of the game clock (`tick` says whether the clock is due).
    /// When due, and the game has started and is not over, the snake takes
    /// the next queued turn and moves; if its head reaches the food it eats:
    /// it moves once more and grows by one segment, the score goes up by one
    /// and the food moves to a random free cell. In every case the game ends
    /// if the head has met the body or the wall. Returns whether the snake
    /// ate.
    pub fn update(&mut self, tick: bool) -> (ate: bool)
        requires
            old(self).wf(),
            old(self).spec_update_possible(tick),
        ensures
            final(self).wf(),
            ate == old(self).spec_eats(tick),
            final(self).snake.snake_array@ == old(self).spec_body_after(tick),
            final(self).snake.snake_direction == if old(self).spec_moving(tick) {
                old(self).spec_next_direction()
            } else {
                old(self).snake.snake_direction
            },
            final(self).valid_direction@ == if old(self).spec_moving(tick) {
                old(self).spec_next_queue()
            } else {
                old(self).valid_direction@
            },
            final(self).game_state.food_count == old(self).game_state.food_count + if ate { 1int } else { 0int },
            ate ==> spec_free(final(self).snake.snake_array@, final(self).board@).contains(final(self).food.food_pos),
            !ate ==> final(self).food.food_pos == old(self).food.food_pos,
            final(self).game_state.game_over == (old(self).game_state.game_over || collides(final(self).snake.snake_array@)),
            final(self).game_state.game_start == old(self).game_state.game_start,
            final(self).board@ == old(self).board@,
            final(self).start_button == old(self).start_button,
            // without a due clock, a started game or with the game over,
            // nothing moves
            !tick || old(self).game_state.game_over || !old(self).game_state.game_start ==> {
                &&& !ate
                &&& final(self).snake.snake_array@ == old(self).snake.snake_array@
                &&& final(self).snake.snake_direction == old(self).snake.snake_direction
                &&& final(self).valid_direction@ == old(self).valid_direction@
                &&& final(self).food.food_pos == old(self).food.food_pos
                &&& final(self).game_state.food_count == old(self).game_state.food_count
            },
            // otherwise the next queued turn, if any, is taken off the queue
            tick && !old(self).game_state.game_over && old(self).game_state.game_start ==> {
                &&& old(self).valid_direction.len() > 1 ==> final(self).snake.snake_direction == old(self).valid_direction@[1]
                    && final(self).valid_direction@ == old(self).valid_direction@.subrange(1, old(self).valid_direction.len() as int)
                &&& old(self).valid_direction.len() == 1 ==> final(self).snake.snake_direction == old(self).snake.snake_direction
                    && final(self).valid_direction@ == old(self).valid_direction@
                // the snake moves in its new direction, and eats exactly when
                // that move puts its head on the food
                &&& ate == (spec_move(old(self).snake.snake_array@, final(self).snake.snake_direction)[0] == old(self).food.food_pos)
                &&& !ate ==> final(self).snake.snake_array@ == spec_move(old(self).snake.snake_array@, final(self).snake.snake_direction)
                &&& ate ==> final(self).snake.snake_array@ == spec_eat(
                    spec_move(old(self).snake.snake_array@, final(self).snake.snake_direction),
                    final(self).snake.snake_direction,
                )
            },
    {
        let mut ate = false;
        if tick && !self.game_state.game_over && self.game_state.game_start {
            if self.valid_direction.len() > 1 {
                self.snake.snake_direction = self.valid_direction[1];
                self.valid_direction.remove(0);
                assert forall|i: int| 0 <= i < self.valid_direction.len() - 1 implies
                    #[trigger] perpendicular(self.valid_direction@[i], self.valid_direction@[i + 1]) by {
                    let j = i + 1;
                    assert(perpendicular(old(self).valid_direction@[j], old(self).valid_direction@[j + 1]));
                }
            }
            proof {
                lemma_move_keeps_connected(self.snake.snake_array@, self.snake.snake_direction);
            }
            self.snake.move_snake();
            if self.snake.snake_array[0] == self.food.food_pos {
                proof {
                    lemma_eat_keeps_connected(self.snake.snake_array@, self.snake.snake_direction);
                }
                self.snake.eat_food();
                self.game_state.food_count = self.game_state.food_count + 1;
                proof {
                    lemma_grid_len();
                }
                self.food.new_position(&self.snake.snake_array, &self.board);
                proof {
                    lemma_free_is_sublist(self.snake.snake_array@, self.board@);
                    lemma_grid_is_interior(self.food.food_pos);
                    lemma_new_food_is_free(self.snake.snake_array@, self.food.food_pos);
                }
                ate = true;
            } else {
                proof {
                    let body = self.snake.snake_array@;
                    let food = self.food.food_pos;
                    if body.contains(food) {
                        let k = choose|k: int| 0 <= k < body.len() && body[k] == food;
                        assert(k != 0);
                        assert(old(self).snake.snake_array@[k - 1] == food);
                    }
                }
            }
        }
        let body = self.snake.snake_array.clone();
        self.game_state.check_game_state(body);
        ate
    }

    /// Whether `update(tick)` can do its work from this state (see
    /// `spec_update_possible`): a meal must leave the score within `i32` and
    /// a free cell for the next food.
    pub fn can_update(&self, tick: bool) -> (possible: bool)
        requires
            self.wf(),
        ensures
            possible == self.spec_update_possible(tick),
    {
        if !self.eats_on_update(tick) {
            return true;
        }
        if self.game_state.food_count == i32::MAX {
            return false;
        }
        let mut probe = self.moved_snake();
        probe.eat_food();
        let free = free_cells(&probe.snake_array, &self.board);
        free.len() > 0
    }

    /// Whether `update(tick)` will find the head on the food, so that the
    /// snake eats and grows.
    pub fn eats_on_update(&self, tick: bool) -> (eats: bool)
        requires
            self.wf(),
        ensures
            eats == self.spec_eats(tick),
    {
        if !(tick && !self.game_state.game_over && self.game_state.game_start) {
            return false;
        }
        let probe = self.moved_snake();
        probe.snake_array[0] == self.food.food_pos
    }

    /// A copy of the snake after the move that a running game's tick makes.
    fn moved_snake(&self) -> (probe: Snake)
        requires
            self.wf(),
            !self.game_state.game_over,
        ensures
            probe.snake_array@ == self.spec_moved_body(),
            probe.snake_direction == self.spec_next_direction(),
    {
        let direction = if self.valid_direction.len() > 1 {
            self.valid_direction[1]
        } else {
            self.snake.snake_direction
        };
        let mut probe = Snake { snake_array: self.snake.snake_array.clone(), snake_direction: direction };
        probe.move_snake();
        probe
    }

    /// A key press: every key starts the game. A steering key (W/A/S/D or an
    /// arrow) queues its direction unless it lies on the axis of the last
    /// queued direction; R or Space restarts the game; Escape asks to quit.
    pub fn key_down_event(&mut self, keycod: Key) -> (outcome: KeyOutcome)
        requires
            old(self).wf(),
        ensures
            final(self).wf(),
            is_reset_key(keycod) ==> final(self).is_initial() && outcome == KeyOutcome::Reset,
            !is_reset_key(keycod) ==> {
                &&& final(self).game_state.game_start
                &&& final(self).game_state.game_over == old(self).game_state.game_over
                &&& final(self).game_state.food_count == old(self).game_state.food_count
                &&& final(self).snake.snake_array@ == old(self).snake.snake_array@
                &&& final(self).snake.snake_direction == old(self).snake.snake_direction
                &&& final(self).food.food_pos == old(self).food.food_pos
                &&& final(self).board@ == old(self).board@
                &&& final(self).start_button == old(self).start_button
                &&& outcome == if keycod == Key::Escape { KeyOutcome::Quit } else { KeyOutcome::Continue }
                // each steering key queues its own direction, unless the
                // last queued direction lies on the same axis
                &&& (keycod == Key::W || keycod == Key::Up) ==> final(self).valid_direction@ == if old(self).valid_direction@.last() == Direction::Left
                    || old(self).valid_direction@.last() == Direction::Right {
                    old(self).valid_direction@.push(Direction::Up)
                } else {
                    old(self).valid_direction@
                }
                &&& (keycod == Key::S || keycod == Key::Down) ==> final(self).valid_direction@ == if old(self).valid_direction@.last() == Direction::Left
                    || old(self).valid_direction@.last() == Direction::Right {
                    old(self).valid_direction@.push(Direction::Down)
                } else {
                    old(self).valid_direction@
                }
                &&& (keycod == Key::A || keycod == Key::Left) ==> final(self).valid_direction@ == if old(self).valid_direction@.last() == Direction::Up
                    || old(self).valid_direction@.last() == Direction::Down {
                    old(self).valid_direction@.push(Direction::Left)
                } else {
                    old(self).valid_direction@
                }
                &&& (keycod == Key::D || keycod == Key::Right) ==> final(self).valid_direction@ == if old(self).valid_direction@.last() == Direction::Up
                    || old(self).valid_direction@.last() == Direction::Down {
                    old(self).valid_direction@.push(Direction::Right)
                } else {
                    old(self).valid_direction@
                }
                &&& (keycod == Key::Escape || keycod == Key::Other) ==> final(self).valid_direction@ == old(self).valid_direction@
                &&& final(self).valid_direction@ == match spec_key_direction(keycod) {
                    Some(d) => if spec_check_direction(old(self).valid_direction@.last(), steering_key(d)) {
                        old(self).valid_direction@.push(d)
                    } else {
                        old(self).valid_direction@
                    },
                    None => old(self).valid_direction@,
                }
            },
    {
        self.game_state.game_start = true;
        let last_element = self.valid_direction.len();
        let last = self.valid_direction[last_element - 1];
        let wanted = match keycod {
            Key::W | Key::Up => Some((Direction::Up, Key::W)),
            Key::S | Key::Down => Some((Direction::Down, Key::S)),
            Key::A | Key::Left => Some((Direction::Left, Key::A)),
            Key::D | Key::Right => Some((Direction::Right, Key::D)),
            Key::R | Key::Space => {
                self.reset();
                return KeyOutcome::Reset;
            },
            Key::Escape => {
                return KeyOutcome::Quit;
            },
            _ => None,
        };
        if let Some((direction, key)) = wanted {
            if Direction::check_direction(&last, key) {
                proof {
                    lemma_check_direction_is_perpendicular(last, direction);
                }
                self.valid_direction.push(direction);
                assert forall|i: int| 0 <= i < self.valid_direction.len() - 1 implies
                    #[trigger] perpendicular(self.valid_direction@[i], self.valid_direction@[i + 1]) by {
                    if i < last_element - 1 {
                        assert(perpendicular(old(self).valid_direction@[i], old(self).valid_direction@[i + 1]));
                    }
                }
            }
        }
        KeyOutcome::Continue
    }
}

/// Food placed by a meal lands on a playable cell that the snake does not
/// cover.
pub proof fn lemma_new_food_is_free(body: Seq<Cell>, food: Cell)
    requires
        spec_free(body, spec_grid()).contains(food),
    ensures
        in_interior(food),
        !body.contains(food),
{
    lemma_grid_no_duplicates();
    lemma_free_avoids_snake(body, spec_grid());
    lemma_grid_is_interior(food);
}

/// Once the game is over, a tick neither moves the snake nor feeds it.
pub proof fn lemma_game_over_freezes(state: Mainstate, tick: bool)
    requires
        state.game_state.game_over,
    ensures
        !state.spec_moving(tick),
        !state.spec_eats(tick),
        state.spec_body_after(tick) == state.snake.snake_array@,
{
}

/// A tick never turns the snake back on itself: it keeps its direction or
/// makes a quarter turn.
pub proof fn lemma_turn_is_quarter(state: Mainstate)
    requires
        state.wf(),
    ensures
        state.spec_next_direction() == state.snake.snake_direction
            || perpendicular(state.snake.snake_direction, state.spec_next_direction()),
{
    if state.valid_direction.len() > 1 {
        assert(perpendicular(state.valid_direction@[0], state.valid_direction@[0int + 1]));
    }
}

/// A tick takes at most one turn off the queue, keeps it non-empty, and the
/// snake then heads in the queue's first direction.
pub proof fn lemma_queue_after_tick(state: Mainstate)
    requires
        state.wf(),
    ensures
        state.spec_next_queue().len() >= 1,
        state.spec_next_queue().len() + 1 >= state.valid_direction.len(),
        state.spec_next_queue()[0] == state.spec_next_direction(),
{
}

/// Each arrow key steers like its letter key: W and Up ask for up, S and
/// Down for down, A and Left for left, D and Right for right; no other key
/// steers.
pub proof fn lemma_steering_keys(key: Key)
    ensures
        (key == Key::W || key == Key::Up) <==> spec_key_direction(key) == Some(Direction::Up),
        (key == Key::S || key == Key::Down) <==> spec_key_direction(key) == Some(Direction::Down),
        (key == Key::A || key == Key::Left) <==> spec_key_direction(key) == Some(Direction::Left),
        (key == Key::D || key == Key::Right) <==> spec_key_direction(key) == Some(Direction::Right),
        (key == Key::R || key == Key::Space || key == Key::Escape || key == Key::Other) <==> spec_key_direction(key) is None,
{
}

/// A tick moves the snake only when the clock is due, the game has started
/// and it is not over; a tick that does not move it also does not feed it.
pub proof fn lemma_tick_moves_only_when_due(state: Mainstate, tick: bool)
    ensures
        state.spec_moving(tick) <==> (tick && state.game_state.game_start && !state.game_state.game_over),
        !tick ==> !state.spec_eats(tick) && state.spec_body_after(tick) == state.snake.snake_array@,
        !state.game_state.game_start ==> !state.spec_eats(tick) && state.spec_body_after(tick) == state.snake.snake_array@,
{
}

/// The next move follows the second queued direction when there is one, and
/// the current direction otherwise; that turn then leaves the queue.
pub proof fn lemma_next_turn(state: Mainstate)
    requires
        state.valid_direction.len() >= 1,
    ensures
        state.valid_direction.len() > 1 ==> state.spec_next_direction() == state.valid_direction@[1]
            && state.spec_next_queue() == state.valid_direction@.subrange(1, state.valid_direction.len() as int),
        state.valid_direction.len() == 1 ==> state.spec_next_direction() == state.snake.snake_direction
            && state.spec_next_queue() == state.valid_direction@,
{
    if state.valid_direction.len() > 1 {
        assert(state.valid_direction@.drop_first() =~= state.valid_direction@.subrange(1, state.valid_direction.len() as int));
    }
}

/// A new game lays its pieces out from the grid's size: the head one column
/// left of the centre on the middle row, the tail right behind it, and the
/// food a fifth of the grid to the right of the centre on the same row.
pub proof fn lemma_initial_layout(state: Mainstate)
    requires
        state.is_initial(),
    ensures
        state.snake.snake_array.len() == 2,
        state.snake.snake_array@[0].x == GRID_WIDTH / 2 - 1,
        state.snake.snake_array@[0].y == GRID_HEIGHT / 2,
        state.snake.snake_array@[1].x == GRID_HEIGHT / 2 - 2,
        state.snake.snake_array@[1].y == GRID_HEIGHT / 2,
        state.food.food_pos.x == GRID_WIDTH / 2 + GRID_WIDTH / 5,
        state.food.food_pos.y == GRID_HEIGHT / 2,
        state.valid_direction@ == seq![Direction::Right],
        state.game_state.food_count == 0,
        !state.game_state.game_start && !state.game_state.game_over,
{
}

} // verus!
