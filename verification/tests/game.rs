use snake::button::Button;
use snake::direction::{Direction, Key};
use snake::food::{free_cells, Food};
use snake::game_state::GameState;
use snake::grid::{Cell, Grid};
use snake::mainstate::{KeyOutcome, Mainstate};
use snake::snake::Snake;

fn c(x: i32, y: i32) -> Cell {
    Cell { x, y }
}

#[test]
fn convert_dir_gives_unit_steps() {
    assert_eq!(Direction::convert_dir(&Direction::Up), (0, -1));
    assert_eq!(Direction::convert_dir(&Direction::Down), (0, 1));
    assert_eq!(Direction::convert_dir(&Direction::Left), (-1, 0));
    assert_eq!(Direction::convert_dir(&Direction::Right), (1, 0));
}

#[test]
fn check_direction_refuses_keys_on_the_same_axis() {
    assert!(!Direction::check_direction(&Direction::Up, Key::W));
    assert!(!Direction::check_direction(&Direction::Up, Key::S));
    assert!(Direction::check_direction(&Direction::Up, Key::A));
    assert!(Direction::check_direction(&Direction::Up, Key::D));
    assert!(!Direction::check_direction(&Direction::Down, Key::W));
    assert!(!Direction::check_direction(&Direction::Down, Key::S));
    assert!(Direction::check_direction(&Direction::Down, Key::A));
    assert!(!Direction::check_direction(&Direction::Left, Key::A));
    assert!(!Direction::check_direction(&Direction::Left, Key::D));
    assert!(Direction::check_direction(&Direction::Left, Key::W));
    assert!(!Direction::check_direction(&Direction::Right, Key::A));
    assert!(!Direction::check_direction(&Direction::Right, Key::D));
    assert!(Direction::check_direction(&Direction::Right, Key::S));
    assert!(Direction::check_direction(&Direction::Right, Key::Other));
}

#[test]
fn gridposition_scales_by_cell_size() {
    assert_eq!(Grid::gridposition(0), 0);
    assert_eq!(Grid::gridposition(5), 150);
    assert_eq!(Grid::gridposition(19), 570);
}

#[test]
fn grid_lists_the_playable_cells_column_by_column() {
    let grid = Grid::get_grid();
    assert_eq!(grid.len(), 324);
    assert_eq!(grid[0], c(1, 1));
    assert_eq!(grid[1], c(1, 2));
    assert_eq!(grid[17], c(1, 18));
    assert_eq!(grid[18], c(2, 1));
    assert_eq!(grid[323], c(18, 18));
    for cell in grid.iter() {
        assert!(1 <= cell.x && cell.x <= 18 && 1 <= cell.y && cell.y <= 18);
    }
    for i in 0..grid.len() {
        for j in (i + 1)..grid.len() {
            assert_ne!(grid[i], grid[j]);
        }
    }
}

#[test]
fn new_snake_sits_in_the_middle_heading_right() {
    let snake = Snake::new();
    assert_eq!(snake.snake_array, vec![c(9, 10), c(8, 10)]);
    assert_eq!(snake.snake_direction, Direction::Right);
}

#[test]
fn move_snake_shifts_the_body_behind_the_head() {
    let mut snake = Snake::new();
    snake.move_snake();
    assert_eq!(snake.snake_array, vec![c(10, 10), c(9, 10)]);
    snake.snake_direction = Direction::Up;
    snake.move_snake();
    assert_eq!(snake.snake_array, vec![c(10, 9), c(10, 10)]);
    let mut single = Snake { snake_array: vec![c(3, 3)], snake_direction: Direction::Left };
    single.move_snake();
    assert_eq!(single.snake_array, vec![c(2, 3)]);
}

#[test]
fn eat_food_moves_and_keeps_the_old_tail() {
    let mut snake = Snake::new();
    snake.eat_food();
    assert_eq!(snake.snake_array, vec![c(10, 10), c(9, 10), c(8, 10)]);
    snake.snake_direction = Direction::Down;
    snake.eat_food();
    assert_eq!(snake.snake_array, vec![c(10, 11), c(10, 10), c(9, 10), c(8, 10)]);
}

#[test]
fn free_cells_strikes_out_each_segment_once() {
    let board = vec![c(1, 1), c(1, 2), c(2, 1), c(2, 2)];
    let snake = vec![c(2, 1), c(5, 5), c(1, 1)];
    assert_eq!(free_cells(&snake, &board), vec![c(1, 2), c(2, 2)]);
    let repeated = vec![c(1, 1), c(1, 1), c(3, 3)];
    assert_eq!(free_cells(&vec![c(1, 1)], &repeated), vec![c(1, 1), c(3, 3)]);
    assert_eq!(free_cells(&vec![], &board), board);
}

#[test]
fn new_food_lies_ahead_of_the_snake() {
    assert_eq!(Food::new().food_pos, c(14, 10));
}

#[test]
fn new_position_picks_a_free_board_cell() {
    let board = Grid::get_grid();
    let snake = vec![c(1, 1), c(1, 2), c(5, 5)];
    let mut food = Food::new();
    for _ in 0..200 {
        food.new_position(&snake, &board);
        assert!(board.contains(&food.food_pos));
        assert!(!snake.contains(&food.food_pos));
    }
    let tiny = vec![c(1, 1), c(1, 2)];
    food.new_position(&vec![c(1, 1)], &tiny);
    assert_eq!(food.food_pos, c(1, 2));
}

#[test]
fn new_position_at_takes_the_chosen_free_cell() {
    let mut food = Food::new();
    let free = vec![c(3, 4), c(6, 7)];
    food.new_position_at(&free, 1);
    assert_eq!(food.food_pos, c(6, 7));
    food.new_position_at(&free, 0);
    assert_eq!(food.food_pos, c(3, 4));
}

#[test]
fn new_game_state_is_idle() {
    let state = GameState::new();
    assert!(!state.game_over);
    assert!(!state.game_start);
    assert_eq!(state.food_count, 0);
}

#[test]
fn check_game_state_detects_collisions() {
    let mut state = GameState::new();
    state.check_game_state(vec![c(5, 5), c(4, 5), c(4, 6)]);
    assert!(!state.game_over);
    state.check_game_state(vec![c(5, 5), c(4, 5), c(5, 5)]);
    assert!(state.game_over);

    for body in [vec![c(0, 5)], vec![c(5, 0)], vec![c(19, 5), c(18, 5)], vec![c(5, 19)]] {
        let mut state = GameState::new();
        state.check_game_state(body);
        assert!(state.game_over);
    }
    let mut state = GameState::new();
    state.check_game_state(vec![c(18, 1)]);
    assert!(!state.game_over);
}

#[test]
fn game_over_is_permanent() {
    let mut state = GameState::new();
    state.game_over = true;
    state.food_count = 3;
    state.check_game_state(vec![c(5, 5), c(4, 5)]);
    assert!(state.game_over);
    assert_eq!(state.food_count, 3);
}

#[test]
fn button_bounds_span_its_size() {
    let button = Button::new(4, c(5, 5));
    assert_eq!(button.button_bouds, vec![c(5, 5), c(9, 9)]);
    assert!(button.button_render);
    assert_eq!(button.button_size, 4);
}

#[test]
fn new_mainstate_is_the_starting_position() {
    let state = Mainstate::new();
    assert_eq!(state.snake.snake_array, vec![c(9, 10), c(8, 10)]);
    assert_eq!(state.snake.snake_direction, Direction::Right);
    assert_eq!(state.food.food_pos, c(14, 10));
    assert_eq!(state.valid_direction, vec![Direction::Right]);
    assert_eq!(state.board, Grid::get_grid());
    assert_eq!(state.start_button.button_bouds, vec![c(5, 5), c(9, 9)]);
    assert!(!state.game_state.game_start);
    assert!(!state.game_state.game_over);
    assert_eq!(state.game_state.food_count, 0);
}

#[test]
fn update_waits_for_start_and_for_the_clock() {
    let mut state = Mainstate::new();
    assert!(state.can_update(true));
    assert!(!state.update(true));
    assert_eq!(state.snake.snake_array, vec![c(9, 10), c(8, 10)]);
    state.key_down_event(Key::Other);
    assert!(state.game_state.game_start);
    assert!(!state.update(false));
    assert_eq!(state.snake.snake_array, vec![c(9, 10), c(8, 10)]);
    assert!(!state.update(true));
    assert_eq!(state.snake.snake_array, vec![c(10, 10), c(9, 10)]);
}

#[test]
fn key_presses_queue_only_quarter_turns() {
    let mut state = Mainstate::new();
    assert_eq!(state.key_down_event(Key::D), KeyOutcome::Continue);
    assert_eq!(state.valid_direction, vec![Direction::Right]);
    assert_eq!(state.key_down_event(Key::Left), KeyOutcome::Continue);
    assert_eq!(state.valid_direction, vec![Direction::Right]);
    assert_eq!(state.key_down_event(Key::Up), KeyOutcome::Continue);
    assert_eq!(state.valid_direction, vec![Direction::Right, Direction::Up]);
    assert_eq!(state.key_down_event(Key::S), KeyOutcome::Continue);
    assert_eq!(state.valid_direction, vec![Direction::Right, Direction::Up]);
    assert_eq!(state.key_down_event(Key::A), KeyOutcome::Continue);
    assert_eq!(state.valid_direction, vec![Direction::Right, Direction::Up, Direction::Left]);
    assert!(state.game_state.game_start);

    state.update(true);
    assert_eq!(state.snake.snake_direction, Direction::Up);
    assert_eq!(state.valid_direction, vec![Direction::Up, Direction::Left]);
    assert_eq!(state.snake.snake_array, vec![c(9, 9), c(9, 10)]);
    state.update(true);
    assert_eq!(state.snake.snake_direction, Direction::Left);
    assert_eq!(state.valid_direction, vec![Direction::Left]);
    assert_eq!(state.snake.snake_array, vec![c(8, 9), c(9, 9)]);
}

#[test]
fn eating_grows_the_snake_and_moves_the_food() {
    let mut state = Mainstate::new();
    state.key_down_event(Key::Other);
    state.food.food_pos = c(10, 10);
    assert!(state.can_update(true));
    assert!(state.update(true));
    assert_eq!(state.snake.snake_array, vec![c(11, 10), c(10, 10), c(9, 10)]);
    assert_eq!(state.game_state.food_count, 1);
    assert!(state.board.contains(&state.food.food_pos));
    assert!(!state.snake.snake_array.contains(&state.food.food_pos));
    assert!(!state.game_state.game_over);
}

#[test]
fn running_into_the_wall_ends_the_game() {
    let mut state = Mainstate::new();
    state.key_down_event(Key::Right);
    state.food.food_pos = c(1, 1);
    for _ in 0..9 {
        assert!(!state.game_state.game_over);
        state.update(true);
    }
    assert_eq!(state.snake.snake_array[0], c(18, 10));
    assert!(!state.game_state.game_over);
    state.update(true);
    assert_eq!(state.snake.snake_array[0], c(19, 10));
    assert!(state.game_state.game_over);
    state.update(true);
    assert_eq!(state.snake.snake_array[0], c(19, 10));
}

#[test]
fn reset_and_quit_keys() {
    let mut state = Mainstate::new();
    state.key_down_event(Key::W);
    state.update(true);
    assert_eq!(state.key_down_event(Key::Escape), KeyOutcome::Quit);
    assert_eq!(state.snake.snake_array, vec![c(9, 9), c(9, 10)]);
    assert_eq!(state.key_down_event(Key::R), KeyOutcome::Reset);
    assert_eq!(state.snake.snake_array, vec![c(9, 10), c(8, 10)]);
    assert_eq!(state.valid_direction, vec![Direction::Right]);
    assert!(!state.game_state.game_start);
    state.key_down_event(Key::Up);
    assert_eq!(state.key_down_event(Key::Space), KeyOutcome::Reset);
    assert_eq!(state.valid_direction, vec![Direction::Right]);
    state.reset();
    assert_eq!(state.food.food_pos, c(14, 10));
}

#[test]
fn new_position_does_not_always_pick_the_same_cell() {
    let board = Grid::get_grid();
    let snake = vec![c(9, 10), c(8, 10)];
    let mut food = Food::new();
    let mut seen: Vec<Cell> = Vec::new();
    for _ in 0..100 {
        food.new_position(&snake, &board);
        if !seen.contains(&food.food_pos) {
            seen.push(food.food_pos);
        }
    }
    assert!(seen.len() > 1);
}

fn adjacent(a: Cell, b: Cell) -> bool {
    (a.x - b.x).abs() + (a.y - b.y).abs() == 1
}

#[test]
fn moving_and_eating_keep_the_body_connected() {
    let mut snake = Snake { snake_array: vec![c(5, 5), c(5, 6), c(6, 6), c(6, 7)], snake_direction: Direction::Left };
    let old_head = snake.snake_array[0];
    snake.move_snake();
    assert!(adjacent(snake.snake_array[0], old_head));
    for i in 0..snake.snake_array.len() - 1 {
        assert!(adjacent(snake.snake_array[i], snake.snake_array[i + 1]));
    }
    snake.snake_direction = Direction::Up;
    snake.eat_food();
    assert_eq!(snake.snake_array.len(), 5);
    for i in 0..snake.snake_array.len() - 1 {
        assert!(adjacent(snake.snake_array[i], snake.snake_array[i + 1]));
    }
}

#[test]
fn eats_on_update_predicts_a_meal() {
    let mut state = Mainstate::new();
    state.food.food_pos = c(10, 10);
    assert!(!state.eats_on_update(true));
    state.key_down_event(Key::Other);
    assert!(!state.eats_on_update(false));
    assert!(state.eats_on_update(true));
    state.food.food_pos = c(11, 10);
    assert!(!state.eats_on_update(true));
}

#[test]
fn food_stays_off_the_snake_during_play() {
    let mut state = Mainstate::new();
    state.key_down_event(Key::Other);
    state.food.food_pos = c(10, 10);
    state.update(true);
    assert_eq!(state.game_state.food_count, 1);
    for key in [Key::Up, Key::Left, Key::Down, Key::Right] {
        state.key_down_event(key);
        state.update(true);
        assert!(!state.snake.snake_array.contains(&state.food.food_pos));
        assert_eq!(state.snake.snake_array.len() as i32, state.game_state.food_count + 2);
    }
}

#[test]
fn free_cells_on_a_board_without_repeats_are_the_uncovered_cells() {
    let board = Grid::get_grid();
    let snake = vec![c(3, 3), c(3, 4), c(4, 4), c(30, 30)];
    let expected: Vec<Cell> = board.iter().copied().filter(|x| !snake.contains(x)).collect();
    assert_eq!(free_cells(&snake, &board), expected);
    assert_eq!(expected.len(), 321);
}
