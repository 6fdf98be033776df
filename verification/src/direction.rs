use vstd::prelude::*;

verus! {

/// A direction in which the snake can travel.
#[derive(Clone, Copy, Debug, PartialEq, Eq, Structural)]
pub enum Direction {
    Up,
    Down,
    Left,
    Right,
}

/// The keys that the game reacts to; every other key is `Other`.
#[derive(Clone, Copy, Debug, PartialEq, Eq, Structural)]
pub enum Key {
    W,
    A,
    S,
    D,
    Up,
    Down,
    Left,
    Right,
    R,
    Space,
    Escape,
    Other,
}

/// Column and row offset of one step in direction `d` (rows grow downwards).
pub open spec fn spec_delta(d: Direction) -> (int, int) {
    match d {
        Direction::Up => (0, -1),
        Direction::Down => (0, 1),
        Direction::Left => (-1, 0),
        Direction::Right => (1, 0),
    }
}

/// `d` moves along a column.
pub open spec fn is_vertical(d: Direction) -> bool {
    d == Direction::Up || d == Direction::Down
}

/// `a` and `b` lie on different axes, so turning from one to the other is a
/// quarter turn.
pub open spec fn perpendicular(a: Direction, b: Direction) -> bool {
    is_vertical(a) != is_vertical(b)
}

/// What `check_direction` answers: a key is refused when it points along the
/// axis on which the snake already travels.
pub open spec fn spec_check_direction(dir: Direction, keypress: Key) -> bool {
    match dir {
        Direction::Up | Direction::Down => !(keypress == Key::S || keypress == Key::W),
        Direction::Left | Direction::Right => !(keypress == Key::D || keypress == Key::A),
    }
}

/// The letter key that steers in direction `d`.
pub open spec fn steering_key(d: Direction) -> Key {
    match d {
        Direction::Up => Key::W,
        Direction::Down => Key::S,
        Direction::Left => Key::A,
        Direction::Right => Key::D,
    }
}

impl Direction {
    /// Column and row offset of one step in `dir`.
    pub fn convert_dir(dir: &Direction) -> (movement: (i32, i32))
        ensures
            movement.0 == spec_delta(*dir).0,
            movement.1 == spec_delta(*dir).1,
            *dir == Direction::Up ==> movement == (0i32, -1i32),
            *dir == Direction::Down ==> movement == (0i32, 1i32),
            *dir == Direction::Left ==> movement == (-1i32, 0i32),
            *dir == Direction::Right ==> movement == (1i32, 0i32),
    {
        match dir {
            Direction::Up => (0, -1),
            Direction::Down => (0, 1),
            Direction::Left => (-1, 0),
            Direction::Right => (1, 0),
        }
    }

    /// Whether `keypress` may turn a snake that travels in `dir`: the keys
    /// along the current axis (forwards and backwards) are refused.
    pub fn check_direction(dir: &Direction, keypress: Key) -> (allowed: bool)
        ensures
            allowed == spec_check_direction(*dir, keypress),
    {
        match (dir, keypress) {
            (Direction::Up, Key::S) | (Direction::Up, Key::W) => false,
            (Direction::Down, Key::W) | (Direction::Down, Key::S) => false,
            (Direction::Left, Key::D) | (Direction::Left, Key::A) => false,
            (Direction::Right, Key::A) | (Direction::Right, Key::D) => false,
            _ => true,
        }
    }
}

/// A steering key for `next` is accepted after `current` exactly when the two
/// directions are perpendicular: the snake can neither reverse nor repeat its
/// own axis.
pub proof fn lemma_check_direction_is_perpendicular(current: Direction, next: Direction)
    ensures
        spec_check_direction(current, steering_key(next)) == perpendicular(current, next),
{
}

/// Every direction is a unit step along one axis: up and down change only
/// the row (up decreases it), left and right only the column (left decreases
/// it).
pub proof fn lemma_delta_is_unit_step(d: Direction)
    ensures
        d == Direction::Up ==> spec_delta(d) == (0int, -1int),
        d == Direction::Down ==> spec_delta(d) == (0int, 1int),
        d == Direction::Left ==> spec_delta(d) == (-1int, 0int),
        d == Direction::Right ==> spec_delta(d) == (1int, 0int),
{
}

/// `check_direction` refuses exactly the two letter keys of the snake's own
/// axis: W and S for a snake moving up or down, A and D for one moving left or
/// right.
pub proof fn lemma_check_direction_table(dir: Direction, keypress: Key)
    ensures
        spec_check_direction(dir, keypress) <==> !(
            ((dir == Direction::Up || dir == Direction::Down) && (keypress == Key::W || keypress == Key::S))
            || ((dir == Direction::Left || dir == Direction::Right) && (keypress == Key::A || keypress == Key::D))),
{
}

} // verus!
