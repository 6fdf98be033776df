use vstd::prelude::*;
use crate::grid::{Cell, cell, no_duplicates};
use crate::random::{random_index, RANDOM_RANGE_LIMIT};

verus! {

/// `j` is the first index at which `c` occurs in `s`.
pub open spec fn is_first_at(s: Seq<Cell>, c: Cell, j: int) -> bool {
    &&& 0 <= j < s.len()
    &&& s[j] == c
    &&& forall|k: int| 0 <= k < j ==> s[k] != c
}

/// `s` without the first occurrence of `c`; `s` itself where `c` does not occur.
pub open spec fn remove_first(s: Seq<Cell>, c: Cell) -> Seq<Cell> {
    if exists|j: int| is_first_at(s, c, j) {
        s.remove(choose|j: int| is_first_at(s, c, j))
    } else {
        s
    }
}

/// The cells of `board` left free by the snake `body`: for each segment in
/// turn, its first occurrence on the board is struck out.
pub open spec fn spec_free(body: Seq<Cell>, board: Seq<Cell>) -> Seq<Cell>
    decreases body.len(),
{
    if body.len() == 0 {
        board
    } else {
        remove_first(spec_free(body.drop_last(), board), body.last())
    }
}

/// Where the food lies at the start of a game.
pub open spec fn spec_initial_food() -> Cell {
    cell(14, 10)
}

/// The food: the cell it lies on.
pub struct Food {
    pub food_pos: Cell,
}

/// Strikes out the first occurrence of `c` from `cells`.
fn remove_first_cell(cells: &mut Vec<Cell>, c: Cell)
    ensures
        final(cells)@ == remove_first(old(cells)@, c),
{
    let ghost before = cells@;
    let mut j: usize = 0;
    while j < cells.len()
        invariant_except_break
            cells@ == before,
            j <= before.len(),
            forall|k: int| 0 <= k < j ==> before[k] != c,
        ensures
            cells@ == remove_first(before, c),
        decreases before.len() - j,
    {
        if cells[j] == c {
            proof {
                assert(is_first_at(before, c, j as int));
                let f = choose|f: int| is_first_at(before, c, f);
                assert(f == j) by {
                    if f < j {
                        assert(before[f] != c);
                    } else if f > j {
                        assert(before[j as int] != c);
                    }
                }
            }
            cells.remove(j);
            break;
        }
        j = j + 1;
    }
}

/// The cells of `board` that the snake leaves free.
pub fn free_cells(snake_array: &Vec<Cell>, board: &Vec<Cell>) -> (free: Vec<Cell>)
    ensures
        free@ == spec_free(snake_array@, board@),
{
    let mut new_board: Vec<Cell> = Vec::new();
    let mut k: usize = 0;
    while k < board.len()
        invariant
            k <= board.len(),
            new_board@ == board@.take(k as int),
        decreases board.len() - k,
    {
        new_board.push(board[k]);
        k = k + 1;
    }
    assert(new_board@ =~= spec_free(snake_array@.take(0), board@));
    let mut i: usize = 0;
    while i < snake_array.len()
        invariant
            i <= snake_array.len(),
            new_board@ == spec_free(snake_array@.take(i as int), board@),
        decreases snake_array.len() - i,
    {
        proof {
            assert(snake_array@.take(i + 1).drop_last() =~= snake_array@.take(i as int));
        }
        remove_first_cell(&mut new_board, snake_array[i]);
        i = i + 1;
    }
    assert(snake_array@.take(snake_array.len() as int) =~= snake_array@);
    new_board
}

impl Food {
    /// Food placed four cells right of the snake's head.
    pub fn new() -> (food: Food)
        ensures
            food.food_pos == spec_initial_food(),
    {
        Food { food_pos: Cell { x: 14, y: 10 } }
    }

    /// Moves the food to a cell of `board` that the snake `snake_array`
    /// leaves free, picked at random.
    pub fn new_position(&mut self, snake_array: &Vec<Cell>, board: &Vec<Cell>)
        requires
            spec_free(snake_array@, board@).len() > 0,
            board.len() <= RANDOM_RANGE_LIMIT,
        ensures
            spec_free(snake_array@, board@).contains(final(self).food_pos),
    {
        let new_board = free_cells(snake_array, board);
        proof {
            lemma_free_is_sublist(snake_array@, board@);
        }
        let choice = random_index(0, new_board.len());
        self.new_position_at(&new_board, choice);
    }

    /// Moves the food to the free cell at index `choice`.
    pub fn new_position_at(&mut self, free: &Vec<Cell>, choice: usize)
        requires
            choice < free.len(),
        ensures
            final(self).food_pos == free@[choice as int],
    {
        self.food_pos = free[choice];
    }
}

/// Striking out a cell keeps the others: the result is no longer than `s`,
/// and every cell in it is in `s`.
proof fn lemma_remove_first_sublist(s: Seq<Cell>, c: Cell)
    ensures
        remove_first(s, c).len() <= s.len(),
        remove_first(s, c).len() + 1 >= s.len(),
        forall|x: Cell| remove_first(s, c).contains(x) ==> s.contains(x),
{
    if exists|j: int| is_first_at(s, c, j) {
        let j = choose|j: int| is_first_at(s, c, j);
        assert forall|x: Cell| remove_first(s, c).contains(x) implies s.contains(x) by {
            let k = choose|k: int| 0 <= k < remove_first(s, c).len() && remove_first(s, c)[k] == x;
            if k < j {
                assert(s[k] == x);
            } else {
                assert(s[k + 1] == x);
            }
        }
    }
}

/// On a list without repeats, striking out `c` leaves a list without repeats
/// in which `c` no longer occurs.
proof fn lemma_remove_first_distinct(s: Seq<Cell>, c: Cell)
    requires
        no_duplicates(s),
    ensures
        no_duplicates(remove_first(s, c)),
        !remove_first(s, c).contains(c),
{
    if exists|j: int| is_first_at(s, c, j) {
        let j = choose|j: int| is_first_at(s, c, j);
        let r = remove_first(s, c);
        assert forall|a: int, b: int| 0 <= a < r.len() && 0 <= b < r.len() && a != b implies r[a] != r[b] by {
            let sa = if a < j { a } else { a + 1 };
            let sb = if b < j { b } else { b + 1 };
            assert(r[a] == s[sa]);
            assert(r[b] == s[sb]);
        }
        if r.contains(c) {
            let k = choose|k: int| 0 <= k < r.len() && r[k] == c;
            let sk = if k < j { k } else { k + 1 };
            assert(s[sk] == c);
            assert(s[j] == c);
        }
    } else {
        if s.contains(c) {
            let k = choose|k: int| 0 <= k < s.len() && s[k] == c;
            assert(is_first_at(s, c, k)) by {
                assert forall|m: int| 0 <= m < k implies s[m] != c by {
                    assert(s[m] != s[k]);
                }
            }
        }
    }
}

/// The free cells are cells of the board, and there are at least as many of
/// them as the board has cells beyond the snake's length.
pub proof fn lemma_free_is_sublist(body: Seq<Cell>, board: Seq<Cell>)
    ensures
        spec_free(body, board).len() <= board.len(),
        spec_free(body, board).len() + body.len() >= board.len(),
        forall|x: Cell| spec_free(body, board).contains(x) ==> board.contains(x),
    decreases body.len(),
{
    if body.len() > 0 {
        lemma_free_is_sublist(body.drop_last(), board);
        lemma_remove_first_sublist(spec_free(body.drop_last(), board), body.last());
    }
}

/// On a board without repeated cells, no free cell is occupied by the snake
/// and no free cell is listed twice.
pub proof fn lemma_free_avoids_snake(body: Seq<Cell>, board: Seq<Cell>)
    requires
        no_duplicates(board),
    ensures
        no_duplicates(spec_free(body, board)),
        forall|x: Cell| spec_free(body, board).contains(x) ==> board.contains(x) && !body.contains(x),
    decreases body.len(),
{
    lemma_free_is_sublist(body, board);
    if body.len() > 0 {
        let rest = body.drop_last();
        lemma_free_avoids_snake(rest, board);
        lemma_remove_first_distinct(spec_free(rest, board), body.last());
        lemma_remove_first_sublist(spec_free(rest, board), body.last());
        assert forall|x: Cell| spec_free(body, board).contains(x) implies !body.contains(x) by {
            if body.contains(x) {
                let k = choose|k: int| 0 <= k < body.len() && body[k] == x;
                if k < body.len() - 1 {
                    assert(rest[k] == x);
                    assert(rest.contains(x));
                }
            }
        }
    }
}

/// Where `c` does not occur, nothing is struck out.
proof fn lemma_remove_first_absent(s: Seq<Cell>, c: Cell)
    requires
        !s.contains(c),
    ensures
        remove_first(s, c) == s,
{
    if exists|j: int| is_first_at(s, c, j) {
        let j = choose|j: int| is_first_at(s, c, j);
        assert(s.contains(c));
    }
}

/// Striking out `c` commutes with appending a cell other than `c`.
proof fn lemma_remove_first_push(t: Seq<Cell>, l: Cell, c: Cell)
    requires
        l != c,
    ensures
        remove_first(t.push(l), c) == remove_first(t, c).push(l),
{
    let s = t.push(l);
    if exists|j: int| is_first_at(t, c, j) {
        let j = choose|j: int| is_first_at(t, c, j);
        assert(is_first_at(s, c, j));
        let f = choose|f: int| is_first_at(s, c, f);
        assert(f == j) by {
            if f < j {
                assert(t[f] != c);
            } else if f > j {
                assert(s[j] != c);
            }
        }
        assert(s.remove(j) =~= t.remove(j).push(l));
    } else {
        if exists|f: int| is_first_at(s, c, f) {
            let f = choose|f: int| is_first_at(s, c, f);
            assert(f < t.len());
            assert(t[f] == c);
            assert forall|k: int| 0 <= k < f implies t[k] != c by {
                assert(s[k] == t[k]);
            }
            assert(is_first_at(t, c, f));
        }
    }
}

/// On a list without repeats whose last cell is `c`, striking out `c` drops
/// the last cell.
proof fn lemma_remove_first_last(s: Seq<Cell>, c: Cell)
    requires
        no_duplicates(s),
        s.len() > 0,
        s.last() == c,
    ensures
        remove_first(s, c) == s.drop_last(),
{
    let t = s.drop_last();
    assert forall|k: int| 0 <= k < s.len() - 1 implies s[k] != c by {
        assert(s[k] != s[s.len() - 1]);
    }
    assert(is_first_at(s, c, s.len() - 1));
    let f = choose|f: int| is_first_at(s, c, f);
    assert(f == s.len() - 1);
    assert(s.remove(s.len() - 1) =~= t);
}

/// On a list without repeats, striking out the first `c` is filtering out `c`.
proof fn lemma_remove_first_is_filter(s: Seq<Cell>, c: Cell)
    requires
        no_duplicates(s),
    ensures
        remove_first(s, c) == s.filter(|x: Cell| x != c),
    decreases s.len(),
{
    let pred = |x: Cell| x != c;
    if s.len() == 0 {
        lemma_remove_first_absent(s, c);
        assert(s.filter(pred) == s) by {
            reveal(Seq::filter);
        }
    } else {
        let t = s.drop_last();
        let l = s.last();
        assert(t.push(l) =~= s);
        assert(no_duplicates(t));
        lemma_remove_first_is_filter(t, c);
        if l == c {
            lemma_remove_first_last(s, c);
            assert(!t.contains(c)) by {
                if t.contains(c) {
                    let k = choose|k: int| 0 <= k < t.len() && t[k] == c;
                    assert(s[k] == s[s.len() - 1]);
                }
            }
            lemma_remove_first_absent(t, c);
            assert(s.filter(pred) == t.filter(pred)) by {
                reveal(Seq::filter);
            }
        } else {
            lemma_remove_first_push(t, l, c);
            assert(s.filter(pred) == t.filter(pred).push(l)) by {
                reveal(Seq::filter);
            }
        }
    }
}

/// Filtering twice is filtering once by both conditions.
proof fn lemma_filter_twice(s: Seq<Cell>, p: spec_fn(Cell) -> bool, q: spec_fn(Cell) -> bool)
    ensures
        s.filter(p).filter(q) == s.filter(|x: Cell| p(x) && q(x)),
    decreases s.len(),
{
    reveal(Seq::filter);
    if s.len() > 0 {
        lemma_filter_twice(s.drop_last(), p, q);
        let both = |x: Cell| p(x) && q(x);
        if p(s.last()) {
            assert(s.filter(p).drop_last() =~= s.drop_last().filter(p));
            assert(s.filter(p).last() == s.last());
        } else {
            assert(s.filter(p) == s.drop_last().filter(p));
        }
    }
}

/// On a board without repeated cells, the free cells are exactly the board
/// cells that the snake does not cover, in board order.
pub proof fn lemma_free_is_filter(body: Seq<Cell>, board: Seq<Cell>)
    requires
        no_duplicates(board),
    ensures
        spec_free(body, board) == board.filter(|x: Cell| !body.contains(x)),
    decreases body.len(),
{
    reveal(Seq::filter);
    if body.len() == 0 {
        assert((|x: Cell| !body.contains(x)) =~= (|x: Cell| true));
        lemma_filter_all(board);
    } else {
        let rest = body.drop_last();
        let c = body.last();
        lemma_free_is_filter(rest, board);
        lemma_free_avoids_snake(rest, board);
        lemma_remove_first_is_filter(spec_free(rest, board), c);
        let p = |x: Cell| !rest.contains(x);
        let q = |x: Cell| x != c;
        lemma_filter_twice(board, p, q);
        assert forall|x: Cell| body.contains(x) <==> (rest.contains(x) || x == c) by {
            if body.contains(x) && x != c {
                let k = choose|k: int| 0 <= k < body.len() && body[k] == x;
                assert(rest[k] == x);
            }
            if rest.contains(x) {
                let k = choose|k: int| 0 <= k < rest.len() && rest[k] == x;
                assert(body[k] == x);
            }
            if x == c {
                assert(body[body.len() - 1] == x);
            }
        }
        assert((|x: Cell| p(x) && q(x)) =~= (|x: Cell| !body.contains(x)));
    }
}

/// Filtering by a condition that always holds keeps the list.
proof fn lemma_filter_all(s: Seq<Cell>)
    ensures
        s.filter(|x: Cell| true) == s,
    decreases s.len(),
{
    reveal(Seq::filter);
    if s.len() > 0 {
        lemma_filter_all(s.drop_last());
        assert(s.drop_last().push(s.last()) =~= s);
    }
}

} // verus!
