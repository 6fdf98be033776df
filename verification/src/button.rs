use vstd::prelude::*;
use crate::grid::Cell;

verus! {

/// A square button on the grid.
pub struct Button {
    /// Its top-left and bottom-right corners.
    pub button_bouds: Vec<Cell>,
    /// Whether it is shown.
    pub button_render: bool,
    /// Its side, in cells.
    pub button_size: i32,
}

impl Button {
    /// A shown button of side `size` whose top-left corner is `pos`.
    pub fn new(size: i32, pos: Cell) -> (button: Button)
        requires
            i32::MIN <= pos.x + size <= i32::MAX,
            i32::MIN <= pos.y + size <= i32::MAX,
        ensures
            button.button_bouds@ == seq![pos, Cell { x: (pos.x + size) as i32, y: (pos.y + size) as i32 }],
            button.button_render,
            button.button_size == size,
    {
        let button_bouds = vec![pos, Cell { x: pos.x + size, y: pos.y + size }];
        Button { button_bouds, button_render: true, button_size: size }
    }
}

} // verus!
