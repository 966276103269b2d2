use vstd::prelude::*;

verus! {

/// The set of cells the player currently sees, as a grid indexed `[x][y]`
/// like the map. Cells outside the grid are not visible.
pub struct Fov {
    pub cells: Vec<Vec<bool>>,
}

impl Fov {
    pub open spec fn visible(&self, x: int, y: int) -> bool {
        &&& 0 <= x < self.cells@.len()
        &&& 0 <= y < self.cells@[x]@.len()
        &&& self.cells@[x]@[y]
    }

    pub fn new(cells: Vec<Vec<bool>>) -> (r: Fov)
        ensures
            r.cells@ == cells@,
    {
        Fov { cells }
    }

    pub fn is_in_fov(&self, x: i32, y: i32) -> (r: bool)
        ensures
            r == self.visible(x as int, y as int),
    {
        if x < 0 || y < 0 {
            return false;
        }
        let xu = x as usize;
        let yu = y as usize;
        if xu >= self.cells.len() {
            return false;
        }
        if yu >= self.cells[xu].len() {
            return false;
        }
        self.cells[xu][yu]
    }
}

} // verus!
