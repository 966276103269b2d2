use vstd::prelude::*;

use crate::game_map::GameMap;
use crate::object::{Object, ObjectView};

verus! {

/// Some blocking object stands at `(x, y)`.
pub open spec fn occupied(objects: Seq<Object>, x: int, y: int) -> bool {
    exists|i: int| 0 <= i < objects.len() && #[trigger] objects[i].blocks && objects[i].x == x && objects[i].y == y
}

/// Nothing may move onto `(x, y)`: it lies off the map, its tile blocks, or a
/// blocking object stands there.
pub open spec fn blocked_at(map: GameMap, objects: Seq<Object>, x: int, y: int) -> bool {
    !map.in_bounds(x, y) || map.cell(x, y).blocked || occupied(objects, x, y)
}

/// `after` is `before` with at most the object at `id` changed.
pub open spec fn others_kept(before: Seq<Object>, after: Seq<Object>, id: int) -> bool {
    &&& after.len() == before.len()
    &&& forall|j: int| 0 <= j < before.len() && j != id ==> after[j] == before[j]
}

/// `after` is `before` with the object at `id` moved to `(x, y)`.
pub open spec fn moved_to(before: Seq<Object>, after: Seq<Object>, id: int, x: int, y: int) -> bool {
    &&& others_kept(before, after, id)
    &&& after[id]@ == (ObjectView { x: x as i32, y: y as i32, ..before[id]@ })
}

/// No entity besides the player moved: each one of `after` from slot 1 on
/// stands where some entity of `before` from slot 1 on stood.
pub open spec fn positions_kept(before: Seq<Object>, after: Seq<Object>) -> bool {
    forall|j: int|
        1 <= j < after.len() ==> exists|i: int|
            1 <= i < before.len() && (#[trigger] before[i]).x == (#[trigger] after[j]).x && before[i].y == after[j].y
}

/// One component of a single step toward a target `d` away along this axis
/// and `other` away along the other: the sign of `d` when the normalised
/// direction rounds away from zero on this axis (when `|d|` is at least half
/// the distance), else zero.
pub open spec fn step_toward(d: int, other: int) -> int {
    if d != 0 && 3 * d * d >= other * other {
        if d > 0 {
            1
        } else {
            -1
        }
    } else {
        0
    }
}

/// True if `(x, y)` lies off the map, its tile blocks, or a blocking object stands there.
pub fn is_blocked(x: i32, y: i32, map: &GameMap, objects: &[Object]) -> (r: bool)
    requires
        map.wf(),
    ensures
        r == blocked_at(*map, objects@, x as int, y as int),
{
    if !map.contains(x, y) {
        return true;
    }
    if map.get(x, y).blocked {
        return true;
    }
    let mut i: usize = 0;
    while i < objects.len()
        invariant
            i <= objects@.len(),
            forall|j: int| 0 <= j < i ==> !(#[trigger] objects@[j].blocks && objects@[j].x == x && objects@[j].y == y),
        decreases objects@.len() - i,
    {
        if objects[i].blocks && objects[i].x == x && objects[i].y == y {
            return true;
        }
        i = i + 1;
    }
    false
}

/// Two distinct elements of a slice, borrowed mutably at once.
pub fn mut_two<T>(first_index: usize, second_index: usize, items: &mut [T]) -> (r: (&mut T, &mut T))
    requires
        first_index != second_index,
        first_index < old(items)@.len(),
        second_index < old(items)@.len(),
    ensures
        *r.0 == old(items)@[first_index as int],
        *r.1 == old(items)@[second_index as int],
        final(items)@ == old(items)@.update(first_index as int, *final(r.0)).update(
            second_index as int,
            *final(r.1),
        ),
{
    let split_as_index = if first_index > second_index {
        first_index
    } else {
        second_index
    };
    let (first_slice, second_slice) = items.split_at_mut(split_as_index);
    if first_index < second_index {
        (&mut first_slice[first_index], &mut second_slice[0])
    } else {
        (&mut second_slice[0], &mut first_slice[second_index])
    }
}

/// Moves object `id` by `(dx, dy)` unless the destination is blocked.
pub fn move_by(id: usize, dx: i32, dy: i32, map: &GameMap, objects: &mut [Object])
    requires
        map.wf(),
        id < old(objects)@.len(),
    ensures
        ({
            let o = old(objects)@[id as int];
            let nx = o.x + dx;
            let ny = o.y + dy;
            if blocked_at(*map, old(objects)@, nx, ny) {
                final(objects)@ == old(objects)@
            } else {
                moved_to(old(objects)@, final(objects)@, id as int, nx, ny)
            }
        }),
{
    let (x, y) = objects[id].pos();
    let nx: i64 = x as i64 + dx as i64;
    let ny: i64 = y as i64 + dy as i64;
    if nx < 0 || nx >= map.width as i64 || ny < 0 || ny >= map.height as i64 {
        return;
    }
    if !is_blocked(nx as i32, ny as i32, map, objects) {
        objects[id].set_pos(nx as i32, ny as i32);
    }
}

/// Moves object `id` one step toward `(target_x, target_y)`, diagonally
/// when the direction rounds so, unless the destination is blocked.
pub fn move_towards(id: usize, target_x: i32, target_y: i32, map: &GameMap, objects: &mut [Object])
    requires
        map.wf(),
        id < old(objects)@.len(),
    ensures
        ({
            let o = old(objects)@[id as int];
            let nx = o.x + step_toward(target_x - o.x, target_y - o.y);
            let ny = o.y + step_toward(target_y - o.y, target_x - o.x);
            if blocked_at(*map, old(objects)@, nx, ny) {
                final(objects)@ == old(objects)@
            } else {
                moved_to(old(objects)@, final(objects)@, id as int, nx, ny)
            }
        }),
{
    let dx: i128 = target_x as i128 - objects[id].x as i128;
    let dy: i128 = target_y as i128 - objects[id].y as i128;
    assert(0 <= dx * dx <= 0x1_0000_0000_0000_0000) by (nonlinear_arith)
        requires
            -0x1_0000_0000 <= dx <= 0x1_0000_0000,
    ;
    assert(0 <= dy * dy <= 0x1_0000_0000_0000_0000) by (nonlinear_arith)
        requires
            -0x1_0000_0000 <= dy <= 0x1_0000_0000,
    ;
    let sx: i32 = if dx != 0 && 3 * (dx * dx) >= dy * dy {
        if dx > 0 { 1 } else { -1 }
    } else {
        0
    };
    let sy: i32 = if dy != 0 && 3 * (dy * dy) >= dx * dx {
        if dy > 0 { 1 } else { -1 }
    } else {
        0
    };
    assert(3 * (dx * dx) == 3 * dx * dx) by (nonlinear_arith);
    assert(3 * (dy * dy) == 3 * dy * dy) by (nonlinear_arith);
    move_by(id, sx, sy, map, objects);
}

} // verus!
