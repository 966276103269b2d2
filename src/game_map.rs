use vstd::prelude::*;

use crate::fov::Fov;
use crate::room::Room;
use crate::tile::{Fire, Tile};

verus! {

/// The dungeon grid, stored as columns: `tiles[x][y]`.
pub struct GameMap {
    pub width: i32,
    pub height: i32,
    pub tiles: Vec<Vec<Tile>>,
}

/// What the display layer draws for one cell.
#[derive(Clone, Copy, Debug, PartialEq, Eq, Structural)]
pub enum Look {
    DarkPerimeter,
    DarkWall,
    DarkTeleport,
    DarkGround,
    LightPerimeter,
    LightWall,
    LightTeleport,
    LightGround,
    Burning,
}

/// The display category of a tile, seen or remembered.
pub open spec fn look_of(tile: Tile, visible: bool) -> Look {
    if tile.on_fire.active {
        Look::Burning
    } else if tile.block_sight && tile.perimeter && !tile.teleport {
        if visible { Look::LightPerimeter } else { Look::DarkPerimeter }
    } else if tile.block_sight && !tile.perimeter && !tile.teleport {
        if visible { Look::LightWall } else { Look::DarkWall }
    } else if !tile.block_sight && !tile.perimeter && tile.teleport {
        if visible { Look::LightTeleport } else { Look::DarkTeleport }
    } else if !tile.block_sight && !tile.perimeter && !tile.teleport {
        if visible { Look::LightGround } else { Look::DarkGround }
    } else {
        Look::DarkPerimeter
    }
}

pub fn tile_look(tile: &Tile, visible: bool) -> (r: Look)
    ensures
        r == look_of(*tile, visible),
{
    if tile.on_fire.active {
        Look::Burning
    } else if tile.block_sight && tile.perimeter && !tile.teleport {
        if visible { Look::LightPerimeter } else { Look::DarkPerimeter }
    } else if tile.block_sight && !tile.perimeter && !tile.teleport {
        if visible { Look::LightWall } else { Look::DarkWall }
    } else if !tile.block_sight && !tile.perimeter && tile.teleport {
        if visible { Look::LightTeleport } else { Look::DarkTeleport }
    } else if !tile.block_sight && !tile.perimeter && !tile.teleport {
        if visible { Look::LightGround } else { Look::DarkGround }
    } else {
        Look::DarkPerimeter
    }
}

impl GameMap {
    pub open spec fn cell(&self, x: int, y: int) -> Tile {
        self.tiles@[x]@[y]
    }

    pub open spec fn in_bounds(&self, x: int, y: int) -> bool {
        0 <= x < self.width && 0 <= y < self.height
    }

    /// The cell is inside the map and not on its outer border.
    pub open spec fn inner(&self, x: int, y: int) -> bool {
        1 <= x < self.width - 1 && 1 <= y < self.height - 1
    }

    pub open spec fn on_border(&self, x: int, y: int) -> bool {
        self.in_bounds(x, y) && !self.inner(x, y)
    }

    pub open spec fn wf(&self) -> bool {
        &&& 0 < self.width
        &&& 0 < self.height
        &&& self.tiles@.len() == self.width
        &&& forall|x: int| 0 <= x < self.width ==> (#[trigger] self.tiles@[x])@.len() == self.height
        &&& forall|x: int, y: int| self.in_bounds(x, y) ==> (#[trigger] self.cell(x, y)).wf()
    }

    pub open spec fn same_size(&self, other: GameMap) -> bool {
        self.width == other.width && self.height == other.height
    }

    /// Both maps have the same size and the same tiles.
    pub open spec fn same_cells(&self, other: GameMap) -> bool {
        &&& self.same_size(other)
        &&& forall|x: int, y: int| other.in_bounds(x, y) ==> #[trigger] self.cell(x, y) == other.cell(x, y)
    }

    /// The cell at `(x, y)` is the one teleport tile of the map.
    pub open spec fn sole_teleport_at(&self, x: int, y: int) -> bool {
        &&& self.in_bounds(x, y)
        &&& self.cell(x, y).teleport
        &&& forall|i: int, j: int|
            self.in_bounds(i, j) && (#[trigger] self.cell(i, j)).teleport ==> i == x && j == y
    }

    /// Exactly one tile of the map is a teleport.
    pub open spec fn one_teleport(&self) -> bool {
        exists|x: int, y: int| #[trigger] self.sole_teleport_at(x, y)
    }

    /// The map as it is made before carving: walls, with a perimeter border.
    pub open spec fn is_solid(&self) -> bool {
        forall|x: int, y: int| #[trigger] self.in_bounds(x, y) ==> self.cell(x, y) == (if self.on_border(x, y) {
            Tile::spec_perimeter()
        } else {
            Tile::spec_wall()
        })
    }

    /// A map of the given size filled with walls and ringed by a perimeter.
    pub fn new(width: i32, height: i32) -> (m: GameMap)
        requires
            width > 0,
            height > 0,
        ensures
            m.wf(),
            m.width == width,
            m.height == height,
            m.is_solid(),
    {
        let mut tiles: Vec<Vec<Tile>> = Vec::new();
        let mut x: i32 = 0;
        while x < width
            invariant
                0 <= x <= width,
                height > 0,
                tiles@.len() == x,
                forall|i: int| 0 <= i < x ==> (#[trigger] tiles@[i])@.len() == height,
                forall|i: int, j: int| 0 <= i < x && 0 <= j < height ==> (#[trigger] tiles@[i]@[j]) == (if i == 0 || i == width - 1 || j == 0 || j == height - 1 {
                    Tile::spec_perimeter()
                } else {
                    Tile::spec_wall()
                }),
            decreases width - x,
        {
            let mut column: Vec<Tile> = Vec::new();
            let mut y: i32 = 0;
            while y < height
                invariant
                    0 <= x < width,
                    0 <= y <= height,
                    column@.len() == y,
                    forall|j: int| 0 <= j < y ==> (#[trigger] column@[j]) == (if x == 0 || x == width - 1 || j == 0 || j == height - 1 {
                        Tile::spec_perimeter()
                    } else {
                        Tile::spec_wall()
                    }),
                decreases height - y,
            {
                if x == 0 || x == width - 1 || y == 0 || y == height - 1 {
                    column.push(Tile::perimeter());
                } else {
                    column.push(Tile::wall());
                }
                y = y + 1;
            }
            tiles.push(column);
            x = x + 1;
        }
        GameMap { width, height, tiles }
    }

    pub fn contains(&self, x: i32, y: i32) -> (r: bool)
        ensures
            r == self.in_bounds(x as int, y as int),
    {
        0 <= x && x < self.width && 0 <= y && y < self.height
    }

    pub fn get(&self, x: i32, y: i32) -> (t: Tile)
        requires
            self.wf(),
            self.in_bounds(x as int, y as int),
        ensures
            t == self.cell(x as int, y as int),
    {
        self.tiles[x as usize][y as usize]
    }

    /// Replaces one cell.
    pub fn set(&mut self, x: i32, y: i32, t: Tile)
        requires
            old(self).wf(),
            old(self).in_bounds(x as int, y as int),
            t.wf(),
        ensures
            final(self).wf(),
            final(self).same_size(*old(self)),
            forall|i: int, j: int| old(self).in_bounds(i, j) ==> #[trigger] final(self).cell(i, j) == (if i == x && j == y {
                t
            } else {
                old(self).cell(i, j)
            }),
    {
        self.tiles[x as usize][y as usize] = t;
        assert forall|i: int, j: int| #[trigger] self.in_bounds(i, j) implies self.cell(i, j).wf() by {
            if i != x || j != y {
                assert(self.cell(i, j) == old(self).cell(i, j));
            }
        }
    }
}

/// Carves the inside of a room into floor.
pub fn create_room(room: Room, map: &mut GameMap)
    requires
        old(map).wf(),
        0 <= room.x1,
        room.x2 <= old(map).width,
        0 <= room.y1,
        room.y2 <= old(map).height,
    ensures
        final(map).wf(),
        final(map).same_size(*old(map)),
        forall|i: int, j: int| old(map).in_bounds(i, j) ==> #[trigger] final(map).cell(i, j) == (if room.interior(i, j) {
            Tile::spec_empty()
        } else {
            old(map).cell(i, j)
        }),
{
    let ghost start = *map;
    let mut x: i64 = room.x1 as i64 + 1;
    while x < room.x2 as i64
        invariant
            room.x1 + 1 <= x,
            x <= room.x2 || x == room.x1 + 1,
            0 <= room.x1,
            room.x2 <= start.width,
            0 <= room.y1,
            room.y2 <= start.height,
            map.wf(),
            map.same_size(start),
            forall|i: int, j: int| start.in_bounds(i, j) ==> #[trigger] map.cell(i, j) == (if room.interior(i, j) && i < x {
                Tile::spec_empty()
            } else {
                start.cell(i, j)
            }),
        decreases room.x2 - x,
    {
        let mut y: i64 = room.y1 as i64 + 1;
        while y < room.y2 as i64
            invariant
                room.x1 < x < room.x2,
                room.y1 + 1 <= y,
                y <= room.y2 || y == room.y1 + 1,
                0 <= room.x1,
                room.x2 <= start.width,
                0 <= room.y1,
                room.y2 <= start.height,
                map.wf(),
                map.same_size(start),
                forall|i: int, j: int| start.in_bounds(i, j) ==> #[trigger] map.cell(i, j) == (if room.interior(i, j) && (i < x || (i == x && j < y)) {
                    Tile::spec_empty()
                } else {
                    start.cell(i, j)
                }),
            decreases room.y2 - y,
        {
            map.set(x as i32, y as i32, Tile::empty());
            y = y + 1;
        }
        x = x + 1;
    }
}

/// Carves a straight horizontal corridor between `x1` and `x2`, both ends included.
pub fn create_horizontal_passage(x1: i32, x2: i32, y: i32, map: &mut GameMap)
    requires
        old(map).wf(),
        old(map).in_bounds(x1 as int, y as int),
        old(map).in_bounds(x2 as int, y as int),
    ensures
        final(map).wf(),
        final(map).same_size(*old(map)),
        forall|i: int, j: int| old(map).in_bounds(i, j) ==> #[trigger] final(map).cell(i, j) == (if j == y && (x1 <= i <= x2 || x2 <= i <= x1) {
            Tile::spec_empty()
        } else {
            old(map).cell(i, j)
        }),
{
    let ghost start = *map;
    let (lo, hi) = if x1 <= x2 { (x1, x2) } else { (x2, x1) };
    let mut x: i64 = lo as i64;
    while x <= hi as i64
        invariant
            lo <= x <= hi + 1,
            lo == if x1 <= x2 { x1 } else { x2 },
            hi == if x1 <= x2 { x2 } else { x1 },
            start.in_bounds(lo as int, y as int),
            start.in_bounds(hi as int, y as int),
            map.wf(),
            map.same_size(start),
            forall|i: int, j: int| start.in_bounds(i, j) ==> #[trigger] map.cell(i, j) == (if j == y && lo <= i < x {
                Tile::spec_empty()
            } else {
                start.cell(i, j)
            }),
        decreases hi + 1 - x,
    {
        map.set(x as i32, y, Tile::empty());
        x = x + 1;
    }
}

/// Carves a straight vertical corridor between `y1` and `y2`, both ends included.
pub fn create_vertical_passage(y1: i32, y2: i32, x: i32, map: &mut GameMap)
    requires
        old(map).wf(),
        old(map).in_bounds(x as int, y1 as int),
        old(map).in_bounds(x as int, y2 as int),
    ensures
        final(map).wf(),
        final(map).same_size(*old(map)),
        forall|i: int, j: int| old(map).in_bounds(i, j) ==> #[trigger] final(map).cell(i, j) == (if i == x && (y1 <= j <= y2 || y2 <= j <= y1) {
            Tile::spec_empty()
        } else {
            old(map).cell(i, j)
        }),
{
    let ghost start = *map;
    let (lo, hi) = if y1 <= y2 { (y1, y2) } else { (y2, y1) };
    let mut y: i64 = lo as i64;
    while y <= hi as i64
        invariant
            lo <= y <= hi + 1,
            lo == if y1 <= y2 { y1 } else { y2 },
            hi == if y1 <= y2 { y2 } else { y1 },
            start.in_bounds(x as int, lo as int),
            start.in_bounds(x as int, hi as int),
            map.wf(),
            map.same_size(start),
            forall|i: int, j: int| start.in_bounds(i, j) ==> #[trigger] map.cell(i, j) == (if i == x && lo <= j < y {
                Tile::spec_empty()
            } else {
                start.cell(i, j)
            }),
        decreases hi + 1 - y,
    {
        map.set(x, y as i32, Tile::empty());
        y = y + 1;
    }
}

/// `after` is `before` after one tick of burning on every tile.
pub open spec fn fire_decayed(before: GameMap, after: GameMap) -> bool {
    &&& after.wf()
    &&& after.same_size(before)
    &&& forall|i: int, j: int| before.in_bounds(i, j) ==> #[trigger] after.cell(i, j) == (Tile {
        on_fire: before.cell(i, j).on_fire.decayed(),
        ..before.cell(i, j)
    })
}

/// One tick of burning on every tile: each burning tile's counter goes
/// down by one, and its fire goes out when the counter reaches zero.
pub fn decay_fire(map: &mut GameMap)
    requires
        old(map).wf(),
    ensures
        fire_decayed(*old(map), *final(map)),
{
    let ghost start = *map;
    let mut x: i32 = 0;
    while x < map.width
        invariant
            0 <= x <= start.width,
            map.wf(),
            map.same_size(start),
            forall|i: int, j: int| start.in_bounds(i, j) ==> #[trigger] map.cell(i, j) == (if i < x {
                Tile { on_fire: start.cell(i, j).on_fire.decayed(), ..start.cell(i, j) }
            } else {
                start.cell(i, j)
            }),
        decreases start.width - x,
    {
        let mut y: i32 = 0;
        while y < map.height
            invariant
                0 <= x < start.width,
                0 <= y <= start.height,
                map.wf(),
                map.same_size(start),
                forall|i: int, j: int| start.in_bounds(i, j) ==> #[trigger] map.cell(i, j) == (if i < x || (i == x && j < y) {
                    Tile { on_fire: start.cell(i, j).on_fire.decayed(), ..start.cell(i, j) }
                } else {
                    start.cell(i, j)
                }),
            decreases start.height - y,
        {
            let t = map.get(x, y);
            let fire: Fire = t.on_fire.decay();
            map.set(x, y, Tile { on_fire: fire, ..t });
            y = y + 1;
        }
        x = x + 1;
    }
}

/// Marks every cell in view as explored.
pub fn mark_explored(map: &mut GameMap, fov: &Fov)
    requires
        old(map).wf(),
    ensures
        final(map).wf(),
        final(map).same_size(*old(map)),
        forall|i: int, j: int| old(map).in_bounds(i, j) ==> #[trigger] final(map).cell(i, j) == (Tile {
            explored: old(map).cell(i, j).explored || fov.visible(i, j),
            ..old(map).cell(i, j)
        }),
{
    let ghost start = *map;
    let mut x: i32 = 0;
    while x < map.width
        invariant
            0 <= x <= start.width,
            map.wf(),
            map.same_size(start),
            forall|i: int, j: int| start.in_bounds(i, j) ==> #[trigger] map.cell(i, j) == (if i < x {
                Tile { explored: start.cell(i, j).explored || fov.visible(i, j), ..start.cell(i, j) }
            } else {
                start.cell(i, j)
            }),
        decreases start.width - x,
    {
        let mut y: i32 = 0;
        while y < map.height
            invariant
                0 <= x < start.width,
                0 <= y <= start.height,
                map.wf(),
                map.same_size(start),
                forall|i: int, j: int| start.in_bounds(i, j) ==> #[trigger] map.cell(i, j) == (if i < x || (i == x && j < y) {
                    Tile { explored: start.cell(i, j).explored || fov.visible(i, j), ..start.cell(i, j) }
                } else {
                    start.cell(i, j)
                }),
            decreases start.height - y,
        {
            let t = map.get(x, y);
            let seen = fov.is_in_fov(x, y);
            map.set(x, y, Tile { explored: t.explored || seen, ..t });
            y = y + 1;
        }
        x = x + 1;
    }
}

} // verus!
