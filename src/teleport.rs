use vstd::prelude::*;

use crate::dungeon::GenError;
use crate::game_map::GameMap;
use crate::laws::teleport_move_keeps_one;
use crate::object::{Object, ObjectView};
use crate::rng::random_range;
use crate::tile::Tile;

verus! {

/// How many random cells a teleport search tries before giving up.
pub const TELEPORT_TRIES: u32 = 1000;

/// All eight neighbours of `(x, y)` are open, so a teleport there cannot
/// stop up a corridor.
pub open spec fn clear_around(map: GameMap, x: int, y: int) -> bool {
    &&& !map.cell(x + 1, y).blocked
    &&& !map.cell(x - 1, y).blocked
    &&& !map.cell(x, y + 1).blocked
    &&& !map.cell(x, y - 1).blocked
    &&& !map.cell(x + 1, y + 1).blocked
    &&& !map.cell(x + 1, y - 1).blocked
    &&& !map.cell(x - 1, y + 1).blocked
    &&& !map.cell(x - 1, y - 1).blocked
}

/// A cell at least three cells in from every edge.
pub open spec fn deep_inside(map: GameMap, x: int, y: int) -> bool {
    3 <= x < map.width - 3 && 3 <= y < map.height - 3
}

/// `after` is `before` with the teleport flag of `(x, y)` set to `flag`.
pub open spec fn teleport_set(before: GameMap, after: GameMap, x: int, y: int, flag: bool) -> bool {
    &&& after.wf()
    &&& after.same_size(before)
    &&& forall|i: int, j: int| before.in_bounds(i, j) ==> #[trigger] after.cell(i, j) == (if i == x && j == y {
        Tile { teleport: flag, ..before.cell(i, j) }
    } else {
        before.cell(i, j)
    })
}

/// Every cell deep inside the map has eight open neighbours.
pub open spec fn all_deep_clear(map: GameMap) -> bool {
    forall|x: int, y: int| #[trigger] deep_inside(map, x, y) ==> clear_around(map, x, y)
}

/// Every cell deep inside the map has eight open neighbours and can take a teleport.
pub open spec fn all_deep_free(map: GameMap) -> bool {
    forall|x: int, y: int| #[trigger] deep_inside(map, x, y) ==> clear_around(map, x, y) && map.cell(x, y).teleportable()
}

/// The cell lies deep inside the map and its eight neighbours are open.
pub fn spot_is_clear(map: &GameMap, x: i32, y: i32) -> (r: bool)
    requires
        map.wf(),
    ensures
        r == (deep_inside(*map, x as int, y as int) && clear_around(*map, x as int, y as int)),
{
    if !(3 <= x && x < map.width - 3 && 3 <= y && y < map.height - 3) {
        return false;
    }
    map.get(x + 1, y).is_empty() && map.get(x - 1, y).is_empty() && map.get(x, y + 1).is_empty()
        && map.get(x, y - 1).is_empty() && map.get(x + 1, y + 1).is_empty() && map.get(x + 1, y - 1).is_empty()
        && map.get(x - 1, y + 1).is_empty() && map.get(x - 1, y - 1).is_empty()
}

/// A random cell deep inside the map whose eight neighbours are open, or
/// `None` when the map is too small or no such cell turned up. When every
/// deep cell qualifies, the first cell drawn is returned.
pub fn get_tile_non_passage_blocking(map: &GameMap) -> (r: Option<(i32, i32)>)
    requires
        map.wf(),
    ensures
        r matches Some((x, y)) ==> deep_inside(*map, x as int, y as int) && clear_around(*map, x as int, y as int),
        map.width <= 6 || map.height <= 6 ==> r is None,
        map.width > 6 && map.height > 6 && all_deep_clear(*map) ==> r is Some,
{
    if map.width <= 6 || map.height <= 6 {
        return None;
    }
    let mut tries: u32 = 0;
    while tries < TELEPORT_TRIES
        invariant
            map.wf(),
            map.width > 6,
            map.height > 6,
            all_deep_clear(*map) ==> tries == 0,
        decreases TELEPORT_TRIES - tries,
    {
        let x = random_range(3, map.width - 3);
        let y = random_range(3, map.height - 3);
        if spot_is_clear(map, x, y) {
            return Some((x, y));
        }
        tries = tries + 1;
    }
    None
}

/// Turns a random teleportable cell, deep inside the map and with eight open
/// neighbours, into a teleport; the map is left as it was when none is found.
/// When every deep cell qualifies, the first cell drawn is taken.
pub fn place_rand_teleport_tile(map: &mut GameMap) -> (r: Result<(i32, i32), GenError>)
    requires
        old(map).wf(),
    ensures
        match r {
            Ok((x, y)) => {
                &&& deep_inside(*old(map), x as int, y as int)
                &&& clear_around(*old(map), x as int, y as int)
                &&& old(map).cell(x as int, y as int).teleportable()
                &&& teleport_set(*old(map), *final(map), x as int, y as int, true)
            },
            Err(e) => e == GenError::NoTeleportSpot && *final(map) == *old(map),
        },
        old(map).width > 6 && old(map).height > 6 && all_deep_free(*old(map)) ==> r is Ok,
{
    let mut tries: u32 = 0;
    while tries < TELEPORT_TRIES
        invariant
            map.wf(),
            *map == *old(map),
            all_deep_free(*map) && map.width > 6 && map.height > 6 ==> tries == 0,
        decreases TELEPORT_TRIES - tries,
    {
        match get_tile_non_passage_blocking(map) {
            None => {
                return Err(GenError::NoTeleportSpot);
            },
            Some((x, y)) => {
                let t = map.get(x, y);
                if t.is_teleportable_to() {
                    map.set(x, y, Tile { teleport: true, ..t });
                    return Ok((x, y));
                }
            },
        }
        tries = tries + 1;
    }
    Err(GenError::NoTeleportSpot)
}

/// Whether the player stands on the teleport tile.
pub open spec fn on_teleport(map: GameMap, player: Object) -> bool {
    map.in_bounds(player.x as int, player.y as int) && map.cell(player.x as int, player.y as int).teleport
}

/// A cell the player may be teleported onto: inside the border, and teleportable.
pub open spec fn landing_ok(map: GameMap, x: int, y: int) -> bool {
    map.inner(x, y) && map.cell(x, y).teleportable()
}

/// Once the teleport at `(px, py)` is cleared, `(x, y)` can take the new one:
/// deep inside, with eight open neighbours, open, and no teleport.
pub open spec fn new_spot_ok(map: GameMap, px: int, py: int, x: int, y: int) -> bool {
    &&& deep_inside(map, x, y)
    &&& clear_around(map, x, y)
    &&& !map.cell(x, y).blocked
    &&& (!map.cell(x, y).teleport || (x == px && y == py))
}

/// `after` is `before` with the teleport moved from `(px, py)` to `(tx, ty)`.
pub open spec fn teleport_moved(before: GameMap, after: GameMap, px: int, py: int, tx: int, ty: int) -> bool {
    &&& after.wf()
    &&& after.same_size(before)
    &&& forall|i: int, j: int| before.in_bounds(i, j) ==> #[trigger] after.cell(i, j) == (if i == tx && j == ty {
        Tile { teleport: true, ..before.cell(i, j) }
    } else if i == px && j == py {
        Tile { teleport: false, ..before.cell(i, j) }
    } else {
        before.cell(i, j)
    })
}

/// A random cell the player may land on, or `None` when none turned up.
pub fn find_landing(map: &GameMap) -> (r: Option<(i32, i32)>)
    requires
        map.wf(),
    ensures
        r matches Some((x, y)) ==> landing_ok(*map, x as int, y as int),
        map.width <= 2 || map.height <= 2 ==> r is None,
{
    if map.width <= 2 || map.height <= 2 {
        return None;
    }
    let mut tries: u32 = 0;
    while tries < TELEPORT_TRIES
        invariant
            map.wf(),
            map.width > 2,
            map.height > 2,
        decreases TELEPORT_TRIES - tries,
    {
        let x = random_range(1, map.width - 1);
        let y = random_range(1, map.height - 1);
        if map.get(x, y).is_teleportable_to() {
            return Some((x, y));
        }
        tries = tries + 1;
    }
    None
}

/// A random cell for the new teleport once the one at `(px, py)` is
/// cleared, or `None` when none turned up.
fn find_new_spot(map: &GameMap, px: i32, py: i32) -> (r: Option<(i32, i32)>)
    requires
        map.wf(),
    ensures
        r matches Some((x, y)) ==> new_spot_ok(*map, px as int, py as int, x as int, y as int),
{
    let mut tries: u32 = 0;
    while tries < TELEPORT_TRIES
        invariant
            map.wf(),
        decreases TELEPORT_TRIES - tries,
    {
        match get_tile_non_passage_blocking(map) {
            None => {
                return None;
            },
            Some((x, y)) => {
                let t = map.get(x, y);
                if !t.blocked && (!t.teleport || (x == px && y == py)) {
                    return Some((x, y));
                }
            },
        }
        tries = tries + 1;
    }
    None
}

/// Moves the player on the teleport tile to `landing` and the teleport to `spot`.
pub fn relocate(map: &mut GameMap, player: &mut Object, landing: (i32, i32), spot: (i32, i32))
    requires
        old(map).wf(),
        on_teleport(*old(map), *old(player)),
        old(map).in_bounds(spot.0 as int, spot.1 as int),
        !old(map).cell(spot.0 as int, spot.1 as int).blocked,
    ensures
        final(player)@ == (ObjectView { x: landing.0, y: landing.1, ..old(player)@ }),
        teleport_moved(
            *old(map),
            *final(map),
            old(player).x as int,
            old(player).y as int,
            spot.0 as int,
            spot.1 as int,
        ),
{
    let (px, py) = player.pos();
    let t = map.get(px, py);
    map.set(px, py, Tile { teleport: false, ..t });
    let s = map.get(spot.0, spot.1);
    map.set(spot.0, spot.1, Tile { teleport: true, ..s });
    player.set_pos(landing.0, landing.1);
}

/// What the teleport check does to the map and the player when it succeeds:
/// a player on the teleport tile lands on a cell inside the border that was
/// teleportable, and the teleport moves to a cell with eight open
/// neighbours; otherwise nothing changes.
pub open spec fn teleport_outcome(map0: GameMap, p0: ObjectView, map1: GameMap, p1: ObjectView) -> bool {
    let px = p0.x as int;
    let py = p0.y as int;
    if map0.in_bounds(px, py) && map0.cell(px, py).teleport {
        &&& landing_ok(map0, p1.x as int, p1.y as int)
        &&& p1 == (ObjectView { x: p1.x, y: p1.y, ..p0 })
        &&& exists|tx: int, ty: int|
            new_spot_ok(map0, px, py, tx, ty) && #[trigger] teleport_moved(map0, map1, px, py, tx, ty)
    } else {
        map1 == map0 && p1 == p0
    }
}

/// If the player stands on the teleport tile: moves the player to a random
/// teleportable cell inside the border and moves the teleport to a random
/// cell with eight open neighbours. The map must be larger than two cells
/// each way; when no cell is found for either, nothing changes and the
/// error says so.
pub fn check_teleport(map: &mut GameMap, player: &mut Object) -> (r: Result<(), GenError>)
    requires
        old(map).wf(),
    ensures
        final(map).wf(),
        final(map).same_size(*old(map)),
        old(map).one_teleport() ==> final(map).one_teleport(),
        !on_teleport(*old(map), *old(player)) ==> r is Ok,
        on_teleport(*old(map), *old(player)) && (old(map).width <= 2 || old(map).height <= 2) ==> r is Err,
        match r {
            Ok(_) => teleport_outcome(*old(map), old(player)@, *final(map), final(player)@),
            Err(e) => {
                &&& e == GenError::NoTeleportSpot
                &&& on_teleport(*old(map), *old(player))
                &&& *final(map) == *old(map)
                &&& *final(player) == *old(player)
            },
        },
{
    let (px, py) = player.pos();
    if !map.contains(px, py) || !map.get(px, py).teleport {
        return Ok(());
    }
    let landing = find_landing(map);
    let spot = find_new_spot(map, px, py);
    match (landing, spot) {
        (Some(l), Some(s)) => {
            let ghost before = *map;
            relocate(map, player, l, s);
            proof {
                if before.one_teleport() {
                    let (sx, sy) = choose|sx: int, sy: int| #[trigger] before.sole_teleport_at(sx, sy);
                    teleport_move_keeps_one(before, *map, px as int, py as int, s.0 as int, s.1 as int);
                }
            }
            Ok(())
        },
        _ => Err(GenError::NoTeleportSpot),
    }
}

} // verus!
