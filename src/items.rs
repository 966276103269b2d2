use vstd::prelude::*;
use vstd::string::*;

use crate::fov::Fov;
use crate::game::Game;
use crate::game_map::GameMap;
use crate::object::{after_hit, dist_sq, killed_by, DeathCallback, Item, Log, Object, ObjectView};
use crate::text::{decimal, push_int};
use crate::tile::{Fire, Tile, FIRE_TICKS};
use crate::tint::Tint;
use crate::turn::PLAYER;

verus! {

/// How many items the inventory holds: one per menu letter.
pub const INVENTORY_CAPACITY: usize = 26;

/// Hit points a healing potion restores.
pub const HEAL_AMOUNT: i32 = 10;

/// The reach of a fire ring, in cells.
pub const RING_RANGE: i32 = 4;

/// The damage a fire ring deals to each monster in reach.
pub const FIRE_RING_DAMAGE: i32 = 20;

/// Whether an item was spent or its use called off.
#[derive(Clone, Copy, Debug, PartialEq, Eq, Structural)]
pub enum UseResult {
    UsedUp,
    Cancelled,
}

/// Takes object `object_id` off the map into the inventory, unless the
/// inventory is full. The last object takes the freed slot.
pub fn pick_item_up(object_id: usize, game: &mut Game, objects: &mut Vec<Object>)
    requires
        1 <= object_id < old(objects)@.len(),
    ensures
        final(game).map == old(game).map,
        old(game).inventory@.len() >= INVENTORY_CAPACITY ==> {
            &&& final(objects)@ == old(objects)@
            &&& final(game).inventory == old(game).inventory
            &&& final(game).messages@ == old(game).messages@.push(
                ("Your inventory is full, cannot pick up "@ + old(objects)@[object_id as int].name@, Tint::Red),
            )
        },
        old(game).inventory@.len() < INVENTORY_CAPACITY ==> {
            &&& final(objects)@ == old(objects)@.update(object_id as int, old(objects)@.last()).drop_last()
            &&& final(game).inventory@ == old(game).inventory@.push(old(objects)@[object_id as int])
            &&& final(game).messages@ == old(game).messages@.push(
                ("You picked up a "@ + old(objects)@[object_id as int].name@ + "!"@, Tint::Green),
            )
        },
{
    if game.inventory.len() >= INVENTORY_CAPACITY {
        let text = String::from_str("Your inventory is full, cannot pick up ").concat(objects[object_id].name.as_str());
        game.messages.add(text, Tint::Red);
    } else {
        let item = objects.swap_remove(object_id);
        let text = String::from_str("You picked up a ").concat(item.name.as_str()).concat("!");
        game.messages.add(text, Tint::Green);
        game.inventory.push(item);
    }
}

/// A healing potion has an effect: the player has a fighter below full health.
pub open spec fn heal_works(objs0: Seq<Object>) -> bool {
    objs0[0].fighter matches Some(f) && f.hp != f.max_hp
}

/// What a healing potion does to the entities and the log.
pub open spec fn heal_outcome(objs0: Seq<Object>, log0: Log, objs1: Seq<Object>, log1: Log) -> bool {
    &&& objs1.len() == objs0.len()
    &&& forall|j: int| 1 <= j < objs0.len() ==> objs1[j] == objs0[j]
    &&& match objs0[0].fighter {
        None => objs1 == objs0 && log1 == log0,
        Some(f) => if f.hp == f.max_hp {
            objs1 == objs0 && log1 == log0.push(("You are already at full health"@, Tint::Red))
        } else {
            &&& objs1[0]@ == (ObjectView { fighter: Some(f.healed(HEAL_AMOUNT as int)), ..objs0[0]@ })
            &&& log1 == log0.push(
                ("You have healed yourself for "@ + decimal(HEAL_AMOUNT as int) + " HP"@, Tint::LightViolet),
            )
        },
    }
}

/// Heals the player by `HEAL_AMOUNT`; called off when the player is at full
/// health or has no fighter.
pub fn cast_heal(inventory_id: usize, game: &mut Game, objects: &mut [Object]) -> (r: UseResult)
    requires
        old(objects)@.len() >= 1,
    ensures
        final(game).map == old(game).map,
        final(game).inventory == old(game).inventory,
        r == (if heal_works(old(objects)@) { UseResult::UsedUp } else { UseResult::Cancelled }),
        heal_outcome(old(objects)@, old(game).messages@, final(objects)@, final(game).messages@),
{
    if let Some(fighter) = objects[PLAYER].fighter {
        if fighter.hp == fighter.max_hp {
            game.messages.add(String::from_str("You are already at full health"), Tint::Red);
            return UseResult::Cancelled;
        }
        let mut text = String::from_str("You have healed yourself for ");
        push_int(&mut text, HEAL_AMOUNT as i64);
        text.append(" HP");
        game.messages.add(text, Tint::LightViolet);
        objects[PLAYER].heal(HEAL_AMOUNT);
        return UseResult::UsedUp;
    }
    UseResult::Cancelled
}

/// Object `i` is a monster the player sees within `range` cells.
pub open spec fn ring_member(objects: Seq<Object>, fov: Fov, range: int, i: int) -> bool {
    let o = objects[i];
    let p = objects[0];
    &&& 1 <= i < objects.len()
    &&& o.fighter is Some
    &&& o.ai is Some
    &&& fov.visible(o.x as int, o.y as int)
    &&& range >= 0
    &&& dist_sq(p.x as int, p.y as int, o.x as int, o.y as int) <= range * range
}

/// `ids` lists, in increasing slot order, exactly the monsters in reach.
pub open spec fn ring_list(objects: Seq<Object>, fov: Fov, range: int, ids: Seq<Option<usize>>) -> bool {
    &&& forall|k: int| 0 <= k < ids.len() ==> (#[trigger] ids[k]) is Some && ring_member(objects, fov, range, ids[k]->0 as int)
    &&& forall|k1: int, k2: int| 0 <= k1 < k2 < ids.len() ==> (#[trigger] ids[k1])->0 < (#[trigger] ids[k2])->0
    &&& forall|i: int| #[trigger] ring_member(objects, fov, range, i) ==> exists|k: int| 0 <= k < ids.len() && ids[k] == Some(i as usize)
}

/// The monsters the player sees within `range` cells, in slot order.
pub fn get_monsters_in_range(fov: &Fov, objects: &[Object], range: i32) -> (r: Vec<Option<usize>>)
    requires
        objects@.len() >= 1,
    ensures
        ring_list(objects@, *fov, range as int, r@),
{
    let mut monsters_in_range: Vec<Option<usize>> = Vec::new();
    let mut id: usize = 1;
    let r: i128 = range as i128;
    assert(r * r <= 0x1_0000_0000_0000_0000) by (nonlinear_arith)
        requires
            -0x1_0000_0000 <= r <= 0x1_0000_0000,
    ;
    assert(r * r >= 0) by (nonlinear_arith);
    let reach: i128 = r * r;
    while id < objects.len()
        invariant
            1 <= id <= objects@.len(),
            reach == range * range,
            forall|k: int| 0 <= k < monsters_in_range@.len() ==> (#[trigger] monsters_in_range@[k]) is Some
                && ring_member(objects@, *fov, range as int, monsters_in_range@[k]->0 as int)
                && monsters_in_range@[k]->0 < id,
            forall|k1: int, k2: int| 0 <= k1 < k2 < monsters_in_range@.len() ==> (#[trigger] monsters_in_range@[k1])->0
                < (#[trigger] monsters_in_range@[k2])->0,
            forall|i: int| 1 <= i < id && #[trigger] ring_member(objects@, *fov, range as int, i) ==> exists|k: int|
                0 <= k < monsters_in_range@.len() && monsters_in_range@[k] == Some(i as usize),
        decreases objects@.len() - id,
    {
        let object = &objects[id];
        if object.fighter.is_some() && object.ai.is_some() && fov.is_in_fov(object.x, object.y) && range >= 0 {
            let distance = objects[PLAYER].distance_sq_to(object);
            if distance <= reach {
                let ghost before = monsters_in_range@;
                monsters_in_range.push(Some(id));
                assert forall|i: int| 1 <= i < id + 1 && #[trigger] ring_member(objects@, *fov, range as int, i) implies exists|k: int|
                    0 <= k < monsters_in_range@.len() && monsters_in_range@[k] == Some(i as usize) by {
                    if i == id {
                        assert(monsters_in_range@[before.len() as int] == Some(i as usize));
                    } else {
                        let k = choose|k: int| 0 <= k < before.len() && before[k] == Some(i as usize);
                        assert(monsters_in_range@[k] == Some(i as usize));
                    }
                }
            }
        }
        id = id + 1;
    }
    monsters_in_range
}

/// A cell a fire ring can spread over: on the map, and neither a wall nor perimeter.
pub open spec fn fire_open(map: GameMap, x: int, y: int) -> bool {
    map.in_bounds(x, y) && !map.cell(x, y).perimeter && !map.cell(x, y).blocked
}

/// Every cell of row `y` from `lo` to `hi`, both included, is open to fire.
pub open spec fn run_open(map: GameMap, lo: int, hi: int, y: int) -> bool {
    forall|k: int| lo <= k <= hi ==> #[trigger] fire_open(map, k, y)
}

/// A fire ring cast from `(px, py)` with `range` sets `(x, y)` alight: its row
/// lies in `[py - range, py + range)`, and it is reached from the player's
/// column rightward over open cells (at most `range` cells on), or lies in the
/// `range - 1` cells left of the player with open cells from the far end up to it.
pub open spec fn ignites(map: GameMap, px: int, py: int, range: int, x: int, y: int) -> bool {
    &&& py - range <= y < py + range
    &&& {
        ||| px <= x <= px + range && run_open(map, px, x, y)
        ||| px - range + 1 <= x < px && run_open(map, px - range + 1, x, y)
    }
}

/// A tile that has just been set on fire.
pub open spec fn lit(t: Tile) -> Tile {
    Tile { on_fire: Fire { active: true, ticks: FIRE_TICKS }, ..t }
}

fn fire_open_at(map: &GameMap, x: i64, y: i64) -> (r: bool)
    requires
        map.wf(),
    ensures
        r == fire_open(*map, x as int, y as int),
{
    if x < 0 || y < 0 || x >= map.width as i64 || y >= map.height as i64 {
        return false;
    }
    let t = map.get(x as i32, y as i32);
    !t.perimeter && !t.blocked
}

/// Sets alight, from `from` rightward, the open cells of row `y` up to
/// `to`, stopping at the first cell that is not open.
fn burn_run(map: &mut GameMap, from: i64, to: i64, y: i64)
    requires
        old(map).wf(),
    ensures
        final(map).wf(),
        final(map).same_size(*old(map)),
        forall|i: int, j: int| old(map).in_bounds(i, j) ==> #[trigger] final(map).cell(i, j) == (if j == y && from <= i
            <= to && run_open(*old(map), from as int, i, j) {
            lit(old(map).cell(i, j))
        } else {
            old(map).cell(i, j)
        }),
        forall|k: int, j: int| #[trigger] fire_open(*final(map), k, j) == fire_open(*old(map), k, j),
{
    let ghost start = *map;
    let mut x: i64 = from;
    while x <= to && fire_open_at(map, x, y)
        invariant
            from <= x,
            x <= to + 1 || x == from,
            map.wf(),
            map.same_size(start),
            run_open(start, from as int, x - 1, y as int),
            forall|k: int| #[trigger] fire_open(*map, k, y as int) == fire_open(start, k, y as int),
            forall|i: int, j: int| start.in_bounds(i, j) ==> #[trigger] map.cell(i, j) == (if j == y && from <= i < x {
                lit(start.cell(i, j))
            } else {
                start.cell(i, j)
            }),
        decreases to + 1 - x,
    {
        let t = map.get(x as i32, y as i32);
        map.set(x as i32, y as i32, lit_tile(t));
        assert forall|k: int| #[trigger] fire_open(*map, k, y as int) == fire_open(start, k, y as int) by {}
        x = x + 1;
    }
    assert forall|k: int, j: int| #[trigger] fire_open(*map, k, j) == fire_open(start, k, j) by {}
    assert forall|i: int, j: int| start.in_bounds(i, j) implies #[trigger] map.cell(i, j) == (if j == y && from <= i <= to
        && run_open(start, from as int, i, j) {
        lit(start.cell(i, j))
    } else {
        start.cell(i, j)
    }) by {}
}

fn lit_tile(t: Tile) -> (r: Tile)
    ensures
        r == lit(t),
{
    Tile { on_fire: Fire { active: true, ticks: FIRE_TICKS }, ..t }
}

proof fn lemma_run_open_same(m1: GameMap, m2: GameMap, lo: int, hi: int, y: int)
    requires
        forall|k: int, j: int| #[trigger] fire_open(m1, k, j) == fire_open(m2, k, j),
    ensures
        run_open(m1, lo, hi, y) == run_open(m2, lo, hi, y),
{
    if run_open(m1, lo, hi, y) {
        assert forall|k: int| lo <= k <= hi implies #[trigger] fire_open(m2, k, y) by {
            assert(fire_open(m1, k, y));
        }
    }
    if run_open(m2, lo, hi, y) {
        assert forall|k: int| lo <= k <= hi implies #[trigger] fire_open(m1, k, y) by {}
    }
}

/// Sets alight the cells a fire ring of `range` reaches from the player
/// (see `ignites`); nothing else changes.
pub fn set_tiles_on_fire(game: &mut Game, objects: &[Object], range: i32)
    requires
        objects@.len() >= 1,
        old(game).map.wf(),
    ensures
        final(game).map.wf(),
        final(game).map.same_size(old(game).map),
        final(game).messages@ == old(game).messages@,
        final(game).inventory == old(game).inventory,
        forall|i: int, j: int| old(game).map.in_bounds(i, j) ==> #[trigger] final(game).map.cell(i, j) == (if ignites(
            old(game).map,
            objects@[0].x as int,
            objects@[0].y as int,
            range as int,
            i,
            j,
        ) {
            lit(old(game).map.cell(i, j))
        } else {
            old(game).map.cell(i, j)
        }),
{
    let ghost start = game.map;
    let (px, py) = objects[PLAYER].pos();
    let px = px as i64;
    let py = py as i64;
    let r = range as i64;
    let mut dy: i64 = -r;
    while dy < r
        invariant
            -r <= dy,
            dy <= r || dy == -r,
            r == range,
            objects@.len() >= 1,
            px == objects@[0].x,
            py == objects@[0].y,
            game.map.wf(),
            game.map.same_size(start),
            game.messages@ == old(game).messages@,
            game.inventory == old(game).inventory,
            start == old(game).map,
            forall|k: int, j: int| #[trigger] fire_open(game.map, k, j) == fire_open(start, k, j),
            forall|i: int, j: int| start.in_bounds(i, j) ==> #[trigger] game.map.cell(i, j) == (if j < py + dy && ignites(
                start,
                px as int,
                py as int,
                r as int,
                i,
                j,
            ) {
                lit(start.cell(i, j))
            } else {
                start.cell(i, j)
            }),
        decreases r - dy,
    {
        let row = py + dy;
        let ghost m0 = game.map;
        burn_run(&mut game.map, px, px + r, row);
        let ghost m1 = game.map;
        burn_run(&mut game.map, px - r + 1, px - 1, row);
        assert forall|i: int, j: int| start.in_bounds(i, j) implies #[trigger] game.map.cell(i, j) == (if j < py + dy + 1
            && ignites(start, px as int, py as int, r as int, i, j) {
            lit(start.cell(i, j))
        } else {
            start.cell(i, j)
        }) by {
            lemma_run_open_same(m0, start, px as int, i, j);
            lemma_run_open_same(m1, start, (px - r + 1) as int, i, j);
        }
        dy = dy + 1;
    }
}

/// Some monster in reach, of slot below `lim`, is killed by the fire ring
/// and leaves its corpse at `(x, y)`.
pub open spec fn corpse_left(objects: Seq<Object>, fov: Fov, range: int, lim: int, x: int, y: int) -> bool {
    exists|i: int|
        0 <= i < lim && #[trigger] ring_member(objects, fov, range, i) && killed_by(objects[i]@, FIRE_RING_DAMAGE as int)
            && objects[i].fighter->0.on_death == DeathCallback::Monster && objects[i].x == x && objects[i].y == y
}

/// The log lines a hit of `damage` adds for `o`: its death message when the
/// hit kills it.
pub open spec fn hit_log(o: ObjectView, damage: int) -> Log {
    if killed_by(o, damage) {
        match o.fighter->0.on_death {
            DeathCallback::Player => seq![("You Died!!"@, Tint::Red)],
            DeathCallback::Monster => seq![(o.name + " is dead!"@, Tint::Orange)],
        }
    } else {
        seq![]
    }
}

/// The log line for a monster caught in a fire ring.
pub open spec fn ring_hit_message(o: ObjectView) -> (Seq<char>, Tint) {
    ("Fire ring conflagrated the "@ + o.name + " for "@ + decimal(FIRE_RING_DAMAGE as int) + " hit points"@, Tint::LightBlue)
}

/// The log lines a fire ring adds for the monsters in reach among the first
/// `n` slots, in slot order.
pub open spec fn ring_log(objects: Seq<Object>, fov: Fov, n: int) -> Log
    decreases n,
{
    if n <= 0 {
        seq![]
    } else {
        let rest = ring_log(objects, fov, n - 1);
        if ring_member(objects, fov, RING_RANGE as int, n - 1) {
            rest.push(ring_hit_message(objects[n - 1]@)) + hit_log(objects[n - 1]@, FIRE_RING_DAMAGE as int)
        } else {
            rest
        }
    }
}

proof fn lemma_ring_log_skip(objects: Seq<Object>, fov: Fov, a: int, b: int)
    requires
        0 <= a <= b,
        forall|i: int| a <= i < b ==> !ring_member(objects, fov, RING_RANGE as int, i),
    ensures
        ring_log(objects, fov, b) == ring_log(objects, fov, a),
    decreases b - a,
{
    if a < b {
        lemma_ring_log_skip(objects, fov, a, b - 1);
    }
}

/// What a fire ring does: every monster in reach takes `FIRE_RING_DAMAGE`,
/// those it kills leave corpses, and the cells it reaches catch fire.
pub open spec fn fire_ring_outcome(
    fov: Fov,
    objs0: Seq<Object>,
    map0: GameMap,
    log0: Log,
    objs1: Seq<Object>,
    map1: GameMap,
    log1: Log,
) -> bool {
    let n = objs0.len();
    &&& objs1.len() == n
    &&& forall|i: int| 0 <= i < n ==> if ring_member(objs0, fov, RING_RANGE as int, i) {
        (#[trigger] objs1[i])@ == after_hit(objs0[i]@, FIRE_RING_DAMAGE as int)
    } else {
        objs1[i] == objs0[i]
    }
    &&& map1.wf()
    &&& map1.same_size(map0)
    &&& forall|x: int, y: int| map0.in_bounds(x, y) ==> #[trigger] map1.cell(x, y) == ({
        let base = Tile {
            has_corpse: map0.cell(x, y).has_corpse || corpse_left(objs0, fov, RING_RANGE as int, n as int, x, y),
            ..map0.cell(x, y)
        };
        if ignites(map0, objs0[0].x as int, objs0[0].y as int, RING_RANGE as int, x, y) {
            lit(base)
        } else {
            base
        }
    })
    &&& log1 == log0 + ring_log(objs0, fov, n as int) + (if exists|i: int| #[trigger] ring_member(objs0, fov, RING_RANGE as int, i) {
        seq![]
    } else {
        seq![("Fire ring caused no direct damage"@, Tint::Red)]
    })
}

/// Casts a ring of fire around the player: each monster in reach takes
/// `FIRE_RING_DAMAGE`, then the cells around catch fire. Always used up.
pub fn cast_fire_ring(inventory_id: usize, fov: &Fov, game: &mut Game, objects: &mut [Object]) -> (r: UseResult)
    requires
        old(objects)@.len() >= 1,
        old(game).map.wf(),
    ensures
        r == UseResult::UsedUp,
        final(game).inventory == old(game).inventory,
        fire_ring_outcome(
            *fov,
            old(objects)@,
            old(game).map,
            old(game).messages@,
            final(objects)@,
            final(game).map,
            final(game).messages@,
        ),
{
    let ghost objs0 = objects@;
    let ghost map0 = game.map;
    let ghost log0 = game.messages@;
    let ghost n = objects@.len() as int;
    let monster_ids = get_monsters_in_range(fov, objects, RING_RANGE);
    proof {
        let lim0 = if 0 < monster_ids@.len() { monster_ids@[0]->0 as int } else { n };
        assert forall|i: int| 0 <= i < lim0 implies !ring_member(objs0, *fov, RING_RANGE as int, i) by {
            if ring_member(objs0, *fov, RING_RANGE as int, i) {
                let kk = choose|kk: int| 0 <= kk < monster_ids@.len() && monster_ids@[kk] == Some(i as usize);
                if kk > 0 {
                    assert(monster_ids@[0]->0 < monster_ids@[kk]->0);
                }
            }
        }
        lemma_ring_log_skip(objs0, *fov, 0, lim0);
        assert(log0 + ring_log(objs0, *fov, lim0) =~= log0);
    }
    let mut no_effect: bool = true;
    let mut k: usize = 0;
    while k < monster_ids.len()
        invariant
            0 <= k <= monster_ids@.len(),
            ring_list(objs0, *fov, RING_RANGE as int, monster_ids@),
            objects@.len() == n,
            objs0.len() == n,
            n >= 1,
            no_effect == (k == 0),
            game.map.wf(),
            game.map.same_size(map0),
            game.inventory == old(game).inventory,
            ({
                let lim = if k < monster_ids@.len() { monster_ids@[k as int]->0 as int } else { n };
                &&& 0 <= lim <= n
                &&& game.messages@ == log0 + ring_log(objs0, *fov, lim)
                &&& forall|i: int| 0 <= i < n ==> if i < lim && ring_member(objs0, *fov, RING_RANGE as int, i) {
                    (#[trigger] objects@[i])@ == after_hit(objs0[i]@, FIRE_RING_DAMAGE as int)
                } else {
                    objects@[i] == objs0[i]
                }
                &&& forall|x: int, y: int| map0.in_bounds(x, y) ==> #[trigger] game.map.cell(x, y) == (Tile {
                    has_corpse: map0.cell(x, y).has_corpse || corpse_left(objs0, *fov, RING_RANGE as int, lim, x, y),
                    ..map0.cell(x, y)
                })
            }),
        decreases monster_ids@.len() - k,
    {
        if let Some(monster_id) = monster_ids[k] {
            let ghost lim = monster_id as int;
            let ghost lim2 = if k + 1 < monster_ids@.len() { monster_ids@[k + 1]->0 as int } else { n };
            let ghost map_b = game.map;
            let ghost log_b = game.messages@;
            let mut text = String::from_str("Fire ring conflagrated the ").concat(objects[monster_id].name.as_str());
            text.append(" for ");
            push_int(&mut text, FIRE_RING_DAMAGE as i64);
            text.append(" hit points");
            game.messages.add(text, Tint::LightBlue);
            no_effect = false;
            objects[monster_id].take_damage(FIRE_RING_DAMAGE, game);
            proof {
                assert forall|i: int| lim < i < lim2 implies !ring_member(objs0, *fov, RING_RANGE as int, i) by {
                    if ring_member(objs0, *fov, RING_RANGE as int, i) {
                        let kk = choose|kk: int| 0 <= kk < monster_ids@.len() && monster_ids@[kk] == Some(i as usize);
                    }
                }
                let hit = log_b.push(ring_hit_message(objs0[lim]@));
                assert(game.messages@ =~= hit + hit_log(objs0[lim]@, FIRE_RING_DAMAGE as int));
                assert(ring_log(objs0, *fov, lim + 1) == ring_log(objs0, *fov, lim).push(ring_hit_message(objs0[lim]@))
                    + hit_log(objs0[lim]@, FIRE_RING_DAMAGE as int));
                lemma_ring_log_skip(objs0, *fov, lim + 1, lim2);
                assert(game.messages@ =~= log0 + ring_log(objs0, *fov, lim2));
                assert forall|i: int| 0 <= i < n implies if i < lim2 && ring_member(objs0, *fov, RING_RANGE as int, i) {
                    (#[trigger] objects@[i])@ == after_hit(objs0[i]@, FIRE_RING_DAMAGE as int)
                } else {
                    objects@[i] == objs0[i]
                } by {}
                assert forall|x: int, y: int| map0.in_bounds(x, y) implies #[trigger] game.map.cell(x, y) == (Tile {
                    has_corpse: map0.cell(x, y).has_corpse || corpse_left(objs0, *fov, RING_RANGE as int, lim2, x, y),
                    ..map0.cell(x, y)
                }) by {
                    if corpse_left(objs0, *fov, RING_RANGE as int, lim2, x, y) {
                        let i = choose|i: int|
                            0 <= i < lim2 && #[trigger] ring_member(objs0, *fov, RING_RANGE as int, i) && killed_by(
                                objs0[i]@,
                                FIRE_RING_DAMAGE as int,
                            ) && objs0[i].fighter->0.on_death == DeathCallback::Monster && objs0[i].x == x && objs0[i].y == y;
                    }
                    if corpse_left(objs0, *fov, RING_RANGE as int, lim, x, y) {
                        let i = choose|i: int|
                            0 <= i < lim && #[trigger] ring_member(objs0, *fov, RING_RANGE as int, i) && killed_by(
                                objs0[i]@,
                                FIRE_RING_DAMAGE as int,
                            ) && objs0[i].fighter->0.on_death == DeathCallback::Monster && objs0[i].x == x && objs0[i].y == y;
                    }
                    assert(map_b.cell(x, y) == Tile {
                        has_corpse: map0.cell(x, y).has_corpse || corpse_left(objs0, *fov, RING_RANGE as int, lim, x, y),
                        ..map0.cell(x, y)
                    });
                }
            }
        }
        k = k + 1;
    }
    proof {
        if monster_ids@.len() > 0 {
            assert(ring_member(objs0, *fov, RING_RANGE as int, monster_ids@[0]->0 as int));
        }
    }
    if no_effect {
        game.messages.add(String::from_str("Fire ring caused no direct damage"), Tint::Red);
    }
    proof {
        if exists|i: int| #[trigger] ring_member(objs0, *fov, RING_RANGE as int, i) {
            assert(game.messages@ =~= log0 + ring_log(objs0, *fov, n) + seq![]);
        } else {
            assert(game.messages@ =~= log0 + ring_log(objs0, *fov, n) + seq![
                ("Fire ring caused no direct damage"@, Tint::Red),
            ]);
        }
    }
    let ghost map_c = game.map;
    set_tiles_on_fire(game, objects, RING_RANGE);
    proof {
        assert forall|k: int, j: int| #[trigger] fire_open(map_c, k, j) == fire_open(map0, k, j) by {}
        assert forall|x: int, y: int| map0.in_bounds(x, y) implies ignites(map_c, objs0[0].x as int, objs0[0].y as int, RING_RANGE as int, x, y)
            == ignites(map0, objs0[0].x as int, objs0[0].y as int, RING_RANGE as int, x, y) by {
            lemma_run_open_same(map_c, map0, objs0[0].x as int, x, y);
            lemma_run_open_same(map_c, map0, objs0[0].x - RING_RANGE + 1, x, y);
        }
    }
    UseResult::UsedUp
}

/// What using inventory slot `inventory_id` does to the inventory: a spent
/// item leaves it.
pub open spec fn inventory_after_use(inv0: Seq<Object>, inventory_id: int, used: bool, inv1: Seq<Object>) -> bool {
    if used {
        inv1 == inv0.remove(inventory_id)
    } else {
        inv1 == inv0
    }
}

/// What using inventory slot `inventory_id` does.
pub open spec fn use_outcome(
    inventory_id: int,
    fov: Fov,
    objs0: Seq<Object>,
    map0: GameMap,
    log0: Log,
    inv0: Seq<Object>,
    objs1: Seq<Object>,
    map1: GameMap,
    log1: Log,
    inv1: Seq<Object>,
) -> bool {
    let thing = inv0[inventory_id];
    match thing.item {
        None => {
            &&& objs1 == objs0
            &&& map1 == map0
            &&& inv1 == inv0
            &&& log1 == log0.push(("The "@ + thing.name@ + " cannot be used"@, Tint::White))
        },
        Some(Item::Heal) => {
            &&& map1 == map0
            &&& inventory_after_use(inv0, inventory_id, heal_works(objs0), inv1)
            &&& if heal_works(objs0) {
                heal_outcome(objs0, log0, objs1, log1)
            } else {
                exists|log_h: Log|
                    #[trigger] heal_outcome(objs0, log0, objs1, log_h)
                        && log1 == log_h.push(("Cancelled"@, Tint::White))
            }
        },
        Some(Item::FireRing) => {
            &&& inv1 == inv0.remove(inventory_id)
            &&& fire_ring_outcome(fov, objs0, map0, log0, objs1, map1, log1)
        },
    }
}

/// Uses the item in inventory slot `inventory_id`. A spent item leaves the
/// inventory; a use called off is logged as such; an object without an item
/// effect cannot be used.
pub fn use_item(inventory_id: usize, fov: &Fov, game: &mut Game, objects: &mut [Object])
    requires
        inventory_id < old(game).inventory@.len(),
        old(objects)@.len() >= 1,
        old(game).map.wf(),
    ensures
        final(game).map.wf(),
        final(objects)@.len() == old(objects)@.len(),
        forall|j: int|
            0 <= j < old(objects)@.len() ==> (#[trigger] final(objects)@[j]).x == old(objects)@[j].x
                && final(objects)@[j].y == old(objects)@[j].y,
        use_outcome(
            inventory_id as int,
            *fov,
            old(objects)@,
            old(game).map,
            old(game).messages@,
            old(game).inventory@,
            final(objects)@,
            final(game).map,
            final(game).messages@,
            final(game).inventory@,
        ),
{
    if let Some(item) = game.inventory[inventory_id].item {
        let outcome = match item {
            Item::Heal => cast_heal(inventory_id, game, objects),
            Item::FireRing => cast_fire_ring(inventory_id, fov, game, objects),
        };
        match outcome {
            UseResult::UsedUp => {
                game.inventory.remove(inventory_id);
            },
            UseResult::Cancelled => {
                game.messages.add(String::from_str("Cancelled"), Tint::White);
            },
        }
    } else {
        let text = String::from_str("The ").concat(game.inventory[inventory_id].name.as_str()).concat(" cannot be used");
        game.messages.add(text, Tint::White);
    }
}

} // verus!
