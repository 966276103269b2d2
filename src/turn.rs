use vstd::prelude::*;

use crate::fov::Fov;
use crate::game::Game;
use crate::game_map::GameMap;
use crate::movement::{blocked_at, move_by, move_towards, moved_to, mut_two, others_kept, step_toward};
use crate::object::{attack_outcome, dist_sq, hit_outcome, Log, Object};
use crate::text::{decimal, push_int};
use crate::tile::{Fire, Tile};
use crate::tint::Tint;
use vstd::string::*;

verus! {

/// The slot of the player in the entity list.
pub const PLAYER: usize = 0;

/// Object `j`, other than the player, is a fighter standing at `(x, y)`.
pub open spec fn fighter_at(objects: Seq<Object>, j: int, x: int, y: int) -> bool {
    objects[j].fighter is Some && objects[j].x == x && objects[j].y == y
}

/// Object `t` is the first fighter besides the player at `(x, y)`.
pub open spec fn first_target(objects: Seq<Object>, t: int, x: int, y: int) -> bool {
    &&& 1 <= t < objects.len()
    &&& fighter_at(objects, t, x, y)
    &&& forall|j: int| 1 <= j < t ==> !#[trigger] fighter_at(objects, j, x, y)
}

/// No fighter besides the player stands at `(x, y)`.
pub open spec fn no_target(objects: Seq<Object>, x: int, y: int) -> bool {
    forall|j: int| 1 <= j < objects.len() ==> !#[trigger] fighter_at(objects, j, x, y)
}

/// What the player's step by `(dx, dy)` does: onto a fighter, an attack on
/// the first one there; else a move, unless the cell is blocked.
pub open spec fn move_outcome(
    dx: int,
    dy: int,
    objs0: Seq<Object>,
    map0: GameMap,
    log0: Log,
    objs1: Seq<Object>,
    map1: GameMap,
    log1: Log,
) -> bool {
    let p = objs0[0];
    let nx = p.x + dx;
    let ny = p.y + dy;
    &&& objs1.len() == objs0.len()
    &&& forall|t: int| #[trigger] first_target(objs0, t, nx, ny) ==> {
        &&& others_kept(objs0, objs1, t)
        &&& attack_outcome(p@, objs0[t]@, map0, log0, objs1[t]@, map1, log1)
    }
    &&& no_target(objs0, nx, ny) ==> {
        &&& map1 == map0
        &&& log1 == log0
        &&& if blocked_at(map0, objs0, nx, ny) {
            objs1 == objs0
        } else {
            moved_to(objs0, objs1, 0, nx, ny)
        }
    }
}

/// The player steps by `(dx, dy)`: onto a fighter, that is an attack on it;
/// else a move, unless the cell is blocked.
pub fn player_move_or_attack(dx: i32, dy: i32, game: &mut Game, objects: &mut [Object])
    requires
        old(objects)@.len() >= 1,
        old(game).map.wf(),
    ensures
        final(objects)@.len() == old(objects)@.len(),
        final(game).map.wf(),
        final(game).inventory == old(game).inventory,
        move_outcome(
            dx as int,
            dy as int,
            old(objects)@,
            old(game).map,
            old(game).messages@,
            final(objects)@,
            final(game).map,
            final(game).messages@,
        ),
{
    let x: i64 = objects[PLAYER].x as i64 + dx as i64;
    let y: i64 = objects[PLAYER].y as i64 + dy as i64;
    let mut target: Option<usize> = None;
    let mut i: usize = 1;
    while i < objects.len() && target.is_none()
        invariant
            1 <= i <= objects@.len(),
            target matches Some(t) ==> first_target(objects@, t as int, x as int, y as int),
            target is None ==> forall|j: int| 1 <= j < i ==> !#[trigger] fighter_at(objects@, j, x as int, y as int),
        decreases objects@.len() - i,
    {
        if objects[i].fighter.is_some() && objects[i].x as i64 == x && objects[i].y as i64 == y {
            target = Some(i);
        }
        i = i + 1;
    }
    match target {
        Some(t) => {
            let ghost before = objects@;
            let (player, target) = mut_two(PLAYER, t, objects);
            player.attack(target, game);
            proof {
                assert forall|u: int| #[trigger] first_target(before, u, x as int, y as int) implies u == t by {}
            }
        },
        None => {
            move_by(PLAYER, dx, dy, &game.map, objects);
        },
    }
}

/// The tile under `(x, y)` of `after` is that of `before` with its fire put out.
pub open spec fn fire_put_out(before: GameMap, after: GameMap, x: int, y: int) -> bool {
    &&& after.wf()
    &&& after.same_size(before)
    &&& forall|i: int, j: int| before.in_bounds(i, j) ==> #[trigger] after.cell(i, j) == (if i == x && j == y {
        Tile { on_fire: Fire { active: false, ..before.cell(i, j).on_fire }, ..before.cell(i, j) }
    } else {
        before.cell(i, j)
    })
}

/// The damage a burning tile deals to a monster on it: 1 while 1 to 5 ticks
/// of fire remain, else 2.
pub open spec fn fire_damage(ticks: int) -> int {
    if 1 <= ticks <= 5 {
        1
    } else {
        2
    }
}

/// What a monster's action does: unseen, nothing; at a distance of two or
/// more, a step toward the player; next to a living player, an attack.
pub open spec fn act_outcome(
    id: int,
    fov: Fov,
    objs0: Seq<Object>,
    map0: GameMap,
    log0: Log,
    objs1: Seq<Object>,
    map1: GameMap,
    log1: Log,
) -> bool {
    let m = objs0[id];
    let p = objs0[0];
    if !fov.visible(m.x as int, m.y as int) {
        objs1 == objs0 && map1 == map0 && log1 == log0
    } else if dist_sq(m.x as int, m.y as int, p.x as int, p.y as int) >= 4 {
        let nx = m.x + step_toward(p.x - m.x, p.y - m.y);
        let ny = m.y + step_toward(p.y - m.y, p.x - m.x);
        &&& map1 == map0
        &&& log1 == log0
        &&& if blocked_at(map0, objs0, nx, ny) {
            objs1 == objs0
        } else {
            moved_to(objs0, objs1, id, nx, ny)
        }
    } else if p.fighter matches Some(f) && f.hp > 0 {
        &&& others_kept(objs0, objs1, 0)
        &&& attack_outcome(m@, p@, map0, log0, objs1[0]@, map1, log1)
    } else {
        objs1 == objs0 && map1 == map0 && log1 == log0
    }
}

/// What a burning tile does to the monster `id` standing on it: it takes
/// fire damage, the log tells of it, and the fire on that tile goes out.
pub open spec fn singe_outcome(
    id: int,
    objs1: Seq<Object>,
    map1: GameMap,
    log1: Log,
    objs2: Seq<Object>,
    map2: GameMap,
    log2: Log,
) -> bool {
    let m = objs1[id];
    let x = m.x as int;
    let y = m.y as int;
    if map1.in_bounds(x, y) && map1.cell(x, y).on_fire.active {
        let d = fire_damage(map1.cell(x, y).on_fire.ticks as int);
        &&& others_kept(objs1, objs2, id)
        &&& exists|map_h: GameMap, log_h: Log| {
            &&& #[trigger] hit_outcome(m@, d, map1, log1, objs2[id]@, map_h, log_h)
            &&& fire_put_out(map_h, map2, x, y)
            &&& log2 == log_h.push(
                ("Your smoldering fire ring singed the "@ + objs2[id]@.name + " for "@ + decimal(d) + " HP"@, Tint::LightBlue),
            )
        }
    } else {
        objs2 == objs1 && map2 == map1 && log2 == log1
    }
}

fn monster_act(monster_id: usize, fov: &Fov, game: &mut Game, objects: &mut [Object])
    requires
        1 <= monster_id < old(objects)@.len(),
        old(game).map.wf(),
    ensures
        final(game).map.wf(),
        final(game).inventory == old(game).inventory,
        act_outcome(
            monster_id as int,
            *fov,
            old(objects)@,
            old(game).map,
            old(game).messages@,
            final(objects)@,
            final(game).map,
            final(game).messages@,
        ),
{
    let (monster_x, monster_y) = objects[monster_id].pos();
    if fov.is_in_fov(monster_x, monster_y) {
        if objects[monster_id].distance_sq_to(&objects[PLAYER]) >= 4 {
            let (player_x, player_y) = objects[PLAYER].pos();
            move_towards(monster_id, player_x, player_y, &game.map, objects);
        } else if match objects[PLAYER].fighter {
            Some(f) => f.hp > 0,
            None => false,
        } {
            let (monster, player) = mut_two(monster_id, PLAYER, objects);
            monster.attack(player, game);
        }
    }
}

fn monster_singe(monster_id: usize, game: &mut Game, objects: &mut [Object])
    requires
        1 <= monster_id < old(objects)@.len(),
        old(game).map.wf(),
    ensures
        final(game).map.wf(),
        final(game).inventory == old(game).inventory,
        singe_outcome(
            monster_id as int,
            old(objects)@,
            old(game).map,
            old(game).messages@,
            final(objects)@,
            final(game).map,
            final(game).messages@,
        ),
{
    let (x, y) = objects[monster_id].pos();
    if game.map.contains(x, y) {
        let tile = game.map.get(x, y);
        if tile.on_fire.active {
            let fire_damage: i32 = if 1 <= tile.on_fire.ticks && tile.on_fire.ticks <= 5 {
                1
            } else {
                2
            };
            objects[monster_id].take_damage(fire_damage, game);
            let ghost map_h = game.map;
            let ghost log_h = game.messages@;
            let mut text = String::from_str("Your smoldering fire ring singed the ").concat(
                objects[monster_id].name.as_str(),
            );
            text.append(" for ");
            push_int(&mut text, fire_damage as i64);
            text.append(" HP");
            game.messages.add(text, Tint::LightBlue);
            let t = game.map.get(x, y);
            game.map.set(x, y, Tile { on_fire: Fire { active: false, ticks: t.on_fire.ticks }, ..t });
            assert(hit_outcome(
                old(objects)@[monster_id as int]@,
                fire_damage as int,
                old(game).map,
                old(game).messages@,
                objects@[monster_id as int]@,
                map_h,
                log_h,
            ));
        }
    }
}

/// One turn of monster `id`: it acts (see `act_outcome`), then takes fire
/// damage if it then stands on a burning tile (see `singe_outcome`).
pub open spec fn ai_turn_outcome(
    id: int,
    fov: Fov,
    objs0: Seq<Object>,
    map0: GameMap,
    log0: Log,
    objs2: Seq<Object>,
    map2: GameMap,
    log2: Log,
) -> bool {
    if !objs0[id].alive {
        objs2 == objs0 && map2 == map0 && log2 == log0
    } else {
        exists|objs1: Seq<Object>, map1: GameMap, log1: Log| {
            &&& #[trigger] act_outcome(id, fov, objs0, map0, log0, objs1, map1, log1)
            &&& singe_outcome(id, objs1, map1, log1, objs2, map2, log2)
        }
    }
}

/// One slot of the monsters' phase: a living object with an AI takes its
/// turn; any other object is passed over.
pub open spec fn slot_outcome(
    j: int,
    fov: Fov,
    objs0: Seq<Object>,
    map0: GameMap,
    log0: Log,
    objs1: Seq<Object>,
    map1: GameMap,
    log1: Log,
) -> bool {
    if objs0[j].alive && objs0[j].ai is Some {
        ai_turn_outcome(j, fov, objs0, map0, log0, objs1, map1, log1)
    } else {
        objs1 == objs0 && map1 == map0 && log1 == log0
    }
}

/// The state of the game that the monsters' phase reads and writes.
pub type TurnState = (Seq<Object>, GameMap, Log);

/// `trace` lists the states of the monsters' phase: `trace[i + 1]` is what
/// slot `i + 1` makes of `trace[i]`.
pub open spec fn monster_phase(fov: Fov, trace: Seq<TurnState>) -> bool {
    forall|i: int|
        0 <= i < trace.len() - 1 ==> slot_outcome(
            i + 1,
            fov,
            (#[trigger] trace[i]).0,
            trace[i].1,
            trace[i].2,
            trace[i + 1].0,
            trace[i + 1].1,
            trace[i + 1].2,
        )
}

/// The monsters' phase leads from one state to the other, slot by slot.
pub open spec fn monster_phase_outcome(
    fov: Fov,
    objs0: Seq<Object>,
    map0: GameMap,
    log0: Log,
    objs1: Seq<Object>,
    map1: GameMap,
    log1: Log,
) -> bool {
    exists|trace: Seq<TurnState>| {
        &&& trace.len() == objs0.len()
        &&& trace[0] == (objs0, map0, log0)
        &&& trace.last() == (objs1, map1, log1)
        &&& #[trigger] monster_phase(fov, trace)
    }
}

/// One turn of monster `id`: it acts (see `act_outcome`), then takes fire
/// damage if it now stands on a burning tile (see `singe_outcome`).
pub fn ai_take_turn(monster_id: usize, fov: &Fov, game: &mut Game, objects: &mut [Object])
    requires
        1 <= monster_id < old(objects)@.len(),
        old(game).map.wf(),
    ensures
        final(objects)@.len() == old(objects)@.len(),
        final(game).map.wf(),
        final(game).inventory == old(game).inventory,
        forall|j: int| 1 <= j < old(objects)@.len() && j != monster_id ==> final(objects)@[j] == old(objects)@[j],
        ai_turn_outcome(
            monster_id as int,
            *fov,
            old(objects)@,
            old(game).map,
            old(game).messages@,
            final(objects)@,
            final(game).map,
            final(game).messages@,
        ),
{
    if !objects[monster_id].alive {
        return;
    }
    monster_act(monster_id, fov, game, objects);
    monster_singe(monster_id, game, objects);
}

/// Every living monster with an AI takes its turn, in slot order; objects
/// that are dead or have no AI do not act and are left as they were.
pub fn take_monster_turns(fov: &Fov, game: &mut Game, objects: &mut [Object])
    requires
        old(objects)@.len() >= 1,
        old(game).map.wf(),
    ensures
        final(objects)@.len() == old(objects)@.len(),
        final(game).map.wf(),
        final(game).inventory == old(game).inventory,
        forall|j: int|
            1 <= j < old(objects)@.len() && !(old(objects)@[j].alive && old(objects)@[j].ai is Some)
                ==> final(objects)@[j] == old(objects)@[j],
        monster_phase_outcome(
            *fov,
            old(objects)@,
            old(game).map,
            old(game).messages@,
            final(objects)@,
            final(game).map,
            final(game).messages@,
        ),
{
    let ghost mut trace: Seq<TurnState> = seq![(objects@, game.map, game.messages@)];
    let mut id: usize = 1;
    while id < objects.len()
        invariant
            1 <= id <= objects@.len(),
            objects@.len() == old(objects)@.len(),
            game.map.wf(),
            game.inventory == old(game).inventory,
            forall|j: int| id <= j < objects@.len() ==> objects@[j] == old(objects)@[j],
            forall|j: int|
                1 <= j < id && !(old(objects)@[j].alive && old(objects)@[j].ai is Some)
                    ==> objects@[j] == old(objects)@[j],
            trace.len() == id,
            trace[0] == (old(objects)@, old(game).map, old(game).messages@),
            trace.last() == (objects@, game.map, game.messages@),
            monster_phase(*fov, trace),
        decreases objects@.len() - id,
    {
        if objects[id].alive && objects[id].ai.is_some() {
            ai_take_turn(id, fov, game, objects);
        }
        proof {
            let before = trace;
            trace = trace.push((objects@, game.map, game.messages@));
            assert forall|i: int| 0 <= i < trace.len() - 1 implies slot_outcome(
                i + 1,
                *fov,
                (#[trigger] trace[i]).0,
                trace[i].1,
                trace[i].2,
                trace[i + 1].0,
                trace[i + 1].1,
                trace[i + 1].2,
            ) by {}
        }
        id = id + 1;
    }
}

} // verus!
