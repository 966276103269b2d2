use vstd::prelude::*;

use crate::dungeon::GenError;
use crate::fov::Fov;
use crate::game::Game;
use crate::game_map::{decay_fire, fire_decayed, GameMap};
use crate::items::{pick_item_up, use_item, use_outcome, INVENTORY_CAPACITY};
use crate::object::{Log, Object, ObjectView};
use crate::teleport::{check_teleport, teleport_outcome};
use crate::text::decimal;
use crate::tile::Tile;
use crate::tint::Tint;
use crate::movement::positions_kept;
use crate::turn::{monster_phase_outcome, move_outcome, player_move_or_attack, take_monster_turns, PLAYER};

verus! {

/// Hit points a corpse gives back.
pub const CORPSE_CONSUME_HP: i32 = 2;

/// One command of the player, as the input layer decodes it.
#[derive(Clone, Copy, Debug, PartialEq, Eq, Structural)]
pub enum Command {
    MoveUp,
    MoveDown,
    MoveLeft,
    MoveRight,
    PickUp,
    /// The inventory was shown and nothing was chosen.
    OpenInventory,
    UseInventorySlot(usize),
    ToggleFullscreen,
    Quit,
    Unknown,
}

/// What the player's command amounted to this tick.
#[derive(Clone, Copy, Debug, PartialEq, Eq, Structural)]
pub enum PlayerAction {
    TookTurn,
    DidntTakeTurn,
    Exit,
}

/// The step a movement command makes.
pub open spec fn step_of(cmd: Command) -> (int, int) {
    match cmd {
        Command::MoveUp => (0, -1),
        Command::MoveDown => (0, 1),
        Command::MoveLeft => (-1, 0),
        Command::MoveRight => (1, 0),
        _ => (0, 0),
    }
}

pub open spec fn is_move(cmd: Command) -> bool {
    cmd is MoveUp || cmd is MoveDown || cmd is MoveLeft || cmd is MoveRight
}

/// Quitting exits; a move by a living player takes a turn; anything else,
/// or anything from a dead player, takes none.
pub open spec fn action_for(cmd: Command, alive: bool) -> PlayerAction {
    if cmd is Quit {
        PlayerAction::Exit
    } else if is_move(cmd) && alive {
        PlayerAction::TookTurn
    } else {
        PlayerAction::DidntTakeTurn
    }
}

/// Object `t` is the first item, besides the player, lying at `(x, y)`.
pub open spec fn first_item_at(objects: Seq<Object>, t: int, x: int, y: int) -> bool {
    &&& 1 <= t < objects.len()
    &&& item_at(objects, t, x, y)
    &&& forall|j: int| 1 <= j < t ==> !#[trigger] item_at(objects, j, x, y)
}

pub open spec fn item_at(objects: Seq<Object>, j: int, x: int, y: int) -> bool {
    objects[j].item is Some && objects[j].x == x && objects[j].y == y
}

/// What picking up at the player's cell does to the entities, the log and
/// the inventory.
pub open spec fn pickup_outcome(
    objs0: Seq<Object>,
    log0: Log,
    inv0: Seq<Object>,
    objs1: Seq<Object>,
    log1: Log,
    inv1: Seq<Object>,
) -> bool {
    let p = objs0[0];
    &&& forall|t: int| #[trigger] first_item_at(objs0, t, p.x as int, p.y as int) ==> if inv0.len() >= INVENTORY_CAPACITY {
        &&& objs1 == objs0
        &&& inv1 == inv0
        &&& log1 == log0.push(("Your inventory is full, cannot pick up "@ + objs0[t].name@, Tint::Red))
    } else {
        &&& objs1 == objs0.update(t, objs0.last()).drop_last()
        &&& inv1 == inv0.push(objs0[t])
        &&& log1 == log0.push(("You picked up a "@ + objs0[t].name@ + "!"@, Tint::Green))
    }
    &&& (forall|j: int| 1 <= j < objs0.len() ==> !#[trigger] item_at(objs0, j, p.x as int, p.y as int)) ==> {
        &&& objs1 == objs0
        &&& inv1 == inv0
        &&& log1 == log0
    }
}

/// What eating a corpse at the player's cell does: the player regains
/// `CORPSE_CONSUME_HP`, the cell loses its corpse, and every other object
/// there is drawn as eaten.
pub open spec fn corpse_outcome(
    map0: GameMap,
    objs1: Seq<Object>,
    log1: Log,
    objs2: Seq<Object>,
    map2: GameMap,
    log2: Log,
) -> bool {
    let p = objs1[0];
    let x = p.x as int;
    let y = p.y as int;
    if map0.in_bounds(x, y) && map0.cell(x, y).has_corpse {
        &&& objs2.len() == objs1.len()
        &&& objs2[0]@ == (ObjectView {
            fighter: match p.fighter {
                Some(f) => Some(f.healed(CORPSE_CONSUME_HP as int)),
                None => None,
            },
            ..p@
        })
        &&& forall|j: int| 1 <= j < objs1.len() ==> (#[trigger] objs2[j])@ == (if objs1[j].x == x && objs1[j].y == y {
            ObjectView { glyph: '_', ..objs1[j]@ }
        } else {
            objs1[j]@
        })
        &&& map2.wf()
        &&& map2.same_size(map0)
        &&& forall|i: int, j: int| map0.in_bounds(i, j) ==> #[trigger] map2.cell(i, j) == (if i == x && j == y {
            Tile { has_corpse: false, ..map0.cell(i, j) }
        } else {
            map0.cell(i, j)
        })
        &&& log2 == log1.push(
            ("You consumed a corpse and gained "@ + decimal(CORPSE_CONSUME_HP as int) + " HP"@, Tint::LightViolet),
        )
    } else {
        objs2 == objs1 && map2 == map0 && log2 == log1
    }
}

/// Picks up the first item at the player's cell, then eats a corpse lying there.
pub fn pick_up(game: &mut Game, objects: &mut Vec<Object>)
    requires
        old(objects)@.len() >= 1,
        old(game).map.wf(),
    ensures
        final(game).map.wf(),
        final(objects)@.len() >= 1,
        positions_kept(old(objects)@, final(objects)@),
        exists|objs1: Seq<Object>, log1: Log| {
            &&& #[trigger] pickup_outcome(
                old(objects)@,
                old(game).messages@,
                old(game).inventory@,
                objs1,
                log1,
                final(game).inventory@,
            )
            &&& corpse_outcome(old(game).map, objs1, log1, final(objects)@, final(game).map, final(game).messages@)
        },
{
    let (px, py) = objects[PLAYER].pos();
    let mut found: Option<usize> = None;
    let mut i: usize = 1;
    while i < objects.len() && found.is_none()
        invariant
            1 <= i <= objects@.len(),
            px == objects@[0].x,
            py == objects@[0].y,
            found matches Some(t) ==> first_item_at(objects@, t as int, px as int, py as int),
            found is None ==> forall|j: int| 1 <= j < i ==> !#[trigger] item_at(objects@, j, px as int, py as int),
        decreases objects@.len() - i,
    {
        if objects[i].item.is_some() && objects[i].x == px && objects[i].y == py {
            found = Some(i);
        }
        i = i + 1;
    }
    let ghost objs0 = objects@;
    if let Some(t) = found {
        pick_item_up(t, game, objects);
        proof {
            assert forall|u: int| #[trigger] first_item_at(objs0, u, px as int, py as int) implies u == t by {}
        }
    }
    let ghost objs1 = objects@;
    let ghost log1 = game.messages@;
    if game.map.contains(px, py) && game.map.get(px, py).has_corpse {
        objects[PLAYER].consume_corpse(CORPSE_CONSUME_HP, game);
        let t = game.map.get(px, py);
        game.map.set(px, py, Tile { has_corpse: false, ..t });
        let ghost objs_c = objects@;
        let mut k: usize = 1;
        while k < objects.len()
            invariant
                1 <= k <= objects@.len(),
                objs_c.len() >= 1,
                objects@.len() == objs_c.len(),
                objects@[0] == objs_c[0],
                forall|j: int| 1 <= j < objects@.len() ==> (#[trigger] objects@[j])@ == (if j < k && objs_c[j].x == px
                    && objs_c[j].y == py {
                    ObjectView { glyph: '_', ..objs_c[j]@ }
                } else {
                    objs_c[j]@
                }),
            decreases objects@.len() - k,
        {
            if objects[k].x == px && objects[k].y == py {
                objects[k].glyph = '_';
            }
            k = k + 1;
        }
    }
    assert(pickup_outcome(objs0, old(game).messages@, old(game).inventory@, objs1, log1, game.inventory@));
}

/// What one command of the player does to the entities, the map, the log
/// and the inventory.
pub open spec fn command_outcome(
    cmd: Command,
    fov: Fov,
    objs0: Seq<Object>,
    map0: GameMap,
    log0: Log,
    inv0: Seq<Object>,
    objs1: Seq<Object>,
    map1: GameMap,
    log1: Log,
    inv1: Seq<Object>,
) -> bool {
    let alive = objs0[0].alive;
    let unchanged = objs1 == objs0 && map1 == map0 && log1 == log0 && inv1 == inv0;
    &&& (!alive || cmd is Quit || cmd is ToggleFullscreen || cmd is Unknown || cmd is OpenInventory)
        ==> unchanged
    &&& (alive && is_move(cmd)) ==> {
        &&& inv1 == inv0
        &&& move_outcome(step_of(cmd).0, step_of(cmd).1, objs0, map0, log0, objs1, map1, log1)
    }
    &&& (alive && cmd is PickUp) ==> exists|objs_h: Seq<Object>, log_h: Log| {
        &&& #[trigger] pickup_outcome(objs0, log0, inv0, objs_h, log_h, inv1)
        &&& corpse_outcome(map0, objs_h, log_h, objs1, map1, log1)
    }
    &&& alive ==> (cmd matches Command::UseInventorySlot(i) ==> if i < inv0.len() {
        use_outcome(i as int, fov, objs0, map0, log0, inv0, objs1, map1, log1, inv1)
    } else {
        unchanged
    })
}

/// Carries out one command of the player and says what it amounted to.
/// A dead player can only quit or toggle the display.
pub fn handle_command(cmd: Command, fov: &Fov, game: &mut Game, objects: &mut Vec<Object>) -> (r: PlayerAction)
    requires
        old(objects)@.len() >= 1,
        old(game).map.wf(),
    ensures
        r == action_for(cmd, old(objects)@[0].alive),
        final(game).map.wf(),
        final(objects)@.len() >= 1,
        !(r is TookTurn) ==> positions_kept(old(objects)@, final(objects)@),
        command_outcome(
            cmd,
            *fov,
            old(objects)@,
            old(game).map,
            old(game).messages@,
            old(game).inventory@,
            final(objects)@,
            final(game).map,
            final(game).messages@,
            final(game).inventory@,
        ),
{
    let alive = objects[PLAYER].alive;
    match cmd {
        Command::Quit => PlayerAction::Exit,
        Command::MoveUp | Command::MoveDown | Command::MoveLeft | Command::MoveRight => {
            if !alive {
                return PlayerAction::DidntTakeTurn;
            }
            let (dx, dy): (i32, i32) = match cmd {
                Command::MoveUp => (0, -1),
                Command::MoveDown => (0, 1),
                Command::MoveLeft => (-1, 0),
                _ => (1, 0),
            };
            player_move_or_attack(dx, dy, game, objects.as_mut_slice());
            PlayerAction::TookTurn
        },
        Command::PickUp => {
            if alive {
                pick_up(game, objects);
            }
            PlayerAction::DidntTakeTurn
        },
        Command::UseInventorySlot(i) => {
            if alive && i < game.inventory.len() {
                use_item(i, fov, game, objects.as_mut_slice());
            }
            PlayerAction::DidntTakeTurn
        },
        _ => PlayerAction::DidntTakeTurn,
    }
}

/// The player as the tick leaves it before the teleport check: drawn as
/// `@` again while alive.
pub open spec fn redrawn(p: Object) -> ObjectView {
    if p.alive {
        ObjectView { glyph: '@', ..p@ }
    } else {
        p@
    }
}

/// How a tick ends after the monsters' phase, from the map `map_b` and the
/// redrawn player `p_b`, by the tick's result `r`: on success, the teleport check (to `map_c`) and one
/// tick of fire decay; on failure, the player stood on the teleport tile and
/// the map and the player are left as they were.
pub open spec fn tick_end(
    r: Result<PlayerAction, GenError>,
    map_b: GameMap,
    p_b: ObjectView,
    map_c: GameMap,
    map_f: GameMap,
    p_f: ObjectView,
) -> bool {
    if r is Ok {
        teleport_outcome(map_b, p_b, map_c, p_f) && fire_decayed(map_c, map_f)
    } else {
        &&& map_f == map_b
        &&& p_f == p_b
        &&& map_b.in_bounds(p_b.x as int, p_b.y as int)
        &&& map_b.cell(p_b.x as int, p_b.y as int).teleport
    }
}

/// One game tick: the player's command, then, if the player took a turn and
/// lives, the monsters' turns; then the teleport check and one tick of fire
/// decay. Quitting ends the tick at once. A teleport that finds no free
/// cell fails the tick with the map as it was before the check.
pub fn tick(cmd: Command, fov: &Fov, game: &mut Game, objects: &mut Vec<Object>) -> (r: Result<PlayerAction, GenError>)
    requires
        old(objects)@.len() >= 1,
        old(game).map.wf(),
    ensures
        final(game).map.wf(),
        final(objects)@.len() >= 1,
        r matches Ok(a) ==> a == action_for(cmd, old(objects)@[0].alive),
        !(action_for(cmd, old(objects)@[0].alive) is TookTurn) ==> positions_kept(old(objects)@, final(objects)@),
        r is Err ==> r == Err::<PlayerAction, GenError>(GenError::NoTeleportSpot),
        !(cmd is Quit) ==> exists|
            objs_a: Seq<Object>,
            map_a: GameMap,
            log_a: Log,
            objs_b: Seq<Object>,
            map_b: GameMap,
            map_c: GameMap,
        | {
            &&& #[trigger] command_outcome(
                cmd,
                *fov,
                old(objects)@,
                old(game).map,
                old(game).messages@,
                old(game).inventory@,
                objs_a,
                map_a,
                log_a,
                final(game).inventory@,
            )
            &&& if objs_a[0].alive && action_for(cmd, old(objects)@[0].alive) is TookTurn {
                monster_phase_outcome(*fov, objs_a, map_a, log_a, objs_b, map_b, final(game).messages@)
            } else {
                objs_b == objs_a && map_b == map_a && final(game).messages@ == log_a
            }
            &&& final(objects)@.len() == objs_b.len()
            &&& forall|j: int| 1 <= j < objs_b.len() ==> final(objects)@[j] == objs_b[j]
            &&& #[trigger] tick_end(r, map_b, redrawn(objs_b[0]), map_c, final(game).map, final(objects)@[0]@)
        },
        cmd is Quit ==> r == Ok::<PlayerAction, GenError>(PlayerAction::Exit) && final(objects)@ == old(objects)@
            && final(game).map == old(game).map,
        (cmd is OpenInventory || cmd is ToggleFullscreen || cmd is Unknown || (!old(objects)@[0].alive && !(cmd is Quit)))
            ==> final(objects)@.len() == old(objects)@.len() && forall|j: int|
            1 <= j < old(objects)@.len() ==> final(objects)@[j] == old(objects)@[j],
{
    let action = handle_command(cmd, fov, game, objects);
    if action == PlayerAction::Exit {
        return Ok(action);
    }
    let ghost objs_a = objects@;
    let ghost map_a = game.map;
    let ghost log_a = game.messages@;
    if objects[PLAYER].alive && action == PlayerAction::TookTurn {
        take_monster_turns(fov, game, objects.as_mut_slice());
    }
    let ghost objs_b = objects@;
    let ghost map_b = game.map;
    assert(if objs_a[0].alive && action is TookTurn {
        monster_phase_outcome(*fov, objs_a, map_a, log_a, objs_b, map_b, game.messages@)
    } else {
        objs_b == objs_a && map_b == map_a && game.messages@ == log_a
    });
    if objects[PLAYER].alive {
        objects[PLAYER].glyph = '@';
    }
    match check_teleport(&mut game.map, &mut objects[PLAYER]) {
        Ok(()) => {},
        Err(e) => {
            assert(command_outcome(
                cmd,
                *fov,
                old(objects)@,
                old(game).map,
                old(game).messages@,
                old(game).inventory@,
                objs_a,
                map_a,
                log_a,
                game.inventory@,
            ));
            let r: Result<PlayerAction, GenError> = Err(e);
            assert(tick_end(r, map_b, redrawn(objs_b[0]), map_b, game.map, objects@[0]@));
            return r;
        },
    }
    let ghost map_c = game.map;
    decay_fire(&mut game.map);
    let r: Result<PlayerAction, GenError> = Ok(action);
    assert(tick_end(r, map_b, redrawn(objs_b[0]), map_c, game.map, objects@[0]@));
    assert(command_outcome(
        cmd,
        *fov,
        old(objects)@,
        old(game).map,
        old(game).messages@,
        old(game).inventory@,
        objs_a,
        map_a,
        log_a,
        game.inventory@,
    ));
    r
}

} // verus!
