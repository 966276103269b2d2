use vstd::prelude::*;

use crate::game_map::{create_horizontal_passage, create_room, create_vertical_passage, GameMap};
use crate::movement::{blocked_at, is_blocked};
use crate::object::{Ai, DeathCallback, Fighter, Item, Object, ObjectView};
use crate::rng::{random_bool, random_range, random_ratio};
use crate::room::Room;
use crate::tile::Tile;
use crate::tint::Tint;

verus! {

/// How many random spots are tried for one item before it is left out.
pub const ITEM_SPOT_TRIES: u32 = 100;

/// The knobs of dungeon generation.
#[derive(Clone, Copy, Debug, PartialEq, Eq, Structural)]
pub struct GenParams {
    pub width: i32,
    pub height: i32,
    pub max_rooms: i32,
    pub room_min_size: i32,
    pub room_max_size: i32,
    pub max_room_monsters: i32,
    pub max_room_items: i32,
}

/// Why a dungeon could not be made.
#[derive(Clone, Copy, Debug, PartialEq, Eq, Structural)]
pub enum GenError {
    /// The room sizes do not fit the map, or a spawn count is negative.
    InvalidParams,
    /// No room could be placed.
    NoRoom,
    /// No tile was found for a new teleport.
    NoTeleportSpot,
}

/// A generated level: the map and the rooms carved into it.
pub struct Dungeon {
    pub map: GameMap,
    pub rooms: Vec<Room>,
}

impl GenParams {
    /// Sizes under which every room fits inside the map and has a cell inside it.
    pub open spec fn sizes_ok(self) -> bool {
        &&& 2 <= self.room_min_size <= self.room_max_size
        &&& self.room_max_size < self.width
        &&& self.room_max_size < self.height
        &&& 0 <= self.max_room_monsters < i32::MAX
        &&& 0 <= self.max_room_items < i32::MAX
    }

    pub open spec fn valid(self) -> bool {
        self.sizes_ok() && self.max_rooms >= 1
    }

    /// A room as the generator may place it: inside the map, with sides
    /// within the size range.
    pub open spec fn fits(self, r: Room) -> bool {
        &&& 0 <= r.x1
        &&& r.x2 < self.width
        &&& 0 <= r.y1
        &&& r.y2 < self.height
        &&& self.room_min_size <= r.x2 - r.x1 <= self.room_max_size
        &&& self.room_min_size <= r.y2 - r.y1 <= self.room_max_size
    }

    /// The standard dungeon: 80 by 43 cells, up to 30 rooms of
    /// side 5 to 20, up to two monsters and one item per room.
    pub fn standard() -> (p: GenParams)
        ensures
            p == (GenParams {
                width: 80,
                height: 43,
                max_rooms: 30,
                room_min_size: 5,
                room_max_size: 20,
                max_room_monsters: 2,
                max_room_items: 1,
            }),
            p.valid(),
    {
        GenParams {
            width: 80,
            height: 43,
            max_rooms: 30,
            room_min_size: 5,
            room_max_size: 20,
            max_room_monsters: 2,
            max_room_items: 1,
        }
    }
}

pub open spec fn goblin_at(x: i32, y: i32) -> ObjectView {
    ObjectView {
        x,
        y,
        glyph: 'G',
        color: Tint::DesaturatedGreen,
        name: "goblin"@,
        blocks: true,
        alive: true,
        fighter: Some(Fighter { max_hp: 9, hp: 9, defense: 2, power: 3, on_death: DeathCallback::Monster }),
        ai: Some(Ai::Basic),
        item: None,
    }
}

pub open spec fn drudge_at(x: i32, y: i32) -> ObjectView {
    ObjectView {
        x,
        y,
        glyph: 'D',
        color: Tint::DarkerRed,
        name: "drudge"@,
        blocks: true,
        alive: true,
        fighter: Some(Fighter { max_hp: 3, hp: 3, defense: 1, power: 2, on_death: DeathCallback::Monster }),
        ai: Some(Ai::Basic),
        item: None,
    }
}

pub open spec fn white_rabbit_at(x: i32, y: i32) -> ObjectView {
    ObjectView {
        x,
        y,
        glyph: 'W',
        color: Tint::White,
        name: "white rabbit"@,
        blocks: true,
        alive: true,
        fighter: Some(Fighter { max_hp: 50, hp: 50, defense: 2, power: 5, on_death: DeathCallback::Monster }),
        ai: Some(Ai::Basic),
        item: None,
    }
}

pub open spec fn healing_potion_at(x: i32, y: i32) -> ObjectView {
    ObjectView {
        x,
        y,
        glyph: '!',
        color: Tint::Violet,
        name: "healing potion"@,
        blocks: false,
        alive: false,
        fighter: None,
        ai: None,
        item: Some(Item::Heal),
    }
}

pub open spec fn fire_ring_spell_at(x: i32, y: i32) -> ObjectView {
    ObjectView {
        x,
        y,
        glyph: '#',
        color: Tint::LightYellow,
        name: "Fire ring spell"@,
        blocks: false,
        alive: false,
        fighter: None,
        ai: None,
        item: Some(Item::FireRing),
    }
}

/// The scroll placed next to the player's starting cell.
pub open spec fn start_scroll_at(x: i32, y: i32) -> ObjectView {
    ObjectView { name: "Fire Ring Scroll"@, ..fire_ring_spell_at(x, y) }
}

/// One of the monsters or items that rooms are stocked with.
pub open spec fn spawn_kind(o: ObjectView) -> bool {
    ||| o == goblin_at(o.x, o.y)
    ||| o == drudge_at(o.x, o.y)
    ||| o == white_rabbit_at(o.x, o.y)
    ||| o == healing_potion_at(o.x, o.y)
    ||| o == fire_ring_spell_at(o.x, o.y)
}

/// Object `i` was stocked into `room`: it is one of the spawn kinds, on an
/// open tile inside the room, and if it blocks, no earlier blocking object
/// shares its tile.
pub open spec fn stocked(map: GameMap, room: Room, objects: Seq<Object>, i: int) -> bool {
    let o = objects[i];
    &&& room.interior(o.x as int, o.y as int)
    &&& spawn_kind(o@)
    &&& !map.cell(o.x as int, o.y as int).blocked
    &&& forall|j: int| 0 <= j < i ==> !(#[trigger] objects[j].blocks && objects[j].x == o.x && objects[j].y == o.y)
}

/// One of the monsters that rooms are stocked with.
pub open spec fn monster_kind(o: ObjectView) -> bool {
    ||| o == goblin_at(o.x, o.y)
    ||| o == drudge_at(o.x, o.y)
    ||| o == white_rabbit_at(o.x, o.y)
}

/// One of the items that rooms are stocked with.
pub open spec fn item_kind(o: ObjectView) -> bool {
    o == healing_potion_at(o.x, o.y) || o == fire_ring_spell_at(o.x, o.y)
}

/// Slots `n0` to `m - 1` hold at most `max_room_monsters` monsters, and the
/// slots from `m` on hold at most `max_room_items` items.
pub open spec fn monsters_then_items(objects: Seq<Object>, n0: int, m: int, params: GenParams) -> bool {
    &&& n0 <= m <= objects.len()
    &&& m - n0 <= params.max_room_monsters
    &&& objects.len() - m <= params.max_room_items
    &&& forall|i: int| n0 <= i < m ==> monster_kind((#[trigger] objects[i])@)
    &&& forall|i: int| m <= i < objects.len() ==> item_kind((#[trigger] objects[i])@)
}

/// The monster a spawn makes: a goblin, else a drudge, else a white rabbit.
pub open spec fn monster_at(x: i32, y: i32, goblin: bool, drudge: bool) -> ObjectView {
    if goblin {
        goblin_at(x, y)
    } else if drudge {
        drudge_at(x, y)
    } else {
        white_rabbit_at(x, y)
    }
}

/// The item a spawn makes: a healing potion, else a fire ring spell.
pub open spec fn item_at(x: i32, y: i32, potion: bool) -> ObjectView {
    if potion {
        healing_potion_at(x, y)
    } else {
        fire_ring_spell_at(x, y)
    }
}

/// `after` is `before` with `o` appended.
pub open spec fn appended(before: Seq<Object>, after: Seq<Object>, o: ObjectView) -> bool {
    &&& after.len() == before.len() + 1
    &&& forall|j: int| 0 <= j < before.len() ==> after[j] == before[j]
    &&& after.last()@ == o
}

proof fn lemma_stocked_prefix(map: GameMap, room: Room, s1: Seq<Object>, s2: Seq<Object>, i: int)
    requires
        0 <= i < s1.len(),
        i < s2.len(),
        forall|j: int| 0 <= j <= i ==> s1[j] == s2[j],
        stocked(map, room, s1, i),
    ensures
        stocked(map, room, s2, i),
{
    assert forall|j: int| 0 <= j < i implies !(#[trigger] s2[j].blocks && s2[j].x == s2[i].x && s2[j].y == s2[i].y
        && s2[i].blocks) by {}
}

/// The rooms of `rooms` pairwise do not overlap.
pub open spec fn apart(rooms: Seq<Room>) -> bool {
    forall|i: int, j: int|
        0 <= i < rooms.len() && 0 <= j < rooms.len() && i != j ==> !(#[trigger] rooms[i]).overlaps(
            #[trigger] rooms[j],
        )
}

/// Every cell strictly inside a room of `rooms` is open on `map`.
pub open spec fn rooms_open(map: GameMap, rooms: Seq<Room>) -> bool {
    forall|i: int, x: int, y: int| 0 <= i < rooms.len() && #[trigger] rooms[i].interior(x, y) ==> !map.cell(x, y).blocked
}

/// `(x, y)` is the center of a room of `rooms`.
pub open spec fn room_center(rooms: Seq<Room>, x: int, y: int) -> bool {
    exists|i: int| 0 <= i < rooms.len() && (#[trigger] rooms[i]).center_x() == x && rooms[i].center_y() == y
}

/// `v` lies between `a` and `b`, both included.
pub open spec fn between(v: int, a: int, b: int) -> bool {
    a <= v <= b || b <= v <= a
}

/// `(x, y)` lies on the L-shaped corridor from the center of `prev` to that
/// of `next`: horizontal then vertical when `h_first`, else vertical then
/// horizontal.
pub open spec fn on_corridor(prev: Room, next: Room, h_first: bool, x: int, y: int) -> bool {
    let px = prev.center_x();
    let py = prev.center_y();
    let nx = next.center_x();
    let ny = next.center_y();
    if h_first {
        (y == py && between(x, px, nx)) || (x == nx && between(y, py, ny))
    } else {
        (x == px && between(y, py, ny)) || (y == ny && between(x, px, nx))
    }
}

/// `(x, y)` is carved by the first `n` rooms: it lies inside one of them, or
/// on the corridor that joins one of them to the room before it.
pub open spec fn carved(rooms: Seq<Room>, h_first: Seq<bool>, n: int, x: int, y: int) -> bool
    decreases n,
{
    if n <= 0 {
        false
    } else {
        ||| carved(rooms, h_first, n - 1, x, y)
        ||| rooms[n - 1].interior(x, y)
        ||| (n >= 2 && on_corridor(rooms[n - 2], rooms[n - 1], h_first[n - 1], x, y))
    }
}

/// Every cell of `map` is as carving `rooms` with corridors turning as
/// `h_first` says leaves it: the border is perimeter, carved cells are floor
/// (or the teleport), and all other cells are walls.
pub open spec fn laid_out(map: GameMap, rooms: Seq<Room>, h_first: Seq<bool>) -> bool {
    &&& h_first.len() == rooms.len()
    &&& forall|x: int, y: int| map.in_bounds(x, y) ==> #[trigger] map.cell(x, y) == (if map.on_border(x, y) {
        Tile::spec_perimeter()
    } else if carved(rooms, h_first, rooms.len() as int, x, y) {
        if map.cell(x, y).teleport {
            Tile::spec_teleport()
        } else {
            Tile::spec_empty()
        }
    } else {
        Tile::spec_wall()
    })
}

pub(crate) proof fn lemma_room_carved(rooms: Seq<Room>, h_first: Seq<bool>, n: int, i: int, x: int, y: int)
    requires
        0 <= i < n,
        rooms[i].interior(x, y),
    ensures
        carved(rooms, h_first, n, x, y),
    decreases n,
{
    if i < n - 1 {
        lemma_room_carved(rooms, h_first, n - 1, i, x, y);
    }
}

proof fn lemma_carved_prefix(r1: Seq<Room>, h1: Seq<bool>, r2: Seq<Room>, h2: Seq<bool>, n: int, x: int, y: int)
    requires
        n <= r1.len(),
        n <= r2.len(),
        n <= h1.len(),
        n <= h2.len(),
        forall|i: int| 0 <= i < n ==> r1[i] == r2[i] && h1[i] == h2[i],
    ensures
        carved(r1, h1, n, x, y) == carved(r2, h2, n, x, y),
    decreases n,
{
    if n > 0 {
        lemma_carved_prefix(r1, h1, r2, h2, n - 1, x, y);
    }
}

/// What holds of every level that `make_map` makes from `params`, where
/// the entities were `before` and are now `after`.
pub open spec fn generated(params: GenParams, d: Dungeon, before: Seq<Object>, after: Seq<Object>) -> bool {
    let map = d.map;
    let rooms = d.rooms@;
    let n0 = before.len();
    let p = after[0];
    &&& map.wf()
    &&& map.width == params.width
    &&& map.height == params.height
    &&& exists|h_first: Seq<bool>| #[trigger] laid_out(map, rooms, h_first)
    &&& 1 <= rooms.len() <= params.max_rooms
    &&& forall|i: int| 0 <= i < rooms.len() ==> params.fits(#[trigger] rooms[i])
    &&& apart(rooms)
    &&& rooms_open(map, rooms)
    &&& exists|i: int| 0 <= i < rooms.len() && map.sole_teleport_at((#[trigger] rooms[i]).center_x(), rooms[i].center_y())
    &&& after.len() > n0
    &&& room_center(rooms, p.x as int, p.y as int)
    &&& !map.cell(p.x as int, p.y as int).blocked
    &&& p@ == (ObjectView { x: p.x, y: p.y, ..before[0]@ })
    &&& forall|j: int| 1 <= j < n0 ==> after[j] == before[j]
    &&& forall|j: int| n0 <= j < after.len() - 1 ==> {
        &&& map.in_bounds((#[trigger] after[j]).x as int, after[j].y as int)
        &&& spawn_kind(after[j]@)
        &&& !map.cell(after[j].x as int, after[j].y as int).blocked
    }
    &&& after[after.len() - 1]@ == start_scroll_at((p.x + 1) as i32, (p.y + 1) as i32)
    &&& map.in_bounds(p.x + 1, p.y + 1)
}

fn start_scroll(x: i32, y: i32) -> (r: Object)
    ensures
        r@ == start_scroll_at(x, y),
{
    let mut o = Object::new(x, y, '#', "Fire Ring Scroll", Tint::LightYellow, false);
    o.item = Some(Item::FireRing);
    o
}

fn goblin_fighter(x: i32, y: i32) -> (r: Object)
    ensures
        r@ == goblin_at(x, y),
{
    let mut o = Object::new(x, y, 'G', "goblin", Tint::DesaturatedGreen, true);
    o.fighter = Some(Fighter { max_hp: 9, hp: 9, defense: 2, power: 3, on_death: DeathCallback::Monster });
    o.ai = Some(Ai::Basic);
    o.alive = true;
    o
}

fn drudge_fighter(x: i32, y: i32) -> (r: Object)
    ensures
        r@ == drudge_at(x, y),
{
    let mut o = Object::new(x, y, 'D', "drudge", Tint::DarkerRed, true);
    o.fighter = Some(Fighter { max_hp: 3, hp: 3, defense: 1, power: 2, on_death: DeathCallback::Monster });
    o.ai = Some(Ai::Basic);
    o.alive = true;
    o
}

fn white_rabbit(x: i32, y: i32) -> (r: Object)
    ensures
        r@ == white_rabbit_at(x, y),
{
    let mut o = Object::new(x, y, 'W', "white rabbit", Tint::White, true);
    o.fighter = Some(Fighter { max_hp: 50, hp: 50, defense: 2, power: 5, on_death: DeathCallback::Monster });
    o.ai = Some(Ai::Basic);
    o.alive = true;
    o
}

fn healing_potion(x: i32, y: i32) -> (r: Object)
    ensures
        r@ == healing_potion_at(x, y),
{
    let mut o = Object::new(x, y, '!', "healing potion", Tint::Violet, false);
    o.item = Some(Item::Heal);
    o
}

fn fire_ring_spell(x: i32, y: i32) -> (r: Object)
    ensures
        r@ == fire_ring_spell_at(x, y),
{
    let mut o = Object::new(x, y, '#', "Fire ring spell", Tint::LightYellow, false);
    o.item = Some(Item::FireRing);
    o
}

/// Puts a monster at `(x, y)` unless the cell is blocked: a goblin if
/// `goblin`, else a drudge if `drudge`, else a white rabbit.
pub fn spawn_monster(x: i32, y: i32, goblin: bool, drudge: bool, map: &GameMap, objects: &mut Vec<Object>)
    requires
        map.wf(),
    ensures
        if blocked_at(*map, old(objects)@, x as int, y as int) {
            final(objects)@ == old(objects)@
        } else {
            appended(old(objects)@, final(objects)@, monster_at(x, y, goblin, drudge))
        },
{
    if !is_blocked(x, y, map, objects.as_slice()) {
        let monster = if goblin {
            goblin_fighter(x, y)
        } else if drudge {
            drudge_fighter(x, y)
        } else {
            white_rabbit(x, y)
        };
        objects.push(monster);
    }
}

/// Puts an item at `(x, y)` unless the cell is blocked: a healing potion if
/// `potion`, else a fire ring spell.
pub fn spawn_item(x: i32, y: i32, potion: bool, map: &GameMap, objects: &mut Vec<Object>)
    requires
        map.wf(),
    ensures
        if blocked_at(*map, old(objects)@, x as int, y as int) {
            final(objects)@ == old(objects)@
        } else {
            appended(old(objects)@, final(objects)@, item_at(x, y, potion))
        },
{
    if !is_blocked(x, y, map, objects.as_slice()) {
        let item = if potion {
            healing_potion(x, y)
        } else {
            fire_ring_spell(x, y)
        };
        objects.push(item);
    }
}

proof fn lemma_spawn_stocked(map: GameMap, room: Room, before: Seq<Object>, after: Seq<Object>, n0: int)
    requires
        0 <= n0 <= before.len(),
        after.len() == before.len() + 1,
        forall|j: int| 0 <= j < before.len() ==> after[j] == before[j],
        forall|i: int| n0 <= i < before.len() ==> stocked(map, room, before, i),
        room.interior(after.last().x as int, after.last().y as int),
        spawn_kind(after.last()@),
        !blocked_at(map, before, after.last().x as int, after.last().y as int),
    ensures
        forall|i: int| n0 <= i < after.len() ==> stocked(map, room, after, i),
{
    assert forall|i: int| n0 <= i < after.len() implies stocked(map, room, after, i) by {
        if i < before.len() {
            lemma_stocked_prefix(map, room, before, after, i);
        } else {
            let o = after.last();
            assert forall|j: int| 0 <= j < i implies !(#[trigger] after[j].blocks && after[j].x == o.x && after[j].y
                == o.y) by {
                assert(after[j] == before[j]);
                assert(!(before[j].blocks && before[j].x == o.x && before[j].y == o.y));
            }
        }
    }
}

/// Stocks a room with up to `max_room_monsters` monsters (four in five
/// goblins, then drudges and white rabbits evenly) and then up to
/// `max_room_items` items (three in five healing potions, else fire ring
/// spells), each on a random cell inside the room that is open and free of
/// blocking objects.
pub fn place_objects(room: Room, map: &GameMap, objects: &mut Vec<Object>, params: &GenParams)
    requires
        map.wf(),
        0 <= room.x1,
        room.x1 + 2 <= room.x2 < map.width,
        0 <= room.y1,
        room.y1 + 2 <= room.y2 < map.height,
        0 <= params.max_room_monsters < i32::MAX,
        0 <= params.max_room_items < i32::MAX,
    ensures
        old(objects)@.len() <= final(objects)@.len(),
        forall|j: int| 0 <= j < old(objects)@.len() ==> final(objects)@[j] == old(objects)@[j],
        forall|i: int| old(objects)@.len() <= i < final(objects)@.len() ==> stocked(*map, room, final(objects)@, i),
        exists|m: int| #[trigger] monsters_then_items(final(objects)@, old(objects)@.len() as int, m, *params),
{
    let ghost n0 = objects@.len();
    let ghost start = objects@;
    let num_monsters = random_range(0, params.max_room_monsters + 1);
    let mut k: i32 = 0;
    while k < num_monsters
        invariant
            map.wf(),
            0 <= room.x1,
            room.x1 + 2 <= room.x2 < map.width,
            0 <= room.y1,
            room.y1 + 2 <= room.y2 < map.height,
            0 <= k <= num_monsters,
            num_monsters <= params.max_room_monsters,
            0 <= params.max_room_items,
            objects@.len() <= n0 + k,
            objects@.len() >= n0,
            start.len() == n0,
            forall|j: int| 0 <= j < n0 ==> objects@[j] == start[j],
            forall|i: int| n0 <= i < objects@.len() ==> stocked(*map, room, objects@, i),
            monsters_then_items(objects@, n0 as int, objects@.len() as int, *params),
        decreases num_monsters - k,
    {
        let x = random_range(room.x1 + 1, room.x2);
        let y = random_range(room.y1 + 1, room.y2);
        if !is_blocked(x, y, map, objects.as_slice()) {
            let goblin = random_ratio(4, 5);
            let drudge = if goblin { false } else { random_ratio(1, 2) };
            let ghost before = objects@;
            spawn_monster(x, y, goblin, drudge, map, objects);
            proof {
                lemma_spawn_stocked(*map, room, before, objects@, n0 as int);
                assert forall|i: int| n0 <= i < objects@.len() implies monster_kind((#[trigger] objects@[i])@) by {
                    if i < before.len() {
                        assert(objects@[i] == before[i]);
                    }
                }
            }
        }
        k = k + 1;
    }
    let ghost m = objects@.len() as int;
    let num_items = random_range(0, params.max_room_items + 1);
    let mut k: i32 = 0;
    while k < num_items
        invariant
            map.wf(),
            0 <= room.x1,
            room.x1 + 2 <= room.x2 < map.width,
            0 <= room.y1,
            room.y1 + 2 <= room.y2 < map.height,
            0 <= k <= num_items,
            num_items <= params.max_room_items,
            n0 <= m <= objects@.len() <= m + k,
            start.len() == n0,
            forall|j: int| 0 <= j < n0 ==> objects@[j] == start[j],
            forall|i: int| n0 <= i < objects@.len() ==> stocked(*map, room, objects@, i),
            m - n0 <= params.max_room_monsters,
            forall|i: int| n0 <= i < m ==> monster_kind((#[trigger] objects@[i])@),
            forall|i: int| m <= i < objects@.len() ==> item_kind((#[trigger] objects@[i])@),
        decreases num_items - k,
    {
        let mut x: i32 = room.x1 + 1;
        let mut y: i32 = room.y1 + 1;
        let mut found = false;
        let mut tries: u32 = 0;
        while !found && tries < ITEM_SPOT_TRIES
            invariant
                map.wf(),
                room.interior(x as int, y as int),
                tries <= ITEM_SPOT_TRIES,
                room.x1 + 2 <= room.x2,
                room.y1 + 2 <= room.y2,
            decreases ITEM_SPOT_TRIES - tries,
        {
            x = random_range(room.x1 + 1, room.x2);
            y = random_range(room.y1 + 1, room.y2);
            if !is_blocked(x, y, map, objects.as_slice()) {
                found = true;
            }
            tries = tries + 1;
        }
        if found {
            let potion = random_ratio(3, 5);
            let ghost before = objects@;
            spawn_item(x, y, potion, map, objects);
            proof {
                if objects@.len() > before.len() {
                    lemma_spawn_stocked(*map, room, before, objects@, n0 as int);
                }
                assert forall|i: int| n0 <= i < m implies monster_kind((#[trigger] objects@[i])@) by {
                    assert(objects@[i] == before[i]);
                }
                assert forall|i: int| m <= i < objects@.len() implies item_kind((#[trigger] objects@[i])@) by {
                    if i < before.len() {
                        assert(objects@[i] == before[i]);
                    }
                }
            }
        }
        k = k + 1;
    }
    assert(monsters_then_items(objects@, n0 as int, m, *params));
}


impl GenParams {
    pub fn sizes_are_ok(&self) -> (r: bool)
        ensures
            r == self.sizes_ok(),
    {
        2 <= self.room_min_size && self.room_min_size <= self.room_max_size && self.room_max_size < self.width
            && self.room_max_size < self.height && 0 <= self.max_room_monsters && self.max_room_monsters < i32::MAX
            && 0 <= self.max_room_items && self.max_room_items < i32::MAX
    }
}

/// Generates a level: up to `max_rooms` random rooms, each rejected if it
/// overlaps an earlier one, carved and stocked, and joined to the previous
/// room by an L-shaped corridor; the player (slot 0) starts at the center of
/// a random room, a fire ring scroll lies next to the player, and the center
/// of a random room becomes the teleport tile.
pub fn make_map(objects: &mut Vec<Object>, params: &GenParams) -> (r: Result<Dungeon, GenError>)
    requires
        old(objects)@.len() >= 1,
    ensures
        r is Ok <==> params.valid(),
        match r {
            Ok(d) => generated(*params, d, old(objects)@, final(objects)@),
            Err(e) => {
                &&& final(objects)@ == old(objects)@
                &&& e == (if !params.sizes_ok() { GenError::InvalidParams } else { GenError::NoRoom })
            },
        },
{
    if !params.sizes_are_ok() {
        return Err(GenError::InvalidParams);
    }
    if params.max_rooms < 1 {
        return Err(GenError::NoRoom);
    }
    let ghost n0 = objects@.len();
    let ghost start = objects@;
    let width = params.width;
    let height = params.height;
    let mut map = GameMap::new(width, height);
    let mut rooms: Vec<Room> = Vec::new();
    let ghost mut h_first: Seq<bool> = Seq::empty();
    let mut k: i32 = 0;
    while k < params.max_rooms
        invariant
            0 <= k <= params.max_rooms,
            params.valid(),
            width == params.width,
            height == params.height,
            map.wf(),
            map.width == width,
            map.height == height,
            forall|x: int, y: int| map.on_border(x, y) ==> #[trigger] map.cell(x, y) == Tile::spec_perimeter(),
            forall|x: int, y: int| map.in_bounds(x, y) ==> !(#[trigger] map.cell(x, y)).teleport,
            h_first.len() == rooms@.len(),
            forall|x: int, y: int| map.in_bounds(x, y) ==> #[trigger] map.cell(x, y) == (if map.on_border(x, y) {
                Tile::spec_perimeter()
            } else if carved(rooms@, h_first, rooms@.len() as int, x, y) {
                Tile::spec_empty()
            } else {
                Tile::spec_wall()
            }),
            rooms@.len() <= k,
            k > 0 ==> rooms@.len() >= 1,
            forall|i: int| 0 <= i < rooms@.len() ==> params.fits(#[trigger] rooms@[i]),
            apart(rooms@),
            rooms_open(map, rooms@),
            objects@.len() >= n0,
            start.len() == n0,
            n0 >= 1,
            forall|j: int| 0 <= j < n0 ==> objects@[j] == start[j],
            forall|j: int| n0 <= j < objects@.len() ==> {
                &&& map.in_bounds((#[trigger] objects@[j]).x as int, objects@[j].y as int)
                &&& spawn_kind(objects@[j]@)
                &&& !map.cell(objects@[j].x as int, objects@[j].y as int).blocked
            },
        decreases params.max_rooms - k,
    {
        let w = random_range(params.room_min_size, params.room_max_size + 1);
        let h = random_range(params.room_min_size, params.room_max_size + 1);
        let x = random_range(0, width - w);
        let y = random_range(0, height - h);
        let new_room = Room::new(x, y, w, h);
        let mut overlap = false;
        let mut t: usize = 0;
        while t < rooms.len() && !overlap
            invariant
                t <= rooms@.len(),
                t == 0 ==> !overlap,
                !overlap ==> forall|u: int| 0 <= u < t ==> !new_room.overlaps(#[trigger] rooms@[u]),
            decreases rooms@.len() - t,
        {
            if new_room.room_overlaps(&rooms[t]) {
                overlap = true;
            }
            t = t + 1;
        }
        if !overlap {
            let ghost objs0 = objects@;
            let ghost map_s = map;
            let ghost rooms0 = rooms@;
            let ghost h0 = h_first;
            create_room(new_room, &mut map);
            place_objects(new_room, &map, objects, params);
            assert forall|j: int| n0 <= j < objects@.len() implies {
                &&& map.in_bounds((#[trigger] objects@[j]).x as int, objects@[j].y as int)
                &&& spawn_kind(objects@[j]@)
                &&& !map.cell(objects@[j].x as int, objects@[j].y as int).blocked
            } by {
                if j >= objs0.len() {
                    assert(stocked(map, new_room, objects@, j));
                }
            }
            let (new_x, new_y) = new_room.center();
            let mut choice = false;
            if rooms.len() > 0 {
                let (prev_x, prev_y) = rooms[rooms.len() - 1].center();
                if random_bool() {
                    choice = true;
                    create_horizontal_passage(prev_x, new_x, prev_y, &mut map);
                    create_vertical_passage(prev_y, new_y, new_x, &mut map);
                } else {
                    create_vertical_passage(prev_y, new_y, prev_x, &mut map);
                    create_horizontal_passage(prev_x, new_x, new_y, &mut map);
                }
            }
            rooms.push(new_room);
            proof {
                h_first = h_first.push(choice);
                let n = rooms0.len() as int;
                assert forall|x: int, y: int| map.in_bounds(x, y) implies #[trigger] map.cell(x, y) == (if map.on_border(
                    x,
                    y,
                ) {
                    Tile::spec_perimeter()
                } else if carved(rooms@, h_first, rooms@.len() as int, x, y) {
                    Tile::spec_empty()
                } else {
                    Tile::spec_wall()
                }) by {
                    lemma_carved_prefix(rooms0, h0, rooms@, h_first, n, x, y);
                    assert(map_s.cell(x, y) == (if map_s.on_border(x, y) {
                        Tile::spec_perimeter()
                    } else if carved(rooms0, h0, n, x, y) {
                        Tile::spec_empty()
                    } else {
                        Tile::spec_wall()
                    }));
                }
            }
            assert forall|i: int, j: int|
                0 <= i < rooms@.len() && 0 <= j < rooms@.len() && i != j implies !(#[trigger] rooms@[i]).overlaps(
                #[trigger] rooms@[j],
            ) by {}
            assert forall|i: int, x: int, y: int| 0 <= i < rooms@.len() && #[trigger] rooms@[i].interior(x, y) implies !map.cell(
                x,
                y,
            ).blocked by {}
        }
        k = k + 1;
    }
    let player_room = random_range(0, rooms.len() as i32);
    let (px, py) = rooms[player_room as usize].center();
    objects[0].set_pos(px, py);
    let scroll = start_scroll(px + 1, py + 1);
    objects.push(scroll);
    let teleport_room = random_range(0, rooms.len() as i32);
    let (tx, ty) = rooms[teleport_room as usize].center();
    let ghost map0 = map;
    map.set(tx, ty, Tile::teleport());
    let d = Dungeon { map, rooms };
    proof {
        lemma_room_carved(d.rooms@, h_first, d.rooms@.len() as int, teleport_room as int, tx as int, ty as int);
        assert(laid_out(d.map, d.rooms@, h_first));
    }
    assert(rooms_open(d.map, d.rooms@)) by {
        assert forall|i: int, x: int, y: int| 0 <= i < d.rooms@.len() && #[trigger] d.rooms@[i].interior(x, y) implies !d.map.cell(
            x,
            y,
        ).blocked by {}
    }
    assert(room_center(d.rooms@, px as int, py as int));
    assert(!map0.cell(px as int, py as int).blocked) by {
        assert(d.rooms@[player_room as int].interior(px as int, py as int));
    }
    assert forall|j: int| n0 <= j < objects@.len() - 1 implies {
        &&& d.map.in_bounds((#[trigger] objects@[j]).x as int, objects@[j].y as int)
        &&& spawn_kind(objects@[j]@)
        &&& !d.map.cell(objects@[j].x as int, objects@[j].y as int).blocked
    } by {}
    Ok(d)
}

} // verus!
