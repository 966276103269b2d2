use vstd::prelude::*;
use vstd::string::*;

use crate::game::Game;
use crate::game_map::GameMap;
use crate::text::{decimal, push_int};
use crate::tile::Tile;
use crate::tint::Tint;

verus! {

/// What happens to a fighter whose hit points run out.
#[derive(Clone, Copy, Debug, PartialEq, Eq, Structural)]
pub enum DeathCallback {
    Player,
    Monster,
}

/// The combat capability of an entity.
#[derive(Clone, Copy, Debug, PartialEq, Eq, Structural)]
pub struct Fighter {
    pub max_hp: i32,
    pub hp: i32,
    pub defense: i32,
    pub power: i32,
    pub on_death: DeathCallback,
}

/// The behaviour of a monster.
#[derive(Clone, Copy, Debug, PartialEq, Eq, Structural)]
pub enum Ai {
    Basic,
}

/// What an item does when used.
#[derive(Clone, Copy, Debug, PartialEq, Eq, Structural)]
pub enum Item {
    Heal,
    FireRing,
}

/// Hit points after `damage`: a positive amount lowers them, never below zero.
pub open spec fn damaged_hp(hp: int, damage: int) -> int {
    if damage <= 0 {
        hp
    } else if hp - damage < 0 {
        0
    } else {
        hp - damage
    }
}

/// Hit points after gaining `amount`, kept within `[0, max_hp]`.
pub open spec fn healed_hp(hp: int, max_hp: int, amount: int) -> int {
    if hp + amount > max_hp {
        max_hp
    } else if hp + amount < 0 {
        0
    } else {
        hp + amount
    }
}

impl Fighter {
    /// Hit points lie within `[0, max_hp]`.
    pub open spec fn wf(self) -> bool {
        0 <= self.hp <= self.max_hp
    }

    pub open spec fn took_damage(self, damage: int) -> Fighter {
        Fighter { hp: damaged_hp(self.hp as int, damage) as i32, ..self }
    }

    pub open spec fn healed(self, amount: int) -> Fighter {
        Fighter { hp: healed_hp(self.hp as int, self.max_hp as int, amount) as i32, ..self }
    }
}

/// A player, a monster or an item lying on the map.
pub struct Object {
    pub x: i32,
    pub y: i32,
    pub glyph: char,
    pub color: Tint,
    pub name: String,
    pub blocks: bool,
    pub alive: bool,
    pub fighter: Option<Fighter>,
    pub ai: Option<Ai>,
    pub item: Option<Item>,
}

/// The value of an `Object`, with its name as text.
pub struct ObjectView {
    pub x: i32,
    pub y: i32,
    pub glyph: char,
    pub color: Tint,
    pub name: Seq<char>,
    pub blocks: bool,
    pub alive: bool,
    pub fighter: Option<Fighter>,
    pub ai: Option<Ai>,
    pub item: Option<Item>,
}

impl View for Object {
    type V = ObjectView;

    open spec fn view(&self) -> ObjectView {
        ObjectView {
            x: self.x,
            y: self.y,
            glyph: self.glyph,
            color: self.color,
            name: self.name@,
            blocks: self.blocks,
            alive: self.alive,
            fighter: self.fighter,
            ai: self.ai,
            item: self.item,
        }
    }
}

/// The power an entity attacks with: that of its fighter, or zero.
pub open spec fn power_of(o: ObjectView) -> int {
    match o.fighter {
        Some(f) => f.power as int,
        None => 0,
    }
}

/// The defense an entity is attacked against: that of its fighter, or zero.
pub open spec fn defense_of(o: ObjectView) -> int {
    match o.fighter {
        Some(f) => f.defense as int,
        None => 0,
    }
}

/// The damage an attack deals: the attacker's power less the defender's defense.
pub open spec fn damage_of(attacker: ObjectView, defender: ObjectView) -> int {
    power_of(attacker) - defense_of(defender)
}

/// The squared Euclidean distance between two positions.
pub open spec fn dist_sq(x1: int, y1: int, x2: int, y2: int) -> int {
    (x2 - x1) * (x2 - x1) + (y2 - y1) * (y2 - y1)
}

/// A player who died: drawn as remains, nothing else changes.
pub open spec fn player_remains(o: ObjectView) -> ObjectView {
    ObjectView { glyph: '%', color: Tint::DarkRed, ..o }
}

/// A monster that died: an inert, non-blocking corpse named after it.
pub open spec fn monster_remains(o: ObjectView) -> ObjectView {
    ObjectView {
        glyph: '%',
        color: Tint::DarkRed,
        blocks: false,
        fighter: None,
        ai: None,
        name: "remains of "@ + o.name,
        ..o
    }
}

/// What `attack` writes to the log.
pub open spec fn attack_message(attacker: ObjectView, defender: ObjectView) -> (Seq<char>, Tint) {
    let damage = damage_of(attacker, defender);
    if damage > 0 {
        (attacker.name + " attacks "@ + defender.name + " for "@ + decimal(damage) + " hit points"@, Tint::White)
    } else {
        (attacker.name + " attacks "@ + defender.name + " but it has not effect!"@, Tint::White)
    }
}

/// `after` is `before` with a corpse on the tile at `(x, y)`, if that tile is on the map.
pub open spec fn corpse_marked(before: GameMap, after: GameMap, x: int, y: int) -> bool {
    &&& after.wf()
    &&& after.same_size(before)
    &&& forall|i: int, j: int| before.in_bounds(i, j) ==> #[trigger] after.cell(i, j) == (if i == x && j == y {
        Tile { has_corpse: true, ..before.cell(i, j) }
    } else {
        before.cell(i, j)
    })
}

pub type Log = Seq<(Seq<char>, Tint)>;

/// The death transition of kind `kind` on `o`: what `o` becomes, and what the
/// map and the log become.
pub open spec fn death_outcome(
    o: ObjectView,
    kind: DeathCallback,
    map0: GameMap,
    log0: Log,
    after: ObjectView,
    map1: GameMap,
    log1: Log,
) -> bool {
    match kind {
        DeathCallback::Player => {
            &&& after == player_remains(o)
            &&& map1 == map0
            &&& log1 == log0.push(("You Died!!"@, Tint::Red))
        },
        DeathCallback::Monster => {
            &&& after == monster_remains(o)
            &&& corpse_marked(map0, map1, o.x as int, o.y as int)
            &&& log1 == log0.push((o.name + " is dead!"@, Tint::Orange))
        },
    }
}

/// What `o` becomes after taking `damage`: its hit points drop, and it goes
/// through its death transition once they reach zero.
pub open spec fn after_hit(o: ObjectView, damage: int) -> ObjectView {
    match o.fighter {
        None => o,
        Some(f) => {
            let hurt = ObjectView { fighter: Some(f.took_damage(damage)), ..o };
            if damaged_hp(f.hp as int, damage) <= 0 {
                let dead = ObjectView { alive: false, ..hurt };
                match f.on_death {
                    DeathCallback::Player => player_remains(dead),
                    DeathCallback::Monster => monster_remains(dead),
                }
            } else {
                hurt
            }
        },
    }
}

/// `o` has a fighter that `damage` kills.
pub open spec fn killed_by(o: ObjectView, damage: int) -> bool {
    match o.fighter {
        None => false,
        Some(f) => damaged_hp(f.hp as int, damage) <= 0,
    }
}

/// `o` takes `damage`: its hit points drop, and it dies once they reach zero.
pub open spec fn hit_outcome(
    o: ObjectView,
    damage: int,
    map0: GameMap,
    log0: Log,
    after: ObjectView,
    map1: GameMap,
    log1: Log,
) -> bool {
    &&& after == after_hit(o, damage)
    &&& match o.fighter {
        None => map1 == map0 && log1 == log0,
        Some(f) => {
            let hurt = ObjectView { fighter: Some(f.took_damage(damage)), ..o };
            if killed_by(o, damage) {
                death_outcome(ObjectView { alive: false, ..hurt }, f.on_death, map0, log0, after, map1, log1)
            } else {
                map1 == map0 && log1 == log0
            }
        },
    }
}

/// `attacker` attacks `target`: the log tells of it, and the target takes
/// the damage if there is any.
pub open spec fn attack_outcome(
    attacker: ObjectView,
    target: ObjectView,
    map0: GameMap,
    log0: Log,
    after: ObjectView,
    map1: GameMap,
    log1: Log,
) -> bool {
    let d = damage_of(attacker, target);
    let log = log0.push(attack_message(attacker, target));
    if d > 0 {
        hit_outcome(target, d, map0, log, after, map1, log1)
    } else {
        after == target && map1 == map0 && log1 == log
    }
}

impl DeathCallback {
    /// Runs the death transition this tag selects.
    pub fn callback(self, object: &mut Object, game: &mut Game)
        requires
            old(game).map.wf(),
        ensures
            death_outcome(
                old(object)@,
                self,
                old(game).map,
                old(game).messages@,
                final(object)@,
                final(game).map,
                final(game).messages@,
            ),
            final(game).inventory == old(game).inventory,
    {
        match self {
            DeathCallback::Player => player_death(object, game),
            DeathCallback::Monster => monster_death(object, game),
        }
    }
}

/// The player died: the game goes on, with the player drawn as remains.
pub fn player_death(player: &mut Object, game: &mut Game)
    requires
        old(game).map.wf(),
    ensures
        death_outcome(
            old(player)@,
            DeathCallback::Player,
            old(game).map,
            old(game).messages@,
            final(player)@,
            final(game).map,
            final(game).messages@,
        ),
        final(game).inventory == old(game).inventory,
{
    game.messages.add(String::from_str("You Died!!"), Tint::Red);
    player.glyph = '%';
    player.color = Tint::DarkRed;
}

/// A monster died: it becomes an inert corpse and its tile holds a corpse.
pub fn monster_death(monster: &mut Object, game: &mut Game)
    requires
        old(game).map.wf(),
    ensures
        death_outcome(
            old(monster)@,
            DeathCallback::Monster,
            old(game).map,
            old(game).messages@,
            final(monster)@,
            final(game).map,
            final(game).messages@,
        ),
        final(game).inventory == old(game).inventory,
{
    let text = String::from_str(monster.name.as_str()).concat(" is dead!");
    game.messages.add(text, Tint::Orange);
    let remains = String::from_str("remains of ").concat(monster.name.as_str());
    monster.glyph = '%';
    monster.color = Tint::DarkRed;
    monster.blocks = false;
    monster.fighter = None;
    monster.ai = None;
    monster.name = remains;
    let (x, y) = monster.pos();
    if game.map.contains(x, y) {
        let t = game.map.get(x, y);
        game.map.set(x, y, Tile { has_corpse: true, ..t });
    }
}

impl Object {
    pub fn new(x: i32, y: i32, glyph: char, name: &str, color: Tint, blocks: bool) -> (r: Object)
        ensures
            r@ == (ObjectView {
                x,
                y,
                glyph,
                color,
                name: name@,
                blocks,
                alive: false,
                fighter: None,
                ai: None,
                item: None,
            }),
    {
        Object {
            x,
            y,
            glyph,
            color,
            name: String::from_str(name),
            blocks,
            alive: false,
            fighter: None,
            ai: None,
            item: None,
        }
    }

    /// Shifts the object by `(dx, dy)` without any check.
    pub fn move_by(&mut self, dx: i32, dy: i32)
        requires
            i32::MIN <= old(self).x + dx <= i32::MAX,
            i32::MIN <= old(self).y + dy <= i32::MAX,
        ensures
            final(self)@ == (ObjectView { x: (old(self).x + dx) as i32, y: (old(self).y + dy) as i32, ..old(self)@ }),
    {
        self.x = self.x + dx;
        self.y = self.y + dy;
    }

    pub fn pos(&self) -> (r: (i32, i32))
        ensures
            r == (self.x, self.y),
    {
        (self.x, self.y)
    }

    pub fn set_pos(&mut self, x: i32, y: i32)
        ensures
            final(self)@ == (ObjectView { x, y, ..old(self)@ }),
    {
        self.x = x;
        self.y = y;
    }

    /// The squared Euclidean distance to another object.
    pub fn distance_sq_to(&self, other: &Object) -> (r: i128)
        ensures
            r == dist_sq(self.x as int, self.y as int, other.x as int, other.y as int),
    {
        let dx = other.x as i128 - self.x as i128;
        let dy = other.y as i128 - self.y as i128;
        assert(0 <= dx * dx <= 0x1_0000_0000_0000_0000) by (nonlinear_arith)
            requires
                -0x1_0000_0000 <= dx <= 0x1_0000_0000,
        ;
        assert(0 <= dy * dy <= 0x1_0000_0000_0000_0000) by (nonlinear_arith)
            requires
                -0x1_0000_0000 <= dy <= 0x1_0000_0000,
        ;
        dx * dx + dy * dy
    }

    /// The damage this object deals to `target`: its power less the target's defense.
    pub fn attack_damage(&self, target: &Object) -> (r: i64)
        ensures
            r == damage_of(self@, target@),
    {
        let power: i64 = match self.fighter {
            Some(f) => f.power as i64,
            None => 0,
        };
        let defense: i64 = match target.fighter {
            Some(f) => f.defense as i64,
            None => 0,
        };
        power - defense
    }

    /// Raises hit points by `amount`, up to the maximum.
    pub fn heal(&mut self, amount: i32)
        ensures
            final(self)@ == (ObjectView {
                fighter: match old(self).fighter {
                    Some(f) => Some(f.healed(amount as int)),
                    None => None,
                },
                ..old(self)@
            }),
    {
        if let Some(f) = self.fighter {
            let v: i64 = f.hp as i64 + amount as i64;
            let hp: i32 = if v > f.max_hp as i64 {
                f.max_hp
            } else if v < 0 {
                0
            } else {
                v as i32
            };
            self.fighter = Some(Fighter { hp, ..f });
        }
    }

    /// Takes `damage`; a fighter whose hit points reach zero dies.
    pub fn take_damage(&mut self, damage: i32, game: &mut Game)
        requires
            old(game).map.wf(),
        ensures
            hit_outcome(
                old(self)@,
                damage as int,
                old(game).map,
                old(game).messages@,
                final(self)@,
                final(game).map,
                final(game).messages@,
            ),
            final(game).inventory == old(game).inventory,
    {
        if let Some(f) = self.fighter {
            if damage > 0 {
                let rest: i64 = f.hp as i64 - damage as i64;
                let hp: i32 = if rest < 0 { 0 } else { rest as i32 };
                self.fighter = Some(Fighter { hp, ..f });
            }
        }
        if let Some(f) = self.fighter {
            if f.hp <= 0 {
                self.alive = false;
                f.on_death.callback(self, game);
            }
        }
    }

    /// Eats a corpse: hit points rise by `hp`, up to the maximum.
    pub fn consume_corpse(&mut self, hp: i32, game: &mut Game)
        ensures
            final(self)@ == (ObjectView {
                fighter: match old(self).fighter {
                    Some(f) => Some(f.healed(hp as int)),
                    None => None,
                },
                ..old(self)@
            }),
            final(game).messages@ == old(game).messages@.push(
                ("You consumed a corpse and gained "@ + decimal(hp as int) + " HP"@, Tint::LightViolet),
            ),
            final(game).map == old(game).map,
            final(game).inventory == old(game).inventory,
    {
        self.heal(hp);
        let mut text = String::from_str("You consumed a corpse and gained ");
        push_int(&mut text, hp as i64);
        text.append(" HP");
        game.messages.add(text, Tint::LightViolet);
    }

    /// Attacks `target` for this object's power less the target's defense;
    /// an attack of no positive damage changes nothing but the log.
    pub fn attack(&mut self, target: &mut Object, game: &mut Game)
        requires
            old(game).map.wf(),
        ensures
            *final(self) == *old(self),
            attack_outcome(
                old(self)@,
                old(target)@,
                old(game).map,
                old(game).messages@,
                final(target)@,
                final(game).map,
                final(game).messages@,
            ),
            final(game).inventory == old(game).inventory,
    {
        let damage = self.attack_damage(target);
        let mut text = String::from_str(self.name.as_str()).concat(" attacks ").concat(target.name.as_str());
        if damage > 0 {
            text.append(" for ");
            push_int(&mut text, damage);
            text.append(" hit points");
            game.messages.add(text, Tint::White);
            let dealt: i32 = if damage > i32::MAX as i64 { i32::MAX } else { damage as i32 };
            target.take_damage(dealt, game);
        } else {
            text.append(" but it has not effect!");
            game.messages.add(text, Tint::White);
        }
    }
}

} // verus!
