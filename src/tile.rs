use vstd::prelude::*;

verus! {

/// How many ticks a freshly lit tile keeps burning.
pub const FIRE_TICKS: i32 = 20;

/// The burning state of a tile: whether it burns, and for how many more ticks.
#[derive(Clone, Copy, Debug, PartialEq, Eq, Structural)]
pub struct Fire {
    pub active: bool,
    pub ticks: i32,
}

/// One cell of the dungeon grid.
#[derive(Clone, Copy, Debug, PartialEq, Eq, Structural)]
pub struct Tile {
    pub blocked: bool,
    pub block_sight: bool,
    pub perimeter: bool,
    pub teleport: bool,
    pub explored: bool,
    pub has_corpse: bool,
    pub on_fire: Fire,
}

impl Fire {
    pub open spec fn spec_out() -> Fire {
        Fire { active: false, ticks: 0 }
    }

    /// One tick of burning: the counter goes down by one and the fire goes
    /// out when it reaches zero.
    pub open spec fn decayed(self) -> Fire {
        if !self.active {
            self
        } else if self.ticks <= 1 {
            Fire { active: false, ticks: 0 }
        } else {
            Fire { active: true, ticks: (self.ticks - 1) as i32 }
        }
    }

    pub fn decay(&self) -> (r: Fire)
        ensures
            r == self.decayed(),
    {
        if !self.active {
            *self
        } else if self.ticks <= 1 {
            Fire { active: false, ticks: 0 }
        } else {
            Fire { active: true, ticks: self.ticks - 1 }
        }
    }
}

impl Tile {
    /// The invariant of a tile: a teleport tile can be walked on, a perimeter
    /// tile blocks both movement and sight, and a fire counter is never negative.
    pub open spec fn wf(self) -> bool {
        &&& (self.teleport ==> !self.blocked)
        &&& (self.perimeter ==> self.blocked && self.block_sight)
        &&& self.on_fire.ticks >= 0
    }

    pub open spec fn spec_empty() -> Tile {
        Tile {
            blocked: false,
            block_sight: false,
            perimeter: false,
            teleport: false,
            explored: false,
            has_corpse: false,
            on_fire: Fire::spec_out(),
        }
    }

    pub open spec fn spec_wall() -> Tile {
        Tile { blocked: true, block_sight: true, ..Tile::spec_empty() }
    }

    pub open spec fn spec_perimeter() -> Tile {
        Tile { blocked: true, block_sight: true, perimeter: true, ..Tile::spec_empty() }
    }

    pub open spec fn spec_teleport() -> Tile {
        Tile { teleport: true, ..Tile::spec_empty() }
    }

    /// A floor tile that can be walked on.
    pub fn empty() -> (t: Tile)
        ensures
            t == Tile::spec_empty(),
            t.wf(),
    {
        Tile {
            blocked: false,
            block_sight: false,
            perimeter: false,
            teleport: false,
            explored: false,
            has_corpse: false,
            on_fire: Fire { active: false, ticks: 0 },
        }
    }

    /// An interior wall.
    pub fn wall() -> (t: Tile)
        ensures
            t == Tile::spec_wall(),
            t.wf(),
    {
        Tile {
            blocked: true,
            block_sight: true,
            perimeter: false,
            teleport: false,
            explored: false,
            has_corpse: false,
            on_fire: Fire { active: false, ticks: 0 },
        }
    }

    /// A wall on the outer border of the map.
    pub fn perimeter() -> (t: Tile)
        ensures
            t == Tile::spec_perimeter(),
            t.wf(),
    {
        Tile {
            blocked: true,
            block_sight: true,
            perimeter: true,
            teleport: false,
            explored: false,
            has_corpse: false,
            on_fire: Fire { active: false, ticks: 0 },
        }
    }

    /// A floor tile that teleports the player who steps on it.
    pub fn teleport() -> (t: Tile)
        ensures
            t == Tile::spec_teleport(),
            t.wf(),
    {
        Tile {
            blocked: false,
            block_sight: false,
            perimeter: false,
            teleport: true,
            explored: false,
            has_corpse: false,
            on_fire: Fire { active: false, ticks: 0 },
        }
    }

    pub open spec fn teleportable(self) -> bool {
        !self.blocked && !self.teleport
    }

    /// A player may be teleported onto this tile: it is open and not itself a teleport.
    pub fn is_teleportable_to(&self) -> (r: bool)
        ensures
            r == self.teleportable(),
    {
        !self.blocked && !self.teleport
    }

    /// The tile does not block movement.
    pub fn is_empty(&self) -> (r: bool)
        ensures
            r == !self.blocked,
    {
        !self.blocked
    }
}

} // verus!
