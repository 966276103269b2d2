use vstd::prelude::*;

use crate::game_map::GameMap;
use crate::object::Object;
use crate::tint::Tint;

verus! {

/// The append-only message log: text with its display tint, oldest first.
pub struct Messages {
    pub messages: Vec<(String, Tint)>,
}

impl View for Messages {
    type V = Seq<(Seq<char>, Tint)>;

    open spec fn view(&self) -> Seq<(Seq<char>, Tint)> {
        self.messages@.map_values(|m: (String, Tint)| (m.0@, m.1))
    }
}

impl Messages {
    pub fn new() -> (r: Messages)
        ensures
            r@ == Seq::<(Seq<char>, Tint)>::empty(),
    {
        let r = Messages { messages: Vec::new() };
        r
    }

    pub fn add(&mut self, message: String, color: Tint)
        ensures
            final(self)@ == old(self)@.push((message@, color)),
    {
        self.messages.push((message, color));
    }

    /// The log, oldest message first.
    pub fn iter(&self) -> (r: &[(String, Tint)])
        ensures
            r@ == self.messages@,
    {
        self.messages.as_slice()
    }
}

/// The state of a session besides its entities: the map, the message log and
/// the inventory.
pub struct Game {
    pub map: GameMap,
    pub messages: Messages,
    pub inventory: Vec<Object>,
}

} // verus!
