use rogue_core::command::{tick, Command, PlayerAction};
use rogue_core::fov::Fov;
use rogue_core::game::{Game, Messages};
use rogue_core::game_map::{create_room, GameMap};
use rogue_core::items::{cast_fire_ring, get_monsters_in_range, pick_item_up, set_tiles_on_fire, use_item, UseResult};
use rogue_core::object::{Ai, DeathCallback, Fighter, Item, Object};
use rogue_core::room::Room;
use rogue_core::tint::Tint;

fn open_game() -> Game {
    let mut map = GameMap::new(20, 20);
    create_room(Room::new(0, 0, 19, 19), &mut map);
    Game { map, messages: Messages::new(), inventory: vec![] }
}

fn all_visible() -> Fov {
    Fov::new(vec![vec![true; 20]; 20])
}

fn player_at(x: i32, y: i32) -> Object {
    let mut p = Object::new(x, y, '@', "player", Tint::White, true);
    p.alive = true;
    p.fighter = Some(Fighter { max_hp: 10, hp: 10, defense: 2, power: 5, on_death: DeathCallback::Player });
    p
}

fn monster_at(x: i32, y: i32, hp: i32) -> Object {
    let mut m = Object::new(x, y, 'G', "goblin", Tint::DesaturatedGreen, true);
    m.alive = true;
    m.fighter = Some(Fighter { max_hp: hp, hp, defense: 2, power: 3, on_death: DeathCallback::Monster });
    m.ai = Some(Ai::Basic);
    m
}

fn item_at(x: i32, y: i32, name: &str, item: Item) -> Object {
    let mut o = Object::new(x, y, '!', name, Tint::Violet, false);
    o.item = Some(item);
    o
}

fn last_message(game: &Game) -> String {
    game.messages.iter().last().unwrap().0.clone()
}

#[test]
fn healing_at_full_health_is_cancelled() {
    let mut game = open_game();
    game.inventory.push(item_at(0, 0, "healing potion", Item::Heal));
    let mut objects = vec![player_at(5, 5)];
    use_item(0, &all_visible(), &mut game, &mut objects);
    assert_eq!(objects[0].fighter.unwrap().hp, 10);
    assert_eq!(game.inventory.len(), 1);
    let log: Vec<String> = game.messages.iter().iter().map(|m| m.0.clone()).collect();
    assert_eq!(log, vec!["You are already at full health".to_string(), "Cancelled".to_string()]);
}

#[test]
fn healing_when_hurt_uses_the_potion() {
    let mut game = open_game();
    game.inventory.push(item_at(0, 0, "healing potion", Item::Heal));
    let mut objects = vec![player_at(5, 5)];
    objects[0].fighter.as_mut().unwrap().hp = 3;
    let action = tick(Command::UseInventorySlot(0), &all_visible(), &mut game, &mut objects).unwrap();
    assert_eq!(action, PlayerAction::DidntTakeTurn);
    assert_eq!(objects[0].fighter.unwrap().hp, 10);
    assert!(game.inventory.is_empty());
    assert_eq!(game.messages.iter()[0].0, "You have healed yourself for 10 HP");
}

#[test]
fn object_without_effect_cannot_be_used() {
    let mut game = open_game();
    game.inventory.push(Object::new(0, 0, '?', "rock", Tint::White, false));
    let mut objects = vec![player_at(5, 5)];
    use_item(0, &all_visible(), &mut game, &mut objects);
    assert_eq!(game.inventory.len(), 1);
    assert_eq!(last_message(&game), "The rock cannot be used");
}

#[test]
fn pick_up_moves_item_to_inventory() {
    let mut game = open_game();
    let mut objects = vec![player_at(5, 5), item_at(5, 5, "healing potion", Item::Heal), monster_at(9, 9, 5)];
    let action = tick(Command::PickUp, &all_visible(), &mut game, &mut objects).unwrap();
    assert_eq!(action, PlayerAction::DidntTakeTurn);
    assert_eq!(game.inventory.len(), 1);
    assert_eq!(game.inventory[0].name, "healing potion");
    assert_eq!(objects.len(), 2);
    assert_eq!(objects[1].name, "goblin");
    assert_eq!((objects[1].x, objects[1].y), (9, 9));
    assert_eq!(last_message(&game), "You picked up a healing potion!");
}

#[test]
fn full_inventory_declines_pickup() {
    let mut game = open_game();
    for _ in 0..26 {
        game.inventory.push(item_at(0, 0, "healing potion", Item::Heal));
    }
    let mut objects = vec![player_at(5, 5), item_at(5, 5, "scroll", Item::FireRing)];
    pick_item_up(1, &mut game, &mut objects);
    assert_eq!(game.inventory.len(), 26);
    assert_eq!(objects.len(), 2);
    assert_eq!(last_message(&game), "Your inventory is full, cannot pick up scroll");
}

#[test]
fn eating_a_corpse_heals_and_clears_it() {
    let mut game = open_game();
    game.map.tiles[5][5].has_corpse = true;
    let mut remains = Object::new(5, 5, '%', "remains of goblin", Tint::DarkRed, false);
    remains.alive = false;
    let mut objects = vec![player_at(5, 5), remains];
    objects[0].fighter.as_mut().unwrap().hp = 5;
    tick(Command::PickUp, &all_visible(), &mut game, &mut objects).unwrap();
    assert_eq!(objects[0].fighter.unwrap().hp, 7);
    assert!(!game.map.tiles[5][5].has_corpse);
    assert_eq!(objects[1].glyph, '_');
    assert_eq!(objects[0].glyph, '@');
    assert_eq!(objects.len(), 2);
}

#[test]
fn monsters_in_range_are_the_visible_ones_nearby() {
    let objects = vec![player_at(5, 5), monster_at(9, 5, 5), monster_at(9, 9, 5), item_at(6, 5, "potion", Item::Heal), monster_at(5, 2, 5)];
    let ids = get_monsters_in_range(&all_visible(), &objects, 4);
    assert_eq!(ids, vec![Some(1), Some(4)]);
    let blind = Fov::new(vec![vec![false; 20]; 20]);
    assert!(get_monsters_in_range(&blind, &objects, 4).is_empty());
    assert!(get_monsters_in_range(&all_visible(), &objects, -1).is_empty());
}

#[test]
fn fire_ring_burns_monsters_and_tiles() {
    let mut game = open_game();
    let mut objects = vec![player_at(5, 5), monster_at(7, 5, 15), monster_at(15, 15, 30)];
    let r = cast_fire_ring(0, &all_visible(), &mut game, &mut objects);
    assert_eq!(r, UseResult::UsedUp);
    assert_eq!(objects[1].name, "remains of goblin");
    assert!(game.map.tiles[7][5].has_corpse);
    assert_eq!(objects[2].fighter.unwrap().hp, 30);
    assert_eq!(game.messages.iter()[0].0, "Fire ring conflagrated the goblin for 20 hit points");
    assert!(game.map.tiles[5][5].on_fire.active);
    assert_eq!(game.map.tiles[9][1].on_fire.ticks, 20);
    assert!(game.map.tiles[9][1].on_fire.active);
    assert!(!game.map.tiles[10][5].on_fire.active);
    assert!(game.map.tiles[2][5].on_fire.active);
    assert!(!game.map.tiles[1][5].on_fire.active);
    assert!(!game.map.tiles[5][9].on_fire.active);
    assert!(game.map.tiles[5][8].on_fire.active);
}

#[test]
fn fire_ring_with_no_target_says_so() {
    let mut game = open_game();
    game.inventory.push(item_at(0, 0, "scroll", Item::FireRing));
    let mut objects = vec![player_at(5, 5)];
    use_item(0, &all_visible(), &mut game, &mut objects);
    assert!(game.inventory.is_empty());
    assert_eq!(game.messages.iter()[0].0, "Fire ring caused no direct damage");
}

#[test]
fn fire_stops_at_walls() {
    let mut map = GameMap::new(20, 20);
    create_room(Room::new(2, 2, 5, 5), &mut map);
    let mut game = Game { map, messages: Messages::new(), inventory: vec![] };
    let objects = vec![player_at(4, 4)];
    set_tiles_on_fire(&mut game, &objects, 4);
    assert!(game.map.tiles[4][4].on_fire.active);
    assert!(game.map.tiles[6][3].on_fire.active);
    assert!(!game.map.tiles[7][4].on_fire.active);
    assert!(!game.map.tiles[8][4].on_fire.active);
    assert!(!game.map.tiles[4][1].on_fire.active);
}
