use rogue_core::command::{handle_command, tick, Command, PlayerAction};
use rogue_core::fov::Fov;
use rogue_core::game::{Game, Messages};
use rogue_core::game_map::{create_room, GameMap};
use rogue_core::object::{Ai, DeathCallback, Fighter, Object};
use rogue_core::room::Room;
use rogue_core::tint::Tint;
use rogue_core::turn::{ai_take_turn, player_move_or_attack, take_monster_turns};

fn open_game() -> Game {
    let mut map = GameMap::new(20, 20);
    create_room(Room::new(0, 0, 19, 19), &mut map);
    Game { map, messages: Messages::new(), inventory: vec![] }
}

fn all_visible() -> Fov {
    Fov::new(vec![vec![true; 20]; 20])
}

fn player_at(x: i32, y: i32) -> Object {
    let mut p = Object::new(x, y, '@', "player", Tint::White, true);
    p.alive = true;
    p.fighter = Some(Fighter { max_hp: 40, hp: 40, defense: 2, power: 5, on_death: DeathCallback::Player });
    p
}

fn monster_at(x: i32, y: i32, name: &str, hp: i32, defense: i32, power: i32) -> Object {
    let mut m = Object::new(x, y, 'G', name, Tint::DesaturatedGreen, true);
    m.alive = true;
    m.fighter = Some(Fighter { max_hp: hp, hp, defense, power, on_death: DeathCallback::Monster });
    m.ai = Some(Ai::Basic);
    m
}

fn last_message(game: &Game) -> String {
    game.messages.iter().last().unwrap().0.clone()
}

#[test]
fn attack_kills_weak_monster_and_leaves_corpse() {
    let mut game = open_game();
    let mut objects = vec![player_at(5, 5), monster_at(6, 5, "goblin", 3, 2, 3)];
    let action = handle_command(Command::MoveRight, &all_visible(), &mut game, &mut objects);
    assert_eq!(action, PlayerAction::TookTurn);
    assert_eq!((objects[0].x, objects[0].y), (5, 5));
    let m = &objects[1];
    assert!(m.fighter.is_none());
    assert!(m.ai.is_none());
    assert!(!m.blocks);
    assert!(!m.alive);
    assert_eq!(m.glyph, '%');
    assert_eq!(m.name, "remains of goblin");
    assert!(game.map.tiles[6][5].has_corpse);
    let log: Vec<String> = game.messages.iter().iter().map(|m| m.0.clone()).collect();
    assert_eq!(log, vec!["player attacks goblin for 3 hit points".to_string(), "goblin is dead!".to_string()]);
}

#[test]
fn attack_damage_depends_only_on_stats() {
    let a = player_at(1, 1);
    let b = monster_at(2, 1, "drudge", 3, 1, 2);
    assert_eq!(a.attack_damage(&b), 4);
    assert_eq!(a.attack_damage(&b), a.attack_damage(&b));
    let c = monster_at(9, 9, "other", 50, 1, 7);
    assert_eq!(a.attack_damage(&c), 4);
    assert_eq!(b.attack_damage(&a), 0);
}

#[test]
fn attack_without_effect_only_logs() {
    let mut game = open_game();
    let mut a = monster_at(1, 1, "drudge", 3, 1, 2);
    let mut b = player_at(2, 1);
    a.attack(&mut b, &mut game);
    assert_eq!(b.fighter.unwrap().hp, 40);
    assert_eq!(last_message(&game), "drudge attacks player but it has not effect!");
}

#[test]
fn hit_points_stay_in_range() {
    let mut game = open_game();
    let mut p = player_at(3, 3);
    p.take_damage(15, &mut game);
    assert_eq!(p.fighter.unwrap().hp, 25);
    p.heal(100);
    assert_eq!(p.fighter.unwrap().hp, 40);
    p.take_damage(-5, &mut game);
    assert_eq!(p.fighter.unwrap().hp, 40);
    p.heal(-100);
    assert_eq!(p.fighter.unwrap().hp, 0);
    p.take_damage(1000, &mut game);
    let f = p.fighter.unwrap();
    assert_eq!(f.hp, 0);
    assert!(f.hp >= 0 && f.hp <= f.max_hp);
    assert!(!p.alive);
    assert_eq!(p.glyph, '%');
    assert_eq!(last_message(&game), "You Died!!");
}

#[test]
fn corpse_restores_hit_points_up_to_max() {
    let mut game = open_game();
    let mut p = player_at(3, 3);
    p.take_damage(39, &mut game);
    p.consume_corpse(2, &mut game);
    assert_eq!(p.fighter.unwrap().hp, 3);
    p.consume_corpse(100, &mut game);
    assert_eq!(p.fighter.unwrap().hp, 40);
    assert_eq!(last_message(&game), "You consumed a corpse and gained 100 HP");
}

#[test]
fn move_into_open_cell_and_not_into_wall() {
    let mut game = open_game();
    let mut objects = vec![player_at(1, 1)];
    player_move_or_attack(1, 0, &mut game, &mut objects);
    assert_eq!((objects[0].x, objects[0].y), (2, 1));
    player_move_or_attack(0, -1, &mut game, &mut objects);
    assert_eq!((objects[0].x, objects[0].y), (2, 1));
    assert_eq!(game.messages.iter().len(), 0);
}

#[test]
fn dead_monster_does_not_act() {
    let mut game = open_game();
    let mut dead = monster_at(10, 5, "goblin", 9, 2, 3);
    dead.alive = false;
    let mut objects = vec![player_at(5, 5), dead, monster_at(5, 10, "drudge", 3, 1, 2)];
    take_monster_turns(&all_visible(), &mut game, &mut objects);
    assert_eq!((objects[1].x, objects[1].y), (10, 5));
    assert_eq!((objects[2].x, objects[2].y), (5, 9));
}

#[test]
fn monster_steps_diagonally_toward_player() {
    let mut game = open_game();
    let mut objects = vec![player_at(5, 5), monster_at(9, 9, "goblin", 9, 2, 3)];
    ai_take_turn(1, &all_visible(), &mut game, &mut objects);
    assert_eq!((objects[1].x, objects[1].y), (8, 8));
    let mut objects = vec![player_at(5, 5), monster_at(9, 7, "goblin", 9, 2, 3)];
    ai_take_turn(1, &all_visible(), &mut game, &mut objects);
    assert_eq!((objects[1].x, objects[1].y), (8, 7));
}

#[test]
fn unseen_monster_stays() {
    let mut game = open_game();
    let mut objects = vec![player_at(5, 5), monster_at(9, 9, "goblin", 9, 2, 3)];
    let blind = Fov::new(vec![vec![false; 20]; 20]);
    ai_take_turn(1, &blind, &mut game, &mut objects);
    assert_eq!((objects[1].x, objects[1].y), (9, 9));
}

#[test]
fn adjacent_monster_attacks_living_player() {
    let mut game = open_game();
    let mut objects = vec![player_at(5, 5), monster_at(6, 6, "goblin", 9, 2, 3)];
    ai_take_turn(1, &all_visible(), &mut game, &mut objects);
    assert_eq!(objects[0].fighter.unwrap().hp, 39);
    assert_eq!(last_message(&game), "goblin attacks player for 1 hit points");
}

#[test]
fn burning_tile_singes_monster_and_goes_out() {
    let mut game = open_game();
    game.map.tiles[9][9].on_fire.active = true;
    game.map.tiles[9][9].on_fire.ticks = 3;
    let mut objects = vec![player_at(5, 5), monster_at(9, 9, "goblin", 9, 2, 3)];
    let blind = Fov::new(vec![vec![false; 20]; 20]);
    ai_take_turn(1, &blind, &mut game, &mut objects);
    assert_eq!(objects[1].fighter.unwrap().hp, 8);
    assert!(!game.map.tiles[9][9].on_fire.active);
    assert_eq!(last_message(&game), "Your smoldering fire ring singed the goblin for 1 HP");
    game.map.tiles[9][9].on_fire.active = true;
    game.map.tiles[9][9].on_fire.ticks = 12;
    ai_take_turn(1, &blind, &mut game, &mut objects);
    assert_eq!(objects[1].fighter.unwrap().hp, 6);
}

#[test]
fn menu_turn_leaves_monsters_in_place() {
    let mut game = open_game();
    let mut objects = vec![player_at(5, 5), monster_at(9, 9, "goblin", 9, 2, 3), monster_at(6, 6, "drudge", 3, 1, 2)];
    let action = tick(Command::OpenInventory, &all_visible(), &mut game, &mut objects).unwrap();
    assert_eq!(action, PlayerAction::DidntTakeTurn);
    assert_eq!((objects[1].x, objects[1].y), (9, 9));
    assert_eq!((objects[2].x, objects[2].y), (6, 6));
    assert_eq!(objects[0].fighter.unwrap().hp, 40);
    let action = tick(Command::MoveLeft, &all_visible(), &mut game, &mut objects).unwrap();
    assert_eq!(action, PlayerAction::TookTurn);
    assert_eq!((objects[1].x, objects[1].y), (8, 8));
}

#[test]
fn quit_exits_and_dead_player_cannot_move() {
    let mut game = open_game();
    let mut objects = vec![player_at(5, 5)];
    assert_eq!(tick(Command::Quit, &all_visible(), &mut game, &mut objects).unwrap(), PlayerAction::Exit);
    objects[0].alive = false;
    assert_eq!(tick(Command::MoveUp, &all_visible(), &mut game, &mut objects).unwrap(), PlayerAction::DidntTakeTurn);
    assert_eq!((objects[0].x, objects[0].y), (5, 5));
    assert_eq!(tick(Command::ToggleFullscreen, &all_visible(), &mut game, &mut objects).unwrap(), PlayerAction::DidntTakeTurn);
}
