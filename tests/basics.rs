use rogue_core::teleport::{find_landing, relocate, spot_is_clear};
use rogue_core::display::inventory_choice;
use rogue_core::display::{bar_fill, draw_order, inventory_options, menu_index};
use rogue_core::dungeon::GenError;
use rogue_core::fov::Fov;
use rogue_core::game::{Game, Messages};
use rogue_core::game_map::{create_horizontal_passage, create_room, create_vertical_passage, decay_fire, mark_explored, tile_look, GameMap, Look};
use rogue_core::movement::{is_blocked, move_towards, mut_two};
use rogue_core::object::{Item, Object};
use rogue_core::room::Room;
use rogue_core::teleport::{check_teleport, get_tile_non_passage_blocking, place_rand_teleport_tile};
use rogue_core::text::push_int;
use rogue_core::tile::{Fire, Tile};
use rogue_core::tint::Tint;

fn teleport_count(map: &GameMap) -> usize {
    map.tiles.iter().map(|c| c.iter().filter(|t| t.teleport).count()).sum()
}

#[test]
fn tile_kinds() {
    let e = Tile::empty();
    assert!(!e.blocked && !e.block_sight && e.is_empty() && e.is_teleportable_to());
    let w = Tile::wall();
    assert!(w.blocked && w.block_sight && !w.perimeter && !w.is_empty());
    let p = Tile::perimeter();
    assert!(p.blocked && p.block_sight && p.perimeter);
    let t = Tile::teleport();
    assert!(t.teleport && !t.blocked && t.is_empty() && !t.is_teleportable_to());
}

#[test]
fn fire_burns_down_and_goes_out() {
    let mut map = GameMap::new(5, 5);
    map.tiles[2][2] = Tile::empty();
    map.tiles[2][2].on_fire = Fire { active: true, ticks: 1 };
    map.tiles[2][3] = Tile::empty();
    map.tiles[2][3].on_fire = Fire { active: true, ticks: 20 };
    decay_fire(&mut map);
    assert_eq!(map.tiles[2][2].on_fire, Fire { active: false, ticks: 0 });
    assert_eq!(map.tiles[2][3].on_fire, Fire { active: true, ticks: 19 });
    assert_eq!(map.tiles[1][1].on_fire, Fire { active: false, ticks: 0 });
}

#[test]
fn looks_of_tiles() {
    assert_eq!(tile_look(&Tile::wall(), true), Look::LightWall);
    assert_eq!(tile_look(&Tile::wall(), false), Look::DarkWall);
    assert_eq!(tile_look(&Tile::perimeter(), true), Look::LightPerimeter);
    assert_eq!(tile_look(&Tile::teleport(), false), Look::DarkTeleport);
    assert_eq!(tile_look(&Tile::empty(), true), Look::LightGround);
    let mut burning = Tile::empty();
    burning.on_fire = Fire { active: true, ticks: 4 };
    assert_eq!(tile_look(&burning, false), Look::Burning);
}

#[test]
fn explored_follows_view() {
    let mut map = GameMap::new(3, 3);
    let mut cells = vec![vec![false; 3]; 3];
    cells[1][2] = true;
    mark_explored(&mut map, &Fov::new(cells));
    assert!(map.tiles[1][2].explored);
    assert!(!map.tiles[0][0].explored);
}

#[test]
fn corridors_include_both_ends() {
    let mut map = GameMap::new(10, 10);
    create_horizontal_passage(7, 2, 3, &mut map);
    for x in 2..=7 {
        assert!(!map.tiles[x][3].blocked);
    }
    assert!(map.tiles[1][3].blocked && map.tiles[8][3].blocked);
    create_vertical_passage(1, 4, 5, &mut map);
    for y in 1..=4 {
        assert!(!map.tiles[5][y].blocked);
    }
    assert!(map.tiles[5][5].blocked);
}

#[test]
fn decimal_text() {
    let mut s = String::from("n=");
    push_int(&mut s, -123);
    assert_eq!(s, "n=-123");
    let mut s = String::new();
    push_int(&mut s, 0);
    assert_eq!(s, "0");
    let mut s = String::new();
    push_int(&mut s, i64::MIN);
    assert_eq!(s, i64::MIN.to_string());
}

#[test]
fn menu_letters() {
    assert_eq!(menu_index('a', 3), Some(0));
    assert_eq!(menu_index('C', 3), Some(2));
    assert_eq!(menu_index('d', 3), None);
    assert_eq!(menu_index('1', 3), None);
    assert_eq!(menu_index('z', 26), Some(25));
}

#[test]
fn bar_widths() {
    assert_eq!(bar_fill(20, 40, 20), 10);
    assert_eq!(bar_fill(7, 40, 20), 3);
    assert_eq!(bar_fill(40, 40, 20), 20);
    assert_eq!(bar_fill(5, 0, 20), 0);
    assert_eq!(bar_fill(-3, 40, 20), -1);
}

#[test]
fn inventory_lines() {
    let empty: Vec<Object> = vec![];
    assert_eq!(inventory_options(&empty), vec!["Inventory is empty.".to_string()]);
    let inv = vec![Object::new(0, 0, '!', "healing potion", Tint::Violet, false), Object::new(0, 0, '#', "scroll", Tint::LightYellow, false)];
    assert_eq!(inventory_options(&inv), vec!["healing potion".to_string(), "scroll".to_string()]);
}

#[test]
fn items_are_drawn_under_monsters() {
    let objects = vec![
        Object::new(1, 1, '@', "player", Tint::White, true),
        Object::new(1, 1, '!', "potion", Tint::Violet, false),
        Object::new(2, 2, 'G', "goblin", Tint::DesaturatedGreen, true),
        Object::new(0, 0, '#', "hidden", Tint::LightYellow, false),
    ];
    let mut cells = vec![vec![true; 3]; 3];
    cells[0][0] = false;
    assert_eq!(draw_order(&objects, &Fov::new(cells)), vec![1, 0, 2]);
}

#[test]
fn blocked_cells() {
    let mut map = GameMap::new(6, 6);
    create_room(Room::new(0, 0, 5, 5), &mut map);
    let objects = vec![Object::new(2, 2, 'G', "goblin", Tint::White, true), Object::new(3, 3, '!', "potion", Tint::Violet, false)];
    assert!(is_blocked(2, 2, &map, &objects));
    assert!(!is_blocked(3, 3, &map, &objects));
    assert!(is_blocked(0, 3, &map, &objects));
    assert!(is_blocked(-1, 3, &map, &objects));
    assert!(is_blocked(3, 6, &map, &objects));
}

#[test]
fn moving_toward_a_blocked_cell_does_nothing() {
    let mut map = GameMap::new(8, 8);
    create_room(Room::new(0, 0, 7, 7), &mut map);
    let mut objects = vec![Object::new(3, 3, '@', "player", Tint::White, true), Object::new(5, 3, 'G', "goblin", Tint::White, true), Object::new(4, 3, 'D', "drudge", Tint::White, true)];
    move_towards(1, 3, 3, &map, &mut objects);
    assert_eq!((objects[1].x, objects[1].y), (5, 3));
    objects[2].blocks = false;
    move_towards(1, 3, 3, &map, &mut objects);
    assert_eq!((objects[1].x, objects[1].y), (4, 3));
}

#[test]
fn two_mutable_slots() {
    let mut v = vec![1, 2, 3, 4];
    {
        let (a, b) = mut_two(3, 1, &mut v);
        *a += 10;
        *b += 20;
    }
    assert_eq!(v, vec![1, 22, 3, 14]);
}

fn open_map() -> GameMap {
    let mut map = GameMap::new(20, 20);
    create_room(Room::new(0, 0, 19, 19), &mut map);
    map
}

#[test]
fn teleport_moves_player_and_keeps_one_teleport() {
    for _ in 0..20 {
        let mut map = open_map();
        map.tiles[5][5] = Tile::teleport();
        let mut player = Object::new(5, 5, '@', "player", Tint::White, true);
        check_teleport(&mut map, &mut player).unwrap();
        assert_ne!((player.x, player.y), (5, 5));
        assert!(!map.tiles[player.x as usize][player.y as usize].blocked);
        assert_eq!(teleport_count(&map), 1);
    }
}

#[test]
fn no_teleport_when_not_on_one() {
    let mut map = open_map();
    map.tiles[5][5] = Tile::teleport();
    let mut player = Object::new(6, 5, '@', "player", Tint::White, true);
    check_teleport(&mut map, &mut player).unwrap();
    assert_eq!((player.x, player.y), (6, 5));
    assert!(map.tiles[5][5].teleport);
}

#[test]
fn teleport_with_nowhere_to_go_fails_cleanly() {
    let mut map = GameMap::new(20, 20);
    map.tiles[5][5] = Tile::teleport();
    let mut player = Object::new(5, 5, '@', "player", Tint::White, true);
    assert_eq!(check_teleport(&mut map, &mut player), Err(GenError::NoTeleportSpot));
    assert_eq!((player.x, player.y), (5, 5));
    assert!(map.tiles[5][5].teleport);
    assert_eq!(teleport_count(&map), 1);
}

#[test]
fn teleport_spot_has_open_neighbours() {
    let mut map = GameMap::new(20, 20);
    create_room(Room::new(4, 4, 6, 6), &mut map);
    for _ in 0..10 {
        let (x, y) = get_tile_non_passage_blocking(&map).unwrap();
        assert!((6..=8).contains(&x) && (6..=8).contains(&y));
    }
    let (x, y) = place_rand_teleport_tile(&mut map).unwrap();
    assert!(map.tiles[x as usize][y as usize].teleport);
    assert_eq!(teleport_count(&map), 1);
    let small = GameMap::new(6, 6);
    assert_eq!(get_tile_non_passage_blocking(&small), None);
}

#[test]
fn message_log_keeps_order() {
    let mut log = Messages::new();
    log.add("one".to_string(), Tint::Red);
    log.add("two".to_string(), Tint::Blue);
    let all = log.iter();
    assert_eq!(all.len(), 2);
    assert_eq!(all[0], ("one".to_string(), Tint::Red));
    assert_eq!(all[1].0, "two");
    let game = Game { map: GameMap::new(3, 3), messages: log, inventory: vec![Object::new(0, 0, '!', "p", Tint::Violet, false)] };
    assert_eq!(game.inventory[0].item, None::<Item>);
}

#[test]
fn spot_checks_and_landing() {
    let mut map = GameMap::new(20, 20);
    create_room(Room::new(4, 4, 6, 6), &mut map);
    assert!(spot_is_clear(&map, 7, 7));
    assert!(!spot_is_clear(&map, 5, 5));
    assert!(!spot_is_clear(&map, 2, 2));
    for _ in 0..10 {
        let (x, y) = find_landing(&map).unwrap();
        assert!((5..=9).contains(&x) && (5..=9).contains(&y));
    }
    assert_eq!(find_landing(&GameMap::new(2, 5)), None);
    map.tiles[6][6] = Tile::teleport();
    let mut player = Object::new(6, 6, '@', "player", Tint::White, true);
    relocate(&mut map, &mut player, (8, 8), (7, 7));
    assert_eq!((player.x, player.y), (8, 8));
    assert!(!map.tiles[6][6].teleport);
    assert!(map.tiles[7][7].teleport);
    assert_eq!(teleport_count(&map), 1);
}

#[test]
fn open_level_always_gets_a_teleport_spot() {
    let mut map = GameMap::new(20, 20);
    create_room(Room::new(0, 0, 19, 19), &mut map);
    let (x, y) = place_rand_teleport_tile(&mut map).unwrap();
    assert!((3..17).contains(&x) && (3..17).contains(&y));
    assert!(get_tile_non_passage_blocking(&map).is_some());
}

#[test]
fn carving_reaches_the_last_row_and_column() {
    let mut map = GameMap::new(6, 6);
    create_room(Room::new(2, 2, 4, 4), &mut map);
    assert!(!map.tiles[3][3].blocked && !map.tiles[5][4].blocked);
    create_horizontal_passage(0, 5, 1, &mut map);
    assert!(!map.tiles[0][1].blocked && !map.tiles[5][1].blocked);
    create_vertical_passage(5, 0, 0, &mut map);
    assert!(!map.tiles[0][0].blocked && !map.tiles[0][5].blocked);
    let mut empty = GameMap::new(6, 6);
    create_room(Room::new(3, 3, 1, 1), &mut empty);
    assert!(empty.tiles.iter().all(|c| c.iter().all(|t| t.blocked)));
}

#[test]
fn inventory_choice_needs_items() {
    assert_eq!(inventory_choice(0, Some(0)), None);
    assert_eq!(inventory_choice(2, Some(1)), Some(1));
    assert_eq!(inventory_choice(2, None), None);
}
