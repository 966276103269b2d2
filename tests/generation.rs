use rogue_core::dungeon::{spawn_item, spawn_monster};
use rogue_core::game_map::create_room;
use rogue_core::dungeon::{make_map, Dungeon, GenError, GenParams};
use rogue_core::game_map::GameMap;
use rogue_core::object::{DeathCallback, Fighter, Item, Object};
use rogue_core::room::Room;
use rogue_core::tint::Tint;

fn player() -> Object {
    let mut p = Object::new(0, 0, '@', "player", Tint::White, true);
    p.alive = true;
    p.fighter = Some(Fighter { max_hp: 40, hp: 40, defense: 2, power: 5, on_death: DeathCallback::Player });
    p
}

fn teleports(map: &GameMap) -> Vec<(i32, i32)> {
    let mut found = Vec::new();
    for x in 0..map.width {
        for y in 0..map.height {
            if map.tiles[x as usize][y as usize].teleport {
                found.push((x, y));
            }
        }
    }
    found
}

fn check_level(params: &GenParams, d: &Dungeon, objects: &[Object]) {
    let map = &d.map;
    assert_eq!(map.width, params.width);
    assert_eq!(map.height, params.height);
    assert!(!d.rooms.is_empty());
    assert!(d.rooms.len() as i32 <= params.max_rooms);
    for x in 0..map.width {
        for y in 0..map.height {
            if x == 0 || y == 0 || x == map.width - 1 || y == map.height - 1 {
                let t = map.tiles[x as usize][y as usize];
                assert!(t.perimeter && t.blocked && t.block_sight);
            }
        }
    }
    for (i, a) in d.rooms.iter().enumerate() {
        let w = a.x2 - a.x1;
        let h = a.y2 - a.y1;
        assert!(w >= params.room_min_size && w <= params.room_max_size);
        assert!(h >= params.room_min_size && h <= params.room_max_size);
        assert!(a.x1 >= 0 && a.y1 >= 0 && a.x2 < params.width && a.y2 < params.height);
        for (j, b) in d.rooms.iter().enumerate() {
            if i != j {
                assert!(!a.room_overlaps(b));
            }
        }
        for x in a.x1 + 1..a.x2 {
            for y in a.y1 + 1..a.y2 {
                assert!(!map.tiles[x as usize][y as usize].blocked);
            }
        }
    }
    let p = &objects[0];
    assert!(d.rooms.iter().any(|r| r.center() == (p.x, p.y)));
    assert!(!map.tiles[p.x as usize][p.y as usize].blocked);
    let t = teleports(map);
    assert_eq!(t.len(), 1);
    assert!(d.rooms.iter().any(|r| r.center() == t[0]));
    let last = &objects[objects.len() - 1];
    assert_eq!(last.name, "Fire Ring Scroll");
    assert_eq!((last.x, last.y), (p.x + 1, p.y + 1));
    assert_eq!(last.item, Some(Item::FireRing));
    for o in &objects[1..objects.len() - 1] {
        assert!(!map.tiles[o.x as usize][o.y as usize].blocked);
        let known = ["goblin", "drudge", "white rabbit", "healing potion", "Fire ring spell"];
        assert!(known.contains(&o.name.as_str()));
    }
}

#[test]
fn standard_levels_keep_their_invariants() {
    let params = GenParams::standard();
    for _ in 0..20 {
        let mut objects = vec![player()];
        let d = make_map(&mut objects, &params).unwrap();
        check_level(&params, &d, &objects);
    }
}

#[test]
fn one_room_level_has_no_corridor() {
    let params = GenParams {
        width: 30,
        height: 20,
        max_rooms: 1,
        room_min_size: 5,
        room_max_size: 8,
        max_room_monsters: 0,
        max_room_items: 0,
    };
    for _ in 0..10 {
        let mut objects = vec![player()];
        let d = make_map(&mut objects, &params).unwrap();
        check_level(&params, &d, &objects);
        assert_eq!(d.rooms.len(), 1);
        let room: Room = d.rooms[0];
        assert_eq!((objects[0].x, objects[0].y), room.center());
        assert_eq!(objects.len(), 2);
        let mut open = 0;
        for x in 0..d.map.width {
            for y in 0..d.map.height {
                let inside = x > room.x1 && x < room.x2 && y > room.y1 && y < room.y2;
                assert_eq!(!d.map.tiles[x as usize][y as usize].blocked, inside);
                if inside {
                    open += 1;
                }
            }
        }
        assert_eq!(open, (room.x2 - room.x1 - 1) * (room.y2 - room.y1 - 1));
        assert_eq!(teleports(&d.map), vec![room.center()]);
    }
}

#[test]
fn room_sizes_come_from_the_size_range() {
    let params = GenParams {
        width: 40,
        height: 40,
        max_rooms: 6,
        room_min_size: 7,
        room_max_size: 7,
        max_room_monsters: 2,
        max_room_items: 1,
    };
    let mut objects = vec![player()];
    let d = make_map(&mut objects, &params).unwrap();
    for r in &d.rooms {
        assert_eq!(r.x2 - r.x1, 7);
        assert_eq!(r.y2 - r.y1, 7);
    }
    check_level(&params, &d, &objects);
}

#[test]
fn bad_sizes_are_rejected() {
    let mut params = GenParams::standard();
    params.room_max_size = params.width;
    let mut objects = vec![player()];
    assert!(matches!(make_map(&mut objects, &params), Err(GenError::InvalidParams)));
    assert_eq!(objects.len(), 1);
    let mut params = GenParams::standard();
    params.room_min_size = 1;
    assert!(matches!(make_map(&mut objects, &params), Err(GenError::InvalidParams)));
}

#[test]
fn no_room_allowed_is_an_error() {
    let mut params = GenParams::standard();
    params.max_rooms = 0;
    let mut objects = vec![player()];
    assert!(matches!(make_map(&mut objects, &params), Err(GenError::NoRoom)));
    assert_eq!((objects[0].x, objects[0].y), (0, 0));
}

#[test]
fn rooms_that_touch_overlap() {
    let a = Room::new(0, 0, 5, 5);
    let b = Room::new(5, 0, 5, 5);
    let c = Room::new(6, 0, 5, 5);
    assert!(a.room_overlaps(&b));
    assert!(b.room_overlaps(&a));
    assert!(!a.room_overlaps(&c));
    assert_eq!(Room::new(2, 3, 5, 6).center(), (4, 6));
    assert_eq!(Room::new(2, 3, 5, 6), Room { x1: 2, y1: 3, x2: 7, y2: 9 });
}

#[test]
fn fresh_map_is_walled_with_a_perimeter() {
    let m = GameMap::new(4, 3);
    assert!(m.tiles[0][0].perimeter);
    assert!(m.tiles[3][2].perimeter);
    assert!(m.tiles[1][1].blocked && !m.tiles[1][1].perimeter);
    assert_eq!(m.tiles.len(), 4);
    assert_eq!(m.tiles[0].len(), 3);
}

#[test]
fn levels_vary_from_run_to_run() {
    let params = GenParams::standard();
    let mut room_counts = Vec::new();
    let mut starts = Vec::new();
    for _ in 0..10 {
        let mut objects = vec![player()];
        let d = make_map(&mut objects, &params).unwrap();
        room_counts.push(d.rooms.len());
        starts.push((objects[0].x, objects[0].y));
    }
    assert!(room_counts.iter().any(|&n| n > 1));
    assert!(starts.iter().any(|&s| s != starts[0]));
}

#[test]
fn spawns_follow_the_draws() {
    let mut map = GameMap::new(10, 10);
    create_room(Room::new(1, 1, 6, 6), &mut map);
    let mut objects = vec![player()];
    spawn_monster(3, 3, true, false, &map, &mut objects);
    assert_eq!(objects[1].name, "goblin");
    spawn_monster(3, 3, false, true, &map, &mut objects);
    assert_eq!(objects.len(), 2);
    spawn_monster(4, 3, false, true, &map, &mut objects);
    assert_eq!(objects[2].name, "drudge");
    spawn_monster(5, 3, false, false, &map, &mut objects);
    assert_eq!(objects[3].name, "white rabbit");
    spawn_monster(0, 0, true, false, &map, &mut objects);
    assert_eq!(objects.len(), 4);
    spawn_item(3, 3, true, &map, &mut objects);
    assert_eq!(objects.len(), 4);
    spawn_item(2, 2, true, &map, &mut objects);
    assert_eq!(objects[4].name, "healing potion");
    spawn_item(2, 4, false, &map, &mut objects);
    assert_eq!(objects[5].item, Some(Item::FireRing));
}

#[test]
fn only_border_cells_are_perimeter() {
    let params = GenParams::standard();
    let mut objects = vec![player()];
    let d = make_map(&mut objects, &params).unwrap();
    for x in 0..d.map.width {
        for y in 0..d.map.height {
            let border = x == 0 || y == 0 || x == d.map.width - 1 || y == d.map.height - 1;
            assert_eq!(d.map.tiles[x as usize][y as usize].perimeter, border);
        }
    }
}

#[test]
fn open_cells_form_one_piece() {
    let params = GenParams::standard();
    for _ in 0..10 {
        let mut objects = vec![player()];
        let d = make_map(&mut objects, &params).unwrap();
        let (w, h) = (d.map.width as usize, d.map.height as usize);
        let open = |x: usize, y: usize| !d.map.tiles[x][y].blocked;
        let mut seen = vec![vec![false; h]; w];
        let start = (objects[0].x as usize, objects[0].y as usize);
        let mut stack = vec![start];
        seen[start.0][start.1] = true;
        while let Some((x, y)) = stack.pop() {
            let next = [(x + 1, y), (x - 1, y), (x, y + 1), (x, y - 1)];
            for &(nx, ny) in next.iter() {
                if nx < w && ny < h && open(nx, ny) && !seen[nx][ny] {
                    seen[nx][ny] = true;
                    stack.push((nx, ny));
                }
            }
        }
        for x in 0..w {
            for y in 0..h {
                assert_eq!(open(x, y), seen[x][y]);
            }
        }
    }
}
