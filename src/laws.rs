use vstd::prelude::*;

use crate::dungeon::{between, carved, generated, laid_out, lemma_room_carved, on_corridor, Dungeon, GenParams};
use crate::game_map::GameMap;
use crate::room::Room;
use crate::tile::Tile;
use crate::object::{damage_of, defense_of, power_of, Fighter, Object, ObjectView};
use crate::teleport::teleport_moved;

verus! {

/// Moving the teleport flag keeps exactly one teleport tile: when the only
/// teleport is at `(px, py)` and it moves to `(tx, ty)`, `(tx, ty)` is the
/// only teleport of the result.
pub proof fn teleport_move_keeps_one(before: GameMap, after: GameMap, px: int, py: int, tx: int, ty: int)
    requires
        before.sole_teleport_at(px, py),
        teleport_moved(before, after, px, py, tx, ty),
        before.in_bounds(tx, ty),
    ensures
        after.sole_teleport_at(tx, ty),
        after.one_teleport(),
{
    assert forall|i: int, j: int| after.in_bounds(i, j) && (#[trigger] after.cell(i, j)).teleport implies i == tx && j
        == ty by {}
}

/// The damage of an attack is a function of the attacker's power and the
/// defender's defense alone: the same stats always give the same damage.
pub proof fn attack_damage_is_pure(a1: ObjectView, d1: ObjectView, a2: ObjectView, d2: ObjectView)
    requires
        power_of(a1) == power_of(a2),
        defense_of(d1) == defense_of(d2),
    ensures
        damage_of(a1, d1) == damage_of(a2, d2),
{
}

/// A change of hit points: damage taken or healing received.
pub enum HpChange {
    Damage(i32),
    Heal(i32),
}

/// A fighter after a sequence of changes of hit points, in order.
pub open spec fn apply_hp_changes(f: Fighter, changes: Seq<HpChange>) -> Fighter
    decreases changes.len(),
{
    if changes.len() == 0 {
        f
    } else {
        let g = match changes[0] {
            HpChange::Damage(d) => f.took_damage(d as int),
            HpChange::Heal(a) => f.healed(a as int),
        };
        apply_hp_changes(g, changes.drop_first())
    }
}

/// Hit points stay within `[0, max_hp]` through any sequence of damage and
/// healing.
pub proof fn hp_stays_in_range(f: Fighter, changes: Seq<HpChange>)
    requires
        f.wf(),
    ensures
        apply_hp_changes(f, changes).wf(),
        apply_hp_changes(f, changes).max_hp == f.max_hp,
    decreases changes.len(),
{
    if changes.len() > 0 {
        let g = match changes[0] {
            HpChange::Damage(d) => f.took_damage(d as int),
            HpChange::Heal(a) => f.healed(a as int),
        };
        hp_stays_in_range(g, changes.drop_first());
    }
}

/// The cells `a` and `b` share a side.
pub open spec fn adjacent(a: (int, int), b: (int, int)) -> bool {
    ||| a.0 == b.0 && (a.1 - b.1 == 1 || b.1 - a.1 == 1)
    ||| a.1 == b.1 && (a.0 - b.0 == 1 || b.0 - a.0 == 1)
}

/// `path` is a walk over open cells of `map`, each cell next to the one before.
pub open spec fn open_path(map: GameMap, path: Seq<(int, int)>) -> bool {
    &&& path.len() >= 1
    &&& forall|i: int|
        0 <= i < path.len() ==> map.in_bounds((#[trigger] path[i]).0, path[i].1) && !map.cell(path[i].0, path[i].1).blocked
    &&& forall|i: int| 0 <= i < path.len() - 1 ==> adjacent(#[trigger] path[i], path[i + 1])
}

/// The cells from `(x0, y)` to `(x1, y)`, both included, in order.
pub open spec fn row_walk(x0: int, x1: int, y: int) -> Seq<(int, int)> {
    Seq::new(
        (if x1 >= x0 { x1 - x0 } else { x0 - x1 }) as nat + 1,
        |i: int| (if x1 >= x0 { x0 + i } else { x0 - i }, y),
    )
}

/// The cells from `(x, y0)` to `(x, y1)`, both included, in order.
pub open spec fn column_walk(x: int, y0: int, y1: int) -> Seq<(int, int)> {
    Seq::new(
        (if y1 >= y0 { y1 - y0 } else { y0 - y1 }) as nat + 1,
        |i: int| (x, if y1 >= y0 { y0 + i } else { y0 - i }),
    )
}

proof fn lemma_corridor_carved(rooms: Seq<Room>, h_first: Seq<bool>, n: int, k: int, x: int, y: int)
    requires
        1 <= k < n,
        on_corridor(rooms[k - 1], rooms[k], h_first[k], x, y),
    ensures
        carved(rooms, h_first, n, x, y),
    decreases n,
{
    if k < n - 1 {
        lemma_corridor_carved(rooms, h_first, n - 1, k, x, y);
    }
}

proof fn lemma_corridor_cell_open(
    map: GameMap,
    params: GenParams,
    rooms: Seq<Room>,
    h_first: Seq<bool>,
    k: int,
    x: int,
    y: int,
)
    requires
        map.wf(),
        map.width == params.width,
        map.height == params.height,
        params.valid(),
        laid_out(map, rooms, h_first),
        params.fits(rooms[k - 1]),
        params.fits(rooms[k]),
        1 <= k < rooms.len(),
        on_corridor(rooms[k - 1], rooms[k], h_first[k], x, y),
    ensures
        map.in_bounds(x, y),
        !map.cell(x, y).blocked,
{
    let prev = rooms[k - 1];
    let next = rooms[k];
    assert(prev.interior(prev.center_x(), prev.center_y()));
    assert(next.interior(next.center_x(), next.center_y()));
    assert(map.inner(x, y));
    lemma_corridor_carved(rooms, h_first, rooms.len() as int, k, x, y);
    assert(map.cell(x, y) == Tile::spec_empty() || map.cell(x, y) == Tile::spec_teleport());
}

/// The walk along the L-shaped corridor from `(px, py)` to `(nx, ny)`:
/// along the row first when `h_first`, else along the column first.
pub open spec fn corridor_walk(px: int, py: int, nx: int, ny: int, h_first: bool) -> Seq<(int, int)> {
    if h_first {
        row_walk(px, nx, py) + column_walk(nx, py, ny).drop_first()
    } else {
        column_walk(px, py, ny) + row_walk(px, nx, ny).drop_first()
    }
}

proof fn lemma_walk_shape(px: int, py: int, nx: int, ny: int, h_first: bool)
    ensures
        corridor_walk(px, py, nx, ny, h_first).len() >= 1,
        corridor_walk(px, py, nx, ny, h_first)[0] == (px, py),
        corridor_walk(px, py, nx, ny, h_first).last() == (nx, ny),
        forall|i: int|
            0 <= i < corridor_walk(px, py, nx, ny, h_first).len() - 1 ==> adjacent(
                #[trigger] corridor_walk(px, py, nx, ny, h_first)[i],
                corridor_walk(px, py, nx, ny, h_first)[i + 1],
            ),
        forall|i: int|
            0 <= i < corridor_walk(px, py, nx, ny, h_first).len() ==> ({
                let c = #[trigger] corridor_walk(px, py, nx, ny, h_first)[i];
                if h_first {
                    (c.1 == py && between(c.0, px, nx)) || (c.0 == nx && between(c.1, py, ny))
                } else {
                    (c.0 == px && between(c.1, py, ny)) || (c.1 == ny && between(c.0, px, nx))
                }
            }),
{
    let path = corridor_walk(px, py, nx, ny, h_first);
    let first = if h_first { row_walk(px, nx, py) } else { column_walk(px, py, ny) };
    let second = if h_first { column_walk(nx, py, ny) } else { row_walk(px, nx, ny) };
    assert(path == first + second.drop_first());
    assert forall|i: int| 0 <= i < path.len() - 1 implies adjacent(#[trigger] path[i], path[i + 1]) by {
        if i + 1 < first.len() {
            assert(path[i] == first[i] && path[i + 1] == first[i + 1]);
        } else if i + 1 == first.len() {
            assert(path[i] == first[i] && path[i + 1] == second[1]);
        } else {
            assert(path[i] == second[i - first.len() + 1] && path[i + 1] == second[i - first.len() + 2]);
        }
    }
    assert forall|i: int| 0 <= i < path.len() implies ({
        let c = #[trigger] path[i];
        if h_first {
            (c.1 == py && between(c.0, px, nx)) || (c.0 == nx && between(c.1, py, ny))
        } else {
            (c.0 == px && between(c.1, py, ny)) || (c.1 == ny && between(c.0, px, nx))
        }
    }) by {
        if i < first.len() {
            assert(path[i] == first[i]);
        } else {
            assert(path[i] == second[i - first.len() + 1]);
        }
    }
    assert(path[0] == (px, py));
    if second.len() > 1 {
        assert(path.last() == second.last());
    }
}

/// In a laid-out level whose rooms fit its map under valid parameters, the
/// centers of consecutive rooms are joined by a path of open cells along
/// the corridor between them.
pub proof fn consecutive_rooms_joined(map: GameMap, params: GenParams, rooms: Seq<Room>, h_first: Seq<bool>, k: int)
    requires
        map.wf(),
        map.width == params.width,
        map.height == params.height,
        params.valid(),
        laid_out(map, rooms, h_first),
        forall|i: int| 0 <= i < rooms.len() ==> params.fits(#[trigger] rooms[i]),
        1 <= k < rooms.len(),
    ensures
        exists|path: Seq<(int, int)>| {
            &&& #[trigger] open_path(map, path)
            &&& path[0] == (rooms[k - 1].center_x(), rooms[k - 1].center_y())
            &&& path.last() == (rooms[k].center_x(), rooms[k].center_y())
        },
{
    let prev = rooms[k - 1];
    let next = rooms[k];
    assert(params.fits(prev) && params.fits(next));
    let path = corridor_walk(prev.center_x(), prev.center_y(), next.center_x(), next.center_y(), h_first[k]);
    lemma_walk_shape(prev.center_x(), prev.center_y(), next.center_x(), next.center_y(), h_first[k]);
    assert forall|i: int| 0 <= i < path.len() implies map.in_bounds((#[trigger] path[i]).0, path[i].1) && !map.cell(
        path[i].0,
        path[i].1,
    ).blocked by {
        lemma_corridor_cell_open(map, params, rooms, h_first, k, path[i].0, path[i].1);
    }
    assert(open_path(map, path));
}

/// An open path of `map` leads from `a` to `b`.
pub open spec fn linked(map: GameMap, a: (int, int), b: (int, int)) -> bool {
    exists|path: Seq<(int, int)>| #[trigger] open_path(map, path) && path[0] == a && path.last() == b
}

proof fn lemma_linked_trans(map: GameMap, a: (int, int), b: (int, int), c: (int, int))
    requires
        linked(map, a, b),
        linked(map, b, c),
    ensures
        linked(map, a, c),
{
    let p1 = choose|path: Seq<(int, int)>| #[trigger] open_path(map, path) && path[0] == a && path.last() == b;
    let p2 = choose|path: Seq<(int, int)>| #[trigger] open_path(map, path) && path[0] == b && path.last() == c;
    let p = p1 + p2.drop_first();
    assert forall|i: int| 0 <= i < p.len() implies map.in_bounds((#[trigger] p[i]).0, p[i].1) && !map.cell(p[i].0, p[i].1).blocked by {
        if i < p1.len() {
            assert(p[i] == p1[i]);
        } else {
            assert(p[i] == p2[i - p1.len() + 1]);
        }
    }
    assert forall|i: int| 0 <= i < p.len() - 1 implies adjacent(#[trigger] p[i], p[i + 1]) by {
        if i + 1 < p1.len() {
            assert(p[i] == p1[i] && p[i + 1] == p1[i + 1]);
        } else if i + 1 == p1.len() {
            assert(p[i] == p1[i] && p[i + 1] == p2[1]);
        } else {
            assert(p[i] == p2[i - p1.len() + 1] && p[i + 1] == p2[i - p1.len() + 2]);
        }
    }
    if p2.len() > 1 {
        assert(p.last() == p2.last());
    }
    assert(open_path(map, p));
}

proof fn lemma_linked_sym(map: GameMap, a: (int, int), b: (int, int))
    requires
        linked(map, a, b),
    ensures
        linked(map, b, a),
{
    let p1 = choose|path: Seq<(int, int)>| #[trigger] open_path(map, path) && path[0] == a && path.last() == b;
    let n = p1.len() as int;
    let p = Seq::new(p1.len(), |i: int| p1[n - 1 - i]);
    assert forall|i: int| 0 <= i < p.len() implies map.in_bounds((#[trigger] p[i]).0, p[i].1) && !map.cell(p[i].0, p[i].1).blocked by {
        assert(p[i] == p1[n - 1 - i]);
    }
    assert forall|i: int| 0 <= i < p.len() - 1 implies adjacent(#[trigger] p[i], p[i + 1]) by {
        assert(p[i] == p1[n - 1 - i] && p[i + 1] == p1[n - 2 - i]);
        assert(adjacent(p1[n - 2 - i], p1[n - 1 - i]));
    }
    assert(open_path(map, p));
}

proof fn lemma_carved_witness(rooms: Seq<Room>, h_first: Seq<bool>, n: int, x: int, y: int) -> (i: int)
    requires
        carved(rooms, h_first, n, x, y),
    ensures
        0 <= i < n,
        rooms[i].interior(x, y) || (i >= 1 && on_corridor(rooms[i - 1], rooms[i], h_first[i], x, y)),
    decreases n,
{
    if carved(rooms, h_first, n - 1, x, y) {
        lemma_carved_witness(rooms, h_first, n - 1, x, y)
    } else {
        n - 1
    }
}

proof fn lemma_on_walk(px: int, py: int, nx: int, ny: int, h_first: bool, x: int, y: int) -> (j: int)
    requires
        if h_first {
            (y == py && between(x, px, nx)) || (x == nx && between(y, py, ny))
        } else {
            (x == px && between(y, py, ny)) || (y == ny && between(x, px, nx))
        },
    ensures
        0 <= j < corridor_walk(px, py, nx, ny, h_first).len(),
        corridor_walk(px, py, nx, ny, h_first)[j] == (x, y),
{
    let walk = corridor_walk(px, py, nx, ny, h_first);
    let dx = if nx >= px { nx - px } else { px - nx };
    let dy = if ny >= py { ny - py } else { py - ny };
    if h_first {
        let first = row_walk(px, nx, py);
        let second = column_walk(nx, py, ny);
        assert(walk == first + second.drop_first());
        if y == py && between(x, px, nx) {
            let j = if nx >= px { x - px } else { px - x };
            assert(walk[j] == first[j]);
            j
        } else {
            let t = if ny >= py { y - py } else { py - y };
            if t == 0 {
                assert(walk[dx] == first[dx]);
                dx
            } else {
                assert(walk[dx + t] == second[t]);
                dx + t
            }
        }
    } else {
        let first = column_walk(px, py, ny);
        let second = row_walk(px, nx, ny);
        assert(walk == first + second.drop_first());
        if x == px && between(y, py, ny) {
            let j = if ny >= py { y - py } else { py - y };
            assert(walk[j] == first[j]);
            j
        } else {
            let t = if nx >= px { x - px } else { px - x };
            if t == 0 {
                assert(walk[dy] == first[dy]);
                dy
            } else {
                assert(walk[dy + t] == second[t]);
                dy + t
            }
        }
    }
}

/// In a laid-out level whose rooms fit its map under valid parameters, any
/// two open cells are joined by a path of open cells, each next to the one
/// before: the level is all of one piece.
pub proof fn open_cells_connected(
    map: GameMap,
    params: GenParams,
    rooms: Seq<Room>,
    h_first: Seq<bool>,
    a: (int, int),
    b: (int, int),
)
    requires
        map.wf(),
        map.width == params.width,
        map.height == params.height,
        params.valid(),
        laid_out(map, rooms, h_first),
        forall|i: int| 0 <= i < rooms.len() ==> params.fits(#[trigger] rooms[i]),
        rooms.len() >= 1,
        map.in_bounds(a.0, a.1),
        !map.cell(a.0, a.1).blocked,
        map.in_bounds(b.0, b.1),
        !map.cell(b.0, b.1).blocked,
    ensures
        linked(map, a, b),
{
    let c0 = (rooms[0].center_x(), rooms[0].center_y());
    lemma_cell_to_first(map, params, rooms, h_first, a);
    lemma_cell_to_first(map, params, rooms, h_first, b);
    lemma_linked_sym(map, b, c0);
    lemma_linked_trans(map, a, c0, b);
}

/// Every level `make_map` makes is of one piece: any two of its open cells
/// are joined by a path of open cells, each next to the one before.
pub proof fn generated_level_connected(
    params: GenParams,
    d: Dungeon,
    before: Seq<Object>,
    after: Seq<Object>,
    a: (int, int),
    b: (int, int),
)
    requires
        params.valid(),
        generated(params, d, before, after),
        d.map.in_bounds(a.0, a.1),
        !d.map.cell(a.0, a.1).blocked,
        d.map.in_bounds(b.0, b.1),
        !d.map.cell(b.0, b.1).blocked,
    ensures
        linked(d.map, a, b),
{
    let h_first = choose|h_first: Seq<bool>| #[trigger] laid_out(d.map, d.rooms@, h_first);
    open_cells_connected(d.map, params, d.rooms@, h_first, a, b);
}

proof fn lemma_center_to_first(map: GameMap, params: GenParams, rooms: Seq<Room>, h_first: Seq<bool>, k: int)
    requires
        map.wf(),
        map.width == params.width,
        map.height == params.height,
        params.valid(),
        laid_out(map, rooms, h_first),
        forall|i: int| 0 <= i < rooms.len() ==> params.fits(#[trigger] rooms[i]),
        0 <= k < rooms.len(),
    ensures
        linked(map, (rooms[k].center_x(), rooms[k].center_y()), (rooms[0].center_x(), rooms[0].center_y())),
    decreases k,
{
    let c = (rooms[k].center_x(), rooms[k].center_y());
    if k == 0 {
        assert(params.fits(rooms[0]));
        assert(rooms[0].interior(c.0, c.1));
        lemma_room_cell_open(map, params, rooms, h_first, 0, c.0, c.1);
        let p = seq![c];
        assert(open_path(map, p));
    } else {
        consecutive_rooms_joined(map, params, rooms, h_first, k);
        lemma_linked_sym(map, (rooms[k - 1].center_x(), rooms[k - 1].center_y()), c);
        lemma_center_to_first(map, params, rooms, h_first, k - 1);
        lemma_linked_trans(
            map,
            c,
            (rooms[k - 1].center_x(), rooms[k - 1].center_y()),
            (rooms[0].center_x(), rooms[0].center_y()),
        );
    }
}

proof fn lemma_room_cell_open(
    map: GameMap,
    params: GenParams,
    rooms: Seq<Room>,
    h_first: Seq<bool>,
    i: int,
    x: int,
    y: int,
)
    requires
        map.wf(),
        map.width == params.width,
        map.height == params.height,
        laid_out(map, rooms, h_first),
        params.fits(rooms[i]),
        0 <= i < rooms.len(),
        rooms[i].interior(x, y),
    ensures
        map.in_bounds(x, y),
        !map.cell(x, y).blocked,
{
    assert(map.inner(x, y));
    lemma_room_carved(rooms, h_first, rooms.len() as int, i, x, y);
    assert(map.cell(x, y) == Tile::spec_empty() || map.cell(x, y) == Tile::spec_teleport());
}

proof fn lemma_cell_to_first(
    map: GameMap,
    params: GenParams,
    rooms: Seq<Room>,
    h_first: Seq<bool>,
    a: (int, int),
)
    requires
        map.wf(),
        map.width == params.width,
        map.height == params.height,
        params.valid(),
        laid_out(map, rooms, h_first),
        forall|i: int| 0 <= i < rooms.len() ==> params.fits(#[trigger] rooms[i]),
        rooms.len() >= 1,
        map.in_bounds(a.0, a.1),
        !map.cell(a.0, a.1).blocked,
    ensures
        linked(map, a, (rooms[0].center_x(), rooms[0].center_y())),
{
    let n = rooms.len() as int;
    assert(map.cell(a.0, a.1) == Tile::spec_empty() || map.cell(a.0, a.1) == Tile::spec_teleport() || !carved(rooms, h_first, n, a.0, a.1));
    assert(carved(rooms, h_first, n, a.0, a.1));
    let i = lemma_carved_witness(rooms, h_first, n, a.0, a.1);
    assert(params.fits(rooms[i]));
    if rooms[i].interior(a.0, a.1) {
        let r = rooms[i];
        let path = corridor_walk(a.0, a.1, r.center_x(), r.center_y(), true);
        lemma_walk_shape(a.0, a.1, r.center_x(), r.center_y(), true);
        assert(r.interior(r.center_x(), r.center_y()));
        assert forall|j: int| 0 <= j < path.len() implies map.in_bounds((#[trigger] path[j]).0, path[j].1) && !map.cell(
            path[j].0,
            path[j].1,
        ).blocked by {
            lemma_room_cell_open(map, params, rooms, h_first, i, path[j].0, path[j].1);
        }
        assert(open_path(map, path));
        lemma_center_to_first(map, params, rooms, h_first, i);
        lemma_linked_trans(map, a, (r.center_x(), r.center_y()), (rooms[0].center_x(), rooms[0].center_y()));
    } else {
        let prev = rooms[i - 1];
        let next = rooms[i];
        assert(params.fits(prev));
        let walk = corridor_walk(prev.center_x(), prev.center_y(), next.center_x(), next.center_y(), h_first[i]);
        lemma_walk_shape(prev.center_x(), prev.center_y(), next.center_x(), next.center_y(), h_first[i]);
        consecutive_rooms_joined(map, params, rooms, h_first, i);
        let hx = next.center_x();
        let hy = next.center_y();
        let j = lemma_on_walk(prev.center_x(), prev.center_y(), hx, hy, h_first[i], a.0, a.1);
        let p = walk.subrange(j, walk.len() as int);
        assert forall|t: int| 0 <= t < p.len() implies map.in_bounds((#[trigger] p[t]).0, p[t].1) && !map.cell(
            p[t].0,
            p[t].1,
        ).blocked by {
            assert(p[t] == walk[t + j]);
            lemma_corridor_cell_open(map, params, rooms, h_first, i, p[t].0, p[t].1);
        }
        assert forall|t: int| 0 <= t < p.len() - 1 implies adjacent(#[trigger] p[t], p[t + 1]) by {
            assert(p[t] == walk[t + j] && p[t + 1] == walk[t + j + 1]);
        }
        assert(open_path(map, p));
        lemma_center_to_first(map, params, rooms, h_first, i);
        lemma_linked_trans(map, a, (hx, hy), (rooms[0].center_x(), rooms[0].center_y()));
    }
}

} // verus!
