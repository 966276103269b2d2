use vstd::prelude::*;
use vstd::string::*;

use crate::fov::Fov;
use crate::object::Object;

verus! {

/// The field of view is computed again only when the player has moved
/// since it was last computed (or it never was).
pub fn fov_needs_update(previous: Option<(i32, i32)>, current: (i32, i32)) -> (r: bool)
    ensures
        r == (previous != Some(current)),
{
    match previous {
        None => true,
        Some(p) => p.0 != current.0 || p.1 != current.1,
    }
}

/// The inventory slot a menu key selects: `a` (or `A`) is the first
/// option, `b` the second, and so on; any other key, or a letter past the
/// last option, selects nothing.
pub open spec fn menu_choice(key: char, options_len: int) -> Option<usize> {
    let c = key as u32;
    let index: int = if 97 <= c <= 122 {
        c - 97
    } else if 65 <= c <= 90 {
        c - 65
    } else {
        -1
    };
    if 0 <= index < options_len {
        Some(index as usize)
    } else {
        None
    }
}

pub fn menu_index(key: char, options_len: usize) -> (r: Option<usize>)
    ensures
        r == menu_choice(key, options_len as int),
{
    let c = key as u32;
    let index: u32 = if 97 <= c && c <= 122 {
        c - 97
    } else if 65 <= c && c <= 90 {
        c - 65
    } else {
        return None;
    };
    if (index as usize) < options_len {
        Some(index as usize)
    } else {
        None
    }
}

/// The lines of the inventory menu: the names of the items, or a single
/// line saying the inventory is empty.
pub fn inventory_options(inventory: &Vec<Object>) -> (r: Vec<String>)
    ensures
        inventory@.len() == 0 ==> r@.len() == 1 && r@[0]@ == "Inventory is empty."@,
        inventory@.len() > 0 ==> r@.len() == inventory@.len() && forall|i: int|
            0 <= i < r@.len() ==> (#[trigger] r@[i])@ == inventory@[i].name@,
{
    let mut options: Vec<String> = Vec::new();
    if inventory.len() == 0 {
        options.push(String::from_str("Inventory is empty."));
        return options;
    }
    let mut i: usize = 0;
    while i < inventory.len()
        invariant
            i <= inventory@.len(),
            options@.len() == i,
            forall|j: int| 0 <= j < i ==> (#[trigger] options@[j])@ == inventory@[j].name@,
        decreases inventory@.len() - i,
    {
        options.push(String::from_str(inventory[i].name.as_str()));
        i = i + 1;
    }
    options
}

/// The inventory slot an inventory menu yields: the chosen line, or nothing
/// when the inventory is empty (its one line only says so).
pub fn inventory_choice(inventory_len: usize, chosen: Option<usize>) -> (r: Option<usize>)
    ensures
        r == (if inventory_len == 0 { None } else { chosen }),
{
    if inventory_len == 0 {
        None
    } else {
        chosen
    }
}

/// The filled part of a bar `total_width` cells wide showing `value` out of
/// `maximum`, rounded toward zero; an empty bar when `maximum` is not positive.
pub open spec fn bar_width(value: int, maximum: int, total_width: int) -> int {
    if maximum <= 0 {
        0
    } else {
        let p = value * total_width;
        if p >= 0 {
            p / maximum
        } else {
            -((-p) / maximum)
        }
    }
}

pub fn bar_fill(value: i32, maximum: i32, total_width: i32) -> (r: i64)
    ensures
        r == bar_width(value as int, maximum as int, total_width as int),
{
    if maximum <= 0 {
        return 0;
    }
    let v = value as i64;
    let t = total_width as i64;
    assert(-0x4000_0000_0000_0000 <= v * t <= 0x4000_0000_0000_0000) by (nonlinear_arith)
        requires
            -0x8000_0000 <= v <= 0x8000_0000,
            -0x8000_0000 <= t <= 0x8000_0000,
    ;
    let p = v * t;
    let m = maximum as i64;
    if p >= 0 {
        p / m
    } else {
        let q = -p;
        assert(q / m <= q) by (nonlinear_arith)
            requires
                q >= 0,
                m >= 1,
        ;
        -(q / m)
    }
}

/// The slots of the objects in view whose blocking flag is `blocks`, in
/// slot order, among the first `n` objects.
pub open spec fn in_view(objects: Seq<Object>, fov: Fov, blocks: bool, n: int) -> Seq<usize>
    decreases n,
{
    if n <= 0 {
        Seq::empty()
    } else {
        let rest = in_view(objects, fov, blocks, n - 1);
        let o = objects[n - 1];
        if fov.visible(o.x as int, o.y as int) && o.blocks == blocks {
            rest.push((n - 1) as usize)
        } else {
            rest
        }
    }
}

fn collect_in_view(objects: &[Object], fov: &Fov, blocks: bool, out: &mut Vec<usize>)
    ensures
        final(out)@ == old(out)@ + in_view(objects@, *fov, blocks, objects@.len() as int),
{
    let mut i: usize = 0;
    while i < objects.len()
        invariant
            i <= objects@.len(),
            out@ == old(out)@ + in_view(objects@, *fov, blocks, i as int),
        decreases objects@.len() - i,
    {
        if objects[i].blocks == blocks && fov.is_in_fov(objects[i].x, objects[i].y) {
            out.push(i);
        }
        i = i + 1;
    }
}

/// The slots of the objects in view, in drawing order: those that do not
/// block first, so that monsters and the player are drawn over items and
/// corpses; each group in slot order.
pub fn draw_order(objects: &[Object], fov: &Fov) -> (r: Vec<usize>)
    ensures
        r@ == in_view(objects@, *fov, false, objects@.len() as int) + in_view(objects@, *fov, true, objects@.len() as int),
{
    let mut order: Vec<usize> = Vec::new();
    collect_in_view(objects, fov, false, &mut order);
    collect_in_view(objects, fov, true, &mut order);
    order
}

} // verus!
