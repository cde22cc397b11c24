//! Choosing the active tilemap under the cursor.

use vstd::prelude::*;
use crate::geometry::{Affine, Point, Rect, covers, hit, lemma_mul_bound};

verus! {

/// What the picker reads of one tilemap. Grid cell sizes are fixed-point.
#[derive(Debug, Clone, Copy, PartialEq, Eq, Structural)]
pub struct TilemapInfo {
    pub entity: u64,
    /// Cells along x and y.
    pub size_x: u32,
    pub size_y: u32,
    /// The size of one grid cell.
    pub grid_x: i32,
    pub grid_y: i32,
    /// Whether the grid is square; only square grids can be picked.
    pub square: bool,
    pub transform: Affine,
}

/// The tilemap the tilemap tools work on.
#[derive(Debug, Clone, Copy, PartialEq, Eq, Structural)]
pub struct SelectedTilemap {
    pub entity: Option<u64>,
}

/// `x / 2`, rounded toward zero.
pub open spec fn half(x: int) -> int {
    if x >= 0 {
        x / 2
    } else {
        -((-x) / 2)
    }
}

fn half_exec(x: i64) -> (r: i64)
    ensures
        r == half(x as int),
{
    if x >= 0 {
        x / 2
    } else {
        -((-(x as i128)) / 2) as i64
    }
}

/// The area of a tilemap's grid in its local space: cells are centred on
/// their grid points, the first at the origin.
pub open spec fn grid_rect(t: TilemapInfo) -> Rect {
    Rect {
        min_x: half(-t.grid_x) as i64,
        min_y: half(-t.grid_y) as i64,
        max_x: (t.size_x * t.grid_x + half(-t.grid_x)) as i64,
        max_y: (t.size_y * t.grid_y + half(-t.grid_y)) as i64,
    }
}

fn grid_rect_exec(t: &TilemapInfo) -> (r: Rect)
    ensures
        r == grid_rect(*t),
{
    proof {
        lemma_mul_bound(t.size_x as int, t.grid_x as int, 0xFFFF_FFFF, 0x8000_0000);
        lemma_mul_bound(t.size_y as int, t.grid_y as int, 0xFFFF_FFFF, 0x8000_0000);
    }
    let px: i64 = t.size_x as i64 * t.grid_x as i64;
    let py: i64 = t.size_y as i64 * t.grid_y as i64;
    let hx = half_exec(-(t.grid_x as i64));
    let hy = half_exec(-(t.grid_y as i64));
    Rect {
        min_x: hx,
        min_y: hy,
        max_x: px + hx,
        max_y: py + hy,
    }
}

/// The pick after the tilemaps `ts`, as the chosen tilemap and its depth:
/// a square tilemap whose grid covers `c` replaces the pick when it lies
/// strictly above it.
pub open spec fn scan_tilemaps(ts: Seq<TilemapInfo>, c: Point) -> (Option<u64>, Option<int>)
    decreases ts.len(),
{
    if ts.len() == 0 {
        (None, None)
    } else {
        let (e, z) = scan_tilemaps(ts.drop_last(), c);
        let t = ts.last();
        let above = match z {
            Some(z) => t.transform.tz > z,
            None => true,
        };
        if t.square && above && covers(t.transform, grid_rect(t), c) {
            (Some(t.entity), Some(t.transform.tz as int))
        } else {
            (e, z)
        }
    }
}

/// Picks the topmost square tilemap whose grid covers the world cursor;
/// among tilemaps at the same depth, the first. None when no grid covers it.
pub fn cursor_tilemap_select(tilemaps: &Vec<TilemapInfo>, cursor: Point) -> (r: SelectedTilemap)
    ensures
        r.entity == scan_tilemaps(tilemaps@, cursor).0,
{
    let mut picked: Option<u64> = None;
    let mut closest: Option<i32> = None;
    let mut i: usize = 0;
    while i < tilemaps.len()
        invariant
            i <= tilemaps@.len(),
            (picked, match closest {
                Some(z) => Some(z as int),
                None => None,
            }) == scan_tilemaps(tilemaps@.subrange(0, i as int), cursor),
        decreases tilemaps@.len() - i,
    {
        let t = tilemaps[i];
        proof {
            assert(tilemaps@.subrange(0, i as int + 1).drop_last() =~= tilemaps@.subrange(0, i as int));
        }
        let above = match closest {
            Some(z) => t.transform.tz > z,
            None => true,
        };
        if t.square && above {
            let rect = grid_rect_exec(&t);
            if hit(&t.transform, &rect, cursor) {
                picked = Some(t.entity);
                closest = Some(t.transform.tz);
            }
        }
        i = i + 1;
    }
    assert(tilemaps@.subrange(0, i as int) =~= tilemaps@);
    SelectedTilemap { entity: picked }
}

} // verus!
