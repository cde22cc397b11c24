//! The hit-test producer for sprites.

use vstd::prelude::*;
use crate::candidates::SelectionCandidateEvent;
use crate::geometry::{Affine, Point, Rect, Rgba, covers, hit};
use crate::selection::{Selections, targets};

verus! {

/// The width and height of a sprite, fixed-point.
#[derive(Debug, Clone, Copy, PartialEq, Eq, Structural)]
pub struct Size {
    pub w: i32,
    pub h: i32,
}

/// What the sprite producer reads of one sprite. Sizes and the anchor are
/// fixed-point; the anchor runs from `-HALF_UNIT` (left or bottom edge) to
/// `HALF_UNIT` (right or top edge), `0` being the centre.
#[derive(Debug, Clone, Copy, PartialEq, Eq, Structural)]
pub struct SpriteInfo {
    pub entity: u64,
    /// The size set on the sprite itself, which wins over the image's.
    pub custom_size: Option<Size>,
    /// The size of the sprite's image, when it is loaded.
    pub image_size: Option<Size>,
    pub anchor_x: i32,
    pub anchor_y: i32,
    pub transform: Affine,
}

/// `x / 256`, rounded toward zero.
pub open spec fn div_unit(x: int) -> int {
    if x >= 0 {
        x / 256
    } else {
        -((-x) / 256)
    }
}

/// One edge of the quad of a sprite of length `len` anchored at `anchor`,
/// `side` being `-HALF_UNIT` or `HALF_UNIT`: `(side - anchor) * len` back in
/// fixed point, rounded toward zero.
pub open spec fn quad_edge(side: int, anchor: int, len: int) -> int {
    div_unit((side - anchor) * len)
}

fn quad_edge_exec(side: i64, anchor: i32, len: i32) -> (r: i64)
    requires
        side == -128 || side == 128,
    ensures
        r == quad_edge(side as int, anchor as int, len as int),
{
    let d: i64 = side - anchor as i64;
    proof {
        assert(-0x8000_0080 <= d <= 0x8000_0080);
        assert(-0x8000_0080 * 0x8000_0000 <= d * len <= 0x8000_0080 * 0x8000_0000) by (nonlinear_arith)
            requires
                -0x8000_0080 <= d <= 0x8000_0080,
                -0x8000_0000 <= len <= 0x8000_0000,
        ;
    }
    let p: i64 = d * len as i64;
    if p >= 0 {
        p / 256
    } else {
        -((-p) / 256)
    }
}

/// The size a sprite is drawn at: its own, else its image's, else none.
pub open spec fn sprite_size(s: SpriteInfo) -> Option<Size> {
    match s.custom_size {
        Some(sz) => Some(sz),
        None => s.image_size,
    }
}

/// The quad of a sprite of size `sz`, in its local space.
pub open spec fn sprite_rect(s: SpriteInfo, sz: Size) -> Rect {
    Rect {
        min_x: quad_edge(-128, s.anchor_x as int, sz.w as int) as i64,
        min_y: quad_edge(-128, s.anchor_y as int, sz.h as int) as i64,
        max_x: quad_edge(128, s.anchor_x as int, sz.w as int) as i64,
        max_y: quad_edge(128, s.anchor_y as int, sz.h as int) as i64,
    }
}

/// What the producer reports of one sprite with cursor `c`: an insertion
/// with its quad while the quad covers the cursor, else a removal; nothing
/// for a sprite without size.
pub open spec fn sprite_event(s: SpriteInfo, c: Point) -> Option<SelectionCandidateEvent> {
    match sprite_size(s) {
        None => None,
        Some(sz) => {
            let r = sprite_rect(s, sz);
            if covers(s.transform, r, c) {
                Some(SelectionCandidateEvent::Insert { entity: s.entity, color: Rgba::pink_spec(), bounds: r })
            } else {
                Some(SelectionCandidateEvent::Remove { entity: s.entity })
            }
        },
    }
}

/// The events for `sprites` in order, skipping those already selected.
pub open spec fn sprite_events(sprites: Seq<SpriteInfo>, selected: Set<u64>, c: Point) -> Seq<
    SelectionCandidateEvent,
>
    decreases sprites.len(),
{
    if sprites.len() == 0 {
        Seq::empty()
    } else {
        let rest = sprite_events(sprites.drop_last(), selected, c);
        let s = sprites.last();
        if selected.contains(s.entity) {
            rest
        } else {
            match sprite_event(s, c) {
                Some(ev) => rest.push(ev),
                None => rest,
            }
        }
    }
}

/// Tests every sprite that is not selected against the world cursor and
/// reports each as a candidate or not.
pub fn select_sprites(sprites: &Vec<SpriteInfo>, selections: &Selections, cursor: Point) -> (r: Vec<
    SelectionCandidateEvent,
>)
    ensures
        r@ == sprite_events(sprites@, targets(selections@), cursor),
{
    let mut out: Vec<SelectionCandidateEvent> = Vec::new();
    let mut i: usize = 0;
    while i < sprites.len()
        invariant
            i <= sprites@.len(),
            out@ == sprite_events(sprites@.subrange(0, i as int), targets(selections@), cursor),
        decreases sprites@.len() - i,
    {
        let s = sprites[i];
        proof {
            assert(sprites@.subrange(0, i as int + 1).drop_last() =~= sprites@.subrange(0, i as int));
        }
        if !selections.is_selected(s.entity) {
            let size = match s.custom_size {
                Some(sz) => Some(sz),
                None => s.image_size,
            };
            match size {
                Some(sz) => {
                    let rect = Rect {
                        min_x: quad_edge_exec(-128, s.anchor_x, sz.w),
                        min_y: quad_edge_exec(-128, s.anchor_y, sz.h),
                        max_x: quad_edge_exec(128, s.anchor_x, sz.w),
                        max_y: quad_edge_exec(128, s.anchor_y, sz.h),
                    };
                    if hit(&s.transform, &rect, cursor) {
                        out.push(SelectionCandidateEvent::Insert { entity: s.entity, color: Rgba::pink(), bounds: rect });
                    } else {
                        out.push(SelectionCandidateEvent::Remove { entity: s.entity });
                    }
                },
                None => {},
            }
        }
        i = i + 1;
    }
    assert(sprites@.subrange(0, i as int) =~= sprites@);
    out
}

} // verus!
