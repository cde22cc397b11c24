use iyes2d_editor::candidates::SelectionCandidateEvent;
use iyes2d_editor::geometry::{Affine, Point, Rect, Rgba};
use iyes2d_editor::selection::{confirm_selection_on_click, setup_selection_pending, Selections};
use iyes2d_editor::candidates::SelectionCandidates;
use iyes2d_editor::sprite::{select_sprites, Size, SpriteInfo};
use iyes2d_editor::tilemap::{cursor_tilemap_select, TilemapInfo};

fn at(x: i32, y: i32, z: i32) -> Affine {
    Affine { m00: 256, m01: 0, m10: 0, m11: 256, tx: x, ty: y, tz: z }
}

fn sprite(e: u64, size: Option<Size>, image: Option<Size>, ax: i32, ay: i32) -> SpriteInfo {
    SpriteInfo { entity: e, custom_size: size, image_size: image, anchor_x: ax, anchor_y: ay, transform: at(0, 0, 0) }
}

#[test]
fn sprite_under_cursor_is_inserted() {
    let s = sprite(1, Some(Size { w: 25600, h: 51200 }), None, 0, 0);
    let evs = select_sprites(&vec![s], &Selections::new(), Point { x: 100, y: 100 });
    assert_eq!(
        evs,
        vec![SelectionCandidateEvent::Insert {
            entity: 1,
            color: Rgba::pink(),
            bounds: Rect { min_x: -12800, min_y: -25600, max_x: 12800, max_y: 25600 },
        }]
    );
}

#[test]
fn sprite_away_from_cursor_is_removed() {
    let s = sprite(2, None, Some(Size { w: 512, h: 512 }), 0, 0);
    let evs = select_sprites(&vec![s], &Selections::new(), Point { x: 1000, y: 0 });
    assert_eq!(evs, vec![SelectionCandidateEvent::Remove { entity: 2 }]);
}

#[test]
fn sprite_anchor_shifts_quad() {
    let s = sprite(3, Some(Size { w: 512, h: 256 }), Some(Size { w: 1, h: 1 }), -128, 128);
    let evs = select_sprites(&vec![s], &Selections::new(), Point { x: 10, y: -10 });
    assert_eq!(
        evs,
        vec![SelectionCandidateEvent::Insert {
            entity: 3,
            color: Rgba::pink(),
            bounds: Rect { min_x: 0, min_y: -256, max_x: 512, max_y: 0 },
        }]
    );
}

#[test]
fn sprite_quad_rounds_toward_zero() {
    let s = sprite(4, Some(Size { w: 3, h: 3 }), None, 0, 0);
    let evs = select_sprites(&vec![s], &Selections::new(), Point { x: 0, y: 0 });
    assert_eq!(
        evs,
        vec![SelectionCandidateEvent::Insert {
            entity: 4,
            color: Rgba::pink(),
            bounds: Rect { min_x: -1, min_y: -1, max_x: 1, max_y: 1 },
        }]
    );
}

#[test]
fn sprites_without_size_or_selected_are_skipped() {
    let mut sel = Selections::new();
    let mut reg = SelectionCandidates::new();
    let mut ph = setup_selection_pending();
    ph.pending.target = Some(6);
    confirm_selection_on_click(&mut ph, &mut reg, &mut sel, 60);
    let sprites = vec![
        sprite(5, None, None, 0, 0),
        sprite(6, Some(Size { w: 256, h: 256 }), None, 0, 0),
        sprite(7, Some(Size { w: 256, h: 256 }), None, 0, 0),
    ];
    let evs = select_sprites(&sprites, &sel, Point { x: 0, y: 0 });
    assert_eq!(evs.len(), 1);
    assert!(matches!(evs[0], SelectionCandidateEvent::Insert { entity: 7, .. }));
}

fn tilemap(e: u64, z: i32, square: bool) -> TilemapInfo {
    TilemapInfo { entity: e, size_x: 4, size_y: 4, grid_x: 256, grid_y: 256, square, transform: at(0, 0, z) }
}

#[test]
fn topmost_tilemap_is_picked() {
    let maps = vec![tilemap(1, 0, true), tilemap(2, 5, true), tilemap(3, 5, true), tilemap(4, 9, false)];
    assert_eq!(cursor_tilemap_select(&maps, Point { x: 300, y: 300 }).entity, Some(2));
}

#[test]
fn tilemap_grid_bounds() {
    let maps = vec![tilemap(1, 0, true)];
    assert_eq!(cursor_tilemap_select(&maps, Point { x: -128, y: -128 }).entity, Some(1));
    assert_eq!(cursor_tilemap_select(&maps, Point { x: 896, y: 896 }).entity, Some(1));
    assert_eq!(cursor_tilemap_select(&maps, Point { x: 897, y: 0 }).entity, None);
    assert_eq!(cursor_tilemap_select(&maps, Point { x: -129, y: 0 }).entity, None);
    assert_eq!(cursor_tilemap_select(&vec![], Point { x: 0, y: 0 }).entity, None);
}
