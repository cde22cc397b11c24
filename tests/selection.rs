use iyes2d_editor::candidates::{SelectionCandidateEvent, SelectionCandidates};
use iyes2d_editor::geometry::{hit, Affine, Point, Rect, Rgba};
use iyes2d_editor::scene::{resolve, Placement};
use iyes2d_editor::scroll::{ScrollAccumulator, ScrollEvent, ScrollUnit};
use iyes2d_editor::selection::{
    confirm_selection_on_click, deselect_selections_on_click, disambiguate_candidates, handle_click,
    selection_follow_entity_transform, setup_selection_pending, update_pending_visual, PendingHighlight,
    Selected, Selection, SelectionBundle, Selections, PENDING_ALPHA, SELECTED_ALPHA,
};

fn at(x: i32, y: i32, z: i32) -> Affine {
    Affine { m00: 256, m01: 0, m10: 0, m11: 256, tx: x, ty: y, tz: z }
}

fn rect(a: i64, b: i64, c: i64, d: i64) -> Rect {
    Rect { min_x: a, min_y: b, max_x: c, max_y: d }
}

fn red() -> Rgba {
    Rgba { r: 255, g: 0, b: 0, a: 255 }
}

fn insert(e: u64) -> SelectionCandidateEvent {
    SelectionCandidateEvent::Insert { entity: e, color: red(), bounds: rect(-100, -100, 100, 100) }
}

fn line(y: i32) -> ScrollEvent {
    ScrollEvent { unit: ScrollUnit::Line, y }
}

fn pixel(y: i32) -> ScrollEvent {
    ScrollEvent { unit: ScrollUnit::Pixel, y }
}

struct World {
    ph: PendingHighlight,
    reg: SelectionCandidates,
    wheel: ScrollAccumulator,
    sel: Selections,
}

fn world() -> World {
    World {
        ph: setup_selection_pending(),
        reg: SelectionCandidates::new(),
        wheel: ScrollAccumulator::new(),
        sel: Selections::new(),
    }
}

fn cursor_step(w: &mut World, wheel: Vec<ScrollEvent>, scene: &Vec<Placement>) {
    disambiguate_candidates(&mut w.ph.pending, &w.reg, &mut w.wheel, &wheel, scene, &w.sel);
}

#[test]
fn registry_insert_overwrite_remove() {
    let mut reg = SelectionCandidates::new();
    assert!(reg.is_empty());
    assert!(reg.is_changed());
    reg.handle_candidate_events(&vec![insert(1), insert(2)]);
    assert_eq!(reg.len(), 2);
    let other = SelectionCandidateEvent::Insert { entity: 1, color: Rgba::pink(), bounds: rect(0, 0, 5, 5) };
    reg.handle_candidate_events(&vec![other]);
    assert_eq!(reg.get(1), Some((Rgba::pink(), rect(0, 0, 5, 5))));
    reg.handle_candidate_events(&vec![SelectionCandidateEvent::Remove { entity: 2 }]);
    assert_eq!(reg.get(2), None);
    assert_eq!(reg.entities(), vec![1]);
    reg.handle_candidate_events(&vec![]);
    assert!(!reg.is_changed());
}

#[test]
fn registry_insert_twice_same_as_once() {
    let mut once = SelectionCandidates::new();
    once.handle_candidate_events(&vec![insert(7)]);
    let mut twice = SelectionCandidates::new();
    twice.handle_candidate_events(&vec![insert(7), insert(7)]);
    assert_eq!(once.entities(), twice.entities());
    assert_eq!(once.get(7), twice.get(7));
}

#[test]
fn registry_remove_then_absent() {
    let mut reg = SelectionCandidates::new();
    reg.handle_candidate_events(&vec![insert(3), SelectionCandidateEvent::Remove { entity: 3 }]);
    assert_eq!(reg.get(3), None);
    assert!(reg.is_empty());
    reg.handle_candidate_events(&vec![SelectionCandidateEvent::Remove { entity: 3 }]);
    assert!(reg.is_empty());
    assert!(reg.is_changed());
}

#[test]
fn events_apply_in_event_order() {
    let mut reg = SelectionCandidates::new();
    reg.handle_candidate_events(&vec![SelectionCandidateEvent::Remove { entity: 4 }, insert(4)]);
    assert!(reg.get(4).is_some());
    reg.handle_candidate_events(&vec![insert(4), SelectionCandidateEvent::Remove { entity: 4 }]);
    assert!(reg.get(4).is_none());
}

#[test]
fn pixel_accumulation_threshold() {
    let mut acc = ScrollAccumulator::new();
    let nine: Vec<ScrollEvent> = (0..9).map(|_| pixel(512)).collect();
    assert_eq!(acc.step(&nine), 1);
    assert_eq!(acc.pixels(), 0);
    assert_eq!(acc.step(&vec![pixel(256)]), 0);
    assert_eq!(acc.pixels(), 256);
}

#[test]
fn pixel_accumulation_across_frames() {
    let mut acc = ScrollAccumulator::new();
    for _ in 0..8 {
        assert_eq!(acc.step(&vec![pixel(-512)]), 0);
    }
    assert_eq!(acc.pixels(), -4096);
    assert_eq!(acc.step(&vec![pixel(-512)]), -1);
    assert_eq!(acc.pixels(), 0);
}

#[test]
fn line_events_step_and_reset_pixels() {
    let mut acc = ScrollAccumulator::new();
    assert_eq!(acc.step(&vec![pixel(1000)]), 0);
    assert_eq!(acc.step(&vec![line(1)]), 1);
    assert_eq!(acc.pixels(), 0);
    assert_eq!(acc.step(&vec![line(1), line(-3)]), -1);
    assert_eq!(acc.step(&vec![line(-1), line(0)]), -1);
    assert_eq!(acc.step(&vec![line(0)]), 0);
}

#[test]
fn pixel_sum_past_threshold_wins_over_line() {
    let mut acc = ScrollAccumulator::new();
    assert_eq!(acc.step(&vec![line(1), pixel(-5000)]), -1);
    assert_eq!(acc.pixels(), 0);
}

#[test]
fn cycling_wraps() {
    let mut w = world();
    let scene = vec![
        Placement { entity: 10, xf: at(0, 0, 0) },
        Placement { entity: 11, xf: at(0, 0, 1) },
        Placement { entity: 12, xf: at(0, 0, 2) },
    ];
    w.reg.handle_candidate_events(&vec![insert(12), insert(10), insert(11)]);
    w.ph.pending.target = Some(12);
    w.reg.handle_candidate_events(&vec![]);
    cursor_step(&mut w, vec![line(1)], &scene);
    assert_eq!(w.ph.pending.target, Some(10));
    cursor_step(&mut w, vec![line(-1)], &scene);
    assert_eq!(w.ph.pending.target, Some(12));
}

#[test]
fn cursor_anchors_first_and_ties_break_by_id() {
    let mut w = world();
    let scene = vec![
        Placement { entity: 21, xf: at(0, 0, 5) },
        Placement { entity: 20, xf: at(0, 0, 5) },
        Placement { entity: 22, xf: at(0, 0, -1) },
    ];
    w.reg.handle_candidate_events(&vec![insert(21), insert(20), insert(22)]);
    cursor_step(&mut w, vec![], &scene);
    assert_eq!(w.ph.pending.target, Some(22));
    assert!(w.ph.pending.changed);
    w.reg.handle_candidate_events(&vec![]);
    cursor_step(&mut w, vec![line(1)], &scene);
    assert_eq!(w.ph.pending.target, Some(20));
    cursor_step(&mut w, vec![line(1)], &scene);
    assert_eq!(w.ph.pending.target, Some(21));
}

#[test]
fn cursor_skips_unresolvable_and_selected() {
    let mut w = world();
    let scene = vec![Placement { entity: 31, xf: at(0, 0, 3) }, Placement { entity: 32, xf: at(0, 0, 0) }];
    w.reg.handle_candidate_events(&vec![insert(30), insert(31), insert(32)]);
    w.ph.pending.target = Some(32);
    confirm_selection_on_click(&mut w.ph, &mut w.reg, &mut w.sel, 900);
    w.reg.handle_candidate_events(&vec![insert(32)]);
    cursor_step(&mut w, vec![], &scene);
    assert_eq!(w.ph.pending.target, Some(31));
}

#[test]
fn cursor_empties_when_no_candidate() {
    let mut w = world();
    w.ph.pending.target = Some(5);
    w.reg.handle_candidate_events(&vec![SelectionCandidateEvent::Remove { entity: 5 }]);
    cursor_step(&mut w, vec![], &vec![]);
    assert_eq!(w.ph.pending.target, None);
}

#[test]
fn cursor_stays_without_change_or_step() {
    let mut w = world();
    let scene = vec![Placement { entity: 1, xf: at(0, 0, 0) }, Placement { entity: 2, xf: at(0, 0, 1) }];
    w.reg.handle_candidate_events(&vec![insert(1), insert(2)]);
    w.ph.pending.target = Some(2);
    w.ph.pending.changed = false;
    w.reg.handle_candidate_events(&vec![]);
    cursor_step(&mut w, vec![pixel(100)], &scene);
    assert_eq!(w.ph.pending.target, Some(2));
    assert!(!w.ph.pending.changed);
}

#[test]
fn pending_visual_takes_candidate_at_pending_alpha() {
    let mut w = world();
    w.reg.handle_candidate_events(&vec![insert(8)]);
    w.ph.pending.target = Some(8);
    w.ph.pending.changed = true;
    update_pending_visual(&mut w.ph, &w.reg, &vec![]);
    assert_eq!(w.ph.bounds, rect(-100, -100, 100, 100));
    assert_eq!(w.ph.color, Rgba { r: 255, g: 0, b: 0, a: PENDING_ALPHA });
    assert!(!w.ph.pending.changed);
    let newer = SelectionCandidateEvent::Insert { entity: 8, color: Rgba::pink(), bounds: rect(1, 2, 3, 4) };
    update_pending_visual(&mut w.ph, &w.reg, &vec![newer, insert(9)]);
    assert_eq!(w.ph.bounds, rect(1, 2, 3, 4));
    assert_eq!(w.ph.color, Rgba::pink().with_alpha(64));
}

#[test]
fn pending_visual_clears_without_target() {
    let mut w = world();
    update_pending_visual(&mut w.ph, &w.reg, &vec![insert(1)]);
    assert_eq!(w.ph.bounds, Rect::zero());
    assert_eq!(w.ph.color, Rgba::none());
    w.ph.pending.target = Some(77);
    w.ph.pending.changed = true;
    update_pending_visual(&mut w.ph, &w.reg, &vec![]);
    assert_eq!(w.ph.bounds, Rect::zero());
    assert_eq!(w.ph.color, Rgba { r: 0, g: 0, b: 0, a: 0 });
}

#[test]
fn confirm_clears_candidacy() {
    let mut w = world();
    w.reg.handle_candidate_events(&vec![insert(40)]);
    w.ph.pending.target = Some(40);
    w.ph.bounds = rect(-100, -100, 100, 100);
    w.ph.color = red().with_alpha(PENDING_ALPHA);
    w.ph.transform = at(5, 6, 7);
    confirm_selection_on_click(&mut w.ph, &mut w.reg, &mut w.sel, 500);
    assert!(w.reg.is_empty());
    assert_eq!(w.ph.pending.target, None);
    assert_eq!(w.sel.len(), 1);
    let (id, b) = w.sel.get(0);
    assert_eq!(id, 500);
    assert_eq!(b.selection, Selection { target: 40 });
    assert_eq!(b.transform, at(5, 6, 7));
    assert_eq!(b.bounds, rect(-100, -100, 100, 100));
    assert_eq!(b.color, Rgba { r: 255, g: 0, b: 0, a: SELECTED_ALPHA });
    assert!(w.sel.is_selected(40));
    assert_eq!(w.sel.selected(40), Some(Selected { selection: 500 }));
    assert_eq!(w.sel.selected_targets(), vec![40]);
}

#[test]
fn confirm_without_pending_only_clears_cursor() {
    let mut w = world();
    w.reg.handle_candidate_events(&vec![insert(1)]);
    w.ph.pending.changed = false;
    confirm_selection_on_click(&mut w.ph, &mut w.reg, &mut w.sel, 1);
    assert_eq!(w.sel.len(), 0);
    assert!(!w.reg.is_empty());
    assert!(w.ph.pending.changed);
}

fn one_selection(w: &mut World) {
    let mut reg = SelectionCandidates::new();
    reg.handle_candidate_events(&vec![insert(50)]);
    w.ph.pending.target = Some(50);
    w.ph.bounds = rect(-1000, -1000, 1000, 1000);
    w.ph.transform = at(0, 0, 0);
    confirm_selection_on_click(&mut w.ph, &mut reg, &mut w.sel, 600);
}

#[test]
fn deselect_precedence() {
    let mut w = world();
    one_selection(&mut w);
    w.reg.handle_candidate_events(&vec![insert(51)]);
    let removed = handle_click(&mut w.ph, &mut w.reg, &mut w.sel, Point { x: 10, y: 10 }, 601);
    assert!(removed.is_empty());
    assert!(w.sel.is_selected(50));
    w.reg.handle_candidate_events(&vec![SelectionCandidateEvent::Remove { entity: 51 }]);
    let removed = handle_click(&mut w.ph, &mut w.reg, &mut w.sel, Point { x: 10, y: 10 }, 602);
    assert_eq!(removed.len(), 1);
    assert_eq!(removed[0].0, 600);
    assert!(!w.sel.is_selected(50));
    assert_eq!(w.sel.selected(50), None);
}

#[test]
fn deselect_misses_outside_and_removes_all_hit() {
    let mut w = world();
    one_selection(&mut w);
    one_selection(&mut w);
    let removed = deselect_selections_on_click(&w.reg, Point { x: 5000, y: 0 }, &mut w.sel);
    assert!(removed.is_empty());
    assert_eq!(w.sel.len(), 2);
    let removed = deselect_selections_on_click(&w.reg, Point { x: -1000, y: 1000 }, &mut w.sel);
    assert_eq!(removed.len(), 2);
    assert_eq!(w.sel.len(), 0);
}

#[test]
fn transform_follow() {
    let mut w = world();
    one_selection(&mut w);
    let moved = vec![Placement { entity: 50, xf: at(30, -20, 0) }];
    selection_follow_entity_transform(&mut w.ph, &mut w.sel, &moved);
    assert_eq!(w.sel.get(0).1.transform, at(30, -20, 0));
    selection_follow_entity_transform(&mut w.ph, &mut w.sel, &vec![]);
    assert_eq!(w.sel.get(0).1.transform, at(30, -20, 0));
    w.ph.pending.target = Some(70);
    selection_follow_entity_transform(&mut w.ph, &mut w.sel, &vec![Placement { entity: 70, xf: at(1, 1, 1) }]);
    assert_eq!(w.ph.transform, at(1, 1, 1));
}

#[test]
fn end_to_end_scenario() {
    let mut w = world();
    let scene = vec![Placement { entity: 101, xf: at(0, 0, 1) }, Placement { entity: 102, xf: at(0, 0, 2) }];
    let frame1 = vec![insert(102), insert(101)];
    w.reg.handle_candidate_events(&frame1);
    cursor_step(&mut w, vec![], &scene);
    assert_eq!(w.ph.pending.target, Some(101));
    update_pending_visual(&mut w.ph, &w.reg, &frame1);
    let frame2 = vec![insert(102), insert(101)];
    w.reg.handle_candidate_events(&frame2);
    cursor_step(&mut w, vec![line(1)], &scene);
    assert_eq!(w.ph.pending.target, Some(102));
    update_pending_visual(&mut w.ph, &w.reg, &frame2);
    let removed = handle_click(&mut w.ph, &mut w.reg, &mut w.sel, Point { x: 0, y: 0 }, 700);
    assert!(removed.is_empty());
    assert_eq!(w.sel.selected(102), Some(Selected { selection: 700 }));
    assert_eq!(w.reg.entities(), vec![101]);
    assert_eq!(w.ph.pending.target, None);
}

#[test]
fn selection_bundle_builders() {
    let b = SelectionBundle::from_entity(9);
    assert_eq!(b.selection.target, 9);
    assert_eq!(b.bounds, Rect::unit_square());
    assert_eq!(b.color, Rgba { r: 255, g: 20, b: 148, a: 128 });
    assert_eq!(b.transform, Affine::identity());
    let b = b.with_bounds(rect(1, 1, 2, 2)).with_color(red()).with_transform(at(1, 2, 3));
    assert_eq!(b.bounds, rect(1, 1, 2, 2));
    assert_eq!(b.color, red());
    assert_eq!(b.transform, at(1, 2, 3));
}

#[test]
fn hit_test_translation_rotation_and_degenerate() {
    let r = rect(-256, -256, 256, 256);
    assert!(hit(&at(1000, 0, 0), &r, Point { x: 1200, y: 100 }));
    assert!(!hit(&at(1000, 0, 0), &r, Point { x: 0, y: 0 }));
    assert!(hit(&at(0, 0, 0), &r, Point { x: 256, y: -256 }));
    let quarter = Affine { m00: 0, m01: -256, m10: 256, m11: 0, tx: 0, ty: 0, tz: 0 };
    let wide = rect(0, -10, 512, 10);
    assert!(hit(&quarter, &wide, Point { x: 0, y: 400 }));
    assert!(!hit(&quarter, &wide, Point { x: 400, y: 0 }));
    let doubled = Affine { m00: 512, m01: 0, m10: 0, m11: 512, tx: 0, ty: 0, tz: 0 };
    assert!(hit(&doubled, &r, Point { x: 500, y: 0 }));
    assert!(!hit(&doubled, &r, Point { x: 600, y: 0 }));
    let flat = Affine { m00: 0, m01: 0, m10: 0, m11: 0, tx: 0, ty: 0, tz: 0 };
    assert!(!hit(&flat, &r, Point { x: 0, y: 0 }));
    assert!(!hit(&at(0, 0, 0), &rect(10, 10, -10, -10), Point { x: 0, y: 0 }));
}

#[test]
fn scene_resolves_first_placement() {
    let scene = vec![Placement { entity: 1, xf: at(1, 0, 0) }, Placement { entity: 1, xf: at(2, 0, 0) }];
    assert_eq!(resolve(&scene, 1), Some(at(1, 0, 0)));
    assert_eq!(resolve(&scene, 2), None);
}

#[test]
fn reanchor_keeps_pending_still_candidate() {
    let mut w = world();
    let scene = vec![
        Placement { entity: 1, xf: at(0, 0, 0) },
        Placement { entity: 2, xf: at(0, 0, 1) },
        Placement { entity: 3, xf: at(0, 0, 2) },
    ];
    w.reg.handle_candidate_events(&vec![insert(1), insert(2), insert(3)]);
    w.ph.pending.target = Some(2);
    w.reg.handle_candidate_events(&vec![SelectionCandidateEvent::Remove { entity: 1 }, insert(3)]);
    cursor_step(&mut w, vec![], &scene);
    assert_eq!(w.ph.pending.target, Some(2));
    assert!(w.ph.pending.changed);
}

#[test]
fn pending_visual_clears_when_target_left_registry() {
    let mut w = world();
    w.ph.pending.target = Some(5);
    w.ph.pending.changed = false;
    w.ph.bounds = rect(1, 1, 2, 2);
    w.ph.color = red();
    update_pending_visual(&mut w.ph, &w.reg, &vec![]);
    assert_eq!(w.ph.bounds, Rect::zero());
    assert_eq!(w.ph.color, Rgba::none());
}

#[test]
fn pending_visual_keeps_shown_rect_when_unchanged() {
    let mut w = world();
    w.reg.handle_candidate_events(&vec![insert(5)]);
    w.ph.pending.target = Some(5);
    w.ph.pending.changed = false;
    w.ph.bounds = rect(1, 1, 2, 2);
    w.ph.color = red();
    update_pending_visual(&mut w.ph, &w.reg, &vec![]);
    assert_eq!(w.ph.bounds, rect(1, 1, 2, 2));
    assert_eq!(w.ph.color, red().with_alpha(PENDING_ALPHA));
}

#[test]
fn selected_marker_names_latest_highlight() {
    let mut w = world();
    one_selection(&mut w);
    w.ph.pending.target = Some(50);
    confirm_selection_on_click(&mut w.ph, &mut w.reg, &mut w.sel, 601);
    assert_eq!(w.sel.selected(50), Some(Selected { selection: 601 }));
    assert_eq!(w.sel.selected(51), None);
}
