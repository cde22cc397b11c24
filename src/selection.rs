//! Selection tracking: the pending candidate, confirmed selections and the
//! highlight proxies that show them.
//!
//! The stages of a frame, in order: the registry applies the producers'
//! events (`SelectionCandidates::handle_candidate_events`), the cursor
//! re-anchors (`disambiguate_candidates`), the pending highlight follows it
//! (`update_pending_visual`), a click confirms or deselects
//! (`confirm_selection_on_click`, `deselect_selections_on_click`), and the
//! highlights follow their targets (`selection_follow_entity_transform`).

use vstd::prelude::*;
use crate::candidates::{SelectionCandidateEvent, SelectionCandidates};
use crate::geometry::{Affine, Point, Rect, Rgba, covers, hit};
use crate::order::{
    depth, insert_sorted, key_lt, key_set, keys_match_scene, lemma_rank_of_sorted,
    lemma_rank_unique, rank, sorted_keys,
};
use crate::scene::{Placement, lookup, resolve};
use crate::scroll::{ScrollAccumulator, ScrollEvent, scroll_outcome};

verus! {

/// The alpha of the pending highlight.
pub const PENDING_ALPHA: u8 = 64;

/// The alpha of a confirmed selection's highlight.
pub const SELECTED_ALPHA: u8 = 128;

/// The disambiguation cursor: the candidate offered for confirmation.
///
/// `changed` records that the target was written since the pending
/// highlight last followed it.
pub struct SelectionPending {
    pub target: Option<u64>,
    pub changed: bool,
}

/// Held by a selection highlight: the target it shows.
#[derive(Debug, Clone, Copy, PartialEq, Eq, Structural)]
pub struct Selection {
    pub target: u64,
}

/// Held by a selected target: its selection highlight.
#[derive(Debug, Clone, Copy, PartialEq, Eq, Structural)]
pub struct Selected {
    pub selection: u64,
}

/// A confirmed selection's highlight: what it shows, where, and how.
#[derive(Debug, Clone, Copy, PartialEq, Eq, Structural)]
pub struct SelectionBundle {
    pub selection: Selection,
    pub transform: Affine,
    pub bounds: Rect,
    pub color: Rgba,
}

/// The confirmed selections, each a highlight identifier with its bundle.
pub struct Selections {
    items: Vec<(u64, SelectionBundle)>,
}

/// The targets that some highlight in `s` shows.
pub open spec fn targets(s: Seq<(u64, SelectionBundle)>) -> Set<u64> {
    Set::new(|t: u64| exists|i: int| 0 <= i < s.len() && (#[trigger] s[i]).1.selection.target == t)
}

/// The highlight that marks `t` as selected: the latest one that shows it.
pub open spec fn marker(s: Seq<(u64, SelectionBundle)>, t: u64) -> Option<u64>
    decreases s.len(),
{
    if s.len() == 0 {
        None
    } else if s.last().1.selection.target == t {
        Some(s.last().0)
    } else {
        marker(s.drop_last(), t)
    }
}

/// A target has a marker exactly when some highlight shows it.
pub proof fn lemma_marker_targets(s: Seq<(u64, SelectionBundle)>, t: u64)
    ensures
        marker(s, t) is Some <==> targets(s).contains(t),
    decreases s.len(),
{
    if s.len() > 0 {
        let r = s.drop_last();
        lemma_marker_targets(r, t);
        if targets(r).contains(t) {
            let i = choose|i: int| 0 <= i < r.len() && (#[trigger] r[i]).1.selection.target == t;
            assert(s[i].1.selection.target == t);
        }
        if targets(s).contains(t) && s.last().1.selection.target != t {
            let i = choose|i: int| 0 <= i < s.len() && (#[trigger] s[i]).1.selection.target == t;
            assert(i < s.len() - 1);
            assert(r[i].1.selection.target == t);
        }
        if s.last().1.selection.target == t {
            assert(s[s.len() - 1].1.selection.target == t);
        }
    }
}

/// The candidates the cursor can cycle through: registered, placed in the
/// scene, and not selected already.
pub open spec fn orderable(
    reg: Map<u64, (Rgba, Rect)>,
    scene: Seq<Placement>,
    selected: Set<u64>,
) -> Set<u64> {
    reg.dom().filter(|e: u64| lookup(scene, e) is Some && !selected.contains(e))
}

/// The index in the sorted candidates that the cursor starts from: that of
/// the previous target while it is still a candidate, else `0`.
pub open spec fn anchor(s: Set<u64>, scene: Seq<Placement>, prev: Option<u64>) -> int {
    match prev {
        Some(p) => if s.contains(p) {
            rank(s, scene, p)
        } else {
            0
        },
        None => 0,
    }
}

/// Whether `r` is the target that re-anchoring on candidates `s` picks,
/// from `prev` with `step`: none when there is no candidate, else the one at
/// the anchor plus the step, wrapped around the number of candidates.
pub open spec fn picks(
    s: Set<u64>,
    scene: Seq<Placement>,
    prev: Option<u64>,
    step: int,
    r: Option<u64>,
) -> bool {
    match r {
        None => s.len() == 0,
        Some(e) => s.contains(e) && rank(s, scene, e) == (anchor(s, scene, prev) + step) % (
        s.len() as int),
    }
}

impl SelectionPending {
    /// A cursor with no target, which counts as changed.
    pub fn new() -> (r: SelectionPending)
        ensures
            r.target is None,
            r.changed,
    {
        SelectionPending { target: None, changed: true }
    }

    /// Writes the target, which marks the cursor changed.
    pub fn set_target(&mut self, target: Option<u64>)
        ensures
            final(self).target == target,
            final(self).changed,
    {
        self.target = target;
        self.changed = true;
    }

    /// Records that the pending highlight has followed the target.
    pub fn mark_seen(&mut self)
        ensures
            final(self).target == old(self).target,
            !final(self).changed,
    {
        self.changed = false;
    }
}

impl View for Selections {
    type V = Seq<(u64, SelectionBundle)>;

    closed spec fn view(&self) -> Seq<(u64, SelectionBundle)> {
        self.items@
    }
}

impl Selections {
    pub fn new() -> (r: Selections)
        ensures
            r@ == Seq::<(u64, SelectionBundle)>::empty(),
    {
        Selections { items: Vec::new() }
    }

    pub fn len(&self) -> (r: usize)
        ensures
            r == self@.len(),
    {
        self.items.len()
    }

    /// The highlight at `i`, with its identifier.
    pub fn get(&self, i: usize) -> (r: (u64, SelectionBundle))
        requires
            i < self@.len(),
        ensures
            r == self@[i as int],
    {
        self.items[i]
    }

    /// Whether a highlight shows `target`.
    pub fn is_selected(&self, target: u64) -> (r: bool)
        ensures
            r == targets(self@).contains(target),
    {
        match self.selected(target) {
            Some(_) => true,
            None => false,
        }
    }

    /// The marker of `target`: its latest highlight.
    pub fn selected(&self, target: u64) -> (r: Option<Selected>)
        ensures
            r == match marker(self@, target) {
                Some(id) => Some(Selected { selection: id }),
                None => None::<Selected>,
            },
            r is None <==> !targets(self@).contains(target),
    {
        let mut found: Option<u64> = None;
        let mut i: usize = 0;
        while i < self.items.len()
            invariant
                i <= self.items@.len(),
                found == marker(self.items@.subrange(0, i as int), target),
            decreases self.items@.len() - i,
        {
            proof {
                assert(self.items@.subrange(0, i as int + 1).drop_last() =~= self.items@.subrange(0, i as int));
            }
            if self.items[i].1.selection.target == target {
                found = Some(self.items[i].0);
            }
            i = i + 1;
        }
        assert(self.items@.subrange(0, i as int) =~= self.items@);
        proof {
            lemma_marker_targets(self@, target);
        }
        match found {
            Some(id) => Some(Selected { selection: id }),
            None => None,
        }
    }

    /// The targets that are selected, in the order of their highlights.
    pub fn selected_targets(&self) -> (r: Vec<u64>)
        ensures
            r@ == self@.map_values(|p: (u64, SelectionBundle)| p.1.selection.target),
            r@.to_set() == targets(self@),
    {
        let mut r: Vec<u64> = Vec::new();
        let mut i: usize = 0;
        while i < self.items.len()
            invariant
                i <= self.items@.len(),
                r@ == self.items@.subrange(0, i as int).map_values(|p: (u64, SelectionBundle)| p.1.selection.target),
            decreases self.items@.len() - i,
        {
            r.push(self.items[i].1.selection.target);
            i = i + 1;
            assert(r@ =~= self.items@.subrange(0, i as int).map_values(|p: (u64, SelectionBundle)| p.1.selection.target));
        }
        assert(self.items@.subrange(0, i as int) =~= self.items@);
        assert(r@.to_set() =~= targets(self@)) by {
            assert forall|t: u64| r@.to_set().contains(t) <==> targets(self@).contains(t) by {
                if targets(self@).contains(t) {
                    let j = choose|j: int| 0 <= j < self@.len() && (#[trigger] self@[j]).1.selection.target == t;
                    assert(r@[j] == t);
                }
                if r@.to_set().contains(t) {
                    let j = choose|j: int| 0 <= j < r@.len() && r@[j] == t;
                    assert(self@[j].1.selection.target == t);
                }
            }
        }
        r
    }
}

/// The orderable candidates with their depths, sorted.
fn orderable_sorted(
    candidates: &SelectionCandidates,
    scene: &Vec<Placement>,
    selections: &Selections,
) -> (r: Vec<(i32, u64)>)
    requires
        candidates.wf(),
    ensures
        sorted_keys(r@),
        keys_match_scene(r@, scene@),
        key_set(r@) == orderable(candidates@, scene@, targets(selections@)),
{
    let ghost s = orderable(candidates@, scene@, targets(selections@));
    let es = candidates.entities();
    let mut r: Vec<(i32, u64)> = Vec::new();
    let mut i: usize = 0;
    while i < es.len()
        invariant
            s == orderable(candidates@, scene@, targets(selections@)),
            es@.to_set() == candidates@.dom(),
            es@.no_duplicates(),
            i <= es@.len(),
            sorted_keys(r@),
            keys_match_scene(r@, scene@),
            forall|k: int|
                0 <= k < r@.len() ==> exists|j: int|
                    0 <= j < i && (#[trigger] r@[k]).1 == #[trigger] es@[j],
            forall|k: int| 0 <= k < r@.len() ==> s.contains((#[trigger] r@[k]).1),
            forall|j: int|
                0 <= j < i && s.contains(#[trigger] es@[j]) ==> key_set(r@).contains(es@[j]),
        decreases es@.len() - i,
    {
        let e = es[i];
        assert(es@.to_set().contains(e));
        assert(candidates@.contains_key(e));
        if !selections.is_selected(e) {
            match resolve(scene, e) {
                Some(xf) => {
                    let ghost old_r = r@;
                    proof {
                        assert forall|k: int| 0 <= k < r@.len() implies (#[trigger] r@[k]).1 != e by {
                            let j = choose|j: int| 0 <= j < i && (#[trigger] r@[k]).1 == #[trigger] es@[j];
                            assert(es@[j] != es@[i as int]);
                        }
                    }
                    insert_sorted(&mut r, (xf.tz, e));
                    proof {
                        assert(s.contains(e));
                        assert forall|k: int| 0 <= k < r@.len() implies lookup(scene@, (#[trigger] r@[k]).1) is Some && depth(scene@, r@[k].1) == r@[k].0 by {
                            assert(r@.contains(r@[k]));
                            if r@[k] != (xf.tz, e) {
                                let m = choose|m: int| 0 <= m < old_r.len() && old_r[m] == r@[k];
                            }
                        }
                        assert forall|k: int| 0 <= k < r@.len() implies exists|j: int|
                            0 <= j < i + 1 && (#[trigger] r@[k]).1 == #[trigger] es@[j] by {
                            assert(r@.contains(r@[k]));
                            if r@[k] != (xf.tz, e) {
                                let m = choose|m: int| 0 <= m < old_r.len() && old_r[m] == r@[k];
                                let j = choose|j: int| 0 <= j < i && (#[trigger] old_r[m]).1 == #[trigger] es@[j];
                                assert(r@[k].1 == es@[j]);
                            } else {
                                assert(r@[k].1 == es@[i as int]);
                            }
                        }
                        assert forall|k: int| 0 <= k < r@.len() implies s.contains((#[trigger] r@[k]).1) by {
                            assert(r@.contains(r@[k]));
                            if r@[k] != (xf.tz, e) {
                                let m = choose|m: int| 0 <= m < old_r.len() && old_r[m] == r@[k];
                            }
                        }
                        assert forall|j: int| 0 <= j < i + 1 && s.contains(#[trigger] es@[j]) implies key_set(r@).contains(es@[j]) by {
                            if j < i {
                                let k = choose|k: int| 0 <= k < old_r.len() && (#[trigger] old_r[k]).1 == es@[j];
                                assert(old_r.contains(old_r[k]));
                                assert(r@.contains(old_r[k]));
                                let k2 = choose|k2: int| 0 <= k2 < r@.len() && r@[k2] == old_r[k];
                                assert(r@[k2].1 == es@[j]);
                            } else {
                                assert(r@.contains((xf.tz, e)));
                                let k2 = choose|k2: int| 0 <= k2 < r@.len() && r@[k2] == (xf.tz, e);
                                assert(r@[k2].1 == es@[j]);
                            }
                        }
                    }
                },
                None => {
                    assert(!s.contains(e));
                },
            }
        } else {
            assert(!s.contains(e));
        }
        i = i + 1;
    }
    proof {
        assert(key_set(r@) =~= s) by {
            assert forall|e: u64| s.contains(e) implies key_set(r@).contains(e) by {
                assert(es@.to_set().contains(e));
                let j = choose|j: int| 0 <= j < es@.len() && es@[j] == e;
            }
            assert forall|e: u64| key_set(r@).contains(e) implies s.contains(e) by {
                let k = choose|k: int| 0 <= k < r@.len() && (#[trigger] r@[k]).1 == e;
            }
        }
    }
    r
}

/// The index of the key of `e`, if there is one.
fn position_of(v: &Vec<(i32, u64)>, e: u64) -> (r: Option<usize>)
    ensures
        match r {
            Some(k) => k < v@.len() && v@[k as int].1 == e,
            None => !key_set(v@).contains(e),
        },
{
    let mut k: usize = 0;
    while k < v.len()
        invariant
            k <= v@.len(),
            forall|j: int| 0 <= j < k ==> v@[j].1 != e,
        decreases v@.len() - k,
    {
        if v[k].1 == e {
            return Some(k);
        }
        k = k + 1;
    }
    None
}

/// `i + step` wrapped into `0..n`, for `i` in `0..n` and a unit step.
fn wrap_index(i: usize, step: i8, n: usize) -> (r: usize)
    requires
        i < n,
        -1 <= step <= 1,
    ensures
        r as int == (i + step) % (n as int),
{
    if step < 0 && i == 0 {
        proof {
            vstd::arithmetic::div_mod::lemma_fundamental_div_mod_converse(-1, n as int, -1, n - 1);
        }
        n - 1
    } else if step > 0 && i + 1 == n {
        proof {
            vstd::arithmetic::div_mod::lemma_fundamental_div_mod_converse(n as int, n as int, 1, 0);
        }
        0
    } else {
        let r = if step < 0 {
            i - 1
        } else if step > 0 {
            i + 1
        } else {
            i
        };
        proof {
            vstd::arithmetic::div_mod::lemma_fundamental_div_mod_converse(r as int, n as int, 0, r as int);
        }
        r
    }
}

/// Re-anchors the cursor when the wheel makes a step or the registry
/// changed: the candidates are ordered by depth, then identifier; the cursor
/// moves from the index of its previous target (or `0`) by the step,
/// wrapping around. Otherwise the cursor is left as it is.
pub fn disambiguate_candidates(
    pending: &mut SelectionPending,
    candidates: &SelectionCandidates,
    wheel_state: &mut ScrollAccumulator,
    wheel: &Vec<ScrollEvent>,
    scene: &Vec<Placement>,
    selections: &Selections,
)
    requires
        candidates.wf(),
        old(wheel_state).wf(),
    ensures
        final(wheel_state).wf(),
        ({
            let (acc, step) = scroll_outcome(old(wheel_state)@, wheel@);
            let s = orderable(candidates@, scene@, targets(selections@));
            &&& final(wheel_state)@ == acc
            &&& if step != 0 || candidates.changed_spec() {
                &&& final(pending).changed
                &&& picks(s, scene@, old(pending).target, step, final(pending).target)
                &&& final(pending).target matches Some(e) ==> candidates@.contains_key(e)
            } else {
                *final(pending) == *old(pending)
            }
        }),
{
    let step = wheel_state.step(wheel);
    if step != 0 || candidates.is_changed() {
        let list = orderable_sorted(candidates, scene, selections);
        let ghost s = orderable(candidates@, scene@, targets(selections@));
        let ghost names = list@.map_values(|p: (i32, u64)| p.1);
        proof {
            assert forall|a: int, b: int| 0 <= a < names.len() && 0 <= b < names.len() && a != b implies names[a] != names[b] by {
                if a < b {
                    assert(key_lt(list@[a], list@[b]));
                } else {
                    assert(key_lt(list@[b], list@[a]));
                }
                if names[a] == names[b] {
                    assert(depth(scene@, list@[a].1) == list@[a].0);
                    assert(depth(scene@, list@[b].1) == list@[b].0);
                }
            }
            assert(names.to_set() =~= s) by {
                assert forall|e: u64| names.to_set().contains(e) <==> key_set(list@).contains(e) by {
                    if key_set(list@).contains(e) {
                        let k = choose|k: int| 0 <= k < list@.len() && (#[trigger] list@[k]).1 == e;
                        assert(names[k] == e);
                    }
                    if names.to_set().contains(e) {
                        let k = choose|k: int| 0 <= k < names.len() && names[k] == e;
                        assert(list@[k].1 == e);
                    }
                }
            }
            names.unique_seq_to_set();
        }
        if list.len() == 0 {
            pending.set_target(None);
        } else {
            let base: usize = match pending.target {
                Some(t) => match position_of(&list, t) {
                    Some(k) => {
                        proof {
                            lemma_rank_of_sorted(list@, scene@, k as int);
                            assert(key_set(list@).contains(t));
                        }
                        k
                    },
                    None => 0,
                },
                None => 0,
            };
            assert(base as int == anchor(s, scene@, old(pending).target));
            let j = wrap_index(base, step, list.len());
            let e = list[j].1;
            proof {
                lemma_rank_of_sorted(list@, scene@, j as int);
                assert(key_set(list@).contains(e));
            }
            pending.set_target(Some(e));
        }
    }
}

/// The single highlight that shows the pending candidate.
pub struct PendingHighlight {
    pub pending: SelectionPending,
    pub transform: Affine,
    pub bounds: Rect,
    pub color: Rgba,
}

/// The default color of a highlight: pink at the selected alpha.
pub open spec fn default_color() -> Rgba {
    Rgba::pink_spec().with_alpha_spec(SELECTED_ALPHA)
}

/// The unit square centred on the origin, the default bounds of a highlight.
pub open spec fn default_bounds() -> Rect {
    Rect { min_x: -128i64, min_y: -128i64, max_x: 128, max_y: 128 }
}

/// Creates the pending highlight for a new session of the select tool: no
/// target, counted as changed, default bounds and color, at the origin.
pub fn setup_selection_pending() -> (r: PendingHighlight)
    ensures
        r.pending.target is None,
        r.pending.changed,
        r.transform == Affine::identity_spec(),
        r.bounds == default_bounds(),
        r.color == default_color(),
{
    PendingHighlight {
        pending: SelectionPending::new(),
        transform: Affine::identity(),
        bounds: Rect::unit_square(),
        color: Rgba::pink().with_alpha(SELECTED_ALPHA),
    }
}

/// The rectangle and color of the last insertion for `target` in `evs`, or
/// `dflt` when there is none.
pub open spec fn last_insert(evs: Seq<SelectionCandidateEvent>, target: u64, dflt: (Rect, Rgba)) -> (
    Rect,
    Rgba,
)
    decreases evs.len(),
{
    if evs.len() == 0 {
        dflt
    } else {
        match evs.last() {
            SelectionCandidateEvent::Insert { entity, color, bounds } => if entity == target {
                (bounds, color)
            } else {
                last_insert(evs.drop_last(), target, dflt)
            },
            SelectionCandidateEvent::Remove { .. } => last_insert(evs.drop_last(), target, dflt),
        }
    }
}

/// The rectangle and color of the pending highlight after it follows the
/// cursor: the empty rectangle and no color when there is no target or the
/// target is not registered; otherwise the registered rectangle and color
/// when the cursor changed (else those shown), then those of any insertion
/// for the target this frame, at the pending alpha.
pub open spec fn pending_visual(
    ph: PendingHighlight,
    reg: Map<u64, (Rgba, Rect)>,
    evs: Seq<SelectionCandidateEvent>,
) -> (Rect, Rgba) {
    match ph.pending.target {
        Some(t) => if reg.contains_key(t) {
            let start = if ph.pending.changed {
                (reg[t].1, reg[t].0)
            } else {
                (ph.bounds, ph.color)
            };
            let (b, c) = last_insert(evs, t, start);
            (b, c.with_alpha_spec(PENDING_ALPHA))
        } else {
            (Rect { min_x: 0, min_y: 0, max_x: 0, max_y: 0 }, Rgba::none_spec())
        },
        None => (Rect { min_x: 0, min_y: 0, max_x: 0, max_y: 0 }, Rgba::none_spec()),
    }
}

/// Brings the pending highlight's rectangle and color in line with the
/// cursor and this frame's events, and records that it has followed the
/// cursor.
pub fn update_pending_visual(
    ph: &mut PendingHighlight,
    candidates: &SelectionCandidates,
    events: &Vec<SelectionCandidateEvent>,
)
    requires
        candidates.wf(),
    ensures
        (final(ph).bounds, final(ph).color) == pending_visual(*old(ph), candidates@, events@),
        final(ph).pending.target == old(ph).pending.target,
        !final(ph).pending.changed,
        final(ph).transform == old(ph).transform,
{
    let mut clear = false;
    match ph.pending.target {
        Some(t) => match candidates.get(t) {
            Some((color, rect)) => {
                if ph.pending.changed {
                    ph.bounds = rect;
                    ph.color = color;
                }
            },
            None => {
                clear = true;
            },
        },
        None => {
            clear = true;
        },
    }
    match ph.pending.target {
        Some(t) => {
            let ghost b1 = ph.bounds;
            let ghost c1 = ph.color;
            let mut i: usize = 0;
            while i < events.len()
                invariant
                    i <= events@.len(),
                    ph.pending == old(ph).pending,
                    ph.transform == old(ph).transform,
                    (ph.bounds, ph.color) == last_insert(events@.subrange(0, i as int), t, (b1, c1)),
                decreases events@.len() - i,
            {
                match events[i] {
                    SelectionCandidateEvent::Insert { entity, color, bounds } => {
                        if entity == t {
                            ph.bounds = bounds;
                            ph.color = color;
                        }
                    },
                    SelectionCandidateEvent::Remove { .. } => {},
                }
                assert(events@.subrange(0, i as int + 1).drop_last() =~= events@.subrange(0, i as int));
                i = i + 1;
            }
            assert(events@.subrange(0, i as int) =~= events@);
        },
        None => {
            clear = true;
        },
    }
    if clear {
        ph.bounds = Rect::zero();
        ph.color = Rgba::none();
    } else {
        ph.color = ph.color.with_alpha(PENDING_ALPHA);
    }
    ph.pending.mark_seen();
}

/// The selections after a confirmation with the pending highlight `ph`: a
/// new highlight `id` for its target, with its transform, bounds and color
/// at the selected alpha; unchanged when nothing is pending.
pub open spec fn confirmed(sel: Seq<(u64, SelectionBundle)>, ph: PendingHighlight, id: u64) -> Seq<
    (u64, SelectionBundle),
> {
    match ph.pending.target {
        Some(t) => sel.push(
            (
                id,
                SelectionBundle {
                    selection: Selection { target: t },
                    transform: ph.transform,
                    bounds: ph.bounds,
                    color: ph.color.with_alpha_spec(SELECTED_ALPHA),
                },
            ),
        ),
        None => sel,
    }
}

/// The registry after a confirmation: without the confirmed target.
pub open spec fn confirmed_registry(reg: Map<u64, (Rgba, Rect)>, ph: PendingHighlight) -> Map<
    u64,
    (Rgba, Rect),
> {
    match ph.pending.target {
        Some(t) => reg.remove(t),
        None => reg,
    }
}

/// Promotes the pending target to a selection with highlight `id`, marks
/// it selected, and drops it from the registry. The cursor is cleared
/// whether or not anything was pending.
pub fn confirm_selection_on_click(
    ph: &mut PendingHighlight,
    candidates: &mut SelectionCandidates,
    selections: &mut Selections,
    id: u64,
)
    requires
        old(candidates).wf(),
    ensures
        final(candidates).wf(),
        final(selections)@ == confirmed(old(selections)@, *old(ph), id),
        old(ph).pending.target matches Some(t) ==> marker(final(selections)@, t) == Some(id),
        final(candidates)@ == confirmed_registry(old(candidates)@, *old(ph)),
        final(candidates).changed_spec() == old(candidates).changed_spec(),
        final(ph).pending.target is None,
        final(ph).pending.changed,
        final(ph).transform == old(ph).transform,
        final(ph).bounds == old(ph).bounds,
        final(ph).color == old(ph).color,
{
    match ph.pending.target {
        Some(target) => {
            let bundle = SelectionBundle::from_entity(target)
                .with_bounds(ph.bounds)
                .with_color(ph.color.with_alpha(SELECTED_ALPHA))
                .with_transform(ph.transform);
            selections.items.push((id, bundle));
            candidates.remove(target);
        },
        None => {},
    }
    ph.pending.set_target(None);
}

/// Whether a selection's highlight covers world point `c`.
pub open spec fn hit_by(c: Point) -> spec_fn((u64, SelectionBundle)) -> bool {
    |h: (u64, SelectionBundle)| covers(h.1.transform, h.1.bounds, c)
}

/// Whether a selection's highlight misses world point `c`.
pub open spec fn missed_by(c: Point) -> spec_fn((u64, SelectionBundle)) -> bool {
    |h: (u64, SelectionBundle)| !covers(h.1.transform, h.1.bounds, c)
}

/// The selections whose highlight does not cover world point `c`.
pub open spec fn kept(sel: Seq<(u64, SelectionBundle)>, c: Point) -> Seq<(u64, SelectionBundle)> {
    sel.filter(missed_by(c))
}

/// Removes every selection whose highlight covers the click at `cursor`,
/// but only when no candidate is registered. Returns the removed ones.
pub fn deselect_selections_on_click(
    candidates: &SelectionCandidates,
    cursor: Point,
    selections: &mut Selections,
) -> (removed: Vec<(u64, SelectionBundle)>)
    requires
        candidates.wf(),
    ensures
        if candidates@ == Map::<u64, (Rgba, Rect)>::empty() {
            &&& final(selections)@ == kept(old(selections)@, cursor)
            &&& removed@ == old(selections)@.filter(hit_by(cursor))
        } else {
            &&& final(selections)@ == old(selections)@
            &&& removed@.len() == 0
        },
{
    let mut removed: Vec<(u64, SelectionBundle)> = Vec::new();
    if !candidates.is_empty() {
        return removed;
    }
    let mut rest: Vec<(u64, SelectionBundle)> = Vec::new();
    let mut i: usize = 0;
    while i < selections.items.len()
        invariant
            i <= old(selections)@.len(),
            selections.items@ == old(selections)@,
            rest@ == kept(old(selections)@.subrange(0, i as int), cursor),
            removed@ == old(selections)@.subrange(0, i as int).filter(hit_by(cursor)),
        decreases old(selections)@.len() - i,
    {
        let h = selections.items[i];
        let ghost pre = old(selections)@.subrange(0, i as int + 1);
        proof {
            assert(pre.drop_last() =~= old(selections)@.subrange(0, i as int));
            assert(pre.last() == h);
        }
        proof {
            reveal(Seq::filter);
        }
        if hit(&h.1.transform, &h.1.bounds, cursor) {
            removed.push(h);
            assert(hit_by(cursor)(h));
            assert(!missed_by(cursor)(h));
        } else {
            rest.push(h);
            assert(!hit_by(cursor)(h));
            assert(missed_by(cursor)(h));
        }
        assert(pre.filter(hit_by(cursor)) == removed@);
        assert(pre.filter(missed_by(cursor)) == rest@);
        i = i + 1;
    }
    assert(old(selections)@.subrange(0, i as int) =~= old(selections)@);
    selections.items = rest;
    removed
}

/// A highlight after following its target: the target's new transform when
/// `moved` has one, else as it was.
pub open spec fn follow(xf: Affine, target: u64, moved: Seq<Placement>) -> Affine {
    match lookup(moved, target) {
        Some(t) => t,
        None => xf,
    }
}

/// The selections after following targets whose transforms are in `moved`.
pub open spec fn followed(sel: Seq<(u64, SelectionBundle)>, moved: Seq<Placement>) -> Seq<
    (u64, SelectionBundle),
> {
    sel.map_values(
        |h: (u64, SelectionBundle)|
            (h.0, SelectionBundle { transform: follow(h.1.transform, h.1.selection.target, moved), ..h.1 }),
    )
}

/// Copies the new world transform of each target in `moved` (those that
/// changed this frame) into the highlights that show it, the pending one
/// included. A highlight whose target did not move keeps its transform.
pub fn selection_follow_entity_transform(
    ph: &mut PendingHighlight,
    selections: &mut Selections,
    moved: &Vec<Placement>,
)
    ensures
        final(selections)@ == followed(old(selections)@, moved@),
        final(ph).transform == match old(ph).pending.target {
            Some(t) => follow(old(ph).transform, t, moved@),
            None => old(ph).transform,
        },
        final(ph).pending == old(ph).pending,
        final(ph).bounds == old(ph).bounds,
        final(ph).color == old(ph).color,
{
    let mut out: Vec<(u64, SelectionBundle)> = Vec::new();
    let mut i: usize = 0;
    while i < selections.items.len()
        invariant
            i <= old(selections)@.len(),
            selections.items@ == old(selections)@,
            out@ == followed(old(selections)@.subrange(0, i as int), moved@),
        decreases old(selections)@.len() - i,
    {
        let h = selections.items[i];
        let xf = match resolve(moved, h.1.selection.target) {
            Some(t) => t,
            None => h.1.transform,
        };
        out.push((h.0, SelectionBundle { transform: xf, ..h.1 }));
        i = i + 1;
        assert(out@ =~= followed(old(selections)@.subrange(0, i as int), moved@));
    }
    assert(old(selections)@.subrange(0, i as int) =~= old(selections)@);
    selections.items = out;
    match ph.pending.target {
        Some(t) => match resolve(moved, t) {
            Some(xf) => {
                ph.transform = xf;
            },
            None => {},
        },
        None => {},
    }
}

impl SelectionBundle {
    /// A highlight of `target` with the default look, at the origin.
    pub fn from_entity(target: u64) -> (r: SelectionBundle)
        ensures
            r.selection == (Selection { target }),
            r.transform == Affine::identity_spec(),
            r.bounds == default_bounds(),
            r.color == default_color(),
    {
        SelectionBundle {
            selection: Selection { target },
            transform: Affine::identity(),
            bounds: Rect::unit_square(),
            color: Rgba::pink().with_alpha(SELECTED_ALPHA),
        }
    }

    pub fn with_transform(self, xf: Affine) -> (r: SelectionBundle)
        ensures
            r == (SelectionBundle { transform: xf, ..self }),
    {
        SelectionBundle { transform: xf, ..self }
    }

    pub fn with_bounds(self, rect: Rect) -> (r: SelectionBundle)
        ensures
            r == (SelectionBundle { bounds: rect, ..self }),
    {
        SelectionBundle { bounds: rect, ..self }
    }

    pub fn with_color(self, color: Rgba) -> (r: SelectionBundle)
        ensures
            r == (SelectionBundle { color, ..self }),
    {
        SelectionBundle { color, ..self }
    }
}

/// The selections after a click at `c`: the pending candidate is confirmed,
/// and selections under the click are removed only when no candidate was
/// registered before it.
pub open spec fn clicked(
    sel: Seq<(u64, SelectionBundle)>,
    reg: Map<u64, (Rgba, Rect)>,
    ph: PendingHighlight,
    c: Point,
    id: u64,
) -> Seq<(u64, SelectionBundle)> {
    if reg == Map::<u64, (Rgba, Rect)>::empty() {
        kept(confirmed(sel, ph, id), c)
    } else {
        confirmed(sel, ph, id)
    }
}

/// Handles a confirm click at `cursor`: confirmation of the pending
/// candidate (as highlight `id`) takes precedence; deselection happens only
/// when the registry was empty before the click. Returns the selections
/// removed.
pub fn handle_click(
    ph: &mut PendingHighlight,
    candidates: &mut SelectionCandidates,
    selections: &mut Selections,
    cursor: Point,
    id: u64,
) -> (removed: Vec<(u64, SelectionBundle)>)
    requires
        old(candidates).wf(),
    ensures
        final(candidates).wf(),
        final(selections)@ == clicked(old(selections)@, old(candidates)@, *old(ph), cursor, id),
        removed@ == if old(candidates)@ == Map::<u64, (Rgba, Rect)>::empty() {
            confirmed(old(selections)@, *old(ph), id).filter(hit_by(cursor))
        } else {
            Seq::<(u64, SelectionBundle)>::empty()
        },
        final(candidates)@ == confirmed_registry(old(candidates)@, *old(ph)),
        final(ph).pending.target is None,
        final(ph).pending.changed,
{
    let was_empty = candidates.is_empty();
    confirm_selection_on_click(ph, candidates, selections, id);
    if was_empty {
        assert(candidates@ =~= Map::<u64, (Rgba, Rect)>::empty());
        deselect_selections_on_click(candidates, cursor, selections)
    } else {
        Vec::new()
    }
}

/// Cycling wraps around: a forward step from the last candidate reaches the
/// first, and a backward step from the first reaches the last.
pub proof fn lemma_cycling_wraps(
    s: Set<u64>,
    scene: Seq<Placement>,
    first: u64,
    last: u64,
    fwd: Option<u64>,
    back: Option<u64>,
)
    requires
        s.finite(),
        s.contains(first),
        s.contains(last),
        rank(s, scene, first) == 0,
        rank(s, scene, last) == s.len() - 1,
        picks(s, scene, Some(last), 1, fwd),
        picks(s, scene, Some(first), -1, back),
    ensures
        fwd == Some(first),
        back == Some(last),
{
    let n = s.len() as int;
    assert(n > 0) by {
        if n == 0 {
            vstd::set_lib::lemma_set_empty_equivalency_len(s);
        }
    }
    vstd::arithmetic::div_mod::lemma_fundamental_div_mod_converse(n, n, 1, 0);
    vstd::arithmetic::div_mod::lemma_fundamental_div_mod_converse(-1, n, -1, n - 1);
    let f = fwd.unwrap();
    let b = back.unwrap();
    lemma_rank_unique(s, scene, f, first);
    lemma_rank_unique(s, scene, b, last);
}

/// Confirming the only candidate, while it is pending, empties the registry
/// and leaves a highlight that shows it, so it is marked selected.
pub proof fn lemma_confirm_clears_candidacy(
    sel: Seq<(u64, SelectionBundle)>,
    ph: PendingHighlight,
    t: u64,
    v: (Rgba, Rect),
    id: u64,
)
    requires
        ph.pending.target == Some(t),
    ensures
        confirmed_registry(map![t => v], ph) == Map::<u64, (Rgba, Rect)>::empty(),
        confirmed(sel, ph, id).last() == (id, SelectionBundle {
            selection: Selection { target: t },
            transform: ph.transform,
            bounds: ph.bounds,
            color: ph.color.with_alpha_spec(SELECTED_ALPHA),
        }),
        targets(confirmed(sel, ph, id)).contains(t),
        marker(confirmed(sel, ph, id), t) == Some(id),
{
    assert(confirmed_registry(map![t => v], ph) =~= Map::<u64, (Rgba, Rect)>::empty());
    let c = confirmed(sel, ph, id);
    assert(c[c.len() - 1].1.selection.target == t);
}

/// A click over a selection does not remove it while a candidate is
/// registered; with none registered, the same click removes it.
pub proof fn lemma_deselect_precedence(
    sel: Seq<(u64, SelectionBundle)>,
    reg: Map<u64, (Rgba, Rect)>,
    ph: PendingHighlight,
    c: Point,
    id: u64,
    i: int,
)
    requires
        0 <= i < sel.len(),
        covers(sel[i].1.transform, sel[i].1.bounds, c),
    ensures
        reg != Map::<u64, (Rgba, Rect)>::empty() ==> clicked(sel, reg, ph, c, id).contains(sel[i]),
        reg == Map::<u64, (Rgba, Rect)>::empty() ==> !clicked(sel, reg, ph, c, id).contains(sel[i]),
{
    let conf = confirmed(sel, ph, id);
    assert(conf[i] == sel[i]);
    if reg == Map::<u64, (Rgba, Rect)>::empty() {
        broadcast use vstd::seq_lib::group_filter_ensures;

        if kept(conf, c).contains(sel[i]) {
            let k = choose|k: int| 0 <= k < kept(conf, c).len() && kept(conf, c)[k] == sel[i];
            assert(missed_by(c)(kept(conf, c)[k]));
        }
    }
}

/// A highlight that sat on its target follows it: when the target moves by
/// `(dx, dy)`, so does the highlight.
pub proof fn lemma_follow_shift(
    sel: Seq<(u64, SelectionBundle)>,
    moved: Seq<Placement>,
    i: int,
    dx: int,
    dy: int,
)
    requires
        0 <= i < sel.len(),
        lookup(moved, sel[i].1.selection.target) == Some(sel[i].1.transform.shifted(dx, dy)),
    ensures
        followed(sel, moved)[i].1.transform == sel[i].1.transform.shifted(dx, dy),
        followed(sel, moved)[i].0 == sel[i].0,
{
}

/// Re-anchoring without a step keeps a target that is still a candidate,
/// so the choice does not drift from frame to frame.
pub proof fn lemma_reanchor_stable(s: Set<u64>, scene: Seq<Placement>, prev: u64, r: Option<u64>)
    requires
        s.finite(),
        s.contains(prev),
        picks(s, scene, Some(prev), 0, r),
    ensures
        r == Some(prev),
{
    let n = s.len() as int;
    crate::order::lemma_rank_bound(s, scene, prev);
    let k = rank(s, scene, prev);
    vstd::arithmetic::div_mod::lemma_fundamental_div_mod_converse(k, n, 0, k);
    let e = r.unwrap();
    lemma_rank_unique(s, scene, e, prev);
}

} // verus!
