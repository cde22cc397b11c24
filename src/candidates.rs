//! The candidate registry: which targets are under the pointer, each with
//! the color and local rectangle of its highlight.

use vstd::prelude::*;
use std::collections::HashMap;
use std::hash::RandomState;
use vstd::std_specs::hash::{axiom_spec_keys_iter, builds_valid_hashers, obeys_key_model, spec_keys_iter};
use vstd::std_specs::iter::IteratorSpec;
use crate::geometry::{Rect, Rgba};

verus! {

broadcast use vstd::std_specs::hash::group_hash_axioms;

/// What a hit-test producer reports about one target in a frame.
#[derive(Debug, Clone, Copy, PartialEq, Eq, Structural)]
pub enum SelectionCandidateEvent {
    /// The target is under the pointer; its highlight has this color and
    /// this rectangle in the target's local space.
    Insert { entity: u64, color: Rgba, bounds: Rect },
    /// The target is no longer under the pointer.
    Remove { entity: u64 },
}

/// The registry of selection candidates, keyed by target.
pub struct SelectionCandidates {
    map: HashMap<u64, (Rgba, Rect)>,
    changed: bool,
}

/// The registry after one event.
pub open spec fn apply_event(m: Map<u64, (Rgba, Rect)>, ev: SelectionCandidateEvent) -> Map<
    u64,
    (Rgba, Rect),
> {
    match ev {
        SelectionCandidateEvent::Insert { entity, color, bounds } => m.insert(entity, (color, bounds)),
        SelectionCandidateEvent::Remove { entity } => m.remove(entity),
    }
}

/// The registry after a sequence of events, applied in order.
pub open spec fn apply_events(m: Map<u64, (Rgba, Rect)>, evs: Seq<SelectionCandidateEvent>) -> Map<
    u64,
    (Rgba, Rect),
>
    decreases evs.len(),
{
    if evs.len() == 0 {
        m
    } else {
        apply_event(apply_events(m, evs.drop_last()), evs.last())
    }
}

impl View for SelectionCandidates {
    type V = Map<u64, (Rgba, Rect)>;

    closed spec fn view(&self) -> Map<u64, (Rgba, Rect)> {
        self.map@
    }
}

impl SelectionCandidates {
    /// Whether the last batch of events held at least one event; a new
    /// registry counts as changed.
    pub closed spec fn changed_spec(&self) -> bool {
        self.changed
    }

    /// The map's keys follow the model of `HashMap` with `u64` keys.
    pub closed spec fn wf(&self) -> bool {
        &&& obeys_key_model::<u64>()
        &&& builds_valid_hashers::<RandomState>()
    }

    /// An empty registry.
    pub fn new() -> (r: SelectionCandidates)
        ensures
            r.wf(),
            r@ == Map::<u64, (Rgba, Rect)>::empty(),
            r.changed_spec(),
    {
        SelectionCandidates { map: HashMap::new(), changed: true }
    }

    /// The color and rectangle registered for `entity`, if any.
    pub fn get(&self, entity: u64) -> (r: Option<(Rgba, Rect)>)
        requires
            self.wf(),
        ensures
            r == (if self@.contains_key(entity) {
                Some(self@[entity])
            } else {
                None
            }),
    {
        match self.map.get(&entity) {
            Some(v) => Some(*v),
            None => None,
        }
    }

    /// Whether no target is registered.
    pub fn is_empty(&self) -> (r: bool)
        requires
            self.wf(),
        ensures
            r == (self@ == Map::<u64, (Rgba, Rect)>::empty()),
    {
        let r = self.map.is_empty();
        if !r {
            assert(self@.dom().len() > 0);
            assert(self@ != Map::<u64, (Rgba, Rect)>::empty());
        } else {
            assert(self@ =~= Map::<u64, (Rgba, Rect)>::empty());
        }
        r
    }

    /// Whether the last batch of events changed the registry (a new
    /// registry counts as changed).
    pub fn is_changed(&self) -> (r: bool)
        ensures
            r == self.changed_spec(),
    {
        self.changed
    }

    /// The number of registered targets.
    pub fn len(&self) -> (r: usize)
        requires
            self.wf(),
        ensures
            r == self@.dom().len(),
    {
        self.map.len()
    }

    /// The registered targets, each once, in no particular order.
    pub fn entities(&self) -> (r: Vec<u64>)
        requires
            self.wf(),
        ensures
            r@.to_set() == self@.dom(),
            r@.no_duplicates(),
    {
        let mut r: Vec<u64> = Vec::new();
        let ghost keys = spec_keys_iter(&self.map).remaining();
        proof {
            axiom_spec_keys_iter(&self.map);
        }
        for k in it: self.map.keys()
            invariant
                it.seq() == keys,
                r@ == keys.unref().take(it.index() as int),
        {
            r.push(*k);
            assert(r@ =~= keys.unref().take(it.index() + 1));
        }
        assert(r@ =~= keys.unref());
        proof {
            keys.unref().lemma_no_dup_set_cardinality();
        }
        r
    }

    /// Applies one event.
    fn apply(&mut self, ev: &SelectionCandidateEvent)
        requires
            old(self).wf(),
        ensures
            final(self).wf(),
            final(self)@ == apply_event(old(self)@, *ev),
            final(self).changed == old(self).changed,
    {
        match *ev {
            SelectionCandidateEvent::Insert { entity, color, bounds } => {
                self.map.insert(entity, (color, bounds));
            },
            SelectionCandidateEvent::Remove { entity } => {
                self.map.remove(&entity);
            },
        }
    }

    /// Applies the events of one frame in order, and records whether there
    /// were any.
    pub fn handle_candidate_events(&mut self, events: &Vec<SelectionCandidateEvent>)
        requires
            old(self).wf(),
        ensures
            final(self).wf(),
            final(self)@ == apply_events(old(self)@, events@),
            final(self).changed_spec() == (events@.len() > 0),
    {
        let mut i: usize = 0;
        while i < events.len()
            invariant
                self.wf(),
                i <= events@.len(),
                self@ == apply_events(old(self)@, events@.subrange(0, i as int)),
            decreases events@.len() - i,
        {
            self.apply(&events[i]);
            proof {
                let pre = events@.subrange(0, i as int + 1);
                assert(pre.drop_last() =~= events@.subrange(0, i as int));
            }
            i = i + 1;
        }
        assert(events@.subrange(0, events@.len() as int) =~= events@);
        self.changed = events.len() > 0;
        assert(self.wf());
    }

    /// Drops the entry of `entity`, as confirming a selection does.
    pub fn remove(&mut self, entity: u64)
        requires
            old(self).wf(),
        ensures
            final(self).wf(),
            final(self)@ == old(self)@.remove(entity),
            final(self).changed_spec() == old(self).changed_spec(),
    {
        self.apply(&SelectionCandidateEvent::Remove { entity });
    }
}

/// Applying the same insertion twice leaves the registry as applying it once.
pub proof fn lemma_insert_idempotent(m: Map<u64, (Rgba, Rect)>, entity: u64, color: Rgba, bounds: Rect)
    ensures
        ({
            let ev = SelectionCandidateEvent::Insert { entity, color, bounds };
            apply_event(apply_event(m, ev), ev) == apply_event(m, ev)
        }),
{
    let ev = SelectionCandidateEvent::Insert { entity, color, bounds };
    assert(apply_event(apply_event(m, ev), ev) =~= apply_event(m, ev));
}

/// After a removal the target is not registered, and a second removal
/// changes nothing.
pub proof fn lemma_remove_then_absent(m: Map<u64, (Rgba, Rect)>, entity: u64)
    ensures
        ({
            let ev = SelectionCandidateEvent::Remove { entity };
            &&& !apply_event(m, ev).contains_key(entity)
            &&& apply_event(apply_event(m, ev), ev) == apply_event(m, ev)
        }),
{
    let ev = SelectionCandidateEvent::Remove { entity };
    assert(apply_event(apply_event(m, ev), ev) =~= apply_event(m, ev));
}

} // verus!
