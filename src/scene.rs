//! The world transforms of the scene's objects, as the editor reads them in
//! a frame. A target that has none cannot be resolved this frame.

use vstd::prelude::*;
use crate::geometry::Affine;

verus! {

/// The world transform of one object.
#[derive(Debug, Clone, Copy, PartialEq, Eq, Structural)]
pub struct Placement {
    pub entity: u64,
    pub xf: Affine,
}

/// The transform of `e` in `s`: that of its first placement.
pub open spec fn lookup(s: Seq<Placement>, e: u64) -> Option<Affine>
    decreases s.len(),
{
    if s.len() == 0 {
        None
    } else if s[0].entity == e {
        Some(s[0].xf)
    } else {
        lookup(s.drop_first(), e)
    }
}

/// `lookup` finds the first placement of `e`.
pub proof fn lemma_lookup_first(s: Seq<Placement>, e: u64, i: int)
    requires
        0 <= i < s.len(),
        s[i].entity == e,
        forall|j: int| 0 <= j < i ==> s[j].entity != e,
    ensures
        lookup(s, e) == Some(s[i].xf),
    decreases i,
{
    if i > 0 {
        let t = s.drop_first();
        assert forall|j: int| 0 <= j < i - 1 implies t[j].entity != e by {
            assert(s[j + 1].entity != e);
        }
        lemma_lookup_first(t, e, i - 1);
    }
}

/// `lookup` finds nothing for an object without placement.
pub proof fn lemma_lookup_none(s: Seq<Placement>, e: u64)
    requires
        forall|j: int| 0 <= j < s.len() ==> s[j].entity != e,
    ensures
        lookup(s, e) is None,
    decreases s.len(),
{
    if s.len() > 0 {
        let t = s.drop_first();
        assert forall|j: int| 0 <= j < t.len() implies t[j].entity != e by {
            assert(s[j + 1].entity != e);
        }
        lemma_lookup_none(t, e);
    }
}

/// The transform of `e`, if the scene holds one.
pub fn resolve(scene: &Vec<Placement>, e: u64) -> (r: Option<Affine>)
    ensures
        r == lookup(scene@, e),
{
    let mut i: usize = 0;
    while i < scene.len()
        invariant
            i <= scene@.len(),
            forall|j: int| 0 <= j < i ==> scene@[j].entity != e,
        decreases scene@.len() - i,
    {
        if scene[i].entity == e {
            proof {
                lemma_lookup_first(scene@, e, i as int);
            }
            return Some(scene[i].xf);
        }
        i = i + 1;
    }
    proof {
        lemma_lookup_none(scene@, e);
    }
    None
}

} // verus!
