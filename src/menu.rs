//! Which submenus of the editor's menu bar are shown.

use vstd::prelude::*;

verus! {

/// A submenu container: its parent menu and whether it is shown.
#[derive(Debug, Clone, Copy, PartialEq, Eq, Structural)]
pub struct SubmenuState {
    pub entity: u64,
    pub parent_menu: u64,
    pub visible: bool,
}

/// A menu item that opens a submenu, and whether it is clicked.
#[derive(Debug, Clone, Copy, PartialEq, Eq, Structural)]
pub struct SubmenuItem {
    pub submenu: u64,
    pub clicked: bool,
}

/// The index of the first submenu container `e` in `subs`.
pub open spec fn container_index(subs: Seq<SubmenuState>, e: u64) -> Option<int> {
    if exists|i: int| 0 <= i < subs.len() && subs[i].entity == e {
        Some(
            choose|i: int|
                0 <= i < subs.len() && subs[i].entity == e && forall|j: int|
                    0 <= j < i ==> subs[j].entity != e,
        )
    } else {
        None
    }
}

/// The submenus met walking up from `e` through parent menus, at most
/// `fuel` of them.
#[verifier::opaque]
pub open spec fn chain(subs: Seq<SubmenuState>, e: u64, fuel: nat) -> Set<u64>
    decreases fuel,
{
    if fuel == 0 {
        Set::empty()
    } else {
        match container_index(subs, e) {
            None => Set::empty(),
            Some(i) => chain(subs, subs[i].parent_menu, (fuel - 1) as nat).insert(e),
        }
    }
}

proof fn lemma_chain_step(subs: Seq<SubmenuState>, e: u64, fuel: nat, k: int)
    requires
        fuel > 0,
        container_index(subs, e) == Some(k),
    ensures
        chain(subs, e, fuel) == chain(subs, subs[k].parent_menu, (fuel - 1) as nat).insert(e),
{
    reveal(chain);
}

proof fn lemma_chain_end(subs: Seq<SubmenuState>, e: u64, fuel: nat)
    requires
        fuel == 0 || container_index(subs, e) is None,
    ensures
        chain(subs, e, fuel) == Set::<u64>::empty(),
{
    reveal(chain);
}

proof fn lemma_first_index(subs: Seq<SubmenuState>, e: u64, i: int)
    requires
        0 <= i < subs.len(),
        subs[i].entity == e,
        forall|j: int| 0 <= j < i ==> subs[j].entity != e,
    ensures
        container_index(subs, e) == Some(i),
{
    let k = choose|k: int|
        0 <= k < subs.len() && subs[k].entity == e && forall|j: int| 0 <= j < k ==> subs[j].entity != e;
    assert(k == i) by {
        if k < i {
            assert(subs[k].entity != e);
        } else if k > i {
            assert(subs[i].entity != e);
        }
    }
}

fn find_container(subs: &Vec<SubmenuState>, e: u64) -> (r: Option<usize>)
    ensures
        match r {
            Some(i) => i < subs@.len() && container_index(subs@, e) == Some(i as int),
            None => container_index(subs@, e) is None,
        },
{
    let mut i: usize = 0;
    while i < subs.len()
        invariant
            i <= subs@.len(),
            forall|j: int| 0 <= j < i ==> subs@[j].entity != e,
        decreases subs@.len() - i,
    {
        if subs[i].entity == e {
            proof {
                lemma_first_index(subs@, e, i as int);
            }
            return Some(i);
        }
        i = i + 1;
    }
    None
}

/// Hides every submenu.
pub fn close_submenus(subs: &mut Vec<SubmenuState>)
    ensures
        final(subs)@.len() == old(subs)@.len(),
        forall|i: int|
            0 <= i < old(subs)@.len() ==> #[trigger] final(subs)@[i] == (SubmenuState {
                visible: false,
                ..old(subs)@[i]
            }),
{
    let mut i: usize = 0;
    while i < subs.len()
        invariant
            i <= subs@.len(),
            subs@.len() == old(subs)@.len(),
            forall|j: int|
                0 <= j < i ==> #[trigger] subs@[j] == (SubmenuState { visible: false, ..old(subs)@[j] }),
            forall|j: int| i <= j < subs@.len() ==> #[trigger] subs@[j] == old(subs)@[j],
        decreases subs@.len() - i,
    {
        let s = subs[i];
        subs.set(i, SubmenuState { visible: false, ..s });
        i = i + 1;
    }
}

/// Whether item `i` is the first clicked item whose submenu exists.
pub open spec fn first_openable(items: Seq<SubmenuItem>, subs: Seq<SubmenuState>, i: int) -> bool {
    &&& 0 <= i < items.len()
    &&& items[i].clicked
    &&& container_index(subs, items[i].submenu) is Some
    &&& forall|j: int|
        0 <= j < i && (#[trigger] items[j]).clicked ==> container_index(subs, items[j].submenu) is None
}

fn find_openable(items: &Vec<SubmenuItem>, subs: &Vec<SubmenuState>) -> (r: Option<usize>)
    ensures
        match r {
            Some(i) => first_openable(items@, subs@, i as int),
            None => forall|i: int|
                0 <= i < items@.len() && (#[trigger] items@[i]).clicked ==> container_index(
                    subs@,
                    items@[i].submenu,
                ) is None,
        },
{
    let mut i: usize = 0;
    while i < items.len()
        invariant
            i <= items@.len(),
            forall|j: int|
                0 <= j < i && (#[trigger] items@[j]).clicked ==> container_index(
                    subs@,
                    items@[j].submenu,
                ) is None,
        decreases items@.len() - i,
    {
        if items[i].clicked {
            match find_container(subs, items[i].submenu) {
                Some(_) => {
                    return Some(i);
                },
                None => {},
            }
        }
        i = i + 1;
    }
    None
}

/// The submenus from `start` up through parent menus.
fn chain_members(subs: &Vec<SubmenuState>, start: u64) -> (r: Vec<u64>)
    ensures
        r@.to_set() == chain(subs@, start, subs@.len() as nat),
{
    let n = subs.len();
    let mut shown: Vec<u64> = Vec::new();
    let mut e = start;
    let mut fuel: usize = n;
    while fuel > 0
        invariant
            fuel <= n,
            n == subs@.len(),
            chain(subs@, start, n as nat) == shown@.to_set().union(chain(subs@, e, fuel as nat)),
        decreases fuel,
    {
        match find_container(subs, e) {
            Some(k) => {
                let ghost before = shown@;
                let ghost rest = chain(subs@, subs@[k as int].parent_menu, (fuel - 1) as nat);
                shown.push(e);
                proof {
                    before.lemma_push_to_set_commute(e);
                    lemma_chain_step(subs@, e, fuel as nat, k as int);
                    assert(before.to_set().union(rest.insert(e)) =~= shown@.to_set().union(rest));
                }
                e = subs[k].parent_menu;
                fuel = fuel - 1;
            },
            None => {
                proof {
                    lemma_chain_end(subs@, e, fuel as nat);
                    lemma_chain_end(subs@, e, 0);
                }
                fuel = 0;
            },
        }
    }
    proof {
        lemma_chain_end(subs@, e, 0);
    }
    assert(shown@.to_set().union(Set::<u64>::empty()) =~= shown@.to_set());
    shown
}

/// Shows exactly the submenus in `members`.
fn show_only(subs: &mut Vec<SubmenuState>, members: &Vec<u64>)
    ensures
        final(subs)@.len() == old(subs)@.len(),
        forall|k: int|
            0 <= k < old(subs)@.len() ==> #[trigger] final(subs)@[k] == (SubmenuState {
                visible: members@.to_set().contains(old(subs)@[k].entity),
                ..old(subs)@[k]
            }),
{
    let mut k: usize = 0;
    while k < subs.len()
        invariant
            k <= subs@.len(),
            subs@.len() == old(subs)@.len(),
            forall|j: int|
                0 <= j < k ==> #[trigger] subs@[j] == (SubmenuState {
                    visible: members@.to_set().contains(old(subs)@[j].entity),
                    ..old(subs)@[j]
                }),
            forall|j: int| k <= j < subs@.len() ==> #[trigger] subs@[j] == old(subs)@[j],
        decreases subs@.len() - k,
    {
        let s = subs[k];
        let mut seen = false;
        let mut m: usize = 0;
        while m < members.len()
            invariant
                m <= members@.len(),
                seen <==> exists|q: int| 0 <= q < m && members@[q] == s.entity,
            decreases members@.len() - m,
        {
            if members[m] == s.entity {
                seen = true;
            }
            m = m + 1;
        }
        subs.set(k, SubmenuState { visible: seen, ..s });
        k = k + 1;
    }
}

/// Opens the submenu of the first clicked item that has one: every other
/// submenu is hidden, and the opened one is shown with the submenus it
/// hangs from. Returns the opened submenu, which the caller places next to
/// its item; nothing changes when no clicked item has a submenu.
pub fn menu_submenu_handler(items: &Vec<SubmenuItem>, subs: &mut Vec<SubmenuState>) -> (r: Option<u64>)
    ensures
        match r {
            None => final(subs)@ == old(subs)@ && forall|i: int|
                0 <= i < items@.len() && (#[trigger] items@[i]).clicked ==> container_index(
                    old(subs)@,
                    items@[i].submenu,
                ) is None,
            Some(open) => {
                &&& exists|i: int| first_openable(items@, old(subs)@, i) && items@[i].submenu == open
                &&& final(subs)@.len() == old(subs)@.len()
                &&& forall|k: int|
                    0 <= k < old(subs)@.len() ==> #[trigger] final(subs)@[k] == (SubmenuState {
                        visible: chain(old(subs)@, open, old(subs)@.len() as nat).contains(
                            old(subs)@[k].entity,
                        ),
                        ..old(subs)@[k]
                    })
            },
        },
{
    match find_openable(items, subs) {
        None => None,
        Some(i) => {
            let start = items[i].submenu;
            let members = chain_members(subs, start);
            show_only(subs, &members);
            Some(start)
        },
    }
}

} // verus!
