//! Decisions of the editor's UI chrome: which image a button shows, and the
//! stacking order of floating panels.

use vstd::prelude::*;
use vstd::string::{StrSliceExecFns, StringExecFns};

verus! {

/// The pointer's state over a UI node.
#[derive(Debug, Clone, Copy, PartialEq, Eq, Structural)]
pub enum Interaction {
    Clicked,
    Hovered,
    Idle,
}

/// The images a button can show. `Other` is any image outside the two
/// button families.
#[derive(Debug, Clone, Copy, PartialEq, Eq, Structural)]
pub enum ButtonImage {
    SmallDepressed,
    SmallHover,
    SmallPressed,
    ToolbarDepressed,
    ToolbarHover,
    ToolbarPressed,
    ToolbarDisabled,
    Other,
}

/// The family of a button's current image, as its images for the depressed,
/// hovered, pressed and disabled looks. Small buttons have no disabled look
/// of their own. A disabled toolbar image is not recognised as a family
/// member.
pub open spec fn image_family(current: ButtonImage) -> Option<(ButtonImage, ButtonImage, ButtonImage, ButtonImage)> {
    match current {
        ButtonImage::SmallDepressed | ButtonImage::SmallHover | ButtonImage::SmallPressed => Some(
            (
                ButtonImage::SmallDepressed,
                ButtonImage::SmallHover,
                ButtonImage::SmallPressed,
                ButtonImage::SmallDepressed,
            ),
        ),
        ButtonImage::ToolbarDepressed | ButtonImage::ToolbarHover | ButtonImage::ToolbarPressed => Some(
            (
                ButtonImage::ToolbarDepressed,
                ButtonImage::ToolbarHover,
                ButtonImage::ToolbarPressed,
                ButtonImage::ToolbarDisabled,
            ),
        ),
        _ => None,
    }
}

/// The image a button should show: pressed while selected, else disabled
/// while disabled, else after the interaction. An image outside the button
/// families cannot be changed.
pub fn butt_change_image(current: ButtonImage, interaction: Interaction, disabled: bool, selected: bool) -> (r: Result<ButtonImage, ()>)
    ensures
        match image_family(current) {
            None => r is Err,
            Some((depressed, hover, pressed, off)) => r == Ok::<ButtonImage, ()>(
                if selected {
                    pressed
                } else if disabled {
                    off
                } else {
                    match interaction {
                        Interaction::Idle => depressed,
                        Interaction::Hovered => hover,
                        Interaction::Clicked => pressed,
                    }
                },
            ),
        },
{
    let (depressed, hover, pressed, off) = match current {
        ButtonImage::SmallDepressed | ButtonImage::SmallHover | ButtonImage::SmallPressed => (
            ButtonImage::SmallDepressed,
            ButtonImage::SmallHover,
            ButtonImage::SmallPressed,
            ButtonImage::SmallDepressed,
        ),
        ButtonImage::ToolbarDepressed | ButtonImage::ToolbarHover | ButtonImage::ToolbarPressed => (
            ButtonImage::ToolbarDepressed,
            ButtonImage::ToolbarHover,
            ButtonImage::ToolbarPressed,
            ButtonImage::ToolbarDisabled,
        ),
        _ => {
            return Err(());
        },
    };
    if selected {
        Ok(pressed)
    } else if disabled {
        Ok(off)
    } else {
        match interaction {
            Interaction::Idle => Ok(depressed),
            Interaction::Hovered => Ok(hover),
            Interaction::Clicked => Ok(pressed),
        }
    }
}

/// The stacking order of a panel among its siblings: a local index, or any
/// other kind of ordering, which the focus rule turns into a local index.
#[derive(Debug, Clone, Copy, PartialEq, Eq, Structural)]
pub enum ZIndex {
    Local(i32),
    Global(i32),
}

/// One floating panel and its stacking order.
#[derive(Debug, Clone, Copy, PartialEq, Eq, Structural)]
pub struct PanelZ {
    pub panel: u64,
    pub z: ZIndex,
}

/// The least and greatest local indices in `ps`, starting from `(lo, hi)`.
pub open spec fn local_range(ps: Seq<PanelZ>, lo: int, hi: int) -> (int, int)
    decreases ps.len(),
{
    if ps.len() == 0 {
        (lo, hi)
    } else {
        let (l, h) = local_range(ps.drop_last(), lo, hi);
        match ps.last().z {
            ZIndex::Local(z) => (if z < l {
                z as int
            } else {
                l
            }, if z > h {
                z as int
            } else {
                h
            }),
            ZIndex::Global(_) => (l, h),
        }
    }
}

/// A panel's order after `focus` is brought to the front: the focused
/// panel goes one above the highest local index, then every local index is
/// shifted so the lowest becomes zero; other kinds become local zero.
pub open spec fn refocused(p: PanelZ, focus: u64, lo: int, hi: int) -> PanelZ {
    let z = if p.panel == focus {
        ZIndex::Local((hi + 1) as i32)
    } else {
        p.z
    };
    PanelZ {
        panel: p.panel,
        z: match z {
            ZIndex::Local(v) => ZIndex::Local((v - lo) as i32),
            ZIndex::Global(_) => ZIndex::Local(0),
        },
    }
}

/// Whether the focus rule's results fit in `i32` when `focus` is brought to
/// the front: every local index less the lowest one and, when `focus` is a
/// panel, one above the highest index less the lowest one.
pub open spec fn shift_fits(ps: Seq<PanelZ>, focus: u64) -> bool {
    let (lo, hi) = local_range(ps, i32::MAX as int, i32::MIN as int);
    &&& forall|i: int|
        0 <= i < ps.len() ==> match (#[trigger] ps[i]).z {
            ZIndex::Local(z) => z - lo <= i32::MAX,
            ZIndex::Global(_) => true,
        }
    &&& (exists|i: int| 0 <= i < ps.len() && (#[trigger] ps[i]).panel == focus) ==> {
        &&& hi < i32::MAX
        &&& i32::MIN <= hi + 1 - lo <= i32::MAX
    }
}

/// Brings the panel of the last clicked titlebar to the front. `clicked`
/// lists the panels whose titlebar is clicked this frame; with none, the
/// order is left as it is. The new indices must fit in `i32`.
pub fn panel_focus(clicked: &Vec<u64>, panels: &mut Vec<PanelZ>)
    requires
        clicked@.len() > 0 ==> shift_fits(old(panels)@, clicked@.last()),
    ensures
        clicked@.len() == 0 ==> final(panels)@ == old(panels)@,
        clicked@.len() > 0 ==> ({
            let (lo, hi) = local_range(old(panels)@, i32::MAX as int, i32::MIN as int);
            let focus = clicked@.last();
            &&& final(panels)@.len() == old(panels)@.len()
            &&& forall|i: int|
                0 <= i < old(panels)@.len() ==> #[trigger] final(panels)@[i] == refocused(
                    old(panels)@[i],
                    focus,
                    lo,
                    hi,
                )
        }),
{
    if clicked.len() == 0 {
        return;
    }
    let focus = clicked[clicked.len() - 1];
    let mut lo: i32 = i32::MAX;
    let mut hi: i32 = i32::MIN;
    let mut i: usize = 0;
    while i < panels.len()
        invariant
            i <= panels@.len(),
            panels@ == old(panels)@,
            (lo as int, hi as int) == local_range(panels@.subrange(0, i as int), i32::MAX as int, i32::MIN as int),
        decreases panels@.len() - i,
    {
        proof {
            assert(panels@.subrange(0, i as int + 1).drop_last() =~= panels@.subrange(0, i as int));
        }
        match panels[i].z {
            ZIndex::Local(z) => {
                if z < lo {
                    lo = z;
                }
                if z > hi {
                    hi = z;
                }
            },
            ZIndex::Global(_) => {},
        }
        i = i + 1;
    }
    assert(panels@.subrange(0, i as int) =~= panels@);
    let ghost before = panels@;
    let mut out: Vec<PanelZ> = Vec::new();
    let mut k: usize = 0;
    while k < panels.len()
        invariant
            k <= before.len(),
            panels@ == before,
            before == old(panels)@,
            focus == clicked@.last(),
            shift_fits(before, focus),
            (lo as int, hi as int) == local_range(before, i32::MAX as int, i32::MIN as int),
            out@.len() == k,
            forall|j: int| 0 <= j < k ==> #[trigger] out@[j] == refocused(before[j], focus, lo as int, hi as int),
        decreases before.len() - k,
    {
        let p = panels[k];
        proof {
            lemma_local_range_covers(before, k as int);
            assert(before[k as int] == p);
        }
        let z = if p.panel == focus {
            ZIndex::Local(hi + 1)
        } else {
            p.z
        };
        let nz = match z {
            ZIndex::Local(v) => ZIndex::Local(v - lo),
            ZIndex::Global(_) => ZIndex::Local(0),
        };
        out.push(PanelZ { panel: p.panel, z: nz });
        k = k + 1;
    }
    *panels = out;
}

/// A local index lies within the range of local indices.
proof fn lemma_local_range_covers(ps: Seq<PanelZ>, k: int)
    requires
        0 <= k < ps.len(),
    ensures
        ({
            let (lo, hi) = local_range(ps, i32::MAX as int, i32::MIN as int);
            match ps[k].z {
                ZIndex::Local(z) => lo <= z <= hi,
                ZIndex::Global(_) => true,
            }
        }),
    decreases ps.len(),
{
    let rest = ps.drop_last();
    if k < ps.len() - 1 {
        lemma_local_range_covers(rest, k);
        assert(rest[k] == ps[k]);
    }
}

/// Where a tooltip is pinned, as distances from the window's edges; `None`
/// leaves that edge free.
#[derive(Debug, Clone, Copy, PartialEq, Eq, Structural)]
pub struct TooltipAnchor {
    pub left: Option<i64>,
    pub right: Option<i64>,
    pub top: Option<i64>,
    pub bottom: Option<i64>,
}

/// The tooltip's anchor for a cursor at `cursor` in a window of `width` by
/// `height` (fixed-point, the origin at the bottom left): it opens toward
/// the larger part of the window, touching the cursor; without a cursor it
/// sits at the top left corner.
pub open spec fn tooltip_anchor(cursor: Option<(i32, i32)>, width: i32, height: i32) -> TooltipAnchor {
    match cursor {
        Some((x, y)) => TooltipAnchor {
            left: if 2 * x < width {
                Some(x as i64)
            } else {
                None
            },
            right: if 2 * x < width {
                None
            } else {
                Some((width - x) as i64)
            },
            bottom: if 2 * y < height {
                Some(y as i64)
            } else {
                None
            },
            top: if 2 * y < height {
                None
            } else {
                Some((height - y) as i64)
            },
        },
        None => TooltipAnchor { left: Some(0), right: None, top: Some(0), bottom: None },
    }
}

/// Places a tooltip next to the cursor, toward the larger part of the window.
pub fn compute_tooltip_position(cursor: Option<(i32, i32)>, width: i32, height: i32) -> (r: TooltipAnchor)
    ensures
        r == tooltip_anchor(cursor, width, height),
{
    match cursor {
        Some((x, y)) => {
            let (left, right) = if 2 * (x as i64) < width as i64 {
                (Some(x as i64), None)
            } else {
                (None, Some(width as i64 - x as i64))
            };
            let (bottom, top) = if 2 * (y as i64) < height as i64 {
                (Some(y as i64), None)
            } else {
                (None, Some(height as i64 - y as i64))
            };
            TooltipAnchor { left, right, top, bottom }
        },
        None => TooltipAnchor { left: Some(0), right: None, top: Some(0), bottom: None },
    }
}

/// The uppercase form of a character, as `char::to_uppercase` gives it.
pub uninterp spec fn upper_of(c: char) -> Seq<char>;

/// Whether a character has the Unicode `White_Space` property: tab, line
/// feed, vertical tab, form feed, carriage return, space, next line,
/// no-break space, ogham space mark, the spaces from en quad to hair space,
/// line and paragraph separators, narrow no-break space, medium mathematical
/// space and ideographic space.
pub open spec fn whitespace_of(c: char) -> bool {
    let u = c as u32;
    (0x9 <= u <= 0xD) || u == 0x20 || u == 0x85 || u == 0xA0 || u == 0x1680 || (0x2000 <= u
        <= 0x200A) || u == 0x2028 || u == 0x2029 || u == 0x202F || u == 0x205F || u == 0x3000
}

/// Relies on `char::to_uppercase`: the uppercase mapping of `c`, which
/// depends on `c` alone.
#[verifier::external_body]
fn uppercase(c: char) -> (r: String)
    ensures
        r@ == upper_of(c),
{
    c.to_uppercase().collect::<String>()
}

/// Whether `c` has the Unicode `White_Space` property, as
/// `char::is_whitespace` tells.
fn is_whitespace(c: char) -> (r: bool)
    ensures
        r == whitespace_of(c),
{
    let u = c as u32;
    (0x9 <= u && u <= 0xD) || u == 0x20 || u == 0x85 || u == 0xA0 || u == 0x1680 || (0x2000 <= u
        && u <= 0x200A) || u == 0x2028 || u == 0x2029 || u == 0x202F || u == 0x205F || u == 0x3000
}

/// Whether a word starts at `i`: a character that is not whitespace, first
/// or after whitespace.
pub open spec fn word_start(s: Seq<char>, i: int) -> bool {
    0 <= i < s.len() && !whitespace_of(s[i]) && (i == 0 || whitespace_of(s[i - 1]))
}

/// The uppercased first characters of the words among the first `n`
/// characters of `s`.
pub open spec fn initials(s: Seq<char>, n: int) -> Seq<char>
    decreases n,
{
    if n <= 0 {
        Seq::empty()
    } else {
        initials(s, n - 1) + if word_start(s, n - 1) {
            upper_of(s[n - 1])
        } else {
            Seq::empty()
        }
    }
}

/// The label of a minimised panel's button: the initials of its title,
/// uppercased, in brackets.
pub fn minibar_label(title: &str) -> (r: String)
    ensures
        r@ == seq!['['] + initials(title@, title@.len() as int) + seq![']'],
{
    let n = title.unicode_len();
    let mut label = String::from_str("[");
    proof {
        reveal_strlit("[");
    }
    let mut prev_space = true;
    let mut i: usize = 0;
    while i < n
        invariant
            n == title@.len(),
            i <= n,
            label@ == seq!['['] + initials(title@, i as int),
            i > 0 ==> prev_space == whitespace_of(title@[i - 1]),
            i == 0 ==> prev_space,
        decreases n - i,
    {
        let c = title.get_char(i);
        let space = is_whitespace(c);
        if !space && prev_space {
            let u = uppercase(c);
            label.append(u.as_str());
        }
        proof {
            assert(word_start(title@, i as int) == (!space && prev_space));
            assert(label@ =~= seq!['['] + initials(title@, i + 1));
        }
        prev_space = space;
        i = i + 1;
    }
    label.append("]");
    proof {
        reveal_strlit("]");
    }
    label
}

} // verus!
