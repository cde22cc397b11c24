//! Tool modes and sets of them.

use vstd::prelude::*;

verus! {

/// An editor tool mode.
#[derive(Debug, Clone, Copy, PartialEq, Eq, Structural, Hash)]
pub enum Tool {
    SelectEntities,
    Translation,
    SelectTilemap,
}

impl Default for Tool {
    /// The tool that is active when the editor starts.
    fn default() -> (r: Tool)
        ensures
            r == Tool::SelectEntities,
    {
        Tool::SelectEntities
    }
}

/// Help text shown when hovering the button of a tool.
pub struct TooltipText {
    pub title: String,
    pub text: String,
}

impl Tool {
    /// The position of this tool's bit in a `Tools` mask.
    pub open spec fn shift(self) -> u64 {
        match self {
            Tool::SelectEntities => 0,
            Tool::Translation => 1,
            Tool::SelectTilemap => 16,
        }
    }

    /// This tool's bit in a `Tools` mask.
    pub open spec fn bit_spec(self) -> u64 {
        match self {
            Tool::SelectEntities => 1,
            Tool::Translation => 2,
            Tool::SelectTilemap => 0x1_0000,
        }
    }

    pub fn bit(self) -> (r: u64)
        ensures
            r == self.bit_spec(),
            r == 1u64 << self.shift(),
    {
        proof {
            assert(1u64 << 0u64 == 1) by (bit_vector);
            assert(1u64 << 1u64 == 2) by (bit_vector);
            assert(1u64 << 16u64 == 0x1_0000) by (bit_vector);
        }
        match self {
            Tool::SelectEntities => 1,
            Tool::Translation => 2,
            Tool::SelectTilemap => 0x1_0000,
        }
    }

    pub fn tooltip(self) -> (r: TooltipText)
        ensures
            r.title@ == tooltip_title(self),
            r.text@ == tooltip_body(self),
    {
        match self {
            Tool::SelectEntities => TooltipText {
                title: "Select Entities".to_owned(),
                text: "Click on entities to select them.\nThen, use other tools to manipulate the selected entities.".to_owned(),
            },
            Tool::Translation => TooltipText {
                title: "Move/Translate (Transform Editing)".to_owned(),
                text: "Move entities with the mouse, changing the translation of their Transform.".to_owned(),
            },
            Tool::SelectTilemap => TooltipText {
                title: "Select the Active Tilemap".to_owned(),
                text: "Tilemap editing tools will operate on the currently selected tilemap.".to_owned(),
            },
        }
    }
}

pub open spec fn tooltip_title(t: Tool) -> Seq<char> {
    match t {
        Tool::SelectEntities => "Select Entities"@,
        Tool::Translation => "Move/Translate (Transform Editing)"@,
        Tool::SelectTilemap => "Select the Active Tilemap"@,
    }
}

pub open spec fn tooltip_body(t: Tool) -> Seq<char> {
    match t {
        Tool::SelectEntities =>
            "Click on entities to select them.\nThen, use other tools to manipulate the selected entities."@,
        Tool::Translation =>
            "Move entities with the mouse, changing the translation of their Transform."@,
        Tool::SelectTilemap =>
            "Tilemap editing tools will operate on the currently selected tilemap."@,
    }
}

/// A set of tools, held as a bit mask with one bit per tool.
#[derive(Debug, Clone, Copy, PartialEq, Eq, Structural)]
pub struct Tools(u64);

pub open spec fn mask_has(mask: u64, t: Tool) -> bool {
    mask & t.bit_spec() != 0
}

proof fn lemma_or_bits(a: u64, b: u64)
    ensures
        forall|t: Tool| #[trigger] mask_has(a | b, t) <==> mask_has(a, t) || mask_has(b, t),
{
    assert forall|t: Tool| #[trigger] mask_has(a | b, t) <==> mask_has(a, t) || mask_has(b, t) by {
        let c = t.bit_spec();
        assert(c == 1 || c == 2 || c == 0x1_0000);
        assert((c == 1 || c == 2 || c == 0x1_0000) ==> ((a | b) & c != 0 <==> (a & c != 0 || b & c != 0))) by (bit_vector);
    }
}

impl View for Tools {
    type V = Set<Tool>;

    closed spec fn view(&self) -> Set<Tool> {
        Set::new(|t: Tool| mask_has(self.0, t))
    }
}

impl Tools {
    /// The set holding exactly the tool `t`.
    pub closed spec fn of_tool(t: Tool) -> Tools {
        Tools(t.bit_spec())
    }

    /// The union of two sets.
    pub closed spec fn join(self, other: Tools) -> Tools {
        Tools(self.0 | other.0)
    }

    /// Joining two sets holds the tools of either.
    pub proof fn lemma_join(self, other: Tools)
        ensures
            self.join(other)@ == self@.union(other@),
    {
        lemma_or_bits(self.0, other.0);
        assert(self.join(other)@ =~= self@.union(other@));
    }

    /// The set made from one tool holds that tool alone.
    pub proof fn lemma_of_tool(tool: Tool)
        ensures
            Tools::of_tool(tool)@ == set![tool],
    {
        let r = Tools::of_tool(tool);
        assert forall|t: Tool| mask_has(r.0, t) <==> t == tool by {
            let c = t.bit_spec();
            let d = tool.bit_spec();
            assert(c == 1 || c == 2 || c == 0x1_0000);
            assert(d == 1 || d == 2 || d == 0x1_0000);
            assert((c == 1 || c == 2 || c == 0x1_0000) && (d == 1 || d == 2 || d == 0x1_0000)
                ==> (d & c != 0 <==> c == d)) by (bit_vector);
        }
        assert(r@ =~= set![tool]);
    }

    /// The set with no tools.
    pub fn empty() -> (r: Tools)
        ensures
            r@ == Set::<Tool>::empty(),
    {
        assert forall|t: Tool| !mask_has(0u64, t) by {
            let c = t.bit_spec();
            assert(0u64 & c == 0) by (bit_vector);
        }
        let r = Tools(0);
        assert(r@ =~= Set::<Tool>::empty());
        r
    }

    /// The set holding one tool.
    pub fn single(tool: Tool) -> (r: Tools)
        ensures
            r == Tools::of_tool(tool),
            r@ == set![tool],
    {
        proof {
            Tools::lemma_of_tool(tool);
        }
        Tools(tool.bit())
    }

    pub fn contains(self, tool: Tool) -> (r: bool)
        ensures
            r == self@.contains(tool),
    {
        self.0 & tool.bit() != 0
    }

    /// This set with one more tool.
    pub fn with(self, tool: Tool) -> (r: Tools)
        ensures
            r == self.join(Tools::of_tool(tool)),
            r@ == self@.insert(tool),
    {
        let one = Tools::single(tool);
        let r = self.union(one);
        assert(r@ =~= self@.insert(tool));
        r
    }

    pub fn union(self, other: Tools) -> (r: Tools)
        ensures
            r == self.join(other),
            r@ == self@.union(other@),
    {
        proof {
            self.lemma_join(other);
        }
        Tools(self.0 | other.0)
    }
}

impl core::ops::BitOr<Tool> for Tools {
    type Output = Tools;

    fn bitor(self, rhs: Tool) -> (r: Tools) {
        self.with(rhs)
    }
}

impl vstd::std_specs::ops::BitOrSpecImpl<Tool> for Tools {
    open spec fn obeys_bitor_spec() -> bool {
        true
    }

    open spec fn bitor_req(self, rhs: Tool) -> bool {
        true
    }

    open spec fn bitor_spec(self, rhs: Tool) -> Tools {
        self.join(Tools::of_tool(rhs))
    }
}

impl core::ops::BitOr<Tool> for Tool {
    type Output = Tools;

    fn bitor(self, rhs: Tool) -> (r: Tools) {
        Tools::single(self).with(rhs)
    }
}

impl vstd::std_specs::ops::BitOrSpecImpl<Tool> for Tool {
    open spec fn obeys_bitor_spec() -> bool {
        true
    }

    open spec fn bitor_req(self, rhs: Tool) -> bool {
        true
    }

    open spec fn bitor_spec(self, rhs: Tool) -> Tools {
        Tools::of_tool(self).join(Tools::of_tool(rhs))
    }
}

impl core::ops::BitOr<Tools> for Tool {
    type Output = Tools;

    fn bitor(self, rhs: Tools) -> (r: Tools) {
        Tools::single(self).union(rhs)
    }
}

impl vstd::std_specs::ops::BitOrSpecImpl<Tools> for Tool {
    open spec fn obeys_bitor_spec() -> bool {
        true
    }

    open spec fn bitor_req(self, rhs: Tools) -> bool {
        true
    }

    open spec fn bitor_spec(self, rhs: Tools) -> Tools {
        Tools::of_tool(self).join(rhs)
    }
}

impl core::ops::BitOr<Tools> for Tools {
    type Output = Tools;

    fn bitor(self, rhs: Tools) -> (r: Tools) {
        self.union(rhs)
    }
}

impl vstd::std_specs::ops::BitOrSpecImpl<Tools> for Tools {
    open spec fn obeys_bitor_spec() -> bool {
        true
    }

    open spec fn bitor_req(self, rhs: Tools) -> bool {
        true
    }

    open spec fn bitor_spec(self, rhs: Tools) -> Tools {
        self.join(rhs)
    }
}

impl core::ops::BitOrAssign<Tool> for Tools {
    fn bitor_assign(&mut self, rhs: Tool) {
        *self = self.with(rhs);
    }
}

impl From<Tool> for Tools {
    fn from(value: Tool) -> (r: Tools) {
        Tools::single(value)
    }
}

impl vstd::std_specs::convert::FromSpecImpl<Tool> for Tools {
    open spec fn obeys_from_spec() -> bool {
        true
    }

    open spec fn from_spec(v: Tool) -> Tools {
        Tools::of_tool(v)
    }
}

} // verus!
