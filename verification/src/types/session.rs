//! Layout trees and pane geometry.

use vstd::prelude::*;

verus! {

/// The mathematical layout tree: what a `LayoutNode` stands for.
pub enum LayoutTree {
    /// A single pane, named by its agent (possibly empty).
    Pane { agent: Seq<char> },
    /// Children arranged side by side.
    Row { children: Seq<LayoutSlot> },
    /// Children stacked on top of each other.
    Col { children: Seq<LayoutSlot> },
}

/// One child of a `Row` or `Col` with its share of the parent, if recorded.
pub struct LayoutSlot {
    pub node: LayoutTree,
    pub percent: Option<u32>,
}

/// A node of a layout: a pane, or a row or column of entries.
#[derive(Debug)]
pub enum LayoutNode {
    Pane { agent: String },
    Row { children: Vec<LayoutEntry> },
    Col { children: Vec<LayoutEntry> },
}

/// A child of a row or column, with its optional percentage of the parent.
#[derive(Debug)]
pub struct LayoutEntry {
    pub node: LayoutNode,
    pub percent: Option<u32>,
}

impl View for LayoutNode {
    type V = LayoutTree;

    open spec fn view(&self) -> LayoutTree
        decreases self,
    {
        match self {
            LayoutNode::Pane { agent } => LayoutTree::Pane { agent: agent@ },
            LayoutNode::Row { children } => LayoutTree::Row {
                children: Seq::new(
                    children@.len(),
                    |i: int|
                        if 0 <= i < children@.len() {
                            LayoutSlot { node: children@[i].node.view(), percent: children@[i].percent }
                        } else {
                            arbitrary()
                        },
                ),
            },
            LayoutNode::Col { children } => LayoutTree::Col {
                children: Seq::new(
                    children@.len(),
                    |i: int|
                        if 0 <= i < children@.len() {
                            LayoutSlot { node: children@[i].node.view(), percent: children@[i].percent }
                        } else {
                            arbitrary()
                        },
                ),
            },
        }
    }
}

impl View for LayoutEntry {
    type V = LayoutSlot;

    open spec fn view(&self) -> LayoutSlot {
        LayoutSlot { node: self.node@, percent: self.percent }
    }
}

/// The slots that a sequence of entries stands for, in the same order.
pub open spec fn slots_of(entries: Seq<LayoutEntry>) -> Seq<LayoutSlot> {
    Seq::new(entries.len(), |i: int| entries[i]@)
}

/// The view of a row or column holds the views of its entries.
pub proof fn lemma_children_view(node: LayoutNode)
    ensures
        node matches LayoutNode::Row { children } ==> node@ == (LayoutTree::Row {
            children: slots_of(children@),
        }),
        node matches LayoutNode::Col { children } ==> node@ == (LayoutTree::Col {
            children: slots_of(children@),
        }),
{
    match node {
        LayoutNode::Pane { .. } => {},
        LayoutNode::Row { children } => {
            assert(node@->Row_children =~= slots_of(children@));
        },
        LayoutNode::Col { children } => {
            assert(node@->Col_children =~= slots_of(children@));
        },
    }
}

/// Whether two lists of entries stand for the same slots.
fn entries_equal(a: &Vec<LayoutEntry>, b: &Vec<LayoutEntry>) -> (same: bool)
    ensures
        same == (slots_of(a@) == slots_of(b@)),
    decreases a,
{
    if a.len() != b.len() {
        assert(slots_of(a@).len() != slots_of(b@).len());
        return false;
    }
    let mut i: usize = 0;
    while i < a.len()
        invariant
            i <= a.len(),
            a.len() == b.len(),
            forall|j: int| 0 <= j < i ==> #[trigger] a@[j]@ == b@[j]@,
        decreases a.len() - i,
    {
        let node_same = a[i].node.eq(&b[i].node);
        if !node_same || a[i].percent != b[i].percent {
            assert(slots_of(a@)[i as int] != slots_of(b@)[i as int]);
            return false;
        }
        i += 1;
    }
    assert(slots_of(a@) =~= slots_of(b@));
    true
}

impl PartialEq for LayoutNode {
    fn eq(&self, other: &Self) -> (same: bool)
        decreases self,
    {
        proof {
            lemma_children_view(*self);
            lemma_children_view(*other);
        }
        match self {
            LayoutNode::Pane { agent: a } => match other {
                LayoutNode::Pane { agent: b } => {
                    let same = *a == *b;
                    assert(same == (self@ == other@));
                    same
                },
                _ => false,
            },
            LayoutNode::Row { children: a } => match other {
                LayoutNode::Row { children: b } => {
                    let same = entries_equal(a, b);
                    assert(same == (self@ == other@));
                    same
                },
                _ => false,
            },
            LayoutNode::Col { children: a } => match other {
                LayoutNode::Col { children: b } => {
                    let same = entries_equal(a, b);
                    assert(same == (self@ == other@));
                    same
                },
                _ => false,
            },
        }
    }
}

impl vstd::std_specs::cmp::PartialEqSpecImpl for LayoutNode {
    open spec fn obeys_eq_spec() -> bool {
        true
    }

    open spec fn eq_spec(&self, other: &Self) -> bool {
        self@ == other@
    }
}

impl PartialEq for LayoutEntry {
    fn eq(&self, other: &Self) -> (same: bool) {
        self.node == other.node && self.percent == other.percent
    }
}

impl vstd::std_specs::cmp::PartialEqSpecImpl for LayoutEntry {
    open spec fn obeys_eq_spec() -> bool {
        true
    }

    open spec fn eq_spec(&self, other: &Self) -> bool {
        self@ == other@
    }
}

/// A copy of a list of entries that stands for the same slots.
fn entries_clone(entries: &Vec<LayoutEntry>) -> (copy: Vec<LayoutEntry>)
    ensures
        slots_of(copy@) == slots_of(entries@),
    decreases entries,
{
    let mut copy: Vec<LayoutEntry> = Vec::new();
    let mut i: usize = 0;
    while i < entries.len()
        invariant
            i <= entries.len(),
            copy.len() == i,
            forall|j: int| 0 <= j < i ==> #[trigger] copy@[j]@ == entries@[j]@,
        decreases entries.len() - i,
    {
        let node = entries[i].node.clone();
        copy.push(LayoutEntry { node, percent: entries[i].percent });
        i += 1;
    }
    assert(slots_of(copy@) =~= slots_of(entries@));
    copy
}

impl Clone for LayoutNode {
    fn clone(&self) -> (copy: Self)
        ensures
            copy@ == self@,
        decreases self,
    {
        proof {
            lemma_children_view(*self);
        }
        let copy = match self {
            LayoutNode::Pane { agent } => LayoutNode::Pane { agent: agent.clone() },
            LayoutNode::Row { children } => LayoutNode::Row { children: entries_clone(children) },
            LayoutNode::Col { children } => LayoutNode::Col { children: entries_clone(children) },
        };
        proof {
            lemma_children_view(copy);
        }
        copy
    }
}

impl Clone for LayoutEntry {
    fn clone(&self) -> (copy: Self)
        ensures
            copy@ == self@,
    {
        LayoutEntry { node: self.node.clone(), percent: self.percent }
    }
}

/// The geometry of one pane as the multiplexer reports it. All panes of one
/// listing share a coordinate space.
#[derive(Debug)]
pub struct TmuxPane {
    pub id: String,
    pub index: u32,
    pub width: u32,
    pub height: u32,
    pub top: u32,
    pub left: u32,
    pub agent: Option<String>,
}

/// What the reconstruction reads of a pane: its rectangle and its agent.
pub struct PaneGeometry {
    pub id: Seq<char>,
    pub index: nat,
    pub width: nat,
    pub height: nat,
    pub top: nat,
    pub left: nat,
    pub agent: Option<Seq<char>>,
}

impl View for TmuxPane {
    type V = PaneGeometry;

    open spec fn view(&self) -> PaneGeometry {
        PaneGeometry {
            id: self.id@,
            index: self.index as nat,
            width: self.width as nat,
            height: self.height as nat,
            top: self.top as nat,
            left: self.left as nat,
            agent: match self.agent {
                Some(name) => Some(name@),
                None => None,
            },
        }
    }
}

impl Clone for TmuxPane {
    fn clone(&self) -> (copy: Self)
        ensures
            copy@ == self@,
    {
        TmuxPane {
            id: self.id.clone(),
            index: self.index,
            width: self.width,
            height: self.height,
            top: self.top,
            left: self.left,
            agent: match &self.agent {
                Some(name) => Some(name.clone()),
                None => None,
            },
        }
    }
}

/// The geometries that a list of panes stands for, in the same order.
pub open spec fn geometries_of(panes: Seq<TmuxPane>) -> Seq<PaneGeometry> {
    Seq::new(panes.len(), |i: int| panes[i]@)
}

} // verus!
