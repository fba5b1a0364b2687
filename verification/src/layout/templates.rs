//! The layout templates that the front end offers by name.

use vstd::prelude::*;
use crate::text::str_is;
use crate::types::session::{
    lemma_children_view, slots_of, LayoutEntry, LayoutNode, LayoutSlot, LayoutTree,
};

verus! {

/// An unnamed pane with the given share.
pub open spec fn blank_slot(percent: u32) -> LayoutSlot {
    LayoutSlot { node: LayoutTree::Pane { agent: Seq::empty() }, percent: Some(percent) }
}

/// Two unnamed panes stacked in a column that takes half of its parent.
pub open spec fn half_column() -> LayoutSlot {
    LayoutSlot {
        node: LayoutTree::Col { children: seq![blank_slot(50), blank_slot(50)] },
        percent: Some(50),
    }
}

/// The layout of the template of the given name, if there is one:
/// `2-col`, `3-col`, `2-row` or `dashboard`.
pub open spec fn template_of(name: Seq<char>) -> Option<LayoutTree> {
    if name == "2-col"@ {
        Some(LayoutTree::Row { children: seq![blank_slot(50), blank_slot(50)] })
    } else if name == "3-col"@ {
        Some(LayoutTree::Row { children: seq![blank_slot(33), blank_slot(34), blank_slot(33)] })
    } else if name == "2-row"@ {
        Some(LayoutTree::Col { children: seq![blank_slot(50), blank_slot(50)] })
    } else if name == "dashboard"@ {
        Some(LayoutTree::Row { children: seq![half_column(), half_column()] })
    } else {
        None
    }
}

fn blank(percent: u32) -> (entry: LayoutEntry)
    ensures
        entry@ == blank_slot(percent),
{
    LayoutEntry { node: LayoutNode::Pane { agent: String::new() }, percent: Some(percent) }
}

/// A row of the entries given.
fn row_of(children: Vec<LayoutEntry>) -> (node: LayoutNode)
    ensures
        node@ == (LayoutTree::Row { children: slots_of(children@) }),
{
    let node = LayoutNode::Row { children };
    proof {
        lemma_children_view(node);
    }
    node
}

/// A column of the entries given.
fn col_of(children: Vec<LayoutEntry>) -> (node: LayoutNode)
    ensures
        node@ == (LayoutTree::Col { children: slots_of(children@) }),
{
    let node = LayoutNode::Col { children };
    proof {
        lemma_children_view(node);
    }
    node
}

fn two_blanks() -> (children: Vec<LayoutEntry>)
    ensures
        slots_of(children@) == seq![blank_slot(50), blank_slot(50)],
{
    let mut children: Vec<LayoutEntry> = Vec::new();
    children.push(blank(50));
    children.push(blank(50));
    assert(slots_of(children@) =~= seq![blank_slot(50), blank_slot(50)]);
    children
}

fn half() -> (entry: LayoutEntry)
    ensures
        entry@ == half_column(),
{
    LayoutEntry { node: col_of(two_blanks()), percent: Some(50) }
}

/// The layout of a template, for the names that are templates.
pub fn template_layout(template: &str) -> (layout: Option<LayoutNode>)
    ensures
        match layout {
            Some(node) => template_of(template@) == Some(node@),
            None => template_of(template@) is None,
        },
{
    if str_is(template, "2-col") {
        Some(row_of(two_blanks()))
    } else if str_is(template, "3-col") {
        let mut children: Vec<LayoutEntry> = Vec::new();
        children.push(blank(33));
        children.push(blank(34));
        children.push(blank(33));
        assert(slots_of(children@) =~= seq![blank_slot(33), blank_slot(34), blank_slot(33)]);
        Some(row_of(children))
    } else if str_is(template, "2-row") {
        Some(col_of(two_blanks()))
    } else if str_is(template, "dashboard") {
        let mut children: Vec<LayoutEntry> = Vec::new();
        children.push(half());
        children.push(half());
        assert(slots_of(children@) =~= seq![half_column(), half_column()]);
        Some(row_of(children))
    } else {
        None
    }
}

} // verus!
