//! Tiles: the named entries of the parts catalog.

use vstd::prelude::*;
use crate::types::session::{LayoutNode, LayoutTree};

verus! {

/// What a part is: an agent (a single pane bound to a role), a composition
/// (a layout over agents only) or a session (a layout that refers to other
/// parts).
#[derive(Clone, Copy, Debug, PartialEq, Eq, Structural)]
pub enum TileKind {
    Agent,
    Composition,
    Session,
}

/// A named entry of the catalog.
#[derive(Debug)]
pub struct Tile {
    pub name: String,
    pub kind: TileKind,
    /// The role of an agent; compositions and sessions have none.
    pub role: Option<String>,
    /// The layout of a composition or a session; agents have none.
    pub layout: Option<LayoutNode>,
}

/// A tile as a value of the model.
pub struct Part {
    pub name: Seq<char>,
    pub kind: TileKind,
    pub role: Option<Seq<char>>,
    pub layout: Option<LayoutTree>,
}

impl View for Tile {
    type V = Part;

    open spec fn view(&self) -> Part {
        Part {
            name: self.name@,
            kind: self.kind,
            role: match self.role {
                Some(role) => Some(role@),
                None => None,
            },
            layout: match self.layout {
                Some(layout) => Some(layout@),
                None => None,
            },
        }
    }
}

impl Clone for Tile {
    fn clone(&self) -> (copy: Self)
        ensures
            copy@ == self@,
    {
        Tile {
            name: self.name.clone(),
            kind: self.kind,
            role: match &self.role {
                Some(role) => Some(role.clone()),
                None => None,
            },
            layout: match &self.layout {
                Some(layout) => Some(layout.clone()),
                None => None,
            },
        }
    }
}

/// The parts that a list of tiles stands for, in the same order.
pub open spec fn parts_of(tiles: Seq<Tile>) -> Seq<Part> {
    Seq::new(tiles.len(), |i: int| tiles[i]@)
}

} // verus!
