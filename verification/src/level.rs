//! Terrain: the cells that a chunk is made of.

use vstd::prelude::*;

use crate::color;
use crate::color::Color;

verus! {

/// What stands on a cell.
#[derive(Clone, Copy, Debug, PartialEq, Eq, Hash, Structural)]
pub enum TileKind {
    Empty,
    Tree,
}

/// One cell of terrain. The two flags belong to the renderer's fog of war:
/// the world keeps them, the renderer only reads them.
#[derive(Clone, Copy, Debug, PartialEq, Eq, Structural)]
pub struct Tile {
    pub kind: TileKind,
    pub fg_color: Color,
    pub explored: bool,
    pub visible: bool,
}

impl Tile {
    /// A cell of the given kind as it is before anyone has seen it.
    pub open spec fn fresh(kind: TileKind) -> Tile {
        Tile {
            kind,
            fg_color: match kind {
                TileKind::Empty => color::spec_empty_tile(),
                TileKind::Tree => color::spec_tree_1(),
            },
            explored: false,
            visible: false,
        }
    }

    /// A cell of the given kind, unexplored, in the kind's usual colour.
    pub fn new(kind: TileKind) -> (tile: Tile)
        ensures
            tile == Tile::fresh(kind),
    {
        let fg_color = match kind {
            TileKind::Empty => color::empty_tile(),
            TileKind::Tree => color::tree_1(),
        };
        Tile { kind, fg_color, explored: false, visible: false }
    }

    /// Whether a creature can stand here.
    pub fn walkable(&self) -> (yes: bool)
        ensures
            yes == (self.kind == TileKind::Empty),
    {
        match self.kind {
            TileKind::Empty => true,
            TileKind::Tree => false,
        }
    }
}

} // verus!
