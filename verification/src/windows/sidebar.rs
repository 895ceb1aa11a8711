//! The panel beside the map.

use vstd::prelude::*;

use crate::item;
use crate::point::Point;

verus! {

/// What the player can ask for by clicking in the panel.
#[derive(Copy, Clone, Debug, PartialEq, Eq, Structural)]
pub enum Action {
    MainMenu,
    Help,
    UseFood,
    UseDose,
    UseCardinalDose,
    UseDiagonalDose,
    UseStrongDose,
    MoveN,
    MoveS,
    MoveW,
    MoveE,
    MoveNW,
    MoveNE,
    MoveSW,
    MoveSE,
}

impl Action {
    /// The step that a click on one of the eight arrows asks for; nothing
    /// for anything else.
    pub open spec fn spec_offset(self) -> Option<Point> {
        match self {
            Action::MoveN => Some(Point { x: 0, y: -1i32 }),
            Action::MoveS => Some(Point { x: 0, y: 1 }),
            Action::MoveW => Some(Point { x: -1i32, y: 0 }),
            Action::MoveE => Some(Point { x: 1, y: 0 }),
            Action::MoveNW => Some(Point { x: -1i32, y: -1i32 }),
            Action::MoveNE => Some(Point { x: 1, y: -1i32 }),
            Action::MoveSW => Some(Point { x: -1i32, y: 1 }),
            Action::MoveSE => Some(Point { x: 1, y: 1 }),
            _ => None,
        }
    }

    /// The action that a click on the inventory line of a kind asks for.
    pub open spec fn spec_use_of(kind: item::Kind) -> Action {
        match kind {
            item::Kind::Food => Action::UseFood,
            item::Kind::Dose => Action::UseDose,
            item::Kind::CardinalDose => Action::UseCardinalDose,
            item::Kind::DiagonalDose => Action::UseDiagonalDose,
            item::Kind::StrongDose => Action::UseStrongDose,
        }
    }

    /// The step the player would take if this arrow were clicked: where to
    /// put the highlight on the map.
    pub fn offset(self) -> (step: Option<Point>)
        ensures
            step == self.spec_offset(),
    {
        match self {
            Action::MoveN => Some(Point { x: 0, y: -1 }),
            Action::MoveS => Some(Point { x: 0, y: 1 }),
            Action::MoveW => Some(Point { x: -1, y: 0 }),
            Action::MoveE => Some(Point { x: 1, y: 0 }),
            Action::MoveNW => Some(Point { x: -1, y: -1 }),
            Action::MoveNE => Some(Point { x: 1, y: -1 }),
            Action::MoveSW => Some(Point { x: -1, y: 1 }),
            Action::MoveSE => Some(Point { x: 1, y: 1 }),
            _ => None,
        }
    }

    /// The action behind the inventory line of a kind.
    pub fn use_of(kind: item::Kind) -> (action: Action)
        ensures
            action == Action::spec_use_of(kind),
    {
        match kind {
            item::Kind::Food => Action::UseFood,
            item::Kind::Dose => Action::UseDose,
            item::Kind::CardinalDose => Action::UseCardinalDose,
            item::Kind::DiagonalDose => Action::UseDiagonalDose,
            item::Kind::StrongDose => Action::UseStrongDose,
        }
    }
}

} // verus!
