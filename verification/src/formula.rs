//! The numbers of the game: what each item does, and by how much one item
//! of a kind may differ from the next.

use vstd::prelude::*;

use crate::graphic::Graphic;
use crate::item;
use crate::item::Item;
use crate::player::{CauseOfDeath, Modifier, Player};
use crate::random::Random;

verus! {

/// A range of whole numbers with both ends included.
#[derive(Clone, Copy, Debug, PartialEq, Eq, Structural)]
pub struct InclusiveRange(pub i32, pub i32);

impl InclusiveRange {
    /// Draws a number of the range.
    pub fn random(&self, rng: &mut Random) -> (value: i32)
        requires
            self.0 <= self.1,
        ensures
            value == old(rng).next_in_range(self.0, self.1),
            self.0 <= value <= self.1,
            *final(rng) == old(rng).advanced(),
    {
        rng.range_inclusive(self.0, self.1)
    }
}

/// By how much the strength of an item of the given kind may be off its
/// usual value, in either direction. Food is always the same.
pub open spec fn spec_mind_variance(kind: item::Kind) -> InclusiveRange {
    match kind {
        item::Kind::Food => InclusiveRange(0, 0),
        item::Kind::Dose => InclusiveRange(-5i32, 5),
        item::Kind::CardinalDose => InclusiveRange(-5i32, 5),
        item::Kind::DiagonalDose => InclusiveRange(-5i32, 5),
        item::Kind::StrongDose => InclusiveRange(-15i32, 15),
    }
}

/// The item of the given kind at its usual strength.
pub open spec fn spec_prefab(kind: item::Kind) -> Item {
    match kind {
        item::Kind::Food => Item {
            kind: item::Kind::Food,
            graphic: Graphic::FoodStriped,
            modifier: Modifier::Attribute { will: 0, state_of_mind: 10 },
            irresistible: 0,
        },
        item::Kind::Dose => Item {
            kind: item::Kind::Dose,
            graphic: Graphic::Dose,
            modifier: Modifier::Intoxication { state_of_mind: 70, tolerance_increase: 1 },
            irresistible: 2,
        },
        item::Kind::CardinalDose => Item {
            kind: item::Kind::CardinalDose,
            graphic: Graphic::CardinalDose,
            modifier: Modifier::Intoxication { state_of_mind: 95, tolerance_increase: 2 },
            irresistible: 3,
        },
        item::Kind::DiagonalDose => Item {
            kind: item::Kind::DiagonalDose,
            graphic: Graphic::DiagonalDose,
            modifier: Modifier::Intoxication { state_of_mind: 95, tolerance_increase: 2 },
            irresistible: 3,
        },
        item::Kind::StrongDose => Item {
            kind: item::Kind::StrongDose,
            graphic: Graphic::StrongDose,
            modifier: Modifier::Intoxication { state_of_mind: 130, tolerance_increase: 3 },
            irresistible: 4,
        },
    }
}

/// By how much the strength of an item of the given kind may vary.
#[verifier::when_used_as_spec(spec_mind_variance)]
pub fn mind_variance(kind: item::Kind) -> (range: InclusiveRange)
    ensures
        range == spec_mind_variance(kind),
        range.0 <= range.1,
{
    match kind {
        item::Kind::Food => InclusiveRange(0, 0),
        item::Kind::Dose => InclusiveRange(-5, 5),
        item::Kind::CardinalDose => InclusiveRange(-5, 5),
        item::Kind::DiagonalDose => InclusiveRange(-5, 5),
        item::Kind::StrongDose => InclusiveRange(-15, 15),
    }
}

/// The item of the given kind at its usual strength.
#[verifier::when_used_as_spec(spec_prefab)]
pub fn prefab(kind: item::Kind) -> (item: Item)
    ensures
        item == spec_prefab(kind),
{
    match kind {
        item::Kind::Food => Item {
            kind: item::Kind::Food,
            graphic: Graphic::FoodStriped,
            modifier: Modifier::Attribute { will: 0, state_of_mind: 10 },
            irresistible: 0,
        },
        item::Kind::Dose => Item {
            kind: item::Kind::Dose,
            graphic: Graphic::Dose,
            modifier: Modifier::Intoxication { state_of_mind: 70, tolerance_increase: 1 },
            irresistible: 2,
        },
        item::Kind::CardinalDose => Item {
            kind: item::Kind::CardinalDose,
            graphic: Graphic::CardinalDose,
            modifier: Modifier::Intoxication { state_of_mind: 95, tolerance_increase: 2 },
            irresistible: 3,
        },
        item::Kind::DiagonalDose => Item {
            kind: item::Kind::DiagonalDose,
            graphic: Graphic::DiagonalDose,
            modifier: Modifier::Intoxication { state_of_mind: 95, tolerance_increase: 2 },
            irresistible: 3,
        },
        item::Kind::StrongDose => Item {
            kind: item::Kind::StrongDose,
            graphic: Graphic::StrongDose,
            modifier: Modifier::Intoxication { state_of_mind: 130, tolerance_increase: 3 },
            irresistible: 4,
        },
    }
}

/// Why the player lost, if the game is lost.
pub fn cause_of_death(player: &Player) -> (cause: Option<CauseOfDeath>)
    ensures
        cause == player.cause_of_death,
{
    player.cause_of_death
}

} // verus!
