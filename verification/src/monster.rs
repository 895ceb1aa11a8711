//! The creatures of the world.

use vstd::prelude::*;

use crate::color;
use crate::color::Color;
use crate::graphic::Graphic;
use crate::point::Point;

verus! {

/// The kinds of creature. The order of the variants is the order in which a
/// snapshot lists creatures that stand on the same spot.
#[derive(Clone, Copy, Debug, PartialEq, Eq, Hash, Structural)]
pub enum Kind {
    Anxiety,
    Depression,
    Hunger,
    Shadows,
    Voices,
    Npc,
}

/// What a friendly character gives the player who walks with it.
#[derive(Clone, Copy, Debug, PartialEq, Eq, Hash, Structural)]
pub enum CompanionBonus {
    DoubleWillGrowth,
    HalveExhaustion,
    ExtraActionPoint,
}

/// The name a creature keeps for the whole session: the coordinate of the
/// chunk it was generated in, and its number among that chunk's natives.
/// Neither changes when the creature walks into another chunk.
#[derive(Clone, Copy, Debug, PartialEq, Eq, Hash, Structural)]
pub struct MonsterId {
    pub chunk: Point,
    pub index: u32,
}

/// One creature.
#[derive(Clone, Copy, Debug, PartialEq, Eq, Structural)]
pub struct Monster {
    /// Given by the world that holds the creature; the generator leaves the
    /// origin's first name here.
    pub id: MonsterId,
    pub kind: Kind,
    /// Where the creature stands, in the coordinates of whoever holds it:
    /// the generator's cells, or the world.
    pub position: Point,
    pub dead: bool,
    pub color: Color,
    pub companion_bonus: Option<CompanionBonus>,
}

impl Kind {
    /// The place of this kind in the order of the kinds.
    pub open spec fn spec_rank(self) -> int {
        match self {
            Kind::Anxiety => 0,
            Kind::Depression => 1,
            Kind::Hunger => 2,
            Kind::Shadows => 3,
            Kind::Voices => 4,
            Kind::Npc => 5,
        }
    }

    /// The colour that creatures of this kind start with.
    pub open spec fn spec_color(self) -> Color {
        match self {
            Kind::Anxiety => color::spec_anxiety(),
            Kind::Depression => color::spec_depression(),
            Kind::Hunger => color::spec_hunger(),
            Kind::Shadows => color::spec_shadows(),
            Kind::Voices => color::spec_voices(),
            Kind::Npc => color::spec_player(),
        }
    }

    /// The picture that creatures of this kind are drawn with.
    pub open spec fn spec_graphic(self) -> Graphic {
        match self {
            Kind::Anxiety => Graphic::Anxiety,
            Kind::Depression => Graphic::Depression,
            Kind::Hunger => Graphic::Hunger,
            Kind::Shadows => Graphic::Shadows,
            Kind::Voices => Graphic::Voices,
            Kind::Npc => Graphic::Npc,
        }
    }

    /// The place of this kind in the order of the kinds.
    pub fn rank(self) -> (r: u8)
        ensures
            r == self.spec_rank(),
    {
        match self {
            Kind::Anxiety => 0,
            Kind::Depression => 1,
            Kind::Hunger => 2,
            Kind::Shadows => 3,
            Kind::Voices => 4,
            Kind::Npc => 5,
        }
    }

    /// The colour that creatures of this kind start with.
    pub fn color(self) -> (c: Color)
        ensures
            c == self.spec_color(),
    {
        match self {
            Kind::Anxiety => color::anxiety(),
            Kind::Depression => color::depression(),
            Kind::Hunger => color::hunger(),
            Kind::Shadows => color::shadows(),
            Kind::Voices => color::voices(),
            Kind::Npc => color::player(),
        }
    }

    /// The picture that creatures of this kind are drawn with.
    pub fn graphic(self) -> (g: Graphic)
        ensures
            g == self.spec_graphic(),
    {
        match self {
            Kind::Anxiety => Graphic::Anxiety,
            Kind::Depression => Graphic::Depression,
            Kind::Hunger => Graphic::Hunger,
            Kind::Shadows => Graphic::Shadows,
            Kind::Voices => Graphic::Voices,
            Kind::Npc => Graphic::Npc,
        }
    }

    /// The name of this kind.
    pub fn name(self) -> (s: &'static str)
        ensures
            s@ == (match self {
                Kind::Anxiety => "Anxiety"@,
                Kind::Depression => "Depression"@,
                Kind::Hunger => "Hunger"@,
                Kind::Shadows => "Shadows"@,
                Kind::Voices => "Voices"@,
                Kind::Npc => "NPC"@,
            }),
    {
        match self {
            Kind::Anxiety => "Anxiety",
            Kind::Depression => "Depression",
            Kind::Hunger => "Hunger",
            Kind::Shadows => "Shadows",
            Kind::Voices => "Voices",
            Kind::Npc => "NPC",
        }
    }
}

impl CompanionBonus {
    /// The bonus with the given number, counting from zero; the last one for
    /// any number past the end.
    pub open spec fn nth(n: int) -> CompanionBonus {
        if n <= 0 {
            CompanionBonus::DoubleWillGrowth
        } else if n == 1 {
            CompanionBonus::HalveExhaustion
        } else {
            CompanionBonus::ExtraActionPoint
        }
    }

    /// The colour of a companion that gives this bonus.
    pub open spec fn spec_color(self) -> Color {
        match self {
            CompanionBonus::DoubleWillGrowth => color::spec_npc_will(),
            CompanionBonus::HalveExhaustion => color::spec_npc_mind(),
            CompanionBonus::ExtraActionPoint => color::spec_npc_speed(),
        }
    }

    /// The colour of a companion that gives this bonus.
    pub fn color(self) -> (c: Color)
        ensures
            c == self.spec_color(),
    {
        match self {
            CompanionBonus::DoubleWillGrowth => color::npc_will(),
            CompanionBonus::HalveExhaustion => color::npc_mind(),
            CompanionBonus::ExtraActionPoint => color::npc_speed(),
        }
    }
}

impl MonsterId {
    /// The first name of the origin chunk: what a creature carries until a
    /// world names it.
    pub open spec fn unassigned() -> MonsterId {
        MonsterId { chunk: Point { x: 0, y: 0 }, index: 0 }
    }
}

impl Monster {
    /// The creature that `Monster::new` makes.
    pub open spec fn fresh(kind: Kind, position: Point) -> Monster {
        Monster {
            id: MonsterId::unassigned(),
            kind,
            position,
            dead: false,
            color: kind.spec_color(),
            companion_bonus: None,
        }
    }

    /// A living creature of the given kind at the given place.
    pub fn new(kind: Kind, position: Point) -> (monster: Monster)
        ensures
            monster == Monster::fresh(kind, position),
    {
        Monster {
            id: MonsterId { chunk: Point { x: 0, y: 0 }, index: 0 },
            kind,
            position,
            dead: false,
            color: kind.color(),
            companion_bonus: None,
        }
    }

    /// Whether the creature is still in the game.
    pub fn alive(&self) -> (yes: bool)
        ensures
            yes == !self.dead,
    {
        !self.dead
    }
}

} // verus!
