//! The pictures that things are drawn with, and the characters that stand
//! for them where there are no pictures.

use vstd::prelude::*;
use vstd::std_specs::convert::FromSpecImpl;

verus! {

/// A picture from the tile sheet.
#[derive(Clone, Copy, Debug, PartialEq, Eq, Hash, Structural)]
pub enum Graphic {
    Empty,
    Tree1,
    Tree2,
    Tree3,
    Tree4,
    Tree5,
    Tree6,
    Tree7,
    Tree8,
    Tree9,
    Tree10,
    Ground1,
    Ground2,
    Ground3,
    Ground4,
    Ground5,
    Twigs1,
    Twigs2,
    Twigs3,
    Twigs4,
    Twigs5,
    Twigs6,
    Twigs7,
    Twigs8,
    Twigs9,
    Twigs10,
    Twigs11,
    Grass1,
    Grass2,
    Grass3,
    Grass4,
    Grass5,
    Grass6,
    Grass7,
    Grass8,
    Grass9,
    Leaves1,
    Leaves2,
    Leaves3,
    Leaves4,
    Leaves5,
    Player,
    Npc,
    Corpse,
    Anxiety,
    Depression,
    Hunger,
    Shadows,
    Voices,
    Dose,
    StrongDose,
    CardinalDose,
    DiagonalDose,
    FoodAcornWide,
    FoodAcornThin,
    FoodCarrotWide,
    FoodCarrotSideways,
    FoodCarrotThin,
    FoodTurnipSmallLeaves,
    FoodTurnipBigLeaves,
    FoodTurnipHeart,
    FoodStriped,
    Signpost,
    CharacterSkirt,
    CharacterTrousers,
}

impl Graphic {
    /// The character that stands for this picture on a text display: one
    /// character per family of pictures.
    pub open spec fn glyph(self) -> char {
        match self {
            Graphic::Empty => ' ',
            Graphic::Tree1
            | Graphic::Tree2
            | Graphic::Tree3
            | Graphic::Tree4
            | Graphic::Tree5
            | Graphic::Tree6
            | Graphic::Tree7
            | Graphic::Tree8
            | Graphic::Tree9
            | Graphic::Tree10 => '#',
            Graphic::Ground1
            | Graphic::Ground2
            | Graphic::Ground3
            | Graphic::Ground4
            | Graphic::Ground5 => '.',
            Graphic::Twigs1
            | Graphic::Twigs2
            | Graphic::Twigs3
            | Graphic::Twigs4
            | Graphic::Twigs5
            | Graphic::Twigs6
            | Graphic::Twigs7
            | Graphic::Twigs8
            | Graphic::Twigs9
            | Graphic::Twigs10
            | Graphic::Twigs11 => '.',
            Graphic::Grass1
            | Graphic::Grass2
            | Graphic::Grass3
            | Graphic::Grass4
            | Graphic::Grass5
            | Graphic::Grass6
            | Graphic::Grass7
            | Graphic::Grass8
            | Graphic::Grass9 => '.',
            Graphic::Leaves1
            | Graphic::Leaves2
            | Graphic::Leaves3
            | Graphic::Leaves4
            | Graphic::Leaves5 => '.',
            Graphic::Player
            | Graphic::Npc => '@',
            Graphic::Corpse => '&',
            Graphic::Anxiety => 'a',
            Graphic::Depression => 'D',
            Graphic::Hunger => 'h',
            Graphic::Shadows => 'S',
            Graphic::Voices => 'v',
            Graphic::Dose => 'i',
            Graphic::StrongDose => 'I',
            Graphic::CardinalDose => '+',
            Graphic::DiagonalDose => 'x',
            Graphic::FoodAcornWide
            | Graphic::FoodAcornThin
            | Graphic::FoodCarrotWide
            | Graphic::FoodCarrotSideways
            | Graphic::FoodCarrotThin
            | Graphic::FoodTurnipSmallLeaves
            | Graphic::FoodTurnipBigLeaves
            | Graphic::FoodTurnipHeart
            | Graphic::FoodStriped => '%',
            Graphic::Signpost => '!',
            Graphic::CharacterSkirt | Graphic::CharacterTrousers => '@',
        }
    }

    /// Whether this is one of the pictures of food.
    pub open spec fn is_food(self) -> bool {
        self.glyph() == '%'
    }
}

impl From<Graphic> for char {
    fn from(graphic: Graphic) -> (c: char) {
        match graphic {
            Graphic::Empty => ' ',
            Graphic::Tree1 => '#',
            Graphic::Tree2 => '#',
            Graphic::Tree3 => '#',
            Graphic::Tree4 => '#',
            Graphic::Tree5 => '#',
            Graphic::Tree6 => '#',
            Graphic::Tree7 => '#',
            Graphic::Tree8 => '#',
            Graphic::Tree9 => '#',
            Graphic::Tree10 => '#',

            Graphic::Ground1 => '.',
            Graphic::Ground2 => '.',
            Graphic::Ground3 => '.',
            Graphic::Ground4 => '.',
            Graphic::Ground5 => '.',

            Graphic::Twigs1 => '.',
            Graphic::Twigs2 => '.',
            Graphic::Twigs3 => '.',
            Graphic::Twigs4 => '.',
            Graphic::Twigs5 => '.',
            Graphic::Twigs6 => '.',
            Graphic::Twigs7 => '.',
            Graphic::Twigs8 => '.',
            Graphic::Twigs9 => '.',
            Graphic::Twigs10 => '.',
            Graphic::Twigs11 => '.',

            Graphic::Grass1 => '.',
            Graphic::Grass2 => '.',
            Graphic::Grass3 => '.',
            Graphic::Grass4 => '.',
            Graphic::Grass5 => '.',
            Graphic::Grass6 => '.',
            Graphic::Grass7 => '.',
            Graphic::Grass8 => '.',
            Graphic::Grass9 => '.',

            Graphic::Leaves1 => '.',
            Graphic::Leaves2 => '.',
            Graphic::Leaves3 => '.',
            Graphic::Leaves4 => '.',
            Graphic::Leaves5 => '.',

            Graphic::Player => '@',
            Graphic::Npc => '@',
            Graphic::Corpse => '&',

            Graphic::Anxiety => 'a',
            Graphic::Depression => 'D',
            Graphic::Hunger => 'h',
            Graphic::Shadows => 'S',
            Graphic::Voices => 'v',

            Graphic::Dose => 'i',
            Graphic::StrongDose => 'I',
            Graphic::CardinalDose => '+',
            Graphic::DiagonalDose => 'x',

            Graphic::FoodAcornWide => '%',
            Graphic::FoodAcornThin => '%',
            Graphic::FoodCarrotWide => '%',
            Graphic::FoodCarrotSideways => '%',
            Graphic::FoodCarrotThin => '%',
            Graphic::FoodTurnipSmallLeaves => '%',
            Graphic::FoodTurnipBigLeaves => '%',
            Graphic::FoodTurnipHeart => '%',
            Graphic::FoodStriped => '%',

            Graphic::Signpost => '!',

            Graphic::CharacterSkirt => '@',
            Graphic::CharacterTrousers => '@',
        }
    }
}

impl FromSpecImpl<Graphic> for char {
    open spec fn obeys_from_spec() -> bool {
        true
    }

    open spec fn from_spec(graphic: Graphic) -> char {
        graphic.glyph()
    }
}

} // verus!
