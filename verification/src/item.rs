//! The things that lie on the ground and end up in the player's pockets.

use vstd::prelude::*;

use crate::color;
use crate::color::Color;
use crate::graphic::Graphic;
use crate::player::Modifier;

verus! {

/// The kinds of item, in the order the inventory lists them.
#[derive(Clone, Copy, PartialEq, Debug, Eq, Hash, Structural)]
pub enum Kind {
    Food,
    Dose,
    CardinalDose,
    DiagonalDose,
    StrongDose,
}

/// The widest column in which a kind's name is shortened.
pub const SHORT_NAME_BELOW: usize = 13;

impl Kind {
    /// All the kinds, in the order the inventory lists them.
    pub open spec fn all() -> Seq<Kind> {
        seq![Kind::Food, Kind::Dose, Kind::CardinalDose, Kind::DiagonalDose, Kind::StrongDose]
    }

    /// The kind listed after this one, if any.
    pub open spec fn following(self) -> Option<Kind> {
        match self {
            Kind::Food => Some(Kind::Dose),
            Kind::Dose => Some(Kind::CardinalDose),
            Kind::CardinalDose => Some(Kind::DiagonalDose),
            Kind::DiagonalDose => Some(Kind::StrongDose),
            Kind::StrongDose => None,
        }
    }

    /// This kind's place in `Kind::all()`.
    pub open spec fn position(self) -> int {
        match self {
            Kind::Food => 0,
            Kind::Dose => 1,
            Kind::CardinalDose => 2,
            Kind::DiagonalDose => 3,
            Kind::StrongDose => 4,
        }
    }

    /// The name shown for this kind in a column `precision` characters wide.
    pub open spec fn spec_name(self, precision: usize) -> Seq<char> {
        if precision < SHORT_NAME_BELOW {
            match self {
                Kind::Food => "Food"@,
                Kind::Dose => "Dose"@,
                Kind::CardinalDose => "+ Dose"@,
                Kind::DiagonalDose => "x Dose"@,
                Kind::StrongDose => "I Dose"@,
            }
        } else {
            match self {
                Kind::Food => "Food"@,
                Kind::Dose => "Dose"@,
                Kind::CardinalDose => "Cardinal Dose"@,
                Kind::DiagonalDose => "Diagonal Dose"@,
                Kind::StrongDose => "Strong Dose"@,
            }
        }
    }

    /// An iterator over all the kinds, starting with food.
    pub fn iter() -> (it: KindIterator)
        ensures
            it.remaining() == Kind::all(),
    {
        let it = KindIterator { current: Some(Kind::Food) };
        assert(it.remaining() =~= Kind::all()) by {
            reveal_with_fuel(KindIterator::rest_from, 6);
        }
        it
    }

    /// The name to show for this kind where `precision` characters fit: the
    /// doses' long names are cut down to a sign where they would not.
    pub fn name(self, precision: usize) -> (s: &'static str)
        ensures
            s@ == self.spec_name(precision),
    {
        if precision < SHORT_NAME_BELOW {
            match self {
                Kind::Food => "Food",
                Kind::Dose => "Dose",
                Kind::CardinalDose => "+ Dose",
                Kind::DiagonalDose => "x Dose",
                Kind::StrongDose => "I Dose",
            }
        } else {
            match self {
                Kind::Food => "Food",
                Kind::Dose => "Dose",
                Kind::CardinalDose => "Cardinal Dose",
                Kind::DiagonalDose => "Diagonal Dose",
                Kind::StrongDose => "Strong Dose",
            }
        }
    }
}

/// Walks through the kinds of item in order.
pub struct KindIterator {
    current: Option<Kind>,
}

impl KindIterator {
    /// The kinds from `from` on.
    pub open spec fn rest_from(from: Option<Kind>) -> Seq<Kind>
        decreases
            (match from {
                Some(kind) => 5 - kind.position(),
                None => 0,
            }),
    {
        match from {
            Some(kind) => seq![kind] + KindIterator::rest_from(kind.following()),
            None => Seq::empty(),
        }
    }

    /// The kinds still to come, in order.
    pub closed spec fn remaining(&self) -> Seq<Kind> {
        KindIterator::rest_from(self.current)
    }

    /// Hands out the next kind, or `None` once all have been handed out.
    pub fn next(&mut self) -> (kind: Option<Kind>)
        ensures
            old(self).remaining().len() == 0 ==> kind.is_none() && final(self).remaining().len() == 0,
            old(self).remaining().len() > 0 ==> kind == Some(old(self).remaining()[0])
                && final(self).remaining() == old(self).remaining().skip(1),
    {
        let current = self.current;
        self.current = match current {
            Some(Kind::Food) => Some(Kind::Dose),
            Some(Kind::Dose) => Some(Kind::CardinalDose),
            Some(Kind::CardinalDose) => Some(Kind::DiagonalDose),
            Some(Kind::DiagonalDose) => Some(Kind::StrongDose),
            Some(Kind::StrongDose) => None,
            None => None,
        };
        proof {
            match current {
                Some(kind) => {
                    assert(self.current == kind.following());
                    assert(old(self).remaining().skip(1) =~= self.remaining());
                },
                None => {},
            }
        }
        current
    }
}

/// One item.
#[derive(Copy, Clone, PartialEq, Eq, Debug, Structural)]
pub struct Item {
    pub kind: Kind,
    pub graphic: Graphic,
    pub modifier: Modifier,
    pub irresistible: i32,
}

impl Item {
    /// The colour that items of a kind are drawn in.
    pub open spec fn color_of(kind: Kind) -> Color {
        match kind {
            Kind::Food => color::spec_food(),
            Kind::Dose => color::spec_dose(),
            Kind::StrongDose => color::spec_strong_dose(),
            Kind::CardinalDose => color::spec_shattering_dose(),
            Kind::DiagonalDose => color::spec_shattering_dose(),
        }
    }

    /// Whether this is a dose of any kind, that is, anything but food.
    pub fn is_dose(&self) -> (yes: bool)
        ensures
            yes == (self.kind != Kind::Food),
    {
        match self.kind {
            Kind::Dose | Kind::StrongDose | Kind::CardinalDose | Kind::DiagonalDose => true,
            Kind::Food => false,
        }
    }

    /// The picture this item is drawn with.
    pub fn graphic(&self) -> (g: Graphic)
        ensures
            g == self.graphic,
    {
        self.graphic
    }

    /// The colour this item is drawn in.
    pub fn color(&self) -> (c: Color)
        ensures
            c == Item::color_of(self.kind),
    {
        match self.kind {
            Kind::Food => color::food(),
            Kind::Dose => color::dose(),
            Kind::StrongDose => color::strong_dose(),
            Kind::CardinalDose => color::shattering_dose(),
            Kind::DiagonalDose => color::shattering_dose(),
        }
    }
}

} // verus!
