//! The player's character, as far as the world and the session record need
//! to know it.

use vstd::prelude::*;

use crate::graphic::Graphic;
use crate::item::Item;
use crate::monster::Monster;
use crate::point::Point;

verus! {

/// What using an item, or being hit, does to a character.
#[derive(Clone, Copy, Debug, PartialEq, Eq, Structural)]
pub enum Modifier {
    Death,
    Attribute { will: i32, state_of_mind: i32 },
    Intoxication { state_of_mind: i32, tolerance_increase: i32 },
    Panic(i32),
    Stun(i32),
}

/// Why a game was lost.
#[derive(Clone, Copy, Debug, PartialEq, Eq, Structural)]
pub enum CauseOfDeath {
    Exhausted,
    Overdosed,
    LostWill,
    Killed,
}

/// What the world is told about the player when it lays out new ground.
#[derive(Clone, Copy, Debug, PartialEq, Eq, Structural)]
pub struct PlayerInfo {
    pub pos: Point,
}

/// The player's character.
#[derive(Clone, Debug)]
pub struct Player {
    pub pos: Point,
    pub graphic: Graphic,
    pub color_index: usize,
    pub invincible: bool,
    pub dead: bool,
    /// Why the game was lost, once it is.
    pub cause_of_death: Option<CauseOfDeath>,
    /// The creature that brought the loss about, if one did.
    pub perpetrator: Option<Monster>,
    pub inventory: Vec<Item>,
}

/// What a `Player` holds, as plain values.
pub struct PlayerView {
    pub pos: Point,
    pub graphic: Graphic,
    pub color_index: usize,
    pub invincible: bool,
    pub dead: bool,
    pub cause_of_death: Option<CauseOfDeath>,
    pub perpetrator: Option<Monster>,
    pub inventory: Seq<Item>,
}

impl View for Player {
    type V = PlayerView;

    open spec fn view(&self) -> PlayerView {
        PlayerView {
            pos: self.pos,
            graphic: self.graphic,
            color_index: self.color_index,
            invincible: self.invincible,
            dead: self.dead,
            cause_of_death: self.cause_of_death,
            perpetrator: self.perpetrator,
            inventory: self.inventory@,
        }
    }
}

impl PlayerView {
    /// The character that `Player::new` makes.
    pub open spec fn fresh(pos: Point, invincible: bool) -> PlayerView {
        PlayerView {
            pos,
            graphic: Graphic::Player,
            color_index: 0,
            invincible,
            dead: false,
            cause_of_death: None,
            perpetrator: None,
            inventory: Seq::empty(),
        }
    }
}

impl Player {
    /// A living character with empty pockets.
    pub fn new(pos: Point, invincible: bool) -> (player: Player)
        ensures
            player@ == PlayerView::fresh(pos, invincible),
    {
        Player {
            pos,
            graphic: Graphic::Player,
            color_index: 0,
            invincible,
            dead: false,
            cause_of_death: None,
            perpetrator: None,
            inventory: Vec::new(),
        }
    }

    /// Whether the character is still in the game.
    pub fn alive(&self) -> (yes: bool)
        ensures
            yes == !self.dead,
    {
        !self.dead
    }

    /// What the world needs to know.
    pub fn info(&self) -> (info: PlayerInfo)
        ensures
            info == (PlayerInfo { pos: self.pos }),
    {
        PlayerInfo { pos: self.pos }
    }
}

} // verus!
