//! The sounds of the game, as the bytes they are stored in.

use vstd::prelude::*;

use crate::random::Random;

verus! {

/// One piece of sound.
pub type SoundData = Vec<u8>;

/// The music that plays in the background.
pub struct BackgroundSounds {
    pub exit_exit: SoundData,
    pub family_breaks: SoundData,
    pub earth2earth: SoundData,
}

impl BackgroundSounds {
    /// The piece with the given number, counting from one; the first piece
    /// for any other number.
    pub open spec fn numbered(&self, n: int) -> Seq<u8> {
        if n == 2 {
            self.family_breaks@
        } else if n == 3 {
            self.earth2earth@
        } else {
            self.exit_exit@
        }
    }

    /// Draws one of the three pieces, each with the same share of the
    /// generator's words, give or take one word.
    pub fn random(&self, rng: &mut Random) -> (piece: SoundData)
        ensures
            piece@ == self.numbered(old(rng).next_in_range(1, 3)),
            *final(rng) == old(rng).advanced(),
    {
        match rng.range_inclusive(1, 3) {
            1 => self.exit_exit.clone(),
            2 => self.family_breaks.clone(),
            3 => self.earth2earth.clone(),
            _ => self.exit_exit.clone(),
        }
    }
}

/// The sounds of the things that happen.
pub struct EffectSounds {
    pub walk: [SoundData; 4],
    pub monster_hit: SoundData,
    pub monster_moved: SoundData,
    pub explosion: SoundData,
    pub game_over: SoundData,
    pub click: SoundData,
}

impl EffectSounds {
    /// The sound of an effect. Walking has four sounds, of which one is
    /// drawn; every other effect has one sound, and costs no draw.
    pub fn data_from_effect(&self, effect: Effect, rng: &mut Random) -> (sound: SoundData)
        ensures
            effect == Effect::Walk ==> {
                let drawn = old(rng).next_index(4);
                &&& 0 <= drawn < 4
                &&& sound@ == self.walk@[drawn]@
                &&& *final(rng) == old(rng).advanced()
            },
            effect != Effect::Walk ==> {
                &&& *final(rng) == *old(rng)
                &&& sound@ == (match effect {
                    Effect::MonsterHit => self.monster_hit@,
                    Effect::MonsterMoved => self.monster_moved@,
                    Effect::Explosion => self.explosion@,
                    Effect::GameOver => self.game_over@,
                    _ => self.click@,
                })
            },
    {
        match effect {
            Effect::Walk => rng.choose_with_fallback(&self.walk, &self.walk[0]).clone(),
            Effect::MonsterHit => self.monster_hit.clone(),
            Effect::MonsterMoved => self.monster_moved.clone(),
            Effect::Explosion => self.explosion.clone(),
            Effect::GameOver => self.game_over.clone(),
            Effect::Click => self.click.clone(),
        }
    }
}

/// The shortest delay of a sound, in milliseconds.
pub const SHORTEST_DELAY: i32 = 1;

/// The longest delay of a sound, in milliseconds.
pub const LONGEST_DELAY: i32 = 50;

/// Draws the delay of a sound, in milliseconds: sounds that begin at the
/// same moment are set a little apart.
pub fn random_delay(rng: &mut Random) -> (delay: u64)
    ensures
        delay == old(rng).next_in_range(SHORTEST_DELAY, LONGEST_DELAY),
        SHORTEST_DELAY <= delay <= LONGEST_DELAY,
        *final(rng) == old(rng).advanced(),
{
    rng.range_inclusive(SHORTEST_DELAY, LONGEST_DELAY) as u64
}

/// The things that happen with a sound.
#[derive(Clone, Copy, Debug, PartialEq, Eq, Structural)]
pub enum Effect {
    Walk,
    MonsterHit,
    MonsterMoved,
    Explosion,
    GameOver,
    Click,
}

} // verus!
