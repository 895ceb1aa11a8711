//! The window shown when a game is over.

use vstd::prelude::*;

use crate::formula;
use crate::keys::{matches_code, pressed, Key, KeyCode};
use crate::player::CauseOfDeath;
use crate::state::State;

verus! {

/// What the player can ask for once a game is over.
#[derive(Clone, Copy, Debug, PartialEq, Eq, Structural)]
pub enum Action {
    NewGame,
    Help,
    Menu,
    Close,
}

impl Action {
    /// What the keys of a tick ask for: `N` a new game, `Esc` the menu, the
    /// question mark or `H` the help. A new game comes before the menu, and
    /// the menu before the help.
    pub open spec fn spec_from_keys(keys: Seq<Key>) -> Option<Action> {
        if pressed(keys, KeyCode::N) {
            Some(Action::NewGame)
        } else if pressed(keys, KeyCode::Esc) {
            Some(Action::Menu)
        } else if pressed(keys, KeyCode::QuestionMark) || pressed(keys, KeyCode::H) {
            Some(Action::Help)
        } else {
            None
        }
    }

    /// What the keys of a tick ask for.
    pub fn from_keys(keys: &[Key]) -> (action: Option<Action>)
        ensures
            action == Action::spec_from_keys(keys@),
    {
        if matches_code(keys, KeyCode::N) {
            Some(Action::NewGame)
        } else if matches_code(keys, KeyCode::Esc) {
            Some(Action::Menu)
        } else if matches_code(keys, KeyCode::QuestionMark) || matches_code(keys, KeyCode::H) {
            Some(Action::Help)
        } else {
            None
        }
    }
}

/// The tip for a player who has never picked up a dose.
pub open spec fn first_tip() -> Seq<char> {
    "Attack monsters by bumping (moving) into them!"@
}

/// The tips for a player who took too much.
pub open spec fn overdosed_tips() -> Seq<&'static str> {
    seq![
        "Using another dose when High will likely cause overdose early on.",
        "When you get too close to a Dose, it will be impossible to resist.",
        "The Cardinal, Diagonal and Strong Doses are much stronger. Early on, you'll likely overdose on them.",
    ]
}

/// The tips for a player who ran out of strength with nobody's help.
pub open spec fn food_tips() -> Seq<&'static str> {
    seq!["Eat Food (by pressing [1]) or use a Dose to stave off withdrawal."]
}

/// The tips for a player whom a creature wore down.
pub open spec fn hunger_tips() -> Seq<&'static str> {
    seq![
        "Being hit by Hunger will quickly get you into a withdrawal.",
        "The Hunger monsters can swarm you.",
    ]
}

/// The tips for a player whom a creature robbed of all Will.
pub open spec fn anxiety_tips() -> Seq<&'static str> {
    seq!["Being hit by an Anxiety reduces your Will. You lose when it reaches zero."]
}

/// The tips that fit no loss in particular.
pub open spec fn unsorted_tips() -> Seq<&'static str> {
    seq![
        "As you use doses, you slowly build up tolerance.",
        "Even the doses of the same kind can have different strength. Their purity varies.",
        "Directly confronting Anxiety will slowly increase your Will.",
        "The other characters won't talk to you while you're High.",
        "Talking to another person sober will give you a bonus.",
        "The Depression monsters move twice as fast as you. Be careful.",
    ]
}

/// All the tips there are.
pub open spec fn all_tips() -> Seq<&'static str> {
    overdosed_tips() + food_tips() + hunger_tips() + anxiety_tips() + unsorted_tips()
}

/// The tips to draw from for a loss of the given cause, brought about by a
/// creature or not.
pub open spec fn tips_for(cause: Option<CauseOfDeath>, by_creature: bool) -> Seq<&'static str> {
    match cause {
        Some(CauseOfDeath::Overdosed) => overdosed_tips(),
        Some(CauseOfDeath::Exhausted) => if by_creature {
            hunger_tips()
        } else {
            food_tips()
        },
        Some(CauseOfDeath::LostWill) => if by_creature {
            anxiety_tips()
        } else {
            all_tips()
        },
        _ => all_tips(),
    }
}

/// A word of advice for the player who has just lost. Which tip it is, is
/// drawn with a copy of the simulation's generator: the generator of the
/// state stays where it was, so asking for a tip, once or a hundred times,
/// leaves no trace in the session.
pub fn endgame_tip(state: &State) -> (tip: String)
    ensures
        !state.player_picked_up_a_dose ==> tip@ == first_tip(),
        state.player_picked_up_a_dose ==> ({
            let tips = tips_for(state.player.cause_of_death, state.player.perpetrator.is_some());
            let drawn = state.rng.next_index(tips.len() as int);
            &&& 0 <= drawn < tips.len()
            &&& tip@ == tips[drawn]@
        }),
{
    if !state.player_picked_up_a_dose {
        return "Attack monsters by bumping (moving) into them!".to_owned();
    }
    let mut throwavay_rng = state.rng.clone();

    let overdosed: [&'static str; 3] = [
        "Using another dose when High will likely cause overdose early on.",
        "When you get too close to a Dose, it will be impossible to resist.",
        "The Cardinal, Diagonal and Strong Doses are much stronger. Early on, you'll likely overdose on them.",
    ];
    let food: [&'static str; 1] = [
        "Eat Food (by pressing [1]) or use a Dose to stave off withdrawal.",
    ];
    let hunger: [&'static str; 2] = [
        "Being hit by Hunger will quickly get you into a withdrawal.",
        "The Hunger monsters can swarm you.",
    ];
    let anxiety: [&'static str; 1] = [
        "Being hit by an Anxiety reduces your Will. You lose when it reaches zero.",
    ];
    let all: [&'static str; 13] = [
        "Using another dose when High will likely cause overdose early on.",
        "When you get too close to a Dose, it will be impossible to resist.",
        "The Cardinal, Diagonal and Strong Doses are much stronger. Early on, you'll likely overdose on them.",
        "Eat Food (by pressing [1]) or use a Dose to stave off withdrawal.",
        "Being hit by Hunger will quickly get you into a withdrawal.",
        "The Hunger monsters can swarm you.",
        "Being hit by an Anxiety reduces your Will. You lose when it reaches zero.",
        "As you use doses, you slowly build up tolerance.",
        "Even the doses of the same kind can have different strength. Their purity varies.",
        "Directly confronting Anxiety will slowly increase your Will.",
        "The other characters won't talk to you while you're High.",
        "Talking to another person sober will give you a bonus.",
        "The Depression monsters move twice as fast as you. Be careful.",
    ];
    proof {
        assert(overdosed@ =~= overdosed_tips());
        assert(food@ =~= food_tips());
        assert(hunger@ =~= hunger_tips());
        assert(anxiety@ =~= anxiety_tips());
        assert(all@ =~= all_tips());
    }
    let fallback: &'static str = "Losing a game is normal. Think about what happened and try again!";
    let cause_of_death = formula::cause_of_death(&state.player);
    let by_creature = state.player.perpetrator.is_some();
    let selected_tip: &'static str = match cause_of_death {
        Some(CauseOfDeath::Overdosed) => *throwavay_rng.choose_with_fallback(&overdosed, &fallback),
        Some(CauseOfDeath::Exhausted) => if by_creature {
            *throwavay_rng.choose_with_fallback(&hunger, &fallback)
        } else {
            *throwavay_rng.choose_with_fallback(&food, &fallback)
        },
        Some(CauseOfDeath::LostWill) => if by_creature {
            *throwavay_rng.choose_with_fallback(&anxiety, &fallback)
        } else {
            *throwavay_rng.choose_with_fallback(&all, &fallback)
        },
        _ => *throwavay_rng.choose_with_fallback(&all, &fallback),
    };
    selected_tip.to_owned()
}

} // verus!
