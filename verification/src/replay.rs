//! Whole sessions: what a run of ticks does to a state, what it puts on
//! record, and what playing the record again yields.

use vstd::prelude::*;

use crate::engine::Mouse;
use crate::keys::Key;
use crate::point::Point;
use crate::state::{
    collected, Challenge, GameSession, InputView, ParsedLine, ParsedLineView, Records, ReplayError,
    State, StateView, Tick, TickView, VerificationView, line_views,
};

verus! {

/// What the player did between one tick and the next.
pub struct Moment {
    pub keys: Seq<Key>,
    pub mouse: Mouse,
}

/// The moments of a list of key presses and pointer states.
pub open spec fn moments_of(moments: Seq<(Vec<Key>, Mouse)>) -> Seq<Moment> {
    Seq::new(moments.len(), |i: int| Moment { keys: moments[i].0@, mouse: moments[i].1 })
}

/// The views of a list of reports.
pub open spec fn tick_views(ticks: Seq<Tick>) -> Seq<TickView> {
    Seq::new(ticks.len(), |i: int| ticks[i]@)
}

/// The state after one tick for each of the moments.
pub open spec fn run(state: StateView, moments: Seq<Moment>) -> StateView
    decreases moments.len(),
{
    if moments.len() == 0 {
        state
    } else {
        run(state.ticked(moments[0].keys, moments[0].mouse), moments.skip(1))
    }
}

/// What the ticks of a run hand back, tick by tick.
pub open spec fn reports(state: StateView, moments: Seq<Moment>) -> Seq<TickView>
    decreases moments.len(),
{
    if moments.len() == 0 {
        Seq::empty()
    } else {
        seq![state.tick_report(moments[0].keys, moments[0].mouse)] + reports(
            state.ticked(moments[0].keys, moments[0].mouse),
            moments.skip(1),
        )
    }
}

/// The inputs among what a run handed back: what a live session puts on
/// record as its inputs.
pub open spec fn recorded_inputs(ticks: Seq<TickView>) -> Seq<InputView>
    decreases ticks.len(),
{
    if ticks.len() == 0 {
        Seq::empty()
    } else {
        match ticks[0].input {
            Some(input) => seq![input] + recorded_inputs(ticks.skip(1)),
            None => recorded_inputs(ticks.skip(1)),
        }
    }
}

/// The snapshots among what a run handed back: what a live session puts on
/// record as its snapshots.
pub open spec fn recorded_snapshots(ticks: Seq<TickView>) -> Seq<VerificationView>
    decreases ticks.len(),
{
    if ticks.len() == 0 {
        Seq::empty()
    } else {
        match ticks[0].verification {
            Some(snapshot) => seq![snapshot] + recorded_snapshots(ticks.skip(1)),
            None => recorded_snapshots(ticks.skip(1)),
        }
    }
}

/// Whether two states agree on everything that a tick reads of the
/// simulation: the world, where the player stands, the turn, the number of
/// the last tick, and the commands that wait.
pub open spec fn same_simulation(a: StateView, b: StateView) -> bool {
    &&& a.world == b.world
    &&& a.player.pos == b.player.pos
    &&& a.turn == b.turn
    &&& a.tick_id == b.tick_id
    &&& a.commands == b.commands
}

/// Carrying out a command does the same to two states that agree on the
/// simulation, and leaves alone what belongs to the playing of records.
pub proof fn lemma_acted(a: StateView, b: StateView)
    requires
        same_simulation(a, b),
    ensures
        same_simulation(a.acted(), b.acted()),
        a.acted().replay == a.replay,
        a.acted().inputs == a.inputs,
        a.acted().verifications == a.verifications,
        a.acted().verification() == b.acted().verification(),
{
    reveal(StateView::acted);
    reveal(StateView::stepped);
    reveal(StateView::can_enter);
    reveal(StateView::verification);
}

/// One tick of two live sessions that agree on the simulation, fed the same
/// keys and pointer, hands back the same and leaves them in agreement.
pub proof fn lemma_live_tick(a: StateView, b: StateView, keys: Seq<Key>, mouse: Mouse)
    requires
        same_simulation(a, b),
        !a.replay,
        !b.replay,
    ensures
        a.tick_report(keys, mouse) == b.tick_report(keys, mouse),
        same_simulation(a.ticked(keys, mouse), b.ticked(keys, mouse)),
        !a.ticked(keys, mouse).replay,
        !b.ticked(keys, mouse).replay,
{
    reveal(StateView::after_take);
    reveal(StateView::taken_in);
    reveal(StateView::after_meet);
    reveal(StateView::desync);
    match a.next_input(keys, mouse) {
        Some(input) => {
            let a1 = a.after_take().taken_in(input);
            let b1 = b.after_take().taken_in(input);
            lemma_acted(a1, b1);
            lemma_acted(b1, a1);
        },
        None => {},
    }
}

/// Two live sessions that agree on the simulation and are fed the same keys
/// and pointer, tick after tick, hand back the same at every tick: the same
/// inputs, and the same snapshots at the same ticks.
pub proof fn lemma_same_inputs_same_reports(a: StateView, b: StateView, moments: Seq<Moment>)
    requires
        same_simulation(a, b),
        !a.replay,
        !b.replay,
    ensures
        reports(a, moments) == reports(b, moments),
        same_simulation(run(a, moments), run(b, moments)),
    decreases moments.len(),
{
    if moments.len() > 0 {
        let keys = moments[0].keys;
        let mouse = moments[0].mouse;
        lemma_live_tick(a, b, keys, mouse);
        lemma_same_inputs_same_reports(a.ticked(keys, mouse), b.ticked(keys, mouse), moments.skip(1));
    }
}

/// Two sessions begun from the same seed in worlds of the same size, and
/// fed the same keys and pointer, take the same snapshots at the same
/// ticks, whatever else they were begun with.
pub proof fn lemma_same_seed_same_session(
    seed: u32,
    world_size: Point,
    one: StateView,
    other: StateView,
    moments: Seq<Moment>,
)
    requires
        one == StateView::fresh(
            world_size,
            one.map_size,
            one.panel_width,
            Seq::empty(),
            Seq::empty(),
            seed,
            one.cheating,
            one.player.invincible,
            false,
            one.replay_full_speed,
            one.exit_after,
            one.challenge,
        ),
        other == StateView::fresh(
            world_size,
            other.map_size,
            other.panel_width,
            Seq::empty(),
            Seq::empty(),
            seed,
            other.cheating,
            other.player.invincible,
            false,
            other.replay_full_speed,
            other.exit_after,
            other.challenge,
        ),
    ensures
        reports(one, moments) == reports(other, moments),
{
    lemma_same_inputs_same_reports(one, other, moments);
}

/// There are as many reports as moments.
pub proof fn lemma_reports_len(state: StateView, moments: Seq<Moment>)
    ensures
        reports(state, moments).len() == moments.len(),
    decreases moments.len(),
{
    if moments.len() > 0 {
        lemma_reports_len(state.ticked(moments[0].keys, moments[0].mouse), moments.skip(1));
    }
}

/// Once a live session has run out of numbers for its ticks, nothing
/// happens in it any more, and nothing more goes on record.
pub proof fn lemma_exhausted_session(state: StateView, moments: Seq<Moment>)
    requires
        !state.replay,
        state.tick_id == i32::MAX,
    ensures
        recorded_inputs(reports(state, moments)) == Seq::<InputView>::empty(),
        recorded_snapshots(reports(state, moments)) == Seq::<VerificationView>::empty(),
        forall|i: int|
            0 <= i < reports(state, moments).len() ==> #[trigger] reports(state, moments)[i]
                == TickView::idle(),
    decreases moments.len(),
{
    if moments.len() > 0 {
        let rest = reports(state.ticked(moments[0].keys, moments[0].mouse), moments.skip(1));
        lemma_exhausted_session(state, moments.skip(1));
        let all = reports(state, moments);
        assert(all.skip(1) =~= rest);
        assert forall|i: int| 0 <= i < all.len() implies #[trigger] all[i] == TickView::idle() by {
            if i > 0 {
                assert(all[i] == rest[i - 1]);
            }
        }
    }
}

/// Once the record that is being played has run out, nothing happens any
/// more.
pub proof fn lemma_finished_replay(state: StateView, moments: Seq<Moment>)
    requires
        state.replay,
        state.inputs.len() == 0,
    ensures
        forall|i: int|
            0 <= i < reports(state, moments).len() ==> #[trigger] reports(state, moments)[i]
                == TickView::idle(),
    decreases moments.len(),
{
    if moments.len() > 0 {
        let rest = reports(state.ticked(moments[0].keys, moments[0].mouse), moments.skip(1));
        lemma_finished_replay(state, moments.skip(1));
        let all = reports(state, moments);
        assert forall|i: int| 0 <= i < all.len() implies #[trigger] all[i] == TickView::idle() by {
            if i > 0 {
                assert(all[i] == rest[i - 1]);
            }
        }
    }
}

/// Take a live session and a state that agrees with it on the simulation
/// and is set to play the record of what the live session is about to do:
/// its inputs and its snapshots. Then the second run hands back, tick for tick, what the first did: the same inputs and
/// the same snapshots at the same ticks, and never a snapshot that differs
/// from the recorded one. What the player does during the second run makes
/// no difference.
pub proof fn lemma_replay_follows_the_record(
    live: StateView,
    replay: StateView,
    moments: Seq<Moment>,
    ignored: Seq<Moment>,
)
    requires
        same_simulation(live, replay),
        !live.replay,
        replay.replay,
        replay.inputs == recorded_inputs(reports(live, moments)),
        replay.verifications == recorded_snapshots(reports(live, moments)),
        ignored.len() == moments.len(),
    ensures
        reports(replay, ignored).len() == moments.len(),
        reports(live, moments).len() == moments.len(),
        forall|i: int|
            0 <= i < moments.len() ==> {
                &&& (#[trigger] reports(replay, ignored)[i]).input == reports(live, moments)[i].input
                &&& reports(replay, ignored)[i].verification == reports(live, moments)[i].verification
                &&& reports(replay, ignored)[i].desync.is_none()
            },
    decreases moments.len(),
{
    lemma_reports_len(live, moments);
    lemma_reports_len(replay, ignored);
    if moments.len() > 0 {
        reveal(StateView::after_take);
        reveal(StateView::taken_in);
        reveal(StateView::after_meet);
        reveal(StateView::desync);
        let keys = moments[0].keys;
        let mouse = moments[0].mouse;
        let live_next = live.ticked(keys, mouse);
        let replay_next = replay.ticked(ignored[0].keys, ignored[0].mouse);
        let live_all = reports(live, moments);
        let replay_all = reports(replay, ignored);
        let live_rest = reports(live_next, moments.skip(1));
        let replay_rest = reports(replay_next, ignored.skip(1));
        assert(live_all.skip(1) =~= live_rest);
        if live.tick_id == i32::MAX {
            lemma_exhausted_session(live, moments);
            lemma_finished_replay(replay, ignored);
        } else {
            let input = live.next_input(keys, mouse).unwrap();
            assert(live_all[0].input == Some(input));
            assert(replay.inputs =~= seq![input] + recorded_inputs(live_rest));
            assert(replay.inputs[0] == input);
            assert(replay.inputs.skip(1) =~= recorded_inputs(live_rest));
            let live_fed = live.after_take().taken_in(input);
            let replay_fed = replay.after_take().taken_in(input);
            lemma_acted(live_fed, replay_fed);
            lemma_acted(replay_fed, live_fed);
            let live_acted = live_fed.acted();
            let replay_acted = replay_fed.acted();
            if live_acted.turn != live.turn {
                let snapshot = live_acted.verification();
                assert(live_all[0].verification == Some(snapshot));
                assert(replay.verifications =~= seq![snapshot] + recorded_snapshots(live_rest));
                assert(replay_acted.verifications[0] == snapshot);
                assert(replay.verifications.skip(1) =~= recorded_snapshots(live_rest));
            } else {
                assert(replay.verifications =~= recorded_snapshots(live_rest));
            }
            lemma_replay_follows_the_record(live_next, replay_next, moments.skip(1), ignored.skip(1));
            assert forall|i: int| 0 <= i < moments.len() implies ({
                &&& (#[trigger] replay_all[i]).input == live_all[i].input
                &&& replay_all[i].verification == live_all[i].verification
                &&& replay_all[i].desync.is_none()
            }) by {
                if i > 0 {
                    assert(replay_all[i] == replay_rest[i - 1]);
                    assert(live_all[i] == live_rest[i - 1]);
                }
            }
        }
    }
}

/// The lines that one tick of a live session adds to the record: the input
/// of the tick, if there was one, and behind it the snapshot, if one was
/// taken.
pub open spec fn lines_of_tick(tick: TickView) -> Seq<ParsedLineView> {
    (match tick.input {
        Some(input) => seq![ParsedLineView { input: Some(input), verification: None }],
        None => Seq::empty(),
    }) + (match tick.verification {
        Some(snapshot) => seq![ParsedLineView { input: None, verification: Some(snapshot) }],
        None => Seq::empty(),
    })
}

/// The lines of the record of a live session, behind the header.
pub open spec fn record_lines(ticks: Seq<TickView>) -> Seq<ParsedLineView>
    decreases ticks.len(),
{
    if ticks.len() == 0 {
        Seq::empty()
    } else {
        record_lines(ticks.drop_last()) + lines_of_tick(ticks.last())
    }
}

/// A run with one more moment at its end is the run without it, and one
/// more tick.
pub proof fn lemma_run_push(state: StateView, moments: Seq<Moment>, last: Moment)
    ensures
        run(state, moments.push(last)) == run(state, moments).ticked(last.keys, last.mouse),
        reports(state, moments.push(last)) == reports(state, moments).push(
            run(state, moments).tick_report(last.keys, last.mouse),
        ),
    decreases moments.len(),
{
    let longer = moments.push(last);
    reveal_with_fuel(run, 3);
    reveal_with_fuel(reports, 3);
    if moments.len() == 0 {
        assert(longer.skip(1) =~= Seq::<Moment>::empty());
        assert(longer[0] == last);
        assert(reports(state, longer) =~= reports(state, moments).push(
            state.tick_report(last.keys, last.mouse),
        ));
    } else {
        let next = state.ticked(moments[0].keys, moments[0].mouse);
        assert(longer.skip(1) =~= moments.skip(1).push(last));
        assert(longer[0] == moments[0]);
        lemma_run_push(next, moments.skip(1), last);
        assert(reports(state, longer) =~= reports(state, moments).push(
            run(state, moments).tick_report(last.keys, last.mouse),
        ));
    }
}

/// The inputs and the snapshots of a list of reports with one more report
/// at its end are those of the list, and those of the report behind them.
pub proof fn lemma_recorded_push(ticks: Seq<TickView>, last: TickView)
    ensures
        recorded_inputs(ticks.push(last)) == recorded_inputs(ticks) + (match last.input {
            Some(input) => seq![input],
            None => Seq::empty(),
        }),
        recorded_snapshots(ticks.push(last)) == recorded_snapshots(ticks) + (match last.verification {
            Some(snapshot) => seq![snapshot],
            None => Seq::empty(),
        }),
    decreases ticks.len(),
{
    let longer = ticks.push(last);
    reveal_with_fuel(recorded_inputs, 3);
    reveal_with_fuel(recorded_snapshots, 3);
    if ticks.len() == 0 {
        assert(longer.skip(1) =~= Seq::<TickView>::empty());
        assert(longer[0] == last);
        assert(recorded_inputs(longer) =~= recorded_inputs(ticks) + (match last.input {
            Some(input) => seq![input],
            None => Seq::empty(),
        }));
        assert(recorded_snapshots(longer) =~= recorded_snapshots(ticks) + (match last.verification {
            Some(snapshot) => seq![snapshot],
            None => Seq::empty(),
        }));
    } else {
        assert(longer.skip(1) =~= ticks.skip(1).push(last));
        assert(longer[0] == ticks[0]);
        lemma_recorded_push(ticks.skip(1), last);
        assert(recorded_inputs(longer) =~= recorded_inputs(ticks) + (match last.input {
            Some(input) => seq![input],
            None => Seq::empty(),
        }));
        assert(recorded_snapshots(longer) =~= recorded_snapshots(ticks) + (match last.verification {
            Some(snapshot) => seq![snapshot],
            None => Seq::empty(),
        }));
    }
}

/// What the first lines of a record read as does not depend on the lines
/// behind them.
pub proof fn lemma_collected_prefix(one: Seq<ParsedLineView>, other: Seq<ParsedLineView>, n: nat)
    requires
        n <= one.len(),
        n <= other.len(),
        forall|i: int| 0 <= i < n ==> one[i] == other[i],
    ensures
        collected(one, n) == collected(other, n),
    decreases n,
{
    if n > 0 {
        lemma_collected_prefix(one, other, (n - 1) as nat);
    }
}

/// The ticks of a live session are numbered one after the other: the
/// inputs it puts on record count up from the number after that of the last
/// tick before, and the number of the last tick is the number of the last
/// input on record.
pub proof fn lemma_live_ticks_are_numbered(state: StateView, moments: Seq<Moment>)
    requires
        !state.replay,
        0 <= state.tick_id,
    ensures
        !run(state, moments).replay,
        run(state, moments).tick_id == state.tick_id + recorded_inputs(reports(state, moments)).len(),
        forall|k: int|
            0 <= k < recorded_inputs(reports(state, moments)).len() ==> (#[trigger] recorded_inputs(
                reports(state, moments),
            )[k]).tick_id == state.tick_id + k + 1,
    decreases moments.len(),
{
    reveal(StateView::after_take);
    reveal(StateView::taken_in);
    reveal(StateView::after_meet);
    reveal(StateView::acted);
    reveal(StateView::stepped);
    if moments.len() > 0 {
        let shorter = moments.drop_last();
        let last = moments.last();
        assert(moments =~= shorter.push(last));
        lemma_live_ticks_are_numbered(state, shorter);
        lemma_run_push(state, shorter, last);
        let before = run(state, shorter);
        lemma_recorded_push(reports(state, shorter), before.tick_report(last.keys, last.mouse));
    }
}

/// The record of a live session can be played. Sorted into inputs and
/// snapshots, the lines that a session puts on record from its first tick
/// on pass for a record, and hold exactly the inputs that were fed and the
/// snapshots that were taken.
pub proof fn lemma_record_can_be_played(state: StateView, moments: Seq<Moment>)
    requires
        !state.replay,
        state.tick_id == 0,
    ensures
        collected(
            record_lines(reports(state, moments)),
            record_lines(reports(state, moments)).len(),
        ) == Ok::<Records, ReplayError>(
            Records {
                inputs: recorded_inputs(reports(state, moments)),
                verifications: recorded_snapshots(reports(state, moments)),
            },
        ),
    decreases moments.len(),
{
    let all = reports(state, moments);
    let lines = record_lines(all);
    reveal_with_fuel(collected, 3);
    if moments.len() == 0 {
    } else {
        let shorter = moments.drop_last();
        let last = moments.last();
        assert(moments =~= shorter.push(last));
        lemma_record_can_be_played(state, shorter);
        lemma_live_ticks_are_numbered(state, shorter);
        lemma_run_push(state, shorter, last);
        lemma_reports_len(state, shorter);
        let before = run(state, shorter);
        let earlier = reports(state, shorter);
        let tick = before.tick_report(last.keys, last.mouse);
        assert(all == earlier.push(tick));
        assert(all.drop_last() =~= earlier);
        lemma_recorded_push(earlier, tick);
        let old_lines = record_lines(earlier);
        let n = old_lines.len();
        assert(lines == old_lines + lines_of_tick(tick));
        lemma_collected_prefix(lines, old_lines, n);
        reveal(StateView::after_take);
        reveal(StateView::taken_in);
        let inputs = recorded_inputs(earlier);
        let snapshots = recorded_snapshots(earlier);
        let so_far = Records { inputs, verifications: snapshots };
        assert(collected(lines, n) == Ok::<Records, ReplayError>(so_far));
        assert(before.tick_id == inputs.len());
        match tick.input {
            Some(input) => {
                assert(lines[n as int] == (ParsedLineView { input: Some(input), verification: None }));
                assert(input.tick_id == before.tick_id + 1);
                let with_input = Records { inputs: inputs.push(input), verifications: snapshots };
                assert(collected(lines, (n + 1) as nat) == Ok::<Records, ReplayError>(with_input));
                assert(recorded_inputs(all) =~= inputs.push(input));
                match tick.verification {
                    Some(snapshot) => {
                        assert(lines.len() == n + 2);
                        assert(lines[n as int + 1] == (ParsedLineView {
                            input: None,
                            verification: Some(snapshot),
                        }));
                        assert(collected(lines, (n + 2) as nat) == Ok::<Records, ReplayError>(
                            Records {
                                inputs: inputs.push(input),
                                verifications: snapshots.push(snapshot),
                            },
                        ));
                        assert(recorded_snapshots(all) =~= snapshots.push(snapshot));
                    },
                    None => {
                        assert(lines.len() == n + 1);
                        assert(recorded_snapshots(all) =~= snapshots);
                    },
                }
            },
            None => {
                assert(tick.verification.is_none());
                assert(lines =~= old_lines);
                assert(recorded_inputs(all) =~= inputs);
                assert(recorded_snapshots(all) =~= snapshots);
            },
        }
    }
}

/// From the first tick to the last: begin a session from a seed, feed it
/// the keys and the pointer of any number of moments, and put on record
/// what its ticks hand back. Then the lines pass for a
/// record; and a session that is begun from the same seed to play them
/// hands back, tick for tick, the same inputs and the same snapshots, and
/// never a recorded snapshot that differs from its own. What its other
/// settings are, and what the player does while it plays, makes no
/// difference.
pub proof fn lemma_record_then_replay(
    seed: u32,
    world_size: Point,
    live: StateView,
    replay: StateView,
    moments: Seq<Moment>,
    ignored: Seq<Moment>,
)
    requires
        ignored.len() == moments.len(),
        live == StateView::fresh(
            world_size,
            live.map_size,
            live.panel_width,
            Seq::empty(),
            Seq::empty(),
            seed,
            live.cheating,
            live.player.invincible,
            false,
            live.replay_full_speed,
            live.exit_after,
            live.challenge,
        ),
        collected(
            record_lines(reports(live, moments)),
            record_lines(reports(live, moments)).len(),
        ) matches Ok(found) ==> replay == (StateView {
            game_session: GameSession::InProgress,
            ..StateView::fresh(
                world_size,
                replay.map_size,
                replay.panel_width,
                found.inputs,
                found.verifications,
                seed,
                replay.cheating,
                replay.player.invincible,
                true,
                replay.replay_full_speed,
                replay.exit_after,
                replay.challenge,
            )
        }),
    ensures
        collected(
            record_lines(reports(live, moments)),
            record_lines(reports(live, moments)).len(),
        ).is_ok(),
        reports(replay, ignored).len() == moments.len(),
        reports(live, moments).len() == moments.len(),
        forall|i: int|
            0 <= i < moments.len() ==> {
                &&& (#[trigger] reports(replay, ignored)[i]).input == reports(live, moments)[i].input
                &&& reports(replay, ignored)[i].verification == reports(live, moments)[i].verification
                &&& reports(replay, ignored)[i].desync.is_none()
            },
{
    lemma_record_can_be_played(live, moments);
    lemma_replay_follows_the_record(live, replay, moments, ignored);
}

impl Tick {
    /// The lines that the tick adds to the record of a live session: the
    /// input first, then the snapshot.
    pub fn into_lines(self) -> (lines: Vec<ParsedLine>)
        ensures
            line_views(lines@) == lines_of_tick(self@),
    {
        let mut lines: Vec<ParsedLine> = Vec::new();
        match self.input {
            Some(input) => {
                lines.push(ParsedLine { input: Some(input), verification: None });
            },
            None => {},
        }
        match self.verification {
            Some(snapshot) => {
                lines.push(ParsedLine { input: None, verification: Some(snapshot) });
            },
            None => {},
        }
        assert(line_views(lines@) =~= lines_of_tick(self@));
        lines
    }
}

impl State {
    /// Runs one tick for each of the moments and hands back what the ticks
    /// handed back.
    pub fn play(&mut self, moments: &Vec<(Vec<Key>, Mouse)>) -> (ticks: Vec<Tick>)
        requires
            old(self).wf(),
        ensures
            final(self).wf(),
            final(self)@ == run(old(self)@, moments_of(moments@)),
            tick_views(ticks@) == reports(old(self)@, moments_of(moments@)),
    {
        let ghost all = moments_of(moments@);
        let mut ticks: Vec<Tick> = Vec::new();
        let mut i: usize = 0;
        proof {
            assert(all.skip(0) =~= all);
            assert(tick_views(ticks@) =~= Seq::<TickView>::empty());
        }
        while i < moments.len()
            invariant
                0 <= i <= moments@.len(),
                all == moments_of(moments@),
                self.wf(),
                run(self@, all.skip(i as int)) == run(old(self)@, all),
                tick_views(ticks@) + reports(self@, all.skip(i as int)) == reports(old(self)@, all),
            decreases moments@.len() - i,
        {
            let keys = moments[i].0.clone();
            let mouse = moments[i].1;
            proof {
                assert(keys@ =~= moments@[i as int].0@);
                assert(all.skip(i as int)[0] == all[i as int]);
                assert(all.skip(i as int).skip(1) =~= all.skip(i as int + 1));
            }
            let ghost before = self@;
            let ghost so_far = tick_views(ticks@);
            let tick = self.tick(keys, mouse);
            ticks.push(tick);
            proof {
                assert(tick_views(ticks@) =~= so_far.push(tick@));
                assert(so_far.push(tick@) + reports(self@, all.skip(i as int + 1)) =~= so_far
                    + reports(before, all.skip(i as int)));
            }
            i = i + 1;
        }
        proof {
            assert(all.skip(all.len() as int) =~= Seq::<Moment>::empty());
            assert(tick_views(ticks@) + Seq::<TickView>::empty() =~= tick_views(ticks@));
        }
        ticks
    }
}

} // verus!
