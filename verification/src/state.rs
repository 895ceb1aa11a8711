//! The state of a session, the snapshots that are taken of it, and the
//! record that lets a session be played again.
//!
//! A session is a seed and the inputs of its ticks, in order. Everything
//! else follows from these: the world, the player's walk through it, and
//! the snapshots taken along the way. A recorded session holds the seed,
//! the inputs and the snapshots. Playing it again feeds the recorded inputs
//! to a fresh state made from the recorded seed, and holds every snapshot
//! of the second run against the one recorded at the same point of the
//! first.
//!
//! What a tick does to the simulation is the player's walk: the keys of the
//! tick give commands, the first command that waits is carried out, and a
//! step onto open ground is a turn. The creatures' own turns, and what the
//! items do, belong to the game that is built on this core; they go through
//! the same world and the same generator, and so keep what is stated here.

use std::collections::VecDeque;

use vstd::prelude::*;
use vstd::std_specs::cmp::PartialEqSpecImpl;
use vstd::string::StringSliceAdditionalSpecFns;

use crate::engine::Mouse;
use crate::graphic::Graphic;
use crate::keys::{Key, KeyCode};
use crate::level::TileKind;
use crate::metadata;
use crate::monster;
use crate::monster::MonsterId;
use crate::player::{Player, PlayerView};
use crate::point::Point;
use crate::random::Random;
use crate::text::{
    decimal, lemma_decimal_round_trip, padded, parse_u32, parsed_u32, push_decimal, push_padded,
    texts_of,
};
use crate::windows::help::Page;
use crate::world::{World, WorldView, MAX_DIMENSION};

verus! {

/// The length of a chunk's side.
pub const CHUNK_SIZE: i32 = 32;

/// Whose game it is: still the player's, or already won.
#[derive(Copy, PartialEq, Eq, Clone, Debug, Structural)]
pub enum Side {
    Player,
    Victory,
}

/// How far a session has got: not begun, under way, or over.
#[derive(Copy, PartialEq, Eq, Clone, Debug, Structural)]
pub enum GameSession {
    NotStarted,
    InProgress,
    Ended,
}

impl GameSession {
    /// Whether the session has begun, be it over or not.
    pub fn started(&self) -> (yes: bool)
        ensures
            yes == (*self != GameSession::NotStarted),
    {
        match *self {
            GameSession::NotStarted => false,
            GameSession::InProgress => true,
            GameSession::Ended => true,
        }
    }
}

/// What the player can tell the character to do.
#[derive(Clone, Debug)]
pub enum Command {
    N,
    E,
    S,
    W,
    NE,
    NW,
    SE,
    SW,
    UseFood,
    UseDose,
    UseCardinalDose,
    UseDiagonalDose,
    UseStrongDose,
    ShowMessageBox {
        /// For how long to show the box, in milliseconds.
        ttl: u64,
        title: String,
        message: String,
    },
}

/// The input of one tick.
#[derive(Clone, Debug)]
pub struct Input {
    /// The keys pressed during the tick, in the order they were pressed.
    pub keys: Vec<Key>,
    pub mouse: Mouse,
    /// The number of the tick, counting from one.
    pub tick_id: i32,
}

/// What an `Input` holds, as plain values.
pub struct InputView {
    pub keys: Seq<Key>,
    pub mouse: Mouse,
    pub tick_id: i32,
}

impl View for Input {
    type V = InputView;

    open spec fn view(&self) -> InputView {
        InputView { keys: self.keys@, mouse: self.mouse, tick_id: self.tick_id }
    }
}

/// One living creature in a snapshot: where it stands, the coordinate of
/// the chunk that holds it, and its kind.
pub type Entry = (Point, Point, monster::Kind);

/// A snapshot of a session.
#[derive(Debug, Clone)]
pub struct Verification {
    pub turn: i32,
    /// The number of chunks that have been made.
    pub chunk_count: usize,
    pub player_pos: Point,
    /// The living creatures, in the order of `entry_le`.
    pub monsters: Vec<Entry>,
}

/// What a `Verification` holds, as plain values.
pub struct VerificationView {
    pub turn: i32,
    pub chunk_count: usize,
    pub player_pos: Point,
    pub monsters: Seq<Entry>,
}

impl View for Verification {
    type V = VerificationView;

    open spec fn view(&self) -> VerificationView {
        VerificationView {
            turn: self.turn,
            chunk_count: self.chunk_count,
            player_pos: self.player_pos,
            monsters: self.monsters@,
        }
    }
}

/// The order of the entries of a snapshot: by column, then by row, then by
/// kind. Where the creatures stand decides; the chunks that hold them have
/// no say.
pub open spec fn entry_le(a: Entry, b: Entry) -> bool {
    ||| a.0.x < b.0.x
    ||| (a.0.x == b.0.x && a.0.y < b.0.y)
    ||| (a.0.x == b.0.x && a.0.y == b.0.y && a.2.spec_rank() <= b.2.spec_rank())
}

/// Whether the entries are in the order of a snapshot.
pub open spec fn sorted(entries: Seq<Entry>) -> bool {
    forall|i: int, j: int| 0 <= i < j < entries.len() ==> entry_le(entries[i], entries[j])
}

/// Where a new entry goes into a list: behind the leading entries that do
/// not come after it.
pub open spec fn place_for(entries: Seq<Entry>, entry: Entry) -> int
    decreases entries.len(),
{
    if entries.len() == 0 || !entry_le(entries[0], entry) {
        0
    } else {
        1 + place_for(entries.skip(1), entry)
    }
}

/// The entries put in order one after the other, each behind those that do
/// not come after it. Entries that the order does not tell apart stay in
/// the order they came in.
pub open spec fn in_order(entries: Seq<Entry>) -> Seq<Entry>
    decreases entries.len(),
{
    if entries.len() == 0 {
        Seq::empty()
    } else {
        let before = in_order(entries.drop_last());
        before.insert(place_for(before, entries.last()), entries.last())
    }
}

/// `place_for` is the first place whose entry comes after the new one.
pub proof fn lemma_place_for(entries: Seq<Entry>, entry: Entry, p: int)
    requires
        0 <= p <= entries.len(),
        forall|i: int| 0 <= i < p ==> entry_le(#[trigger] entries[i], entry),
        p < entries.len() ==> !entry_le(entries[p], entry),
    ensures
        place_for(entries, entry) == p,
    decreases entries.len(),
{
    if p > 0 {
        let rest = entries.skip(1);
        assert forall|i: int| 0 <= i < p - 1 implies entry_le(#[trigger] rest[i], entry) by {
            assert(rest[i] == entries[i + 1]);
        }
        lemma_place_for(rest, entry, p - 1);
    }
}

/// `place_for` lies inside the list, or just behind it.
pub proof fn lemma_place_for_bounds(entries: Seq<Entry>, entry: Entry)
    ensures
        0 <= place_for(entries, entry) <= entries.len(),
        forall|i: int| 0 <= i < place_for(entries, entry) ==> entry_le(#[trigger] entries[i], entry),
        place_for(entries, entry) < entries.len() ==> !entry_le(
            entries[place_for(entries, entry)],
            entry,
        ),
    decreases entries.len(),
{
    if !(entries.len() == 0 || !entry_le(entries[0], entry)) {
        let rest = entries.skip(1);
        lemma_place_for_bounds(rest, entry);
        let p = place_for(rest, entry);
        assert forall|i: int| 0 <= i < p + 1 implies entry_le(#[trigger] entries[i], entry) by {
            if i > 0 {
                assert(rest[i - 1] == entries[i]);
            }
        }
        if p < rest.len() {
            assert(rest[p] == entries[p + 1]);
        }
    }
}

/// Putting entries in order gives a list in order that holds each entry as
/// often as the list it was made from.
pub proof fn lemma_in_order(entries: Seq<Entry>)
    ensures
        sorted(in_order(entries)),
        in_order(entries).len() == entries.len(),
        in_order(entries).to_multiset() == entries.to_multiset(),
    decreases entries.len(),
{
    broadcast use vstd::seq_lib::group_to_multiset_ensures;

    if entries.len() == 0 {
    } else {
        let shorter = entries.drop_last();
        let entry = entries.last();
        lemma_in_order(shorter);
        let before = in_order(shorter);
        lemma_place_for_bounds(before, entry);
        let p = place_for(before, entry);
        let after = before.insert(p, entry);
        assert forall|i: int, j: int| 0 <= i < j < after.len() implies entry_le(after[i], after[j]) by {
            if i < p && j == p {
                assert(after[i] == before[i]);
            } else if i < p && j > p {
                assert(after[i] == before[i]);
                assert(after[j] == before[j - 1]);
            } else if i == p {
                assert(after[j] == before[j - 1]);
                assert(entry_le(before[p], before[j - 1]) || j - 1 == p);
            } else if i > p {
                assert(after[i] == before[i - 1]);
                assert(after[j] == before[j - 1]);
            } else {
                assert(after[i] == before[i]);
                assert(after[j] == before[j]);
            }
        }
        assert(entries =~= shorter.push(entry));
        assert(after.to_multiset() =~= before.to_multiset().insert(entry));
        assert(entries.to_multiset() =~= shorter.to_multiset().insert(entry));
    }
}

/// Tells whether `a` may stand before `b` in a snapshot.
pub fn entry_before(a: &Entry, b: &Entry) -> (yes: bool)
    ensures
        yes == entry_le(*a, *b),
{
    if a.0.x != b.0.x {
        a.0.x < b.0.x
    } else if a.0.y != b.0.y {
        a.0.y < b.0.y
    } else {
        a.2.rank() <= b.2.rank()
    }
}

/// Puts the entries of a snapshot in order.
pub fn sort_entries(entries: &Vec<Entry>) -> (result: Vec<Entry>)
    ensures
        result@ == in_order(entries@),
        sorted(result@),
        result@.to_multiset() == entries@.to_multiset(),
{
    let mut result: Vec<Entry> = Vec::new();
    let mut k: usize = 0;
    while k < entries.len()
        invariant
            0 <= k <= entries@.len(),
            result@ == in_order(entries@.take(k as int)),
            result@.len() == k,
        decreases entries@.len() - k,
    {
        let entry = entries[k];
        let mut p: usize = 0;
        while p < result.len() && entry_before(&result[p], &entry)
            invariant
                0 <= p <= result@.len(),
                forall|i: int| 0 <= i < p ==> entry_le(#[trigger] result@[i], entry),
            decreases result@.len() - p,
        {
            p = p + 1;
        }
        proof {
            lemma_place_for(result@, entry, p as int);
            assert(entries@.take(k as int + 1).drop_last() =~= entries@.take(k as int));
            lemma_in_order(entries@.take(k as int + 1));
        }
        result.insert(p, entry);
        k = k + 1;
    }
    proof {
        assert(entries@.take(entries@.len() as int) =~= entries@);
        lemma_in_order(entries@);
    }
    result
}

impl Verification {
    /// Whether two snapshots say the same.
    pub fn same_as(&self, other: &Verification) -> (same: bool)
        ensures
            same == (self@ == other@),
    {
        if self.turn != other.turn || self.chunk_count != other.chunk_count || self.player_pos
            != other.player_pos || self.monsters.len() != other.monsters.len() {
            return false;
        }
        let mut i: usize = 0;
        while i < self.monsters.len()
            invariant
                0 <= i <= self.monsters@.len(),
                self.monsters@.len() == other.monsters@.len(),
                forall|k: int| 0 <= k < i ==> self.monsters@[k] == other.monsters@[k],
            decreases self.monsters@.len() - i,
        {
            let a = self.monsters[i];
            let b = other.monsters[i];
            if a.0 != b.0 || a.1 != b.1 || a.2 != b.2 {
                return false;
            }
            i = i + 1;
        }
        assert(self.monsters@ =~= other.monsters@);
        true
    }
}

impl PartialEq for Verification {
    fn eq(&self, other: &Verification) -> (same: bool) {
        self.same_as(other)
    }
}

impl PartialEqSpecImpl for Verification {
    open spec fn obeys_eq_spec() -> bool {
        true
    }

    open spec fn eq_spec(&self, other: &Verification) -> bool {
        self@ == other@
    }
}

/// The challenges the player can take on.
#[derive(Clone, Copy, Debug, PartialEq, Eq, Structural)]
pub struct Challenge {
    pub hide_unseen_tiles: bool,
    pub fast_depression: bool,
    pub one_chance: bool,
}

impl Default for Challenge {
    fn default() -> (challenge: Challenge)
        ensures
            challenge == (Challenge {
                hide_unseen_tiles: true,
                fast_depression: true,
                one_chance: true,
            }),
    {
        Challenge { hide_unseen_tiles: true, fast_depression: true, one_chance: true }
    }
}

/// The views of a list of inputs.
pub open spec fn input_views(inputs: Seq<Input>) -> Seq<InputView> {
    Seq::new(inputs.len(), |i: int| inputs[i]@)
}

/// The views of a list of snapshots.
pub open spec fn verification_views(snapshots: Seq<Verification>) -> Seq<VerificationView> {
    Seq::new(snapshots.len(), |i: int| snapshots[i]@)
}

/// The state of a session.
pub struct State {
    pub player: Player,
    /// The length and the height of the world, which are the same.
    pub world_size: Point,
    pub world: World,
    /// The size of the part of the world that is on screen.
    pub map_size: Point,
    /// The width of the panel beside the map.
    pub panel_width: i32,
    /// The position in the world that the screen is centred on.
    pub screen_position_in_world: Point,
    pub seed: u32,
    /// The generator of the simulation.
    pub rng: Random,
    /// The generator of the sound: a copy of the simulation's, taken before
    /// its first draw, that goes its own way from there.
    pub audio_rng: Random,
    /// The pointer as the last tick saw it.
    pub mouse: Mouse,
    /// When playing a recorded session: the inputs still to be fed.
    pub inputs: VecDeque<Input>,
    /// The commands that the keys have given and the character has not
    /// carried out yet.
    pub commands: VecDeque<Command>,
    /// When playing a recorded session: the snapshots still to be met.
    pub verifications: VecDeque<Verification>,
    pub side: Side,
    pub turn: i32,
    /// The number of the last tick.
    pub tick_id: i32,
    pub cheating: bool,
    /// Whether a recorded session is being played.
    pub replay: bool,
    pub replay_full_speed: bool,
    pub exit_after: bool,
    pub paused: bool,
    pub game_session: GameSession,
    pub victory_npc_id: Option<MonsterId>,
    pub player_picked_up_a_dose: bool,
    pub player_bumped_into_a_monster: bool,
    pub current_help_window: Page,
    /// The first line of the help page that is on screen.
    pub help_starting_line: i32,
    pub uncovered_map: bool,
    pub challenge: Challenge,
}

/// What a `State` holds, as plain values.
pub struct StateView {
    pub player: PlayerView,
    pub world_size: Point,
    pub world: WorldView,
    pub map_size: Point,
    pub panel_width: i32,
    pub screen_position_in_world: Point,
    pub seed: u32,
    pub rng: Random,
    pub audio_rng: Random,
    pub mouse: Mouse,
    pub inputs: Seq<InputView>,
    pub commands: Seq<Command>,
    pub verifications: Seq<VerificationView>,
    pub side: Side,
    pub turn: i32,
    pub tick_id: i32,
    pub cheating: bool,
    pub replay: bool,
    pub replay_full_speed: bool,
    pub exit_after: bool,
    pub paused: bool,
    pub game_session: GameSession,
    pub victory_npc_id: Option<MonsterId>,
    pub player_picked_up_a_dose: bool,
    pub player_bumped_into_a_monster: bool,
    pub current_help_window: Page,
    pub help_starting_line: i32,
    pub uncovered_map: bool,
    pub challenge: Challenge,
}

impl View for State {
    type V = StateView;

    open spec fn view(&self) -> StateView {
        StateView {
            player: self.player@,
            world_size: self.world_size,
            world: self.world@,
            map_size: self.map_size,
            panel_width: self.panel_width,
            screen_position_in_world: self.screen_position_in_world,
            seed: self.seed,
            rng: self.rng,
            audio_rng: self.audio_rng,
            mouse: self.mouse,
            inputs: input_views(self.inputs@),
            commands: self.commands@,
            verifications: verification_views(self.verifications@),
            side: self.side,
            turn: self.turn,
            tick_id: self.tick_id,
            cheating: self.cheating,
            replay: self.replay,
            replay_full_speed: self.replay_full_speed,
            exit_after: self.exit_after,
            paused: self.paused,
            game_session: self.game_session,
            victory_npc_id: self.victory_npc_id,
            player_picked_up_a_dose: self.player_picked_up_a_dose,
            player_bumped_into_a_monster: self.player_bumped_into_a_monster,
            current_help_window: self.current_help_window,
            help_starting_line: self.help_starting_line,
            uncovered_map: self.uncovered_map,
            challenge: self.challenge,
        }
    }
}

/// The pictures the player's character can have.
pub open spec fn player_graphics() -> Seq<Graphic> {
    seq![Graphic::CharacterSkirt, Graphic::CharacterTrousers]
}

/// The number of colours the player's character can have.
pub const PLAYER_COLORS: i32 = 6;

impl StateView {
    /// The state of a session that is about to begin. The simulation's
    /// generator is made from the seed; the sound gets a copy of it. The
    /// first two draws of the simulation decide how the player's character
    /// looks. The player starts in the middle of the world, and the chunk
    /// around that place is the only one there is.
    pub open spec fn fresh(
        world_size: Point,
        map_size: Point,
        panel_width: i32,
        inputs: Seq<InputView>,
        verifications: Seq<VerificationView>,
        seed: u32,
        cheating: bool,
        invincible: bool,
        replay: bool,
        replay_full_speed: bool,
        exit_after: bool,
        challenge: Challenge,
    ) -> StateView {
        let centre = Point { x: 0, y: 0 };
        let rng = Random::seeded(seed);
        StateView {
            player: PlayerView {
                graphic: player_graphics()[rng.next_index(2)],
                color_index: rng.advanced().next_in_range(0, (PLAYER_COLORS - 1) as i32) as usize,
                ..PlayerView::fresh(centre, invincible)
            },
            world_size,
            world: WorldView::empty(seed, world_size.x, CHUNK_SIZE, centre).ensured(centre),
            map_size,
            panel_width,
            screen_position_in_world: centre,
            seed,
            rng: rng.advanced().advanced(),
            audio_rng: rng,
            mouse: Mouse::at_rest(),
            inputs,
            commands: Seq::empty(),
            verifications,
            side: Side::Player,
            turn: 0,
            tick_id: 0,
            cheating,
            replay,
            replay_full_speed,
            exit_after,
            paused: false,
            game_session: GameSession::NotStarted,
            victory_npc_id: None,
            player_picked_up_a_dose: false,
            player_bumped_into_a_monster: false,
            current_help_window: Page::DoseResponse,
            help_starting_line: 0,
            uncovered_map: false,
            challenge,
        }
    }

    /// The top left corner of the part of the world that is on screen.
    pub open spec fn screen_left_top_corner(self) -> Point {
        self.screen_position_in_world.spec_minus(self.map_size.spec_divided_by(2))
    }

    /// The snapshot of this state: the turn, the number of chunks, where
    /// the player stands, and the living creatures in order.
    #[verifier::opaque]
    pub open spec fn verification(self) -> VerificationView {
        VerificationView {
            turn: self.turn,
            chunk_count: self.world.order.len() as usize,
            player_pos: self.player.pos,
            monsters: in_order(self.world.living_entries()),
        }
    }

    /// Whether the world's measures are those of the state.
    pub open spec fn consistent(self) -> bool {
        &&& self.world.seed == self.seed
        &&& self.world.chunk_size == CHUNK_SIZE
        &&& self.world.dimension == self.world_size.x
        &&& self.world_size.x == self.world_size.y
    }

    /// Whether a state is in order: its world is, and the world's measures
    /// are those of the state.
    pub open spec fn wf(self) -> bool {
        &&& self.world.wf()
        &&& self.consistent()
    }
}

impl State {
    /// Whether the state is in order.
    pub open spec fn wf(&self) -> bool {
        &&& self.world.wf()
        &&& self@.consistent()
    }

    /// Tells whether the state is in order, given that its world is: for a
    /// state that has been put together from the pieces of a save file.
    pub fn check(&self) -> (ok: bool)
        requires
            self.world.wf(),
        ensures
            ok == self.wf(),
    {
        self.world.seed() == self.seed && self.world.chunk_size() == CHUNK_SIZE
            && self.world.dimension() == self.world_size.x && self.world_size.x == self.world_size.y
    }

    /// What a state in order holds is in order.
    pub proof fn lemma_wf(&self)
        requires
            self.wf(),
        ensures
            self@.wf(),
    {
        self.world.lemma_wf();
    }

    /// The state of a session that is about to begin.
    pub fn new(
        world_size: Point,
        map_size: Point,
        panel_width: i32,
        inputs: VecDeque<Input>,
        verifications: VecDeque<Verification>,
        seed: u32,
        cheating: bool,
        invincible: bool,
        replay: bool,
        replay_full_speed: bool,
        exit_after: bool,
        challenge: Challenge,
    ) -> (state: State)
        requires
            world_size.x == world_size.y,
            0 < world_size.x <= MAX_DIMENSION,
        ensures
            state.wf(),
            state@ == StateView::fresh(
                world_size,
                map_size,
                panel_width,
                input_views(inputs@),
                verification_views(verifications@),
                seed,
                cheating,
                invincible,
                replay,
                replay_full_speed,
                exit_after,
                challenge,
            ),
    {
        let world_centre = Point::new(0, 0);
        let mut rng = Random::from_seed(seed);
        let audio_rng = rng.clone();
        let player_position = world_centre;
        let mut player = Player::new(player_position, invincible);
        let graphics: [Graphic; 2] = [Graphic::CharacterSkirt, Graphic::CharacterTrousers];
        proof {
            assert(graphics@ =~= player_graphics());
            crate::random::lemma_scaled_bounds(rng.next_word(), 2);
        }
        match rng.pick(&graphics) {
            Some(graphic) => {
                player.graphic = *graphic;
            },
            None => {},
        }
        player.color_index = rng.range_inclusive(0, PLAYER_COLORS - 1) as usize;
        let world = World::new(seed, world_size.x, CHUNK_SIZE, player.info());
        State {
            player,
            world_size,
            world,
            map_size,
            panel_width,
            screen_position_in_world: world_centre,
            seed,
            rng,
            audio_rng,
            mouse: Mouse::new(),
            inputs,
            commands: VecDeque::new(),
            verifications,
            side: Side::Player,
            turn: 0,
            tick_id: 0,
            cheating,
            replay,
            replay_full_speed,
            exit_after,
            paused: false,
            game_session: GameSession::NotStarted,
            victory_npc_id: None,
            player_picked_up_a_dose: false,
            player_bumped_into_a_monster: false,
            current_help_window: Page::DoseResponse,
            help_starting_line: 0,
            uncovered_map: false,
            challenge,
        }
    }

    /// Lays the world out anew, as it is at the beginning of a session:
    /// with the chunk around the player and no other.
    pub fn generate_world(&mut self)
        requires
            old(self).world_size.x == old(self).world_size.y,
            0 < old(self).world_size.x <= MAX_DIMENSION,
        ensures
            final(self).wf(),
            final(self)@ == (StateView {
                world: WorldView::empty(
                    old(self).seed,
                    old(self).world_size.x,
                    CHUNK_SIZE,
                    old(self).player.pos,
                ).ensured(old(self).player.pos),
                ..old(self)@
            }),
    {
        self.world = World::new(self.seed, self.world_size.x, CHUNK_SIZE, self.player.info());
    }

    /// Takes a snapshot.
    pub fn verification(&self) -> (snapshot: Verification)
        requires
            self.wf(),
        ensures
            snapshot@ == self@.verification(),
            sorted(snapshot.monsters@),
            snapshot.monsters@.to_multiset() == self@.world.living_entries().to_multiset(),
    {
        proof {
            reveal(StateView::verification);
        }
        let chunks = self.world.positions_of_all_chunks();
        let mut monsters: Vec<Entry> = Vec::new();
        let mut i: usize = 0;
        while i < chunks.len()
            invariant
                0 <= i <= chunks@.len(),
                chunks@ == self.world@.order,
                self.world.wf(),
                monsters@ == self.world@.living_in_first(i as nat),
            decreases chunks@.len() - i,
        {
            let chunk = self.world.nth(i);
            let chunk_pos = chunk.position();
            let residents = chunk.monsters();
            let ghost before = monsters@;
            let mut j: usize = 0;
            while j < residents.len()
                invariant
                    0 <= j <= residents@.len(),
                    residents@ == chunk@.monsters,
                    chunk_pos == chunk@.position,
                    monsters@ == before + chunk@.living(j as nat),
                decreases residents@.len() - j,
            {
                let ghost so_far = monsters@;
                let monster = residents[j];
                if !monster.dead {
                    monsters.push((monster.position, chunk_pos, monster.kind));
                }
                proof {
                    assert(monsters@ =~= before + chunk@.living((j + 1) as nat));
                }
                j = j + 1;
            }
            i = i + 1;
        }
        let sorted_monsters = sort_entries(&monsters);
        Verification {
            turn: self.turn,
            chunk_count: chunks.len(),
            player_pos: self.player.pos,
            monsters: sorted_monsters,
        }
    }

    /// The top left corner of the part of the world that is on screen.
    pub fn screen_left_top_corner(&self) -> (corner: Point)
        ensures
            corner == self@.screen_left_top_corner(),
    {
        self.screen_position_in_world.minus(self.map_size.divided_by(2))
    }

    /// Where on the screen a position of the world is, in tiles from the
    /// top left corner.
    pub fn screen_pos_from_world_pos(&self, world_pos: Point) -> (screen_pos: Point)
        ensures
            screen_pos == world_pos.spec_minus(self@.screen_left_top_corner()),
    {
        world_pos.minus(self.screen_left_top_corner())
    }

    /// The position of the world that the pointer is over.
    pub fn mouse_world_position(&self) -> (world_pos: Point)
        ensures
            world_pos == self@.screen_left_top_corner().spec_plus(self.mouse.tile_pos),
    {
        self.screen_left_top_corner().plus(self.mouse.tile_pos)
    }
}

/// A moment, as the calendar and the clock have it.
#[derive(Clone, Copy, Debug, PartialEq, Eq, Structural)]
pub struct Timestamp {
    pub year: u32,
    pub month: u32,
    pub day: u32,
    pub hour: u32,
    pub minute: u32,
    pub second: u32,
    pub millisecond: u32,
}

/// The name of the directory that records are kept in.
pub const REPLAY_DIR: &'static str = "replays";

/// What the name of every record begins with: `replay-`.
pub open spec fn replay_prefix() -> Seq<u8> {
    seq![114u8, 101u8, 112u8, 108u8, 97u8, 121u8, 45u8]
}

/// The name of the file for the record of a session begun at the given
/// moment: `replay-`, the date, a `T`, and the time of day to the
/// millisecond, as in `replay-2016-11-20T20-04-39.123`. Hyphens stand where
/// a time of day has colons, which not every file system takes in a name.
pub open spec fn replay_name(moment: Timestamp) -> Seq<u8> {
    replay_prefix() + padded(moment.year as nat, 4) + seq![45u8] + padded(moment.month as nat, 2)
        + seq![45u8] + padded(moment.day as nat, 2) + seq![84u8] + padded(moment.hour as nat, 2)
        + seq![45u8] + padded(moment.minute as nat, 2) + seq![45u8] + padded(
        moment.second as nat,
        2,
    ) + seq![46u8] + padded(moment.millisecond as nat, 3)
}

/// The name of the file for the record of a session begun at the given
/// moment.
pub fn replay_file_name(moment: Timestamp) -> (name: Vec<u8>)
    ensures
        name@ == replay_name(moment),
{
    let prefix: [u8; 7] = [114, 101, 112, 108, 97, 121, 45];
    let mut name: Vec<u8> = Vec::new();
    push_text(&mut name, &prefix);
    assert(name@ =~= replay_prefix());
    push_padded(&mut name, moment.year as u64, 4);
    name.push(45);
    push_padded(&mut name, moment.month as u64, 2);
    name.push(45);
    push_padded(&mut name, moment.day as u64, 2);
    name.push(84);
    push_padded(&mut name, moment.hour as u64, 2);
    name.push(45);
    push_padded(&mut name, moment.minute as u64, 2);
    name.push(45);
    push_padded(&mut name, moment.second as u64, 2);
    name.push(46);
    push_padded(&mut name, moment.millisecond as u64, 3);
    assert(name@ =~= replay_name(moment));
    name
}

/// Why a recorded session cannot be played.
#[derive(Clone, Copy, Debug, PartialEq, Eq, Structural)]
pub enum ReplayError {
    /// The record has no line at all.
    Empty,
    /// The first line is not a seed.
    BadSeed,
    /// The record ends before the line with the version.
    MissingVersion,
    /// The record ends before the line with the commit.
    MissingCommit,
    /// A line reads neither as an input nor as a snapshot. `record` counts
    /// the lines behind the three of the header, from zero.
    BadRecord { record: usize },
    /// The input in line `record` has the tick number `found`, which is not
    /// the number of inputs up to and including it.
    TickOutOfOrder { record: usize, found: i32 },
}

/// What the first three lines of a record say.
#[derive(Clone, Copy, Debug, PartialEq, Eq, Structural)]
pub struct ReplayHeader {
    pub seed: u32,
    /// Whether the record was made by another version than this one. Such a
    /// record is played all the same.
    pub version_differs: bool,
    /// Whether the record was made by a build from another commit than this
    /// one. Such a record is played all the same.
    pub commit_differs: bool,
}

/// One line of a record behind the header, as what it reads as: an input,
/// a snapshot, both or neither.
#[derive(Clone, Debug)]
pub struct ParsedLine {
    pub input: Option<Input>,
    pub verification: Option<Verification>,
}

/// What a `ParsedLine` holds, as plain values.
pub struct ParsedLineView {
    pub input: Option<InputView>,
    pub verification: Option<VerificationView>,
}

impl View for ParsedLine {
    type V = ParsedLineView;

    open spec fn view(&self) -> ParsedLineView {
        ParsedLineView {
            input: match self.input {
                Some(input) => Some(input@),
                None => None,
            },
            verification: match self.verification {
                Some(snapshot) => Some(snapshot@),
                None => None,
            },
        }
    }
}

/// The views of a list of lines.
pub open spec fn line_views(lines: Seq<ParsedLine>) -> Seq<ParsedLineView> {
    Seq::new(lines.len(), |i: int| lines[i]@)
}

/// The inputs and the snapshots of a record, each in the order of the
/// record.
pub struct Records {
    pub inputs: Seq<InputView>,
    pub verifications: Seq<VerificationView>,
}

/// The first three lines of a record: the seed in decimal, the version and
/// the commit, each ended by a line feed.
pub open spec fn header_text(seed: u32) -> Seq<u8> {
    decimal(seed as nat) + seq![10u8] + metadata::VERSION.spec_bytes() + seq![10u8]
        + metadata::GIT_HASH.spec_bytes() + seq![10u8]
}

/// The three lines of the header of a record of this version with the
/// given seed.
pub open spec fn header_lines(seed: u32) -> Seq<Seq<u8>> {
    seq![decimal(seed as nat), metadata::VERSION.spec_bytes(), metadata::GIT_HASH.spec_bytes()]
}

/// What the header of a record says, or why it says nothing. The lines are
/// looked at in order, and the first one that is missing or wrong decides.
pub open spec fn header_of(lines: Seq<Seq<u8>>) -> Result<ReplayHeader, ReplayError> {
    if lines.len() == 0 {
        Err(ReplayError::Empty)
    } else if parsed_u32(lines[0]).is_none() {
        Err(ReplayError::BadSeed)
    } else if lines.len() == 1 {
        Err(ReplayError::MissingVersion)
    } else if lines.len() == 2 {
        Err(ReplayError::MissingCommit)
    } else {
        Ok(
            ReplayHeader {
                seed: parsed_u32(lines[0]).unwrap(),
                version_differs: lines[1] != metadata::VERSION.spec_bytes(),
                commit_differs: lines[2] != metadata::GIT_HASH.spec_bytes(),
            },
        )
    }
}

/// The inputs and snapshots of the first `n` lines of a record, or what is
/// wrong with the first line that something is wrong with. A line that
/// reads as an input is an input, whatever else it reads as. The input
/// that is the `k`-th of the record has to bear the tick number `k`,
/// counting from one.
pub open spec fn collected(lines: Seq<ParsedLineView>, n: nat) -> Result<Records, ReplayError>
    decreases n,
{
    if n == 0 {
        Ok(Records { inputs: Seq::empty(), verifications: Seq::empty() })
    } else {
        match collected(lines, (n - 1) as nat) {
            Err(error) => Err(error),
            Ok(records) => match lines[n - 1].input {
                Some(input) => if input.tick_id == records.inputs.len() + 1 {
                    Ok(Records { inputs: records.inputs.push(input), ..records })
                } else {
                    Err(
                        ReplayError::TickOutOfOrder {
                            record: (n - 1) as usize,
                            found: input.tick_id,
                        },
                    )
                },
                None => match lines[n - 1].verification {
                    Some(snapshot) => Ok(
                        Records { verifications: records.verifications.push(snapshot), ..records },
                    ),
                    None => Err(ReplayError::BadRecord { record: (n - 1) as usize }),
                },
            },
        }
    }
}

/// The header that is written is the header that is read: the three lines
/// that a record begins with, each ended by a line feed, read back as the
/// seed they were written for, with no difference in version or commit.
pub proof fn lemma_header_round_trip(seed: u32)
    ensures
        header_text(seed) == header_lines(seed)[0] + seq![10u8] + header_lines(seed)[1] + seq![10u8]
            + header_lines(seed)[2] + seq![10u8],
        header_of(header_lines(seed)) == Ok::<ReplayHeader, ReplayError>(
            ReplayHeader { seed, version_differs: false, commit_differs: false },
        ),
{
    lemma_decimal_round_trip(seed);
}

/// In a record that can be played, the tick numbers of the inputs count up
/// from one without a gap, and every line is an input or a snapshot.
pub proof fn lemma_collected(lines: Seq<ParsedLineView>, n: nat)
    requires
        n <= lines.len(),
        collected(lines, n).is_ok(),
    ensures
        ({
            let records = collected(lines, n).unwrap();
            &&& forall|k: int|
                0 <= k < records.inputs.len() ==> (#[trigger] records.inputs[k]).tick_id == k + 1
            &&& records.inputs.len() + records.verifications.len() == n
            &&& forall|i: int|
                0 <= i < n ==> (#[trigger] lines[i]).input.is_some() || lines[i].verification.is_some()
        }),
    decreases n,
{
    if n > 0 {
        lemma_collected(lines, (n - 1) as nat);
    }
}

/// A record with a gap or a repeat in the tick numbers of its inputs cannot
/// be played: the first input that is out of turn is reported.
pub proof fn lemma_gap_is_rejected(lines: Seq<ParsedLineView>, n: nat, k: int)
    requires
        0 <= k < n <= lines.len(),
        collected(lines, k as nat) matches Ok(records) && lines[k].input matches Some(input)
            && input.tick_id != records.inputs.len() + 1,
    ensures
        collected(lines, n) == Err::<Records, ReplayError>(
            ReplayError::TickOutOfOrder {
                record: k as usize,
                found: lines[k].input.unwrap().tick_id,
            },
        ),
    decreases n,
{
    if n > k + 1 {
        lemma_gap_is_rejected(lines, (n - 1) as nat, k);
    }
}

/// Once something is wrong with a record, reading on does not mend it.
pub proof fn lemma_error_stays(lines: Seq<ParsedLineView>, m: nat, n: nat)
    requires
        m <= n,
        collected(lines, m).is_err(),
    ensures
        collected(lines, n) == collected(lines, m),
    decreases n,
{
    if m < n {
        lemma_error_stays(lines, m, (n - 1) as nat);
    }
}

/// Whether two texts are the same.
pub fn same_text(a: &[u8], b: &[u8]) -> (same: bool)
    ensures
        same == (a@ == b@),
{
    if a.len() != b.len() {
        return false;
    }
    let mut i: usize = 0;
    while i < a.len()
        invariant
            0 <= i <= a@.len(),
            a@.len() == b@.len(),
            forall|k: int| 0 <= k < i ==> a@[k] == b@[k],
        decreases a@.len() - i,
    {
        if a[i] != b[i] {
            return false;
        }
        i = i + 1;
    }
    assert(a@ =~= b@);
    true
}

/// Adds a text to the end of another.
pub fn push_text(out: &mut Vec<u8>, text: &[u8])
    ensures
        final(out)@ == old(out)@ + text@,
{
    let mut i: usize = 0;
    while i < text.len()
        invariant
            0 <= i <= text@.len(),
            out@ == old(out)@ + text@.take(i as int),
        decreases text@.len() - i,
    {
        out.push(text[i]);
        proof {
            assert(text@.take(i as int + 1) =~= text@.take(i as int).push(text@[i as int]));
        }
        i = i + 1;
    }
    assert(text@.take(text@.len() as int) =~= text@);
}

/// The three lines that a record begins with: the seed, the version and the
/// commit.
pub fn log_header(seed: u32) -> (text: Vec<u8>)
    ensures
        text@ == header_text(seed),
{
    let mut text: Vec<u8> = Vec::new();
    push_decimal(&mut text, seed as u64);
    text.push(10);
    push_text(&mut text, metadata::VERSION.as_bytes());
    text.push(10);
    push_text(&mut text, metadata::GIT_HASH.as_bytes());
    text.push(10);
    assert(text@ =~= header_text(seed));
    text
}

/// Reads the header of a record off its first lines.
pub fn read_header(lines: &[Vec<u8>]) -> (header: Result<ReplayHeader, ReplayError>)
    ensures
        header == header_of(texts_of(lines@)),
{
    if lines.len() == 0 {
        return Err(ReplayError::Empty);
    }
    let seed = match parse_u32(lines[0].as_slice()) {
        Some(seed) => seed,
        None => {
            return Err(ReplayError::BadSeed);
        },
    };
    if lines.len() == 1 {
        return Err(ReplayError::MissingVersion);
    }
    if lines.len() == 2 {
        return Err(ReplayError::MissingCommit);
    }
    let version_differs = !same_text(lines[1].as_slice(), metadata::VERSION.as_bytes());
    let commit_differs = !same_text(lines[2].as_slice(), metadata::GIT_HASH.as_bytes());
    Ok(ReplayHeader { seed, version_differs, commit_differs })
}

/// The lines in the opposite order.
fn reversed(lines: Vec<ParsedLine>) -> (result: Vec<ParsedLine>)
    ensures
        result@ == lines@.reverse(),
{
    let mut rest = lines;
    let mut result: Vec<ParsedLine> = Vec::new();
    while rest.len() > 0
        invariant
            rest@.len() <= lines@.len(),
            rest@ == lines@.take(rest@.len() as int),
            result@ == lines@.skip(rest@.len() as int).reverse(),
        decreases rest@.len(),
    {
        let ghost before = rest@;
        let ghost so_far = result@;
        match rest.pop() {
            Some(line) => {
                result.push(line);
                proof {
                    let n = before.len() as int;
                    assert(rest@ =~= lines@.take(n - 1));
                    assert(line == lines@[n - 1]);
                    assert(result@ =~= lines@.skip(n - 1).reverse());
                }
            },
            None => {},
        }
    }
    proof {
        assert(lines@.skip(0) =~= lines@);
    }
    result
}

/// The number of lines of the header of a record.
pub const HEADER_LINES: usize = 3;

/// Parts the lines of a record into the header and what stands behind it:
/// the first three lines, or all there are if there are fewer, and the
/// rest.
pub fn split_record(lines: Vec<Vec<u8>>) -> (parts: (Vec<Vec<u8>>, Vec<Vec<u8>>))
    ensures
        lines@.len() <= HEADER_LINES ==> parts.0@ == lines@ && parts.1@.len() == 0,
        lines@.len() > HEADER_LINES ==> parts.0@ == lines@.take(HEADER_LINES as int) && parts.1@
            == lines@.skip(HEADER_LINES as int),
{
    let mut header = lines;
    if header.len() <= HEADER_LINES {
        (header, Vec::new())
    } else {
        let behind = header.split_off(HEADER_LINES);
        proof {
            assert(header@ =~= lines@.take(HEADER_LINES as int));
            assert(behind@ =~= lines@.skip(HEADER_LINES as int));
        }
        (header, behind)
    }
}

/// Sorts the lines of a record into inputs and snapshots, and checks the
/// tick numbers of the inputs.
pub fn collect_records(lines: Vec<ParsedLine>) -> (result: Result<
    (VecDeque<Input>, VecDeque<Verification>),
    ReplayError,
>)
    ensures
        match result {
            Ok((inputs, verifications)) => collected(line_views(lines@), lines@.len()) == Ok::<
                Records,
                ReplayError,
            >(
                Records {
                    inputs: input_views(inputs@),
                    verifications: verification_views(verifications@),
                },
            ),
            Err(error) => collected(line_views(lines@), lines@.len()) == Err::<Records, ReplayError>(
                error,
            ),
        },
{
    let ghost all = line_views(lines@);
    let count = lines.len();
    let mut rest = reversed(lines);
    let mut inputs: VecDeque<Input> = VecDeque::new();
    let mut verifications: VecDeque<Verification> = VecDeque::new();
    let mut n: usize = 0;
    proof {
        assert(input_views(inputs@) =~= Seq::<InputView>::empty());
        assert(verification_views(verifications@) =~= Seq::<VerificationView>::empty());
    }
    while rest.len() > 0
        invariant
            n + rest@.len() == count,
            count == all.len(),
            all == line_views(lines@),
            count == lines@.len(),
            rest@ == lines@.reverse().take(rest@.len() as int),
            collected(all, n as nat) == Ok::<Records, ReplayError>(
                Records {
                    inputs: input_views(inputs@),
                    verifications: verification_views(verifications@),
                },
            ),
        decreases rest@.len(),
    {
        let ghost before = rest@;
        match rest.pop() {
            Some(line) => {
                proof {
                    assert(line == lines@.reverse()[before.len() - 1]);
                    assert(line == lines@[n as int]);
                    assert(line@ == all[n as int]);
                    assert(rest@ =~= lines@.reverse().take(rest@.len() as int));
                }
                match line.input {
                    Some(input) => {
                        if inputs.len() < i32::MAX as usize && input.tick_id == inputs.len() as i32
                            + 1 {
                            let ghost old_inputs = inputs@;
                            inputs.push_back(input);
                            proof {
                                assert(input_views(inputs@) =~= input_views(old_inputs).push(input@));
                            }
                        } else {
                            proof {
                                assert(collected(all, (n + 1) as nat).is_err());
                                lemma_error_stays(all, (n + 1) as nat, count as nat);
                            }
                            return Err(
                                ReplayError::TickOutOfOrder { record: n, found: input.tick_id },
                            );
                        }
                    },
                    None => match line.verification {
                        Some(snapshot) => {
                            let ghost old_snapshots = verifications@;
                            verifications.push_back(snapshot);
                            proof {
                                assert(verification_views(verifications@) =~= verification_views(
                                    old_snapshots,
                                ).push(snapshot@));
                            }
                        },
                        None => {
                            proof {
                                assert(collected(all, (n + 1) as nat).is_err());
                                lemma_error_stays(all, (n + 1) as nat, count as nat);
                            }
                            return Err(ReplayError::BadRecord { record: n });
                        },
                    },
                }
                n = n + 1;
            },
            None => {},
        }
    }
    Ok((inputs, verifications))
}

impl State {
    /// The state of a new session, to be played live, with a seed that
    /// nobody can foretell. The seed is in the state; it is the first thing
    /// to put on record.
    pub fn new_game(
        world_size: Point,
        map_size: Point,
        panel_width: i32,
        exit_after: bool,
        challenge: Challenge,
    ) -> (state: State)
        requires
            world_size.x == world_size.y,
            0 < world_size.x <= MAX_DIMENSION,
        ensures
            state.wf(),
            state@ == StateView::fresh(
                world_size,
                map_size,
                panel_width,
                Seq::empty(),
                Seq::empty(),
                state.seed,
                false,
                false,
                false,
                false,
                exit_after,
                challenge,
            ),
    {
        let inputs: VecDeque<Input> = VecDeque::new();
        let verifications: VecDeque<Verification> = VecDeque::new();
        proof {
            assert(input_views(inputs@) =~= Seq::<InputView>::empty());
            assert(verification_views(verifications@) =~= Seq::<VerificationView>::empty());
        }
        let seed = Random::random_seed();
        State::new(
            world_size,
            map_size,
            panel_width,
            inputs,
            verifications,
            seed,
            false,
            false,
            false,
            false,
            exit_after,
            challenge,
        )
    }

    /// The state of a session that plays a record: a fresh state made from
    /// the record's seed, under way, with the inputs and the snapshots of
    /// the record waiting to be fed and met. `header` holds the first lines
    /// of the record, up to three, and `records` what the lines behind them
    /// read as. A record that is cut short, does not begin with a seed,
    /// holds a line that is neither input nor snapshot, or whose inputs are
    /// not numbered from one without a gap, is turned down, and no state is
    /// made.
    pub fn replay_game(
        world_size: Point,
        map_size: Point,
        panel_width: i32,
        header: &[Vec<u8>],
        records: Vec<ParsedLine>,
        cheating: bool,
        invincible: bool,
        replay_full_speed: bool,
        exit_after: bool,
        challenge: Challenge,
    ) -> (result: Result<State, ReplayError>)
        requires
            world_size.x == world_size.y,
            0 < world_size.x <= MAX_DIMENSION,
        ensures
            match result {
                Ok(state) => {
                    &&& state.wf()
                    &&& header_of(texts_of(header@)) matches Ok(head)
                    &&& collected(line_views(records@), records@.len()) matches Ok(found)
                    &&& state@ == (StateView {
                        game_session: GameSession::InProgress,
                        ..StateView::fresh(
                            world_size,
                            map_size,
                            panel_width,
                            found.inputs,
                            found.verifications,
                            head.seed,
                            cheating,
                            invincible,
                            true,
                            replay_full_speed,
                            exit_after,
                            challenge,
                        )
                    })
                },
                Err(error) => match header_of(texts_of(header@)) {
                    Err(wrong) => error == wrong,
                    Ok(_) => collected(line_views(records@), records@.len()) == Err::<
                        Records,
                        ReplayError,
                    >(error),
                },
            },
    {
        let head = match read_header(header) {
            Ok(head) => head,
            Err(error) => {
                return Err(error);
            },
        };
        let (inputs, verifications) = match collect_records(records) {
            Ok(found) => found,
            Err(error) => {
                return Err(error);
            },
        };
        let mut state = State::new(
            world_size,
            map_size,
            panel_width,
            inputs,
            verifications,
            head.seed,
            cheating,
            invincible,
            true,
            replay_full_speed,
            exit_after,
            challenge,
        );
        state.game_session = GameSession::InProgress;
        state.generate_world();
        Ok(state)
    }
}

impl Command {
    /// The command that a key gives, if it gives one. The arrows, the
    /// number pad and the letters around `j` and `k` move the character;
    /// with the arrows, `Shift` turns left and right into up-left and
    /// up-right, and `Ctrl` into down-left and down-right. The digits from
    /// one to five use the five kinds of item.
    pub open spec fn spec_from_key(key: Key) -> Option<Command> {
        match key.code {
            KeyCode::Up | KeyCode::NumPad8 | KeyCode::K => Some(Command::N),
            KeyCode::Down | KeyCode::NumPad2 | KeyCode::J => Some(Command::S),
            KeyCode::Left => if key.shift {
                Some(Command::NW)
            } else if key.ctrl {
                Some(Command::SW)
            } else {
                Some(Command::W)
            },
            KeyCode::Right => if key.shift {
                Some(Command::NE)
            } else if key.ctrl {
                Some(Command::SE)
            } else {
                Some(Command::E)
            },
            KeyCode::NumPad4 | KeyCode::H => Some(Command::W),
            KeyCode::NumPad6 | KeyCode::L => Some(Command::E),
            KeyCode::NumPad7 | KeyCode::Y => Some(Command::NW),
            KeyCode::NumPad9 | KeyCode::U => Some(Command::NE),
            KeyCode::NumPad1 | KeyCode::B => Some(Command::SW),
            KeyCode::NumPad3 | KeyCode::N => Some(Command::SE),
            KeyCode::D1 => Some(Command::UseFood),
            KeyCode::D2 => Some(Command::UseDose),
            KeyCode::D3 => Some(Command::UseCardinalDose),
            KeyCode::D4 => Some(Command::UseDiagonalDose),
            KeyCode::D5 => Some(Command::UseStrongDose),
            _ => None,
        }
    }

    /// The step that a command to move asks for; nothing for any other
    /// command. North is up, where the rows have the smaller numbers.
    pub open spec fn spec_offset(self) -> Option<Point> {
        match self {
            Command::N => Some(Point { x: 0, y: -1i32 }),
            Command::S => Some(Point { x: 0, y: 1 }),
            Command::W => Some(Point { x: -1i32, y: 0 }),
            Command::E => Some(Point { x: 1, y: 0 }),
            Command::NW => Some(Point { x: -1i32, y: -1i32 }),
            Command::NE => Some(Point { x: 1, y: -1i32 }),
            Command::SW => Some(Point { x: -1i32, y: 1 }),
            Command::SE => Some(Point { x: 1, y: 1 }),
            _ => None,
        }
    }

    /// The command that a key gives, if it gives one.
    pub fn from_key(key: Key) -> (command: Option<Command>)
        ensures
            command == Command::spec_from_key(key),
    {
        match key.code {
            KeyCode::Up | KeyCode::NumPad8 | KeyCode::K => Some(Command::N),
            KeyCode::Down | KeyCode::NumPad2 | KeyCode::J => Some(Command::S),
            KeyCode::Left => if key.shift {
                Some(Command::NW)
            } else if key.ctrl {
                Some(Command::SW)
            } else {
                Some(Command::W)
            },
            KeyCode::Right => if key.shift {
                Some(Command::NE)
            } else if key.ctrl {
                Some(Command::SE)
            } else {
                Some(Command::E)
            },
            KeyCode::NumPad4 | KeyCode::H => Some(Command::W),
            KeyCode::NumPad6 | KeyCode::L => Some(Command::E),
            KeyCode::NumPad7 | KeyCode::Y => Some(Command::NW),
            KeyCode::NumPad9 | KeyCode::U => Some(Command::NE),
            KeyCode::NumPad1 | KeyCode::B => Some(Command::SW),
            KeyCode::NumPad3 | KeyCode::N => Some(Command::SE),
            KeyCode::D1 => Some(Command::UseFood),
            KeyCode::D2 => Some(Command::UseDose),
            KeyCode::D3 => Some(Command::UseCardinalDose),
            KeyCode::D4 => Some(Command::UseDiagonalDose),
            KeyCode::D5 => Some(Command::UseStrongDose),
            _ => None,
        }
    }

    /// The step that a command to move asks for.
    pub fn offset(&self) -> (step: Option<Point>)
        ensures
            step == self.spec_offset(),
    {
        match self {
            Command::N => Some(Point { x: 0, y: -1 }),
            Command::S => Some(Point { x: 0, y: 1 }),
            Command::W => Some(Point { x: -1, y: 0 }),
            Command::E => Some(Point { x: 1, y: 0 }),
            Command::NW => Some(Point { x: -1, y: -1 }),
            Command::NE => Some(Point { x: 1, y: -1 }),
            Command::SW => Some(Point { x: -1, y: 1 }),
            Command::SE => Some(Point { x: 1, y: 1 }),
            _ => None,
        }
    }
}

/// The commands that a list of keys gives, in the order of the keys.
pub open spec fn commands_of(keys: Seq<Key>) -> Seq<Command>
    decreases keys.len(),
{
    if keys.len() == 0 {
        Seq::empty()
    } else {
        match Command::spec_from_key(keys.last()) {
            Some(command) => commands_of(keys.drop_last()).push(command),
            None => commands_of(keys.drop_last()),
        }
    }
}

/// What one tick hands back to whoever runs the session.
#[derive(Debug)]
pub struct Tick {
    /// The input that was fed to the simulation. In a live session this is
    /// what goes into the record. A tick without input is a tick in which
    /// nothing happened: the record being played has run out, or the
    /// session has run for as many ticks as can be numbered.
    pub input: Option<Input>,
    /// The snapshot that was taken, if the tick ended a turn. In a live
    /// session this is what goes into the record.
    pub verification: Option<Verification>,
    /// When a record is being played and the snapshot that was taken is not
    /// the one recorded at this point: the recorded one.
    pub desync: Option<Verification>,
}

/// What a `Tick` holds, as plain values.
pub struct TickView {
    pub input: Option<InputView>,
    pub verification: Option<VerificationView>,
    pub desync: Option<VerificationView>,
}

impl View for Tick {
    type V = TickView;

    open spec fn view(&self) -> TickView {
        TickView {
            input: match self.input {
                Some(input) => Some(input@),
                None => None,
            },
            verification: match self.verification {
                Some(snapshot) => Some(snapshot@),
                None => None,
            },
            desync: match self.desync {
                Some(snapshot) => Some(snapshot@),
                None => None,
            },
        }
    }
}

impl TickView {
    /// The tick in which nothing happened.
    pub open spec fn idle() -> TickView {
        TickView { input: None, verification: None, desync: None }
    }
}

impl StateView {
    /// The input of the next tick. When a record is played it is the next
    /// input of the record, and the keys and the pointer of the moment
    /// count for nothing. Otherwise it is the keys and the pointer of the
    /// moment, with the number after that of the last tick. There is none
    /// when the record has run out, or the ticks cannot be numbered any
    /// further.
    pub open spec fn next_input(self, keys: Seq<Key>, mouse: Mouse) -> Option<InputView> {
        if self.replay {
            if self.inputs.len() > 0 {
                Some(self.inputs[0])
            } else {
                None
            }
        } else if self.tick_id < i32::MAX {
            Some(InputView { keys, mouse, tick_id: (self.tick_id + 1) as i32 })
        } else {
            None
        }
    }

    /// The state after the input of the next tick has been taken: when a
    /// record is played, the input is off the list of those still to be
    /// fed.
    #[verifier::opaque]
    pub open spec fn after_take(self) -> StateView {
        if self.replay && self.inputs.len() > 0 {
            StateView { inputs: self.inputs.skip(1), ..self }
        } else {
            self
        }
    }

    /// The state after an input has been taken in: the tick is counted,
    /// the pointer is where the input has it, and the commands of its keys
    /// wait behind those that waited before.
    #[verifier::opaque]
    pub open spec fn taken_in(self, input: InputView) -> StateView {
        StateView {
            tick_id: input.tick_id,
            mouse: input.mouse,
            commands: self.commands + commands_of(input.keys),
            ..self
        }
    }

    /// Whether the player's character can step on the position: it is
    /// inside the world and open ground.
    #[verifier::opaque]
    pub open spec fn can_enter(self, dest: Point) -> bool {
        &&& self.world.in_bounds(dest)
        &&& self.world.ensured(dest).tile(dest) matches Some(tile)
        &&& tile.kind == TileKind::Empty
    }

    /// The state after the player's character has tried to take a step. The
    /// chunk it would step into is made if need be. If it can enter the
    /// place, it stands there, the screen follows it, and a turn has
    /// passed, unless the turns cannot be counted any further.
    #[verifier::opaque]
    pub open spec fn stepped(self, offset: Point) -> StateView {
        let dest = self.player.pos.spec_plus(offset);
        let world = self.world.ensured(dest);
        if self.can_enter(dest) && self.turn < i32::MAX {
            StateView {
                world,
                player: PlayerView { pos: dest, ..self.player },
                screen_position_in_world: dest,
                turn: (self.turn + 1) as i32,
                ..self
            }
        } else {
            StateView { world, ..self }
        }
    }

    /// The state after the first of the waiting commands, if there is one,
    /// has been carried out. Only the commands to move do anything.
    #[verifier::opaque]
    pub open spec fn acted(self) -> StateView {
        if self.commands.len() == 0 {
            self
        } else {
            let rest = StateView { commands: self.commands.skip(1), ..self };
            match self.commands[0].spec_offset() {
                Some(offset) => rest.stepped(offset),
                None => rest,
            }
        }
    }

    /// The state after a snapshot has been taken: when a record is played,
    /// the next recorded snapshot is off the list of those still to be met.
    #[verifier::opaque]
    pub open spec fn after_meet(self) -> StateView {
        if self.replay && self.verifications.len() > 0 {
            StateView { verifications: self.verifications.skip(1), ..self }
        } else {
            self
        }
    }

    /// When a record is played and the snapshot of this state is not the
    /// next recorded one: the recorded one.
    #[verifier::opaque]
    pub open spec fn desync(self) -> Option<VerificationView> {
        if self.replay && self.verifications.len() > 0 && self.verifications[0]
            != self.verification() {
            Some(self.verifications[0])
        } else {
            None
        }
    }

    /// The state after one tick: the input of the tick has been taken in
    /// and the first of the waiting commands carried out; if that made a
    /// turn pass, a snapshot has been taken.
    pub open spec fn ticked(self, keys: Seq<Key>, mouse: Mouse) -> StateView {
        match self.next_input(keys, mouse) {
            Some(input) => {
                let after = self.after_take().taken_in(input).acted();
                if after.turn != self.turn {
                    after.after_meet()
                } else {
                    after
                }
            },
            None => self,
        }
    }

    /// What one tick hands back. A snapshot is taken whenever a turn has
    /// passed. When a record is played, it is held against the next
    /// recorded one, and the recorded one is handed back if they differ.
    pub open spec fn tick_report(self, keys: Seq<Key>, mouse: Mouse) -> TickView {
        match self.next_input(keys, mouse) {
            Some(input) => {
                let after = self.after_take().taken_in(input).acted();
                if after.turn != self.turn {
                    TickView {
                        input: Some(input),
                        verification: Some(after.verification()),
                        desync: after.desync(),
                    }
                } else {
                    TickView { input: Some(input), verification: None, desync: None }
                }
            },
            None => TickView::idle(),
        }
    }
}

impl State {
    /// Queues the commands that the keys give.
    fn queue_commands(&mut self, keys: &Vec<Key>)
        ensures
            final(self)@ == (StateView {
                commands: old(self)@.commands + commands_of(keys@),
                ..old(self)@
            }),
            final(self).world == old(self).world,
    {
        let mut i: usize = 0;
        while i < keys.len()
            invariant
                0 <= i <= keys@.len(),
                self@ == (StateView {
                    commands: old(self)@.commands + commands_of(keys@.take(i as int)),
                    ..old(self)@
                }),
                self.world == old(self).world,
            decreases keys@.len() - i,
        {
            proof {
                assert(keys@.take(i as int + 1).drop_last() =~= keys@.take(i as int));
            }
            let ghost before = self.commands@;
            match Command::from_key(keys[i]) {
                Some(command) => {
                    self.commands.push_back(command);
                    proof {
                        assert(self.commands@ =~= old(self)@.commands + commands_of(
                            keys@.take(i as int + 1),
                        ));
                    }
                },
                None => {},
            }
            i = i + 1;
        }
        proof {
            assert(keys@.take(keys@.len() as int) =~= keys@);
        }
    }

    /// Looks at a position, which makes the chunk around it if need be, and
    /// tells whether the player's character can step on it.
    fn look(&mut self, dest: Point) -> (open: bool)
        requires
            old(self).wf(),
        ensures
            final(self).wf(),
            final(self)@ == (StateView { world: old(self)@.world.ensured(dest), ..old(self)@ }),
            open == old(self)@.can_enter(dest),
    {
        proof {
            reveal(StateView::can_enter);
        }
        match self.world.tile_at(dest) {
            Some(tile) => tile.walkable(),
            None => false,
        }
    }

    /// Lets the player's character try to take a step.
    fn step(&mut self, offset: Point)
        requires
            old(self).wf(),
        ensures
            final(self).wf(),
            final(self)@ == old(self)@.stepped(offset),
    {
        proof {
            reveal(StateView::stepped);
        }
        let dest = self.player.pos.plus(offset);
        if self.look(dest) && self.turn < i32::MAX {
            self.player.pos = dest;
            self.screen_position_in_world = dest;
            self.turn = self.turn + 1;
        }
    }

    /// Carries out the first of the waiting commands, if there is one.
    fn act(&mut self)
        requires
            old(self).wf(),
        ensures
            final(self).wf(),
            final(self)@ == old(self)@.acted(),
    {
        proof {
            reveal(StateView::acted);
        }
        match self.commands.pop_front() {
            Some(command) => {
                proof {
                    assert(self.commands@ =~= old(self)@.commands.skip(1));
                }
                match command.offset() {
                    Some(offset) => {
                        self.step(offset);
                    },
                    None => {},
                }
            },
            None => {},
        }
    }

    /// Takes the input of the next tick: off the record when one is played,
    /// from the keys and the pointer of the moment otherwise.
    fn take_input(&mut self, keys: Vec<Key>, mouse: Mouse) -> (input: Option<Input>)
        requires
            old(self).wf(),
        ensures
            final(self).wf(),
            match input {
                Some(input) => old(self)@.next_input(keys@, mouse) == Some(input@),
                None => old(self)@.next_input(keys@, mouse).is_none(),
            },
            final(self)@ == old(self)@.after_take(),
            final(self).turn == old(self).turn,
    {
        proof {
            reveal(StateView::after_take);
        }
        if self.replay {
            let input = self.inputs.pop_front();
            proof {
                if input.is_some() {
                    assert(input_views(self.inputs@) =~= old(self)@.inputs.skip(1));
                }
            }
            input
        } else if self.tick_id < i32::MAX {
            Some(Input { keys, mouse, tick_id: self.tick_id + 1 })
        } else {
            None
        }
    }

    /// Counts the tick, puts the pointer where the input has it, and queues
    /// the commands of the input's keys.
    fn take_in(&mut self, input: &Input)
        requires
            old(self).wf(),
        ensures
            final(self).wf(),
            final(self)@ == old(self)@.taken_in(input@),
    {
        proof {
            reveal(StateView::taken_in);
        }
        self.tick_id = input.tick_id;
        self.mouse = input.mouse;
        self.queue_commands(&input.keys);
    }

    /// Takes a snapshot and, when a record is played, holds it against the
    /// next recorded one.
    fn meet(&mut self) -> (result: (Verification, Option<Verification>))
        requires
            old(self).wf(),
        ensures
            final(self).wf(),
            result.0@ == old(self)@.verification(),
            final(self)@ == old(self)@.after_meet(),
            match result.1 {
                Some(recorded) => old(self)@.desync() == Some(recorded@),
                None => old(self)@.desync().is_none(),
            },
    {
        proof {
            reveal(StateView::after_meet);
            reveal(StateView::desync);
        }
        let snapshot = self.verification();
        if !self.replay {
            return (snapshot, None);
        }
        match self.verifications.pop_front() {
            Some(recorded) => {
                proof {
                    assert(verification_views(self.verifications@) =~= old(self)@.verifications.skip(
                        1,
                    ));
                }
                if recorded.same_as(&snapshot) {
                    (snapshot, None)
                } else {
                    (snapshot, Some(recorded))
                }
            },
            None => (snapshot, None),
        }
    }

    /// Runs one tick of the session. `keys` and `mouse` are what the player
    /// did since the last tick; they count for nothing when a record is
    /// being played.
    pub fn tick(&mut self, keys: Vec<Key>, mouse: Mouse) -> (report: Tick)
        requires
            old(self).wf(),
        ensures
            final(self).wf(),
            final(self)@ == old(self)@.ticked(keys@, mouse),
            report@ == old(self)@.tick_report(keys@, mouse),
    {
        let turn = self.turn;
        let input = match self.take_input(keys, mouse) {
            Some(input) => input,
            None => {
                proof {
                    reveal(StateView::after_take);
                }
                return Tick { input: None, verification: None, desync: None };
            },
        };
        self.take_in(&input);
        self.act();
        if self.turn == turn {
            return Tick { input: Some(input), verification: None, desync: None };
        }
        let (snapshot, desync) = self.meet();
        Tick { input: Some(input), verification: Some(snapshot), desync }
    }
}

} // verus!
