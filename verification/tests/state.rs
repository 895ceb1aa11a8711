use std::collections::VecDeque;

use dose_response::engine::Mouse;
use dose_response::graphic::Graphic;
use dose_response::keys::{Key, KeyCode};
use dose_response::monster::Kind;
use dose_response::player::CauseOfDeath;
use dose_response::point::Point;
use dose_response::random::Random;
use dose_response::state::{
    entry_before, sort_entries, Challenge, Command, Entry, GameSession, Side, State, Verification,
};
use dose_response::windows::endgame::endgame_tip;
use dose_response::windows::help::Page;

const SEED: u32 = 518_723_646;

fn world_size() -> Point {
    Point::new(1_073_741_824, 1_073_741_824)
}

fn fresh(seed: u32) -> State {
    State::new(
        world_size(),
        Point::new(30, 30),
        17,
        VecDeque::new(),
        VecDeque::new(),
        seed,
        false,
        false,
        false,
        false,
        false,
        Challenge::default(),
    )
}

fn press(state: &mut State, code: KeyCode) -> dose_response::state::Tick {
    state.tick(vec![Key::plain(code)], Mouse::new())
}

fn entry(x: i32, y: i32, kind: Kind) -> Entry {
    (Point::new(x, y), Point::zero(), kind)
}

#[test]
fn a_session_begins_as_its_seed_says() {
    let state = fresh(SEED);
    assert_eq!(state.seed, SEED);
    assert_eq!(state.player.pos, Point::zero());
    assert_eq!(state.player.graphic, Graphic::CharacterSkirt);
    assert_eq!(state.player.color_index, 3);
    assert!(!state.player.invincible);
    assert!(state.player.alive());
    assert_eq!(state.audio_rng, Random::from_seed(SEED));
    let mut twice = Random::from_seed(SEED);
    twice.next_u32();
    twice.next_u32();
    assert_eq!(state.rng, twice);
    assert_eq!(state.world.positions_of_all_chunks(), vec![Point::zero()]);
    assert_eq!(state.world.seed(), SEED);
    assert_eq!(state.world.chunk_size(), 32);
    assert_eq!(state.world_size, world_size());
    assert_eq!(state.map_size, Point::new(30, 30));
    assert_eq!(state.panel_width, 17);
    assert_eq!(state.screen_position_in_world, Point::zero());
    assert_eq!(state.mouse, Mouse::new());
    assert!(state.inputs.is_empty() && state.commands.is_empty() && state.verifications.is_empty());
    assert_eq!(state.side, Side::Player);
    assert_eq!((state.turn, state.tick_id), (0, 0));
    assert!(!state.cheating && !state.replay && !state.replay_full_speed && !state.exit_after);
    assert!(!state.paused && !state.uncovered_map);
    assert_eq!(state.game_session, GameSession::NotStarted);
    assert_eq!(state.victory_npc_id, None);
    assert!(!state.player_picked_up_a_dose && !state.player_bumped_into_a_monster);
    assert_eq!(state.current_help_window, Page::DoseResponse);
    assert_eq!(state.help_starting_line, 0);
    assert_eq!(state.challenge, Challenge::default());
}

#[test]
fn the_flags_of_a_session_are_what_it_was_begun_with() {
    let state = State::new(
        Point::new(64, 64),
        Point::new(10, 12),
        5,
        VecDeque::new(),
        VecDeque::new(),
        9,
        true,
        true,
        true,
        true,
        true,
        Challenge { hide_unseen_tiles: false, fast_depression: true, one_chance: false },
    );
    assert!(state.cheating && state.replay && state.replay_full_speed && state.exit_after);
    assert!(state.player.invincible);
    assert_eq!(state.challenge, Challenge { hide_unseen_tiles: false, fast_depression: true, one_chance: false });
    assert_eq!(state.world_size, Point::new(64, 64));
    assert!(state.world.within_bounds(Point::new(31, -32)));
    assert!(!state.world.within_bounds(Point::new(32, 0)));
}

#[test]
fn a_live_session_gets_a_seed_of_its_own() {
    let state = State::new_game(world_size(), Point::new(30, 30), 17, true, Challenge::default());
    assert!(!state.replay && !state.cheating && !state.player.invincible && !state.replay_full_speed);
    assert!(state.exit_after);
    assert_eq!(state.audio_rng, Random::from_seed(state.seed));
    assert_eq!(state.world.seed(), state.seed);
    assert_eq!(state.world.chunk_count(), 1);
    assert_eq!((state.turn, state.tick_id), (0, 0));
    let twin = fresh(state.seed);
    assert_eq!(twin.verification(), state.verification());
    assert_eq!(twin.player.graphic, state.player.graphic);
    assert_eq!(twin.player.color_index, state.player.color_index);

    let seeds: Vec<u32> = (0..4)
        .map(|_| State::new_game(world_size(), Point::new(30, 30), 17, false, Challenge::default()).seed)
        .collect();
    assert!(seeds.iter().any(|&seed| seed != seeds[0]));
}

#[test]
fn the_challenges_are_all_on_unless_said_otherwise() {
    assert_eq!(
        Challenge::default(),
        Challenge { hide_unseen_tiles: true, fast_depression: true, one_chance: true }
    );
}

#[test]
fn a_session_has_started_once_it_is_under_way() {
    assert!(!GameSession::NotStarted.started());
    assert!(GameSession::InProgress.started());
    assert!(GameSession::Ended.started());
}

#[test]
fn the_first_snapshot_of_a_seed_is_fixed() {
    let state = fresh(SEED);
    let snapshot = state.verification();
    assert_eq!(snapshot.turn, 0);
    assert_eq!(snapshot.chunk_count, 1);
    assert_eq!(snapshot.player_pos, Point::zero());
    assert_eq!(
        snapshot.monsters,
        vec![
            entry(0, 5, Kind::Shadows),
            entry(3, 12, Kind::Npc),
            entry(4, 27, Kind::Anxiety),
            entry(6, 26, Kind::Depression),
            entry(7, 8, Kind::Hunger),
            entry(7, 24, Kind::Depression),
            entry(9, 3, Kind::Shadows),
            entry(15, 14, Kind::Anxiety),
            entry(20, 26, Kind::Depression),
            entry(24, 26, Kind::Depression),
            entry(30, 3, Kind::Depression),
            entry(30, 25, Kind::Hunger),
            entry(30, 29, Kind::Anxiety),
            entry(31, 7, Kind::Shadows),
            entry(31, 24, Kind::Shadows),
        ]
    );
}

#[test]
fn a_snapshot_lists_the_living_of_all_chunks_in_order() {
    let mut state = fresh(SEED);
    for place in [Point::new(-1, 0), Point::new(0, -1), Point::new(40, 40)] {
        state.world.ensure_chunk_at_pos(place);
    }
    let snapshot = state.verification();
    assert_eq!(snapshot.chunk_count, 4);

    let mut expected: Vec<Entry> = Vec::new();
    for coord in state.world.positions_of_all_chunks() {
        for monster in state.world.monsters_in_chunk(coord).unwrap() {
            assert!(!monster.dead);
            expected.push((monster.position, coord, monster.kind));
        }
    }
    expected.sort_by_key(|&(pos, _, kind)| (pos.x, pos.y, kind.rank()));
    assert_eq!(snapshot.monsters, expected);
    assert!(snapshot.monsters.len() > 40);
    for pair in snapshot.monsters.windows(2) {
        assert!(entry_before(&pair[0], &pair[1]));
    }
}

#[test]
fn a_snapshot_does_not_depend_on_the_order_in_which_the_world_was_explored() {
    let places = [Point::new(-1, 0), Point::new(0, -1), Point::new(40, 40), Point::new(-70, 90)];
    let mut forward = fresh(SEED);
    for &place in &places {
        forward.world.ensure_chunk_at_pos(place);
    }
    let mut backward = fresh(SEED);
    for &place in places.iter().rev() {
        backward.world.ensure_chunk_at_pos(place);
    }
    assert_ne!(forward.world.positions_of_all_chunks(), backward.world.positions_of_all_chunks());
    assert_eq!(forward.verification(), backward.verification());
}

#[test]
fn a_snapshot_follows_the_creatures() {
    let mut state = fresh(SEED);
    let id = state.world.monsters_in_chunk(Point::zero()).unwrap()[6].id;
    assert!(state.world.move_monster(id, Point::new(-100, 2)));
    let snapshot = state.verification();
    assert_eq!(snapshot.chunk_count, 2);
    assert!(snapshot.monsters.contains(&(Point::new(-100, 2), Point::new(-4, 0), Kind::Anxiety)));
    assert!(!snapshot.monsters.contains(&entry(15, 14, Kind::Anxiety)));
    assert!(snapshot.monsters.contains(&entry(30, 29, Kind::Anxiety)));
    let living: usize = state
        .world
        .positions_of_all_chunks()
        .iter()
        .map(|&coord| state.world.monsters_in_chunk(coord).unwrap().len())
        .sum();
    assert_eq!(snapshot.monsters.len(), living);
}

#[test]
fn entries_are_ordered_by_column_then_row_then_kind() {
    let a = entry(1, 9, Kind::Npc);
    let b = entry(2, 0, Kind::Anxiety);
    let c = entry(2, 1, Kind::Anxiety);
    let d = entry(2, 1, Kind::Depression);
    let e = (Point::new(2, 1), Point::new(7, 7), Kind::Depression);
    assert!(entry_before(&a, &b) && !entry_before(&b, &a));
    assert!(entry_before(&b, &c) && !entry_before(&c, &b));
    assert!(entry_before(&c, &d) && !entry_before(&d, &c));
    assert!(entry_before(&d, &e) && entry_before(&e, &d));
    assert!(entry_before(&a, &a));

    let shuffled = vec![e, c, a, d, b];
    assert_eq!(sort_entries(&shuffled), vec![a, b, c, e, d]);
    assert_eq!(sort_entries(&vec![d, e]), vec![d, e]);
    assert_eq!(sort_entries(&Vec::new()), Vec::<Entry>::new());
    assert_eq!(sort_entries(&vec![a]), vec![a]);
    assert_eq!(sort_entries(&vec![b, b, a, a]), vec![a, a, b, b]);
}

#[test]
fn sorting_entries_agrees_with_a_stable_sort() {
    let kinds = [Kind::Anxiety, Kind::Depression, Kind::Hunger, Kind::Shadows, Kind::Voices, Kind::Npc];
    let mut rng = Random::from_seed(3);
    for round in 0..50 {
        let entries: Vec<Entry> = (0..round)
            .map(|i| {
                (
                    Point::new(rng.range_inclusive(-2, 2), rng.range_inclusive(-2, 2)),
                    Point::new(i, 0),
                    kinds[rng.range_inclusive(0, 5) as usize],
                )
            })
            .collect();
        let mut expected = entries.clone();
        expected.sort_by_key(|&(pos, _, kind)| (pos.x, pos.y, kind.rank()));
        assert_eq!(sort_entries(&entries), expected);
    }
}

#[test]
fn snapshots_are_the_same_when_they_say_the_same() {
    let state = fresh(SEED);
    let a = state.verification();
    let b = state.verification();
    assert!(a.same_as(&b));
    assert_eq!(a, b);
    assert!(!a.same_as(&Verification { turn: 1, ..a.clone() }));
    assert!(!a.same_as(&Verification { chunk_count: 2, ..a.clone() }));
    assert!(!a.same_as(&Verification { player_pos: Point::new(0, 1), ..a.clone() }));
    let mut fewer = a.clone();
    fewer.monsters.pop();
    assert_ne!(a, fewer);
    let mut other_chunk = a.clone();
    other_chunk.monsters[3].1 = Point::new(1, 1);
    assert_ne!(a, other_chunk);
    let mut other_kind = a.clone();
    other_kind.monsters[14].2 = Kind::Voices;
    assert_ne!(a, other_kind);
    let mut other_place = a.clone();
    other_place.monsters[0].0 = Point::new(0, 6);
    assert_ne!(a, other_place);
}

#[test]
fn the_screen_is_centred_on_its_position_in_the_world() {
    let mut state = fresh(SEED);
    assert_eq!(state.screen_left_top_corner(), Point::new(-15, -15));
    assert_eq!(state.screen_pos_from_world_pos(Point::zero()), Point::new(15, 15));
    assert_eq!(state.screen_pos_from_world_pos(Point::new(-15, -15)), Point::zero());
    state.mouse.tile_pos = Point::new(3, 20);
    assert_eq!(state.mouse_world_position(), Point::new(-12, 5));

    state.screen_position_in_world = Point::new(100, -7);
    state.map_size = Point::new(31, 9);
    assert_eq!(state.screen_left_top_corner(), Point::new(85, -11));
    assert_eq!(state.screen_pos_from_world_pos(Point::new(100, -7)), Point::new(15, 4));
    assert_eq!(state.mouse_world_position(), Point::new(88, 9));

    state.map_size = Point::new(-31, -9);
    assert_eq!(state.screen_left_top_corner(), Point::new(115, -3));
}

#[test]
fn laying_the_world_out_anew_gives_the_world_of_the_beginning() {
    let mut state = fresh(SEED);
    let first = state.verification();
    state.world.ensure_chunk_at_pos(Point::new(100, 100));
    let id = state.world.monsters_in_chunk(Point::zero()).unwrap()[0].id;
    state.world.move_monster(id, Point::new(1, 1));
    assert_ne!(state.verification(), first);
    state.generate_world();
    assert_eq!(state.verification(), first);
    assert_eq!(state.world.chunk_count(), 1);
}

#[test]
fn keys_give_commands() {
    let command = |code| Command::from_key(Key::plain(code)).and_then(|c| c.offset());
    for code in [KeyCode::Up, KeyCode::NumPad8, KeyCode::K] {
        assert_eq!(command(code), Some(Point::new(0, -1)));
    }
    for code in [KeyCode::Down, KeyCode::NumPad2, KeyCode::J] {
        assert_eq!(command(code), Some(Point::new(0, 1)));
    }
    for code in [KeyCode::Left, KeyCode::NumPad4, KeyCode::H] {
        assert_eq!(command(code), Some(Point::new(-1, 0)));
    }
    for code in [KeyCode::Right, KeyCode::NumPad6, KeyCode::L] {
        assert_eq!(command(code), Some(Point::new(1, 0)));
    }
    for code in [KeyCode::NumPad7, KeyCode::Y] {
        assert_eq!(command(code), Some(Point::new(-1, -1)));
    }
    for code in [KeyCode::NumPad9, KeyCode::U] {
        assert_eq!(command(code), Some(Point::new(1, -1)));
    }
    for code in [KeyCode::NumPad1, KeyCode::B] {
        assert_eq!(command(code), Some(Point::new(-1, 1)));
    }
    for code in [KeyCode::NumPad3, KeyCode::N] {
        assert_eq!(command(code), Some(Point::new(1, 1)));
    }
    let held = |code, shift, ctrl| {
        Command::from_key(Key { code, shift, ctrl, alt: false, logo: false }).and_then(|c| c.offset())
    };
    assert_eq!(held(KeyCode::Left, true, false), Some(Point::new(-1, -1)));
    assert_eq!(held(KeyCode::Left, false, true), Some(Point::new(-1, 1)));
    assert_eq!(held(KeyCode::Right, true, false), Some(Point::new(1, -1)));
    assert_eq!(held(KeyCode::Right, false, true), Some(Point::new(1, 1)));
    assert_eq!(held(KeyCode::Right, true, true), Some(Point::new(1, -1)));
    assert_eq!(held(KeyCode::Up, true, true), Some(Point::new(0, -1)));

    assert!(matches!(Command::from_key(Key::plain(KeyCode::D1)), Some(Command::UseFood)));
    assert!(matches!(Command::from_key(Key::plain(KeyCode::D2)), Some(Command::UseDose)));
    assert!(matches!(Command::from_key(Key::plain(KeyCode::D3)), Some(Command::UseCardinalDose)));
    assert!(matches!(Command::from_key(Key::plain(KeyCode::D4)), Some(Command::UseDiagonalDose)));
    assert!(matches!(Command::from_key(Key::plain(KeyCode::D5)), Some(Command::UseStrongDose)));
    assert_eq!(Command::UseFood.offset(), None);
    let message = Command::ShowMessageBox { ttl: 500, title: "a".into(), message: "b".into() };
    assert_eq!(message.offset(), None);
    for code in [KeyCode::Esc, KeyCode::Enter, KeyCode::Space, KeyCode::F1, KeyCode::D6, KeyCode::NumPad5, KeyCode::A] {
        assert!(Command::from_key(Key::plain(code)).is_none());
    }
}

#[test]
fn a_step_onto_open_ground_is_a_turn() {
    let mut state = fresh(SEED);
    let mouse = Mouse { tile_pos: Point::new(4, 5), left_clicked: true, ..Mouse::new() };
    let tick = state.tick(vec![Key::plain(KeyCode::Right)], mouse);
    assert_eq!(state.player.pos, Point::new(1, 0));
    assert_eq!(state.screen_position_in_world, Point::new(1, 0));
    assert_eq!((state.turn, state.tick_id), (1, 1));
    assert_eq!(state.mouse, mouse);
    assert!(state.commands.is_empty());

    let input = tick.input.unwrap();
    assert_eq!(input.tick_id, 1);
    assert_eq!(input.keys, vec![Key::plain(KeyCode::Right)]);
    assert_eq!(input.mouse, mouse);
    let snapshot = tick.verification.unwrap();
    assert_eq!(snapshot, state.verification());
    assert_eq!((snapshot.turn, snapshot.chunk_count, snapshot.player_pos), (1, 1, Point::new(1, 0)));
    assert_eq!(snapshot.monsters.len(), 15);
    assert!(tick.desync.is_none());
}

#[test]
fn a_tree_stops_the_player_and_costs_no_turn() {
    let mut state = fresh(SEED);
    for step in 1..=4 {
        let tick = press(&mut state, KeyCode::Right);
        assert_eq!(state.player.pos, Point::new(step, 0));
        assert_eq!(tick.verification.unwrap().turn, step);
    }
    let tick = press(&mut state, KeyCode::Right);
    assert_eq!(state.player.pos, Point::new(4, 0));
    assert_eq!((state.turn, state.tick_id), (4, 5));
    assert_eq!(tick.input.unwrap().tick_id, 5);
    assert!(tick.verification.is_none());
    assert!(tick.desync.is_none());
}

#[test]
fn walking_over_the_edge_of_a_chunk_makes_the_next_one() {
    let mut state = fresh(SEED);
    let tick = press(&mut state, KeyCode::Left);
    assert_eq!(state.player.pos, Point::new(-1, 0));
    assert_eq!(state.world.positions_of_all_chunks(), vec![Point::zero(), Point::new(-1, 0)]);
    let snapshot = tick.verification.unwrap();
    assert_eq!((snapshot.turn, snapshot.chunk_count), (1, 2));
    assert_eq!(snapshot.monsters.len(), 41);
    assert_eq!(snapshot.monsters[0], (Point::new(-32, 19), Point::new(-1, 0), Kind::Voices));

    let tick = press(&mut state, KeyCode::Left);
    assert_eq!(state.player.pos, Point::new(-1, 0));
    assert!(tick.verification.is_none());

    press(&mut state, KeyCode::Up);
    assert_eq!(state.player.pos, Point::new(-1, -1));
    assert_eq!(state.world.chunk_count(), 3);
    assert_eq!(state.turn, 2);
}

#[test]
fn looking_at_a_tree_makes_its_chunk_even_though_nobody_enters() {
    let mut state = State::new(
        world_size(),
        Point::new(30, 30),
        17,
        VecDeque::new(),
        VecDeque::new(),
        SEED,
        false,
        false,
        false,
        false,
        false,
        Challenge::default(),
    );
    for _ in 0..31 {
        state.player.pos = Point::new(31, 0);
        let before = state.world.chunk_count();
        press(&mut state, KeyCode::Right);
        if state.player.pos == Point::new(31, 0) {
            assert_eq!(state.world.chunk_count(), before.max(2));
        }
    }
    assert_eq!(state.world.tile(Point::new(32, 0)).unwrap().kind, dose_response::level::TileKind::Tree);
    assert_eq!(state.player.pos, Point::new(31, 0));
    assert_eq!(state.turn, 0);
    assert_eq!(state.world.chunk_count(), 2);
}

#[test]
fn the_edge_of_the_world_stops_the_player() {
    let mut state = State::new(
        Point::new(2, 2),
        Point::new(30, 30),
        17,
        VecDeque::new(),
        VecDeque::new(),
        SEED,
        false,
        false,
        false,
        false,
        false,
        Challenge::default(),
    );
    assert!(state.world.within_bounds(Point::new(-1, -1)));
    assert!(!state.world.within_bounds(Point::new(1, 0)));
    let tick = press(&mut state, KeyCode::Right);
    assert_eq!(state.player.pos, Point::zero());
    assert_eq!(state.turn, 0);
    assert!(tick.verification.is_none());
    assert_eq!(state.world.chunk_count(), 1);
}

#[test]
fn commands_wait_their_turn() {
    let mut state = fresh(SEED);
    let keys = vec![
        Key::plain(KeyCode::Right),
        Key::plain(KeyCode::Esc),
        Key::plain(KeyCode::Down),
        Key::plain(KeyCode::D1),
        Key::plain(KeyCode::Left),
    ];
    let tick = state.tick(keys.clone(), Mouse::new());
    assert_eq!(tick.input.unwrap().keys, keys);
    assert_eq!(state.player.pos, Point::new(1, 0));
    assert_eq!(state.commands.len(), 3);
    assert!(matches!(state.commands[0], Command::S));
    assert!(matches!(state.commands[1], Command::UseFood));
    assert!(matches!(state.commands[2], Command::W));

    let tick = state.tick(Vec::new(), Mouse::new());
    assert_eq!(state.player.pos, Point::new(1, 0));
    assert!(tick.verification.is_none());
    assert_eq!((state.turn, state.tick_id), (1, 2));

    let tick = state.tick(Vec::new(), Mouse::new());
    assert!(tick.verification.is_none());
    assert_eq!(state.commands.len(), 1);

    let tick = state.tick(Vec::new(), Mouse::new());
    assert_eq!(state.player.pos, Point::zero());
    assert_eq!(tick.verification.unwrap().turn, 2);
    assert!(state.commands.is_empty());

    let tick = state.tick(Vec::new(), Mouse::new());
    assert!(tick.input.unwrap().keys.is_empty());
    assert!(tick.verification.is_none());
    assert_eq!((state.turn, state.tick_id), (2, 5));
}

#[test]
fn ticks_and_turns_stop_where_they_can_no_longer_be_counted() {
    let mut state = fresh(SEED);
    state.tick_id = i32::MAX - 1;
    let tick = press(&mut state, KeyCode::Right);
    assert_eq!(tick.input.unwrap().tick_id, i32::MAX);
    assert_eq!(state.player.pos, Point::new(1, 0));
    let tick = press(&mut state, KeyCode::Right);
    assert!(tick.input.is_none() && tick.verification.is_none() && tick.desync.is_none());
    assert_eq!(state.player.pos, Point::new(1, 0));
    assert_eq!(state.tick_id, i32::MAX);

    let mut state = fresh(SEED);
    state.turn = i32::MAX;
    let tick = press(&mut state, KeyCode::Right);
    assert!(tick.input.is_some());
    assert!(tick.verification.is_none());
    assert_eq!(state.player.pos, Point::zero());
    assert_eq!(state.turn, i32::MAX);
}

#[test]
fn the_tip_for_a_beginner_is_always_the_same() {
    let state = fresh(SEED);
    assert_eq!(endgame_tip(&state), "Attack monsters by bumping (moving) into them!");
}

#[test]
fn the_tip_fits_the_loss_and_is_drawn_without_a_trace() {
    let mut state = fresh(SEED);
    state.player_picked_up_a_dose = true;
    let rng = state.rng;

    assert_eq!(endgame_tip(&state), "As you use doses, you slowly build up tolerance.");
    assert_eq!(endgame_tip(&state), "As you use doses, you slowly build up tolerance.");

    state.player.cause_of_death = Some(CauseOfDeath::Overdosed);
    assert_eq!(endgame_tip(&state), "When you get too close to a Dose, it will be impossible to resist.");

    state.player.cause_of_death = Some(CauseOfDeath::Exhausted);
    assert_eq!(endgame_tip(&state), "Eat Food (by pressing [1]) or use a Dose to stave off withdrawal.");
    let monster = state.world.monsters_in_chunk(Point::zero()).unwrap()[4];
    state.player.perpetrator = Some(monster);
    assert_eq!(endgame_tip(&state), "The Hunger monsters can swarm you.");

    state.player.cause_of_death = Some(CauseOfDeath::LostWill);
    assert_eq!(
        endgame_tip(&state),
        "Being hit by an Anxiety reduces your Will. You lose when it reaches zero."
    );
    state.player.perpetrator = None;
    assert_eq!(endgame_tip(&state), "As you use doses, you slowly build up tolerance.");
    state.player.cause_of_death = Some(CauseOfDeath::Killed);
    assert_eq!(endgame_tip(&state), "As you use doses, you slowly build up tolerance.");

    assert_eq!(state.rng, rng);

    let mut other = fresh(2);
    other.player_picked_up_a_dose = true;
    assert_eq!(endgame_tip(&other), "Directly confronting Anxiety will slowly increase your Will.");
    other.player.cause_of_death = Some(CauseOfDeath::Overdosed);
    assert_eq!(
        endgame_tip(&other),
        "The Cardinal, Diagonal and Strong Doses are much stronger. Early on, you'll likely overdose on them."
    );
}
