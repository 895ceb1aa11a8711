use std::collections::VecDeque;

use dose_response::engine::Mouse;
use dose_response::keys::{Key, KeyCode};
use dose_response::monster::Kind;
use dose_response::point::Point;
use dose_response::state::{
    collect_records, log_header, push_text, read_header, same_text, split_record, Challenge,
    GameSession, Input, ParsedLine, ReplayError, ReplayHeader, State, Tick, Verification,
};
use dose_response::state::{replay_file_name, Timestamp, REPLAY_DIR};
use dose_response::text::{digits, parse_u32, push_decimal, push_padded, split_lines};

const SEED: u32 = 518_723_646;

fn world_size() -> Point {
    Point::new(1_073_741_824, 1_073_741_824)
}

fn live(seed: u32) -> State {
    State::new(
        world_size(),
        Point::new(30, 30),
        17,
        VecDeque::new(),
        VecDeque::new(),
        seed,
        false,
        false,
        false,
        false,
        false,
        Challenge::default(),
    )
}

fn header(seed: u32) -> Vec<Vec<u8>> {
    split_lines(&log_header(seed))
}

fn input_line(tick_id: i32) -> ParsedLine {
    ParsedLine {
        input: Some(Input { keys: vec![Key::plain(KeyCode::Up)], mouse: Mouse::new(), tick_id }),
        verification: None,
    }
}

fn snapshot_line(turn: i32) -> ParsedLine {
    ParsedLine {
        input: None,
        verification: Some(Verification {
            turn,
            chunk_count: 1,
            player_pos: Point::zero(),
            monsters: vec![(Point::new(1, 2), Point::zero(), Kind::Hunger)],
        }),
    }
}

fn replay(seed: u32, records: Vec<ParsedLine>) -> Result<State, ReplayError> {
    State::replay_game(
        world_size(),
        Point::new(30, 30),
        17,
        &header(seed),
        records,
        false,
        false,
        false,
        false,
        Challenge::default(),
    )
}

fn a_walk() -> Vec<(Vec<Key>, Mouse)> {
    let codes = [
        KeyCode::Right,
        KeyCode::Right,
        KeyCode::Down,
        KeyCode::Esc,
        KeyCode::Left,
        KeyCode::Left,
        KeyCode::Left,
        KeyCode::Up,
        KeyCode::Up,
        KeyCode::Up,
        KeyCode::NumPad7,
        KeyCode::NumPad1,
        KeyCode::H,
        KeyCode::Y,
        KeyCode::Y,
        KeyCode::K,
        KeyCode::D1,
        KeyCode::L,
        KeyCode::J,
        KeyCode::B,
    ];
    let mut moments: Vec<(Vec<Key>, Mouse)> = codes
        .iter()
        .enumerate()
        .map(|(i, &code)| {
            (vec![Key::plain(code)], Mouse { tile_pos: Point::new(i as i32, 1), ..Mouse::new() })
        })
        .collect();
    moments.push((vec![Key::plain(KeyCode::Left), Key::plain(KeyCode::Left), Key::plain(KeyCode::Up)], Mouse::new()));
    moments.push((Vec::new(), Mouse::new()));
    moments.push((Vec::new(), Mouse::new()));
    moments.push((Vec::new(), Mouse::new()));
    moments
}

fn record_of(ticks: Vec<Tick>) -> Vec<ParsedLine> {
    ticks.into_iter().flat_map(|tick| tick.into_lines()).collect()
}

fn snapshots_of(ticks: &[Tick]) -> Vec<Option<Verification>> {
    ticks.iter().map(|tick| tick.verification.clone()).collect()
}

#[test]
fn a_tick_puts_its_input_and_then_its_snapshot_on_record() {
    let input = Input { keys: vec![Key::plain(KeyCode::Up)], mouse: Mouse::new(), tick_id: 7 };
    let snapshot = snapshot_line(3).verification.unwrap();

    let lines = Tick { input: Some(input.clone()), verification: Some(snapshot.clone()), desync: None }.into_lines();
    assert_eq!(lines.len(), 2);
    assert_eq!(lines[0].input.as_ref().map(|i| i.tick_id), Some(7));
    assert!(lines[0].verification.is_none());
    assert!(lines[1].input.is_none());
    assert_eq!(lines[1].verification, Some(snapshot.clone()));

    let lines = Tick { input: Some(input), verification: None, desync: Some(snapshot) }.into_lines();
    assert_eq!(lines.len(), 1);
    assert_eq!(lines[0].input.as_ref().map(|i| i.keys.clone()), Some(vec![Key::plain(KeyCode::Up)]));
    assert!(lines[0].verification.is_none());

    assert!(Tick { input: None, verification: None, desync: None }.into_lines().is_empty());
}

#[test]
fn a_record_begins_with_seed_version_and_commit() {
    assert_eq!(log_header(SEED), b"518723646\n1.0.0\n\n".to_vec());
    assert_eq!(log_header(0), b"0\n1.0.0\n\n".to_vec());
    assert_eq!(log_header(u32::MAX), b"4294967295\n1.0.0\n\n".to_vec());
    assert_eq!(dose_response::metadata::VERSION, "1.0.0");
    assert_eq!(dose_response::metadata::GIT_HASH, "");
    assert_eq!(dose_response::metadata::TITLE, "Dose Response");
}

#[test]
fn numbers_are_written_in_decimal() {
    let mut out = b"n=".to_vec();
    push_decimal(&mut out, 0);
    out.push(b',');
    push_decimal(&mut out, 7);
    out.push(b',');
    push_decimal(&mut out, 10);
    out.push(b',');
    push_decimal(&mut out, 1_234_567_890_123);
    out.push(b',');
    push_decimal(&mut out, u64::MAX);
    assert_eq!(out, b"n=0,7,10,1234567890123,18446744073709551615".to_vec());
}

#[test]
fn seeds_are_read_in_decimal() {
    assert_eq!(parse_u32(b"0"), Some(0));
    assert_eq!(parse_u32(b"518723646"), Some(518_723_646));
    assert_eq!(parse_u32(b"4294967295"), Some(u32::MAX));
    assert_eq!(parse_u32(b"4294967296"), None);
    assert_eq!(parse_u32(b"99999999999999999999999999"), None);
    assert_eq!(parse_u32(b"0000000000000000000042"), Some(42));
    assert_eq!(parse_u32(b"+42"), Some(42));
    assert_eq!(parse_u32(b"+"), None);
    assert_eq!(parse_u32(b"++1"), None);
    assert_eq!(parse_u32(b""), None);
    assert_eq!(parse_u32(b"-1"), None);
    assert_eq!(parse_u32(b" 1"), None);
    assert_eq!(parse_u32(b"1 "), None);
    assert_eq!(parse_u32(b"12a"), None);
    assert_eq!(parse_u32(b"0x10"), None);
    assert_eq!(parse_u32(b"1_000"), None);
    for seed in [1u32, 9, 10, 99, 100, 65_535, 65_536, 1_000_000_007, u32::MAX - 1] {
        let mut text = Vec::new();
        push_decimal(&mut text, seed as u64);
        assert_eq!(text, seed.to_string().into_bytes());
        assert_eq!(parse_u32(&text), Some(seed));
        assert_eq!(parse_u32(&text), seed.to_string().parse().ok());
    }
}

#[test]
fn texts_are_compared_and_joined_byte_by_byte() {
    assert!(same_text(b"", b""));
    assert!(same_text(b"abc", b"abc"));
    assert!(!same_text(b"abc", b"abd"));
    assert!(!same_text(b"abc", b"ab"));
    assert!(!same_text(b"", b"a"));
    let mut out = b"ab".to_vec();
    push_text(&mut out, b"");
    push_text(&mut out, b"cd");
    assert_eq!(out, b"abcd".to_vec());
}

#[test]
fn the_header_of_a_record_is_read_line_by_line() {
    assert_eq!(
        read_header(&header(SEED)),
        Ok(ReplayHeader { seed: SEED, version_differs: false, commit_differs: false })
    );
    let lines = vec![b"7".to_vec(), b"0.9.9".to_vec(), b"abcdef".to_vec(), b"more".to_vec()];
    assert_eq!(
        read_header(&lines),
        Ok(ReplayHeader { seed: 7, version_differs: true, commit_differs: true })
    );
    let lines = vec![b"7".to_vec(), b"1.0.0".to_vec(), b"abcdef".to_vec()];
    assert_eq!(
        read_header(&lines),
        Ok(ReplayHeader { seed: 7, version_differs: false, commit_differs: true })
    );
}

#[test]
fn a_record_that_is_cut_short_is_turned_down() {
    assert_eq!(read_header(&[]), Err(ReplayError::Empty));
    assert_eq!(read_header(&[b"7".to_vec()]), Err(ReplayError::MissingVersion));
    assert_eq!(read_header(&[b"7".to_vec(), b"1.0.0".to_vec()]), Err(ReplayError::MissingCommit));
    assert_eq!(read_header(&[b"seven".to_vec()]), Err(ReplayError::BadSeed));
    assert_eq!(read_header(&[b"".to_vec(), b"1.0.0".to_vec(), b"".to_vec()]), Err(ReplayError::BadSeed));
    assert_eq!(
        read_header(&[b"4294967296".to_vec(), b"1.0.0".to_vec(), b"".to_vec()]),
        Err(ReplayError::BadSeed)
    );
}

#[test]
fn the_lines_of_a_record_are_sorted_into_inputs_and_snapshots() {
    let lines = vec![
        input_line(1),
        snapshot_line(1),
        input_line(2),
        input_line(3),
        snapshot_line(2),
        snapshot_line(3),
        input_line(4),
    ];
    let (inputs, snapshots) = collect_records(lines).unwrap();
    assert_eq!(inputs.iter().map(|i| i.tick_id).collect::<Vec<_>>(), vec![1, 2, 3, 4]);
    assert_eq!(snapshots.iter().map(|v| v.turn).collect::<Vec<_>>(), vec![1, 2, 3]);

    let (inputs, snapshots) = collect_records(Vec::new()).unwrap();
    assert!(inputs.is_empty() && snapshots.is_empty());

    let (inputs, snapshots) = collect_records(vec![snapshot_line(5), snapshot_line(4)]).unwrap();
    assert!(inputs.is_empty());
    assert_eq!(snapshots.iter().map(|v| v.turn).collect::<Vec<_>>(), vec![5, 4]);
}

#[test]
fn a_line_that_reads_as_an_input_is_an_input() {
    let both = ParsedLine { input: input_line(1).input, verification: snapshot_line(9).verification };
    let (inputs, snapshots) = collect_records(vec![both]).unwrap();
    assert_eq!(inputs.len(), 1);
    assert!(snapshots.is_empty());
}

#[test]
fn a_gap_in_the_tick_numbers_is_turned_down() {
    let lines = vec![input_line(1), input_line(2), input_line(4)];
    assert_eq!(
        collect_records(lines).unwrap_err(),
        ReplayError::TickOutOfOrder { record: 2, found: 4 }
    );
    let lines = vec![input_line(1), input_line(2), input_line(4)];
    assert_eq!(
        replay(SEED, lines).err(),
        Some(ReplayError::TickOutOfOrder { record: 2, found: 4 })
    );
}

#[test]
fn tick_numbers_that_do_not_count_up_from_one_are_turned_down() {
    let wrong = |lines: Vec<ParsedLine>| collect_records(lines).unwrap_err();
    assert_eq!(wrong(vec![input_line(0)]), ReplayError::TickOutOfOrder { record: 0, found: 0 });
    assert_eq!(wrong(vec![input_line(2)]), ReplayError::TickOutOfOrder { record: 0, found: 2 });
    assert_eq!(wrong(vec![input_line(-1)]), ReplayError::TickOutOfOrder { record: 0, found: -1 });
    assert_eq!(
        wrong(vec![input_line(1), input_line(1)]),
        ReplayError::TickOutOfOrder { record: 1, found: 1 }
    );
    assert_eq!(
        wrong(vec![input_line(1), snapshot_line(1), snapshot_line(2), input_line(3), input_line(2)]),
        ReplayError::TickOutOfOrder { record: 3, found: 3 }
    );
    assert_eq!(
        wrong(vec![input_line(1), input_line(2), input_line(3), input_line(2)]),
        ReplayError::TickOutOfOrder { record: 3, found: 2 }
    );
}

#[test]
fn a_line_that_is_neither_input_nor_snapshot_is_turned_down() {
    let neither = || ParsedLine { input: None, verification: None };
    assert_eq!(collect_records(vec![neither()]).unwrap_err(), ReplayError::BadRecord { record: 0 });
    assert_eq!(
        collect_records(vec![input_line(1), snapshot_line(1), neither(), input_line(2)]).unwrap_err(),
        ReplayError::BadRecord { record: 2 }
    );
    assert_eq!(
        replay(SEED, vec![input_line(1), neither()]).err(),
        Some(ReplayError::BadRecord { record: 1 })
    );
}

#[test]
fn the_first_thing_that_is_wrong_with_a_record_is_what_is_reported() {
    let neither = || ParsedLine { input: None, verification: None };
    assert_eq!(
        collect_records(vec![input_line(1), input_line(3), neither()]).unwrap_err(),
        ReplayError::TickOutOfOrder { record: 1, found: 3 }
    );
    assert_eq!(
        collect_records(vec![neither(), input_line(3)]).unwrap_err(),
        ReplayError::BadRecord { record: 0 }
    );
    let broken = State::replay_game(
        world_size(),
        Point::new(30, 30),
        17,
        &[b"x".to_vec()],
        vec![neither()],
        false,
        false,
        false,
        false,
        Challenge::default(),
    );
    assert_eq!(broken.err(), Some(ReplayError::BadSeed));
    let empty = State::replay_game(
        world_size(),
        Point::new(30, 30),
        17,
        &[],
        vec![input_line(1)],
        false,
        false,
        false,
        false,
        Challenge::default(),
    );
    assert_eq!(empty.err(), Some(ReplayError::Empty));
}

#[test]
fn a_record_is_played_from_a_fresh_state_of_its_seed() {
    let state = State::replay_game(
        world_size(),
        Point::new(30, 30),
        17,
        &[b"518723646".to_vec(), b"0.1".to_vec(), b"unknown".to_vec()],
        vec![input_line(1), snapshot_line(1), input_line(2)],
        true,
        true,
        true,
        true,
        Challenge::default(),
    )
    .unwrap();
    assert_eq!(state.seed, SEED);
    assert!(state.replay && state.cheating && state.replay_full_speed && state.exit_after);
    assert!(state.player.invincible);
    assert_eq!(state.game_session, GameSession::InProgress);
    assert_eq!(state.inputs.len(), 2);
    assert_eq!(state.verifications.len(), 1);
    assert_eq!((state.turn, state.tick_id), (0, 0));
    assert_eq!(state.verification(), live(SEED).verification());
    assert_eq!(state.rng, live(SEED).rng);
    assert_eq!(state.player.graphic, live(SEED).player.graphic);
}

#[test]
fn two_runs_of_the_same_seed_and_inputs_take_the_same_snapshots() {
    let moments = a_walk();
    let mut one = live(SEED);
    let mut other = State::new(
        world_size(),
        Point::new(80, 50),
        3,
        VecDeque::new(),
        VecDeque::new(),
        SEED,
        true,
        true,
        false,
        true,
        true,
        Challenge { hide_unseen_tiles: false, fast_depression: false, one_chance: false },
    );
    let first = one.play(&moments);
    let second = other.play(&moments);
    assert_eq!(first.len(), moments.len());
    assert_eq!(second.len(), moments.len());
    let mut taken = 0;
    for (a, b) in first.iter().zip(&second) {
        assert_eq!(a.verification, b.verification);
        assert_eq!(a.input.as_ref().map(|i| i.tick_id), b.input.as_ref().map(|i| i.tick_id));
        assert!(a.desync.is_none() && b.desync.is_none());
        taken += a.verification.is_some() as usize;
    }
    assert!(taken >= 10);
    assert_eq!(one.player.pos, other.player.pos);
    assert_eq!(one.verification(), other.verification());
    assert!(one.world.chunk_count() >= 3);
    assert_eq!(one.tick_id, moments.len() as i32);

    let mut third = live(SEED + 1);
    let different = third.play(&moments);
    assert!(first.iter().zip(&different).any(|(a, b)| a.verification != b.verification));
}

#[test]
fn tick_by_tick_is_the_same_as_all_at_once() {
    let moments = a_walk();
    let mut at_once = live(SEED);
    let all = at_once.play(&moments);
    let mut stepwise = live(SEED);
    for (tick, (keys, mouse)) in all.iter().zip(&moments) {
        let single = stepwise.tick(keys.clone(), *mouse);
        assert_eq!(single.verification, tick.verification);
    }
    assert_eq!(stepwise.verification(), at_once.verification());
}

#[test]
fn playing_a_record_takes_the_snapshots_that_were_recorded() {
    let moments = a_walk();
    let mut session = live(SEED);
    let recorded = session.play(&moments);
    let then_snapshots = snapshots_of(&recorded);
    let then_inputs: Vec<Option<Input>> = recorded.iter().map(|tick| tick.input.clone()).collect();
    let lines = record_of(recorded);
    assert_eq!(lines.iter().filter(|l| l.input.is_some()).count(), moments.len());
    assert_eq!(lines.iter().filter(|l| l.verification.is_some()).count(), session.turn as usize);

    let mut second = replay(SEED, lines).unwrap();
    let ignored: Vec<(Vec<Key>, Mouse)> =
        moments.iter().map(|_| (vec![Key::plain(KeyCode::Down)], Mouse::new())).collect();
    let played = second.play(&ignored);
    assert_eq!(played.len(), then_snapshots.len());
    for ((then_snapshot, then_input), now) in then_snapshots.iter().zip(&then_inputs).zip(&played) {
        assert_eq!(&now.verification, then_snapshot);
        assert_eq!(now.input.as_ref().map(|i| &i.keys), then_input.as_ref().map(|i| &i.keys));
        assert_eq!(now.input.as_ref().map(|i| i.mouse), then_input.as_ref().map(|i| i.mouse));
        assert_eq!(now.input.as_ref().map(|i| i.tick_id), then_input.as_ref().map(|i| i.tick_id));
        assert!(now.desync.is_none());
    }
    assert!(second.inputs.is_empty());
    assert!(second.verifications.is_empty());
    assert_eq!(second.verification(), session.verification());
    assert_eq!(second.player.pos, session.player.pos);

    let after = second.tick(vec![Key::plain(KeyCode::Right)], Mouse::new());
    assert!(after.input.is_none() && after.verification.is_none() && after.desync.is_none());
    assert_eq!(second.player.pos, session.player.pos);
}

#[test]
fn a_snapshot_that_differs_from_the_record_is_handed_back() {
    let moments = a_walk();
    let recorded = live(SEED).play(&moments);
    let then_snapshots = snapshots_of(&recorded);
    let mut lines = record_of(recorded);
    let mut tampered = 0;
    let mut seen = 0;
    for line in lines.iter_mut() {
        if let Some(snapshot) = line.verification.as_mut() {
            seen += 1;
            if seen == 3 {
                snapshot.monsters[0].2 = Kind::Npc;
                tampered += 1;
            }
        }
    }
    assert_eq!(tampered, 1);

    let mut second = replay(SEED, lines).unwrap();
    let played = second.play(&moments);
    let mut met = 0;
    for (then, now) in then_snapshots.iter().zip(&played) {
        assert_eq!(&now.verification, then);
        if now.verification.is_some() {
            met += 1;
        }
        if now.verification.is_some() && met == 3 {
            let expected = now.desync.as_ref().unwrap();
            assert_ne!(Some(expected), now.verification.as_ref());
            assert_eq!(expected.monsters[0].2, Kind::Npc);
            assert_eq!(expected.turn, 3);
        } else {
            assert!(now.desync.is_none());
        }
    }
    assert!(met > 3);
}

#[test]
fn a_record_of_another_seed_does_not_fit() {
    let moments = a_walk();
    let recorded = live(SEED).play(&moments);
    let mut second = replay(SEED + 1, record_of(recorded)).unwrap();
    let played = second.play(&moments);
    assert!(played.iter().any(|tick| tick.desync.is_some()));
}

#[test]
fn a_record_without_snapshots_is_played_without_complaint() {
    let mut state = replay(SEED, vec![input_line(1), input_line(2)]).unwrap();
    let first = state.tick(Vec::new(), Mouse::new());
    assert_eq!(first.input.unwrap().tick_id, 1);
    assert_eq!(first.verification.unwrap().player_pos, Point::new(0, -1));
    assert!(first.desync.is_none());
    let second = state.tick(Vec::new(), Mouse::new());
    assert_eq!(second.input.unwrap().tick_id, 2);
    assert!(second.verification.is_none());
    assert_eq!(state.player.pos, Point::new(0, -1));
    let third = state.tick(vec![Key::plain(KeyCode::Down)], Mouse::new());
    assert!(third.input.is_none());
    assert_eq!((state.turn, state.tick_id), (1, 2));
}

fn lines(texts: &[&str]) -> Vec<Vec<u8>> {
    texts.iter().map(|text| text.as_bytes().to_vec()).collect()
}

#[test]
fn a_text_is_cut_into_lines_at_its_line_feeds() {
    assert_eq!(split_lines(b""), lines(&[]));
    assert_eq!(split_lines(b"abc"), lines(&["abc"]));
    assert_eq!(split_lines(b"abc\n"), lines(&["abc"]));
    assert_eq!(split_lines(b"abc\ndef"), lines(&["abc", "def"]));
    assert_eq!(split_lines(b"abc\ndef\n"), lines(&["abc", "def"]));
    assert_eq!(split_lines(b"\n"), lines(&[""]));
    assert_eq!(split_lines(b"\n\n"), lines(&["", ""]));
    assert_eq!(split_lines(b"\nabc"), lines(&["", "abc"]));
    assert_eq!(split_lines(b"a\n\nb\n"), lines(&["a", "", "b"]));
    assert_eq!(split_lines(b"abc\r\ndef\r\n"), lines(&["abc", "def"]));
    assert_eq!(split_lines(b"abc\r\n\r\n"), lines(&["abc", ""]));
    assert_eq!(split_lines(b"abc\r"), lines(&["abc\r"]));
    assert_eq!(split_lines(b"a\rb\n"), lines(&["a\rb"]));
    assert_eq!(split_lines(b"a\r\r\n"), lines(&["a\r"]));
    assert_eq!(split_lines(b"\r\n"), lines(&[""]));
    assert_eq!(split_lines(b"\r"), lines(&["\r"]));
    assert_eq!(split_lines(&log_header(42)), lines(&["42", "1.0.0", ""]));

    for text in ["", "a", "a\n", "\n\na\r\nbc\n\r\n\rx", "one\ntwo\r\nthree", "x\r\n\n\r\n"] {
        let expected: Vec<Vec<u8>> =
            std::io::BufRead::lines(text.as_bytes()).map(|line| line.unwrap().into_bytes()).collect();
        assert_eq!(split_lines(text.as_bytes()), expected);
    }
}

#[test]
fn the_first_three_lines_of_a_record_are_its_header() {
    let part = |texts: &[&str]| split_record(lines(texts));
    assert_eq!(part(&[]), (lines(&[]), lines(&[])));
    assert_eq!(part(&["1"]), (lines(&["1"]), lines(&[])));
    assert_eq!(part(&["1", "2"]), (lines(&["1", "2"]), lines(&[])));
    assert_eq!(part(&["1", "2", "3"]), (lines(&["1", "2", "3"]), lines(&[])));
    assert_eq!(part(&["1", "2", "3", "4"]), (lines(&["1", "2", "3"]), lines(&["4"])));
    assert_eq!(part(&["1", "2", "3", "4", "5"]), (lines(&["1", "2", "3"]), lines(&["4", "5"])));

    let (head, behind) = split_record(split_lines(b"518723646\n1.0.0\n\n{}\n[]\n"));
    assert_eq!(
        read_header(&head),
        Ok(ReplayHeader { seed: 518_723_646, version_differs: false, commit_differs: false })
    );
    assert_eq!(behind, lines(&["{}", "[]"]));
}

#[test]
fn a_record_is_named_after_the_moment_it_was_begun() {
    let name = |year, month, day, hour, minute, second, millisecond| {
        String::from_utf8(replay_file_name(Timestamp { year, month, day, hour, minute, second, millisecond }))
            .unwrap()
    };
    assert_eq!(name(2016, 11, 20, 20, 4, 39, 123), "replay-2016-11-20T20-04-39.123");
    assert_eq!(name(2024, 1, 2, 3, 4, 5, 6), "replay-2024-01-02T03-04-05.006");
    assert_eq!(name(0, 0, 0, 0, 0, 0, 0), "replay-0000-00-00T00-00-00.000");
    assert_eq!(name(9999, 12, 31, 23, 59, 59, 999), "replay-9999-12-31T23-59-59.999");
    assert_eq!(name(12345, 100, 7, 8, 9, 10, 1000), "replay-12345-100-07T08-09-10.1000");
    assert_eq!(name(u32::MAX, 1, 1, 1, 1, 1, 1), "replay-4294967295-01-01T01-01-01.001");
    assert_eq!(REPLAY_DIR, "replays");
}

#[test]
fn numbers_are_padded_with_noughts() {
    let padded = |n: u64, width: usize| {
        let mut out = b">".to_vec();
        push_padded(&mut out, n, width);
        String::from_utf8(out).unwrap()
    };
    assert_eq!(padded(7, 3), ">007");
    assert_eq!(padded(7, 1), ">7");
    assert_eq!(padded(7, 0), ">7");
    assert_eq!(padded(0, 2), ">00");
    assert_eq!(padded(0, 0), ">0");
    assert_eq!(padded(123, 3), ">123");
    assert_eq!(padded(1234, 3), ">1234");
    assert_eq!(padded(u64::MAX, 25), ">0000018446744073709551615");
    assert_eq!(digits(0), 1);
    assert_eq!(digits(9), 1);
    assert_eq!(digits(10), 2);
    assert_eq!(digits(99_999), 5);
    assert_eq!(digits(u64::MAX), 20);
}
