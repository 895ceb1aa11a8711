use std::collections::VecDeque;

use dose_response::point::Point;
use dose_response::save::{load_file, save_file, LoadError};
use dose_response::state::{Challenge, State};
use dose_response::world::World;

fn piece(payload: &[u8]) -> Vec<u8> {
    let mut bytes = (payload.len() as u64).to_le_bytes().to_vec();
    bytes.extend_from_slice(payload);
    bytes
}

fn file(version: &[u8], commit: &[u8], state: &[u8]) -> Vec<u8> {
    [piece(version), piece(commit), piece(state)].concat()
}

#[test]
fn a_save_file_is_three_pieces_with_their_lengths() {
    let bytes = save_file(&[1, 2, 3]).unwrap();
    assert_eq!(
        bytes,
        vec![
            5, 0, 0, 0, 0, 0, 0, 0, b'1', b'.', b'0', b'.', b'0', 0, 0, 0, 0, 0, 0, 0, 0, 3, 0, 0, 0, 0, 0, 0,
            0, 1, 2, 3
        ]
    );
    assert_eq!(bytes, file(b"1.0.0", b"", &[1, 2, 3]));
    assert_eq!(save_file(&[]).unwrap(), file(b"1.0.0", b"", &[]));
}

#[test]
fn what_was_saved_is_what_is_loaded() {
    for state in [vec![], vec![0u8], vec![255u8; 1000], (0..=255u8).collect::<Vec<u8>>()] {
        let loaded = load_file(&save_file(&state).unwrap()).unwrap();
        assert!(!loaded.version_differs);
        assert!(!loaded.commit_differs);
        assert_eq!(loaded.state, state);
    }
}

#[test]
fn every_state_can_be_saved() {
    for len in [0usize, 1, 7, 8, 9, 255, 256, 65_536, 1_000_003] {
        let state: Vec<u8> = (0..len).map(|i| (i % 251) as u8).collect();
        let bytes = save_file(&state).expect("a state of any length has a file");
        assert_eq!(bytes.len(), 8 + 5 + 8 + 8 + len);
        assert_eq!(bytes, file(b"1.0.0", b"", &state));
        assert_eq!(load_file(&bytes).unwrap().state, state);
    }
}

#[test]
fn a_file_of_another_version_is_read_all_the_same() {
    let loaded = load_file(&file(b"0.9.3", b"", &[7, 8])).unwrap();
    assert!(loaded.version_differs && !loaded.commit_differs);
    assert_eq!(loaded.state, vec![7, 8]);

    let loaded = load_file(&file(b"1.0.0", b"cafe", &[9])).unwrap();
    assert!(!loaded.version_differs && loaded.commit_differs);
    assert_eq!(loaded.state, vec![9]);

    let loaded = load_file(&file("\u{fc}ber".as_bytes(), "\u{1f600}".as_bytes(), &[])).unwrap();
    assert!(loaded.version_differs && loaded.commit_differs);
    assert!(loaded.state.is_empty());
}

#[test]
fn bytes_behind_the_state_are_let_be() {
    let mut bytes = file(b"1.0.0", b"", &[1, 2, 3]);
    bytes.extend_from_slice(b"and more");
    let loaded = load_file(&bytes).unwrap();
    assert_eq!(loaded.state, vec![1, 2, 3]);
}

#[test]
fn a_file_that_is_cut_short_or_garbled_is_turned_down() {
    let whole = file(b"1.0.0", b"abc", &[1, 2, 3]);
    assert!(load_file(&whole).is_ok());
    for cut in 0..whole.len() {
        let expected = if cut < 13 {
            LoadError::BadVersion
        } else if cut < 24 {
            LoadError::BadCommit
        } else {
            LoadError::BadState
        };
        assert_eq!(load_file(&whole[..cut]).unwrap_err(), expected);
    }
    assert_eq!(load_file(&[]).unwrap_err(), LoadError::BadVersion);
    assert_eq!(load_file(&[0; 7]).unwrap_err(), LoadError::BadVersion);
    assert_eq!(load_file(&[0; 8]).unwrap_err(), LoadError::BadCommit);
    assert_eq!(load_file(&[0; 16]).unwrap_err(), LoadError::BadState);
    assert!(load_file(&[0; 24]).unwrap().state.is_empty());

    assert_eq!(load_file(&file(&[0xff, 0xfe], b"", &[])).unwrap_err(), LoadError::BadVersion);
    assert_eq!(load_file(&file(b"1.0.0", &[0xc0, 0x80], &[])).unwrap_err(), LoadError::BadCommit);
    assert!(load_file(&file(b"1.0.0", b"", &[0xff, 0xfe])).is_ok());

    let mut huge = vec![0xff; 8];
    huge.extend_from_slice(b"1.0.0");
    assert_eq!(load_file(&huge).unwrap_err(), LoadError::BadVersion);
    let mut huge = piece(b"1.0.0");
    huge.extend_from_slice(&u64::MAX.to_le_bytes());
    assert_eq!(load_file(&huge).unwrap_err(), LoadError::BadCommit);
    let mut huge = file(b"1.0.0", b"", &[]);
    huge.truncate(huge.len() - 8);
    huge.extend_from_slice(&(1u64 << 40).to_le_bytes());
    huge.extend_from_slice(&[0; 100]);
    assert_eq!(load_file(&huge).unwrap_err(), LoadError::BadState);
}

#[test]
fn a_state_put_together_from_its_pieces_is_checked() {
    let fresh = |seed| {
        State::new(
            Point::new(4096, 4096),
            Point::new(30, 30),
            17,
            VecDeque::new(),
            VecDeque::new(),
            seed,
            false,
            false,
            false,
            false,
            false,
            Challenge::default(),
        )
    };
    let mut state = fresh(5);
    state.tick(vec![dose_response::keys::Key::plain(dose_response::keys::KeyCode::Left)], Default::default());
    let before = state.verification();
    let player_pos = state.player.pos;

    let old_world = std::mem::replace(
        &mut state.world,
        World::restore(5, 4096, 32, Point::zero(), Vec::new()).unwrap(),
    );
    let (seed, dimension, chunk_size, spawn) =
        (old_world.seed(), old_world.dimension(), old_world.chunk_size(), old_world.spawn());
    state.world = World::restore(seed, dimension, chunk_size, spawn, old_world.into_chunks()).unwrap();
    assert!(state.check());
    assert_eq!(state.verification(), before);
    assert_eq!(state.player.pos, player_pos);

    let mut other = fresh(6);
    assert!(other.check());
    other.seed = 7;
    assert!(!other.check());
    let mut other = fresh(6);
    other.world_size = Point::new(4096, 4095);
    assert!(!other.check());
    let mut other = fresh(6);
    other.world_size = Point::new(2048, 2048);
    assert!(!other.check());
    let mut other = fresh(6);
    other.world = World::restore(6, 4096, 16, Point::zero(), Vec::new()).unwrap();
    assert!(!other.check());
}

#[test]
fn a_file_is_made_of_its_pieces_or_not_at_all() {
    let join = dose_response::save::join_pieces;
    assert_eq!(join(Some(vec![1]), Some(vec![2, 3]), Some(vec![4])), Some(vec![1, 2, 3, 4]));
    assert_eq!(join(Some(vec![]), Some(vec![]), Some(vec![])), Some(vec![]));
    assert_eq!(join(None, Some(vec![2]), Some(vec![4])), None);
    assert_eq!(join(Some(vec![1]), None, Some(vec![4])), None);
    assert_eq!(join(Some(vec![1]), Some(vec![2]), None), None);
    assert_eq!(join(None, None, None), None);
}
