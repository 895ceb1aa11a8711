//! The file that a session is saved in.
//!
//! A save file is three pieces, one behind the other: the version of the
//! game that wrote it, the commit that version was built from, and the
//! state of the session. Each piece is written as its length in bytes, as
//! a 64-bit number with the low byte first, followed by the bytes
//! themselves. The first two pieces are text. What the third piece holds
//! is the business of whoever turns a state into bytes and back; here it is
//! carried through as it comes.
//!
//! A file from another version or commit is read all the same, and the
//! difference handed back for whoever wants to warn about it.

use vstd::bytes::{
    lemma_auto_spec_u64_to_from_le_bytes, spec_u64_from_le_bytes, spec_u64_to_le_bytes,
};
use vstd::prelude::*;
use vstd::slice::slice_subrange;
use vstd::string::StringSliceAdditionalSpecFns;
use vstd::utf8::{encode_utf8, encode_utf8_valid_utf8, valid_utf8};

use crate::metadata;
use crate::state::{push_text, same_text};

verus! {

/// A piece as it stands in the file: its length, low byte first, on eight
/// bytes, and then the piece.
pub open spec fn framed(payload: Seq<u8>) -> Seq<u8> {
    spec_u64_to_le_bytes(payload.len() as u64) + payload
}

/// The piece that the bytes begin with, if they begin with a whole piece:
/// eight bytes of length, and as many bytes behind them as the length says.
pub open spec fn first_frame(bytes: Seq<u8>) -> Option<Seq<u8>> {
    if bytes.len() >= 8 && spec_u64_from_le_bytes(bytes.subrange(0, 8)) <= bytes.len() - 8 {
        Some(bytes.subrange(8, 8 + spec_u64_from_le_bytes(bytes.subrange(0, 8))))
    } else {
        None
    }
}

/// The bytes behind the piece they begin with.
pub open spec fn behind_first_frame(bytes: Seq<u8>) -> Seq<u8> {
    bytes.skip(8 + first_frame(bytes).unwrap().len() as int)
}

/// The piece that the bytes begin with, if it is there and is text.
pub open spec fn first_text(bytes: Seq<u8>) -> Option<Seq<u8>> {
    match first_frame(bytes) {
        Some(payload) => if valid_utf8(payload) {
            Some(payload)
        } else {
            None
        },
        None => None,
    }
}

/// A save file with the given version, commit and state.
pub open spec fn save_text(version: Seq<u8>, commit: Seq<u8>, state: Seq<u8>) -> Seq<u8> {
    framed(version) + framed(commit) + framed(state)
}

/// Why a save file cannot be read.
#[derive(Clone, Copy, Debug, PartialEq, Eq, Structural)]
pub enum LoadError {
    /// The file does not begin with a version.
    BadVersion,
    /// There is no commit behind the version.
    BadCommit,
    /// There is no state behind the commit.
    BadState,
}

/// What a save file holds.
#[derive(Clone, Debug)]
pub struct SaveFile {
    /// Whether the file was written by another version than this one.
    pub version_differs: bool,
    /// Whether the file was written by a build from another commit.
    pub commit_differs: bool,
    /// The state of the session, as bytes.
    pub state: Vec<u8>,
}

/// What a `SaveFile` holds, as plain values.
pub struct SaveFileView {
    pub version_differs: bool,
    pub commit_differs: bool,
    pub state: Seq<u8>,
}

impl View for SaveFile {
    type V = SaveFileView;

    open spec fn view(&self) -> SaveFileView {
        SaveFileView {
            version_differs: self.version_differs,
            commit_differs: self.commit_differs,
            state: self.state@,
        }
    }
}

/// What the bytes of a save file hold, or what is wrong with them. The
/// pieces are looked at in order, and the first one that is missing, cut
/// short or, where text is due, is no text, decides. Bytes behind the third
/// piece are let be.
pub open spec fn loaded(bytes: Seq<u8>) -> Result<SaveFileView, LoadError> {
    match first_text(bytes) {
        None => Err(LoadError::BadVersion),
        Some(version) => {
            let behind_version = behind_first_frame(bytes);
            match first_text(behind_version) {
                None => Err(LoadError::BadCommit),
                Some(commit) => {
                    let behind_commit = behind_first_frame(behind_version);
                    match first_frame(behind_commit) {
                        None => Err(LoadError::BadState),
                        Some(state) => Ok(
                            SaveFileView {
                                version_differs: version != metadata::VERSION.spec_bytes(),
                                commit_differs: commit != metadata::GIT_HASH.spec_bytes(),
                                state,
                            },
                        ),
                    }
                },
            }
        },
    }
}

/// A piece can be read back from where it was written, whatever stands
/// behind it.
pub proof fn lemma_first_frame(payload: Seq<u8>, behind: Seq<u8>)
    requires
        payload.len() <= u64::MAX,
    ensures
        first_frame(framed(payload) + behind) == Some(payload),
        behind_first_frame(framed(payload) + behind) == behind,
{
    lemma_auto_spec_u64_to_from_le_bytes();
    let bytes = framed(payload) + behind;
    let length = spec_u64_to_le_bytes(payload.len() as u64);
    assert(bytes.subrange(0, 8) =~= length);
    assert(bytes.subrange(8, 8 + payload.len() as int) =~= payload);
    assert(bytes.skip(8 + payload.len() as int) =~= behind);
}

/// A file written by this version, read again, gives the state that was
/// written, and no difference in version or commit.
pub proof fn lemma_save_load(state: Seq<u8>, behind: Seq<u8>)
    requires
        state.len() <= u64::MAX,
        metadata::VERSION.spec_bytes().len() <= u64::MAX,
        metadata::GIT_HASH.spec_bytes().len() <= u64::MAX,
    ensures
        loaded(
            save_text(metadata::VERSION.spec_bytes(), metadata::GIT_HASH.spec_bytes(), state)
                + behind,
        ) == Ok::<SaveFileView, LoadError>(
            SaveFileView { version_differs: false, commit_differs: false, state },
        ),
{
    let version = metadata::VERSION.spec_bytes();
    let commit = metadata::GIT_HASH.spec_bytes();
    let bytes = save_text(version, commit, state) + behind;
    encode_utf8_valid_utf8(metadata::VERSION@);
    encode_utf8_valid_utf8(metadata::GIT_HASH@);
    let behind_version = framed(commit) + (framed(state) + behind);
    assert(bytes =~= framed(version) + behind_version);
    lemma_first_frame(version, behind_version);
    lemma_first_frame(commit, framed(state) + behind);
    lemma_first_frame(state, behind);
}

/// Writes a text as a piece of a file, with `bincode::serialize`: the number
/// of its bytes as a 64-bit number, low byte first, then the bytes. It sets
/// no limit to the size and writes into a vector, which takes whatever it
/// is given: so for a string it has no error to come back with.
#[verifier::external_body]
fn text_piece(text: &str) -> (piece: Option<Vec<u8>>)
    ensures
        piece.is_some() && piece.unwrap()@ == framed(text.spec_bytes()),
{
    bincode::serialize(text).ok()
}

/// Writes bytes as a piece of a file, with `bincode::serialize`: the length
/// as a 64-bit number, low byte first, then the bytes. With no limit to the
/// size, a known length and a vector to write into, it has no error to give.
#[verifier::external_body]
fn bytes_piece(data: &[u8]) -> (piece: Option<Vec<u8>>)
    ensures
        piece.is_some() && piece.unwrap()@ == framed(data@),
{
    bincode::serialize(data).ok()
}

/// Reads the text that the bytes begin with, with `bincode::deserialize`,
/// which for a string reads a 64-bit length, low byte first, fails if
/// fewer bytes than that follow, and fails if the bytes that follow are
/// not UTF-8. Bytes behind the text are let be.
#[verifier::external_body]
fn read_text_piece(bytes: &[u8]) -> (text: Option<String>)
    ensures
        match text {
            Some(text) => first_text(bytes@) == Some(encode_utf8(text@)),
            None => first_text(bytes@).is_none(),
        },
{
    bincode::deserialize::<String>(bytes).ok()
}

/// Reads the bytes that the bytes begin with, with `bincode::deserialize`,
/// which for a vector of bytes reads a 64-bit length, low byte first, and
/// fails if fewer bytes than that follow. Bytes behind the piece are let
/// be.
#[verifier::external_body]
fn read_bytes_piece(bytes: &[u8]) -> (data: Option<Vec<u8>>)
    ensures
        match data {
            Some(data) => first_frame(bytes@) == Some(data@),
            None => first_frame(bytes@).is_none(),
        },
{
    bincode::deserialize::<Vec<u8>>(bytes).ok()
}

/// The file made of the three pieces, one behind the other. There is a
/// file if and only if all three pieces could be written.
pub fn join_pieces(
    version: Option<Vec<u8>>,
    commit: Option<Vec<u8>>,
    state: Option<Vec<u8>>,
) -> (file: Option<Vec<u8>>)
    ensures
        match (version, commit, state) {
            (Some(version), Some(commit), Some(state)) => file matches Some(bytes) && bytes@
                == version@ + commit@ + state@,
            _ => file.is_none(),
        },
{
    match (version, commit, state) {
        (Some(version), Some(commit), Some(state)) => {
            let mut bytes = version;
            push_text(&mut bytes, commit.as_slice());
            push_text(&mut bytes, state.as_slice());
            Some(bytes)
        },
        _ => None,
    }
}

/// The bytes of a save file of this version that holds the given state.
/// Every state can be saved: there is always a file.
pub fn save_file(state: &[u8]) -> (file: Option<Vec<u8>>)
    ensures
        file matches Some(bytes) && bytes@ == save_text(
            metadata::VERSION.spec_bytes(),
            metadata::GIT_HASH.spec_bytes(),
            state@,
        ),
{
    join_pieces(text_piece(metadata::VERSION), text_piece(metadata::GIT_HASH), bytes_piece(state))
}

/// Reads a save file.
pub fn load_file(bytes: &[u8]) -> (file: Result<SaveFile, LoadError>)
    ensures
        match file {
            Ok(file) => loaded(bytes@) == Ok::<SaveFileView, LoadError>(file@),
            Err(error) => loaded(bytes@) == Err::<SaveFileView, LoadError>(error),
        },
{
    let version = match read_text_piece(bytes) {
        Some(text) => text,
        None => {
            return Err(LoadError::BadVersion);
        },
    };
    let version_text = version.as_str();
    let total = bytes.len();
    proof {
        let payload = encode_utf8(version@);
        assert(first_frame(bytes@) == Some(payload));
        assert(version_text.spec_bytes() == payload);
        assert(payload.len() <= total - 8);
        assert(payload.len() as usize == payload.len());
    }
    let behind_version = slice_subrange(bytes, 8 + version_text.len(), total);
    let commit = match read_text_piece(behind_version) {
        Some(text) => text,
        None => {
            return Err(LoadError::BadCommit);
        },
    };
    let commit_text = commit.as_str();
    let left = behind_version.len();
    proof {
        let payload = encode_utf8(commit@);
        assert(first_frame(behind_version@) == Some(payload));
        assert(commit_text.spec_bytes() == payload);
        assert(payload.len() <= left - 8);
        assert(payload.len() as usize == payload.len());
    }
    let behind_commit = slice_subrange(behind_version, 8 + commit_text.len(), left);
    let state = match read_bytes_piece(behind_commit) {
        Some(data) => data,
        None => {
            return Err(LoadError::BadState);
        },
    };
    Ok(
        SaveFile {
            version_differs: !same_text(version_text.as_bytes(), metadata::VERSION.as_bytes()),
            commit_differs: !same_text(commit_text.as_bytes(), metadata::GIT_HASH.as_bytes()),
            state,
        },
    )
}

} // verus!
