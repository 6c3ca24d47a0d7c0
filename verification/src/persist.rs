//! The two operations that the frontend calls: keep the canvas in a file, and
//! bring it back.
//!
//! The host does the reading and writing. What is decided here is the text
//! that goes into the file, what a text from a file stands for, which failure
//! the caller is told of, and which menu flags a finished transfer sets.

use crate::codec::{
    decode, decoded, encode, encoded, expressible, format_of, lemma_round_trip, Format, ParseError,
};
use crate::dispatch::FlagUpdate;
use crate::snapshot::{Snapshot, SnapshotView};
use crate::state::{transfer_updates, MenuState};
use vstd::prelude::*;

verus! {

/// Why the host could not read or write a file.
#[derive(Clone, Copy, Debug, PartialEq, Eq, Structural)]
pub enum IoFailure {
    /// There is no file at the path.
    NotFound,
    /// Any other failure of the file system.
    Other,
}

/// Why the canvas could not be brought back from a file.
#[derive(Clone, Copy, Debug, PartialEq, Eq, Structural)]
pub enum LoadError {
    /// The file could not be read.
    Io(IoFailure),
    /// The file was read, and its text is no snapshot.
    Parse(ParseError),
}

/// A snapshot that was brought back, and the flags that the host has to set.
#[derive(Debug, PartialEq, Eq)]
pub struct Loaded {
    pub snapshot: Snapshot,
    pub updates: Vec<FlagUpdate>,
}

/// What a read that ended as `read` gives in the form `format`: the failure
/// of the file system, the reason why the text is no snapshot, or the
/// snapshot.
pub open spec fn load_result(format: Format, read: Result<Seq<char>, IoFailure>) -> Result<
    SnapshotView,
    LoadError,
> {
    match read {
        Err(failure) => Err(LoadError::Io(failure)),
        Ok(text) => match decoded(format, text) {
            Err(e) => Err(LoadError::Parse(e)),
            Ok(snapshot) => Ok(snapshot),
        },
    }
}

/// A snapshot comes back as it was where the read hands back the text that
/// was written for it.
pub proof fn lemma_saved_then_loaded(snapshot: SnapshotView)
    requires
        expressible(snapshot),
    ensures
        load_result(format_of(snapshot), Ok(encoded(snapshot))) == Ok::<SnapshotView, LoadError>(
            snapshot,
        ),
{
    lemma_round_trip(snapshot);
}

/// The text that the host has to write to keep `snapshot`.
pub fn begin_save(snapshot: &Snapshot) -> (text: String)
    ensures
        text@ == encoded(snapshot@),
{
    encode(snapshot)
}

/// Takes note of how the write ended. After a write that succeeded the menu
/// state has the flags of a finished transfer, and the host is told to set
/// them. After one that failed nothing changes and the failure is handed on.
pub fn finish_save(state: &mut MenuState, written: Result<(), IoFailure>) -> (done: Result<
    Vec<FlagUpdate>,
    IoFailure,
>)
    ensures
        match written {
            Ok(_) => done matches Ok(updates) && updates@ == transfer_updates() && *final(state)
                == old(state).after_transfer(),
            Err(failure) => done == Err::<Vec<FlagUpdate>, IoFailure>(failure) && *final(state)
                == *old(state),
        },
{
    match written {
        Ok(_) => Ok(state.transfer_done()),
        Err(failure) => Err(failure),
    }
}

/// Takes note of how the read ended and says what was read. After a read that
/// succeeded with a text that is a snapshot in the form `format`, the menu
/// state has the flags of a finished transfer, and the host is told to set
/// them. In every other case nothing changes and the caller is told why.
pub fn finish_load(state: &mut MenuState, format: Format, read: Result<String, IoFailure>) -> (done:
    Result<Loaded, LoadError>)
    ensures
        load_result(
            format,
            match read {
                Ok(text) => Ok(text@),
                Err(failure) => Err(failure),
            },
        ) == match done {
            Ok(loaded) => Ok::<SnapshotView, LoadError>(loaded.snapshot@),
            Err(e) => Err(e),
        },
        match done {
            Ok(loaded) => loaded.updates@ == transfer_updates() && *final(state) == old(
                state,
            ).after_transfer(),
            Err(_) => *final(state) == *old(state),
        },
{
    match read {
        Err(failure) => Err(LoadError::Io(failure)),
        Ok(text) => match decode(format, text.as_str()) {
            Err(e) => Err(LoadError::Parse(e)),
            Ok(snapshot) => {
                let updates = state.transfer_done();
                Ok(Loaded { snapshot, updates })
            },
        },
    }
}

} // verus!
