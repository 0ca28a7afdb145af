//! Saving and loading: what the file system reports, and what follows from it.
//!
//! Reading and writing files is the caller's part. This module holds the
//! decisions: which error a failed read becomes, in which order the steps of
//! a save are taken, and when a save counts as done.

use vstd::prelude::*;

verus! {

/// What reading a saved store from a path gave.
#[derive(Debug)]
pub enum FileRead {
    /// There is no file at the path.
    Missing,
    /// The file does not hold a mapping from documents to vectors.
    Malformed,
    /// The pairs of document and vector that the file holds, in any order.
    Entries(Vec<(String, Vec<u32>)>),
}

/// A step of saving a store, or the end of the save with its success flag.
#[derive(Clone, Copy, Debug, PartialEq, Eq, Structural)]
pub enum SaveStep {
    /// Turn the mapping into text.
    Serialize,
    /// Make sure that the directory of the destination exists.
    EnsureDirectory,
    /// Write the text to the destination.
    Write,
    /// Nothing is left to do; the flag tells whether the store was saved.
    Finished(bool),
}

/// The step that follows `step` once it has been tried: the next one in order
/// when it succeeded, the end with `false` when it failed. The end stays the
/// end.
pub open spec fn step_after(step: SaveStep, succeeded: bool) -> SaveStep {
    match step {
        SaveStep::Finished(flag) => SaveStep::Finished(flag),
        _ => if !succeeded {
            SaveStep::Finished(false)
        } else {
            match step {
                SaveStep::Serialize => SaveStep::EnsureDirectory,
                SaveStep::EnsureDirectory => SaveStep::Write,
                _ => SaveStep::Finished(true),
            }
        },
    }
}

/// Where a save ends when its three steps are tried in order and `serialized`,
/// `directory` and `written` tell how each would go.
pub open spec fn save_run(serialized: bool, directory: bool, written: bool) -> SaveStep {
    step_after(
        step_after(step_after(SaveStep::Serialize, serialized), directory),
        written,
    )
}

/// The first step of every save.
pub fn save_begin() -> (step: SaveStep)
    ensures
        step == SaveStep::Serialize,
{
    SaveStep::Serialize
}

/// The step to take after `step` was tried with the given success.
pub fn save_advance(step: SaveStep, succeeded: bool) -> (next: SaveStep)
    ensures
        next == step_after(step, succeeded),
{
    match step {
        SaveStep::Finished(flag) => SaveStep::Finished(flag),
        SaveStep::Serialize => if succeeded {
            SaveStep::EnsureDirectory
        } else {
            SaveStep::Finished(false)
        },
        SaveStep::EnsureDirectory => if succeeded {
            SaveStep::Write
        } else {
            SaveStep::Finished(false)
        },
        SaveStep::Write => SaveStep::Finished(succeeded),
    }
}

/// A save reports success exactly when all three steps succeeded, and a step
/// that failed ends it: how later steps would have gone does not matter.
pub proof fn lemma_save_flag(serialized: bool, directory: bool, written: bool)
    ensures
        save_run(serialized, directory, written) == SaveStep::Finished(
            serialized && directory && written,
        ),
        !serialized ==> step_after(SaveStep::Serialize, serialized) == SaveStep::Finished(false),
        serialized && !directory ==> step_after(
            step_after(SaveStep::Serialize, serialized),
            directory,
        ) == SaveStep::Finished(false),
{
}

} // verus!
