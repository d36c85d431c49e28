//! Deleting an entry beneath the storage root: a file is removed alone, a
//! directory with all it holds.
//!
//! Anything else that exists there (a symbolic link, a socket, a pipe) is
//! removed as a single entry, never followed.
use vstd::prelude::*;
use crate::outcome::DeleteOutcome;

verus! {

/// What is found at the path a delete targets.
#[derive(Clone, Copy, Debug, PartialEq, Eq, Structural)]
pub enum EntryKind {
    Missing,
    File,
    Directory,
    Other,
}

/// What a delete does about the entry it found.
#[derive(Clone, Copy, Debug, PartialEq, Eq, Structural)]
pub enum DeletePlan {
    /// Nothing is touched; the response is `NotFound`.
    NotFound,
    /// The entry alone is removed.
    RemoveEntry,
    /// The directory and everything below it are removed.
    RemoveTree,
}

/// The plan for an entry of kind `kind`.
pub open spec fn plan_for(kind: EntryKind) -> DeletePlan {
    match kind {
        EntryKind::Missing => DeletePlan::NotFound,
        EntryKind::Directory => DeletePlan::RemoveTree,
        EntryKind::File | EntryKind::Other => DeletePlan::RemoveEntry,
    }
}

/// The response once `plan` has been carried out; `removed` tells whether
/// the removal succeeded.
pub open spec fn outcome_for(plan: DeletePlan, removed: bool) -> DeleteOutcome {
    match plan {
        DeletePlan::NotFound => DeleteOutcome::NotFound,
        _ => if removed {
            DeleteOutcome::Success
        } else {
            DeleteOutcome::DeleteFailed
        },
    }
}

/// Whether carrying out `plan` changes the file system.
pub open spec fn plan_removes(plan: DeletePlan) -> bool {
    plan != DeletePlan::NotFound
}

/// Decides what to remove, given what the target path holds.
pub fn plan_delete(kind: EntryKind) -> (r: DeletePlan)
    ensures
        r == plan_for(kind),
{
    match kind {
        EntryKind::Missing => DeletePlan::NotFound,
        EntryKind::Directory => DeletePlan::RemoveTree,
        EntryKind::File | EntryKind::Other => DeletePlan::RemoveEntry,
    }
}

/// The response to a delete, given the plan and, for a plan that removes
/// something, whether the removal succeeded.
pub fn finish_delete(plan: DeletePlan, removed: bool) -> (r: DeleteOutcome)
    ensures
        r == outcome_for(plan, removed),
{
    match plan {
        DeletePlan::NotFound => DeleteOutcome::NotFound,
        _ => if removed {
            DeleteOutcome::Success
        } else {
            DeleteOutcome::DeleteFailed
        },
    }
}

/// A delete of a path where nothing exists answers `NotFound` and removes
/// nothing, whatever the removal step would have reported.
pub proof fn lemma_delete_missing(removed: bool)
    ensures
        outcome_for(plan_for(EntryKind::Missing), removed) == DeleteOutcome::NotFound,
        !plan_removes(plan_for(EntryKind::Missing)),
{
}

} // verus!
