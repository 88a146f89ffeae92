//! Watched-folder import entries: their lifecycle and publishing a staged
//! import.

use vstd::prelude::*;

use crate::db::states::{ImportEntryState, NodeKind};

verus! {

/// Expected failures while atomically publishing a watched-folder import.
#[derive(Clone, Copy, Debug, PartialEq, Eq, Structural)]
pub enum FinalizeImportError {
    NotFound,
    NotReady,
    NameConflict,
}

/// What publishing an import entry does once the entry is locked.
#[derive(Clone, Copy, Debug, PartialEq, Eq, Structural)]
pub enum ImportFinalization {
    /// The entry was already imported: return the node it produced.
    AlreadyImported,
    /// Recreate the folders and publish the file.
    Publish,
}

/// How publishing answers for an entry in `state` (`None`: no such entry).
pub open spec fn finalization_of(state: Option<ImportEntryState>) -> Result<
    ImportFinalization,
    FinalizeImportError,
> {
    match state {
        None => Err(FinalizeImportError::NotFound),
        Some(ImportEntryState::Imported) => Ok(ImportFinalization::AlreadyImported),
        Some(ImportEntryState::Stable) | Some(ImportEntryState::Importing) => Ok(
            ImportFinalization::Publish,
        ),
        Some(_) => Err(FinalizeImportError::NotReady),
    }
}

/// Decides how to publish an import entry from its locked state (`None` when
/// the entry does not exist). Publishing an imported entry again returns its
/// node; only a stable entry, or one interrupted while importing, publishes.
pub fn finalize_import_gate(state: Option<ImportEntryState>) -> (r: Result<
    ImportFinalization,
    FinalizeImportError,
>)
    ensures
        r == finalization_of(state),
{
    match state {
        None => Err(FinalizeImportError::NotFound),
        Some(ImportEntryState::Imported) => Ok(ImportFinalization::AlreadyImported),
        Some(ImportEntryState::Stable) | Some(ImportEntryState::Importing) => Ok(
            ImportFinalization::Publish,
        ),
        Some(_) => Err(FinalizeImportError::NotReady),
    }
}

/// What to do with one source directory level while recreating the hierarchy.
#[derive(Clone, Copy, Debug, PartialEq, Eq, Structural)]
pub enum ImportFolderStep {
    /// An active folder with that name exists: reuse it.
    Reuse,
    /// Nothing active has that name: create the folder.
    Create,
}

/// Decides a directory level from the kind of the active node that already
/// carries its name, if any. A file in the way is a name conflict, which fails
/// the whole import.
pub fn import_folder_step(existing: Option<NodeKind>) -> (r: Result<
    ImportFolderStep,
    FinalizeImportError,
>)
    ensures
        r == match existing {
            Some(NodeKind::Folder) => Ok(ImportFolderStep::Reuse),
            Some(NodeKind::File) => Err(FinalizeImportError::NameConflict),
            None => Ok(ImportFolderStep::Create),
        },
{
    match existing {
        Some(NodeKind::Folder) => Ok(ImportFolderStep::Reuse),
        Some(NodeKind::File) => Err(FinalizeImportError::NameConflict),
        None => Ok(ImportFolderStep::Create),
    }
}


/// Entries that the next import pass works on: discovered, stable, or left at
/// the importing checkpoint by an interruption.
pub open spec fn is_pending_entry(state: ImportEntryState) -> bool {
    match state {
        ImportEntryState::Discovered | ImportEntryState::Stable
        | ImportEntryState::Importing => true,
        ImportEntryState::Imported | ImportEntryState::Failed => false,
    }
}

/// An entry's state when its path is discovered again: an imported path that
/// reappears is a new attempt and starts over; any other keeps its state.
pub open spec fn state_after_rediscovery(state: ImportEntryState) -> ImportEntryState {
    if state == ImportEntryState::Imported {
        ImportEntryState::Discovered
    } else {
        state
    }
}

/// Whether the entry is on the next import pass's list.
pub fn pending_entry(state: ImportEntryState) -> (r: bool)
    ensures
        r == is_pending_entry(state),
{
    match state {
        ImportEntryState::Discovered | ImportEntryState::Stable
        | ImportEntryState::Importing => true,
        ImportEntryState::Imported | ImportEntryState::Failed => false,
    }
}

/// The state a rediscovered entry takes. An imported entry also forgets the
/// node and checksum it produced.
pub fn rediscovered_state(state: ImportEntryState) -> (next: ImportEntryState)
    ensures
        next == state_after_rediscovery(state),
{
    match state {
        ImportEntryState::Imported => ImportEntryState::Discovered,
        _ => state,
    }
}

/// Whether a user's retry applies: only a failed entry is reset.
pub fn retry_applies(state: ImportEntryState) -> (r: bool)
    ensures
        r == (state == ImportEntryState::Failed),
{
    state == ImportEntryState::Failed
}

/// Whether the importing checkpoint may be recorded: the entry is stable, or
/// already at the checkpoint after an interruption.
pub fn importing_checkpoint_applies(state: ImportEntryState) -> (r: bool)
    ensures
        r == (state == ImportEntryState::Stable || state == ImportEntryState::Importing),
{
    match state {
        ImportEntryState::Stable | ImportEntryState::Importing => true,
        _ => false,
    }
}

/// Every entry that may take the importing checkpoint is one that publishing
/// accepts, and both stay on the pending list, so an interrupted import is
/// picked up and finished by the next pass. A path that reappears after it
/// was imported goes back on the list; a failed entry waits for a retry.
pub proof fn lemma_interrupted_imports_are_resumed(state: ImportEntryState)
    ensures
        (state == ImportEntryState::Stable || state == ImportEntryState::Importing) ==> (
        is_pending_entry(state) && is_pending_entry(ImportEntryState::Importing)
            && finalization_of(Some(state)) == Ok::<ImportFinalization, FinalizeImportError>(
            ImportFinalization::Publish,
        )),
        finalization_of(Some(ImportEntryState::Imported)) == Ok::<
            ImportFinalization,
            FinalizeImportError,
        >(ImportFinalization::AlreadyImported),
        is_pending_entry(state_after_rediscovery(ImportEntryState::Imported)),
        !is_pending_entry(ImportEntryState::Failed),
        state != ImportEntryState::Imported ==> state_after_rediscovery(state) == state,
{
}

} // verus!
