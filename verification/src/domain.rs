//! Core domain types and the folder hierarchy rules.

use vstd::prelude::*;

use crate::text::str_eq;

verus! {

/// Domain identifier for a file-system node (a UUID as its 128-bit value).
#[derive(Clone, Copy, Debug, PartialEq, Eq, Hash, Structural)]
pub struct NodeId(u128);

impl View for NodeId {
    type V = u128;

    closed spec fn view(&self) -> u128 {
        self.0
    }
}

impl NodeId {
    /// Wraps a UUID value as a node identifier.
    pub fn new(value: u128) -> (id: Self)
        ensures
            id@ == value,
    {
        NodeId(value)
    }

    /// Returns the underlying UUID value.
    pub fn into_uuid(self) -> (value: u128)
        ensures
            value == self@,
    {
        self.0
    }

    /// Two identifiers are the same exactly when their UUID values are.
    pub proof fn lemma_view_injective(a: NodeId, b: NodeId)
        ensures
            (a == b) <==> (a@ == b@),
    {
    }
}

/// Whether a node represents a folder or a file.
#[derive(Clone, Copy, Debug, PartialEq, Eq, Structural)]
pub enum NodeKind {
    Folder,
    File,
}

/// Lifecycle visibility of a node.
#[derive(Clone, Copy, Debug, PartialEq, Eq, Structural)]
pub enum LifecycleState {
    Active,
    Trashed,
    Deleted,
}

/// A domain node independent of database and HTTP representations.
///
/// Timestamps are microseconds since the Unix epoch, UTC.
#[derive(Clone, Debug)]
pub struct Node {
    pub id: NodeId,
    pub parent_id: Option<NodeId>,
    pub name: String,
    pub kind: NodeKind,
    pub lifecycle_state: LifecycleState,
    pub source_created_at: Option<i64>,
    pub source_modified_at: Option<i64>,
    pub created_at: i64,
    pub updated_at: i64,
}

/// Query boundary for services that need to inspect a folder hierarchy.
pub trait FolderTree {
    /// Returns one node, or `None` when the identifier is unknown.
    fn get_node(&self, id: NodeId) -> Result<Option<Node>, FolderError>;

    /// Returns active children of the requested folder.
    fn list_children(&self, parent_id: NodeId) -> Result<Vec<Node>, FolderError>;
}

/// Expected business-rule failures for folder operations.
#[derive(Clone, Copy, Debug, PartialEq, Eq, Structural)]
pub enum FolderError {
    NameConflict,
    CycleDetected,
    NotFound,
    InvalidName,
}

/// The message shown for each folder failure.
pub open spec fn folder_error_text(error: FolderError) -> Seq<char> {
    match error {
        FolderError::NameConflict => "an active sibling already has that name"@,
        FolderError::CycleDetected => "the move would create a folder cycle"@,
        FolderError::NotFound => "the folder or destination was not found"@,
        FolderError::InvalidName => "folder names cannot be empty"@,
    }
}

impl FolderError {
    /// The message shown for this failure.
    pub fn message(&self) -> (m: &'static str)
        ensures
            m@ == folder_error_text(*self),
    {
        match self {
            FolderError::NameConflict => "an active sibling already has that name",
            FolderError::CycleDetected => "the move would create a folder cycle",
            FolderError::NotFound => "the folder or destination was not found",
            FolderError::InvalidName => "folder names cannot be empty",
        }
    }
}

/// An active sibling carries exactly this name (case-sensitive).
pub open spec fn has_active_sibling_named(siblings: Seq<Node>, name: Seq<char>) -> bool {
    exists|i: int|
        0 <= i < siblings.len() && siblings[i].lifecycle_state == LifecycleState::Active
            && (#[trigger] siblings[i]).name@ == name
}

/// Moving `folder` under `target` would place it beneath itself.
pub open spec fn creates_cycle(folder: NodeId, target: NodeId, descendants: Seq<NodeId>) -> bool {
    target == folder || descendants.contains(target)
}

/// Stateless folder hierarchy validation service.
pub struct FolderRules;

impl FolderRules {
    /// Validates that a folder name contains at least one character.
    pub fn validate_name(name: &str) -> (r: Result<&str, FolderError>)
        ensures
            r is Err <==> name@.len() == 0,
            r matches Err(e) ==> e == FolderError::InvalidName,
            r matches Ok(n) ==> n@ == name@,
    {
        if name.is_empty() {
            Err(FolderError::InvalidName)
        } else {
            Ok(name)
        }
    }

    /// Enforces case-sensitive uniqueness against active sibling nodes.
    pub fn validate_unique_sibling(name: &str, siblings: &[Node]) -> (r: Result<(), FolderError>)
        ensures
            r is Err <==> has_active_sibling_named(siblings@, name@),
            r matches Err(e) ==> e == FolderError::NameConflict,
    {
        let mut i: usize = 0;
        while i < siblings.len()
            invariant
                i <= siblings@.len(),
                forall|k: int|
                    0 <= k < i ==> !((#[trigger] siblings@[k]).lifecycle_state
                        == LifecycleState::Active && siblings@[k].name@ == name@),
            decreases siblings@.len() - i,
        {
            let sibling = &siblings[i];
            if sibling.lifecycle_state == LifecycleState::Active && str_eq(
                sibling.name.as_str(),
                name,
            ) {
                return Err(FolderError::NameConflict);
            }
            i = i + 1;
        }
        Ok(())
    }

    /// Rejects moving a folder beneath itself or any known descendant.
    pub fn validate_move_target(
        folder_id: NodeId,
        target_id: NodeId,
        descendant_ids: &[NodeId],
    ) -> (r: Result<(), FolderError>)
        ensures
            r is Err <==> creates_cycle(folder_id, target_id, descendant_ids@),
            r matches Err(e) ==> e == FolderError::CycleDetected,
    {
        if target_id == folder_id {
            return Err(FolderError::CycleDetected);
        }
        let mut i: usize = 0;
        while i < descendant_ids.len()
            invariant
                i <= descendant_ids@.len(),
                forall|k: int| 0 <= k < i ==> descendant_ids@[k] != target_id,
            decreases descendant_ids@.len() - i,
        {
            if descendant_ids[i] == target_id {
                proof {
                    assert(descendant_ids@[i as int] == target_id);
                }
                return Err(FolderError::CycleDetected);
            }
            i = i + 1;
        }
        Ok(())
    }
}

} // verus!
