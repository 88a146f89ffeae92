use strife::domain::{FolderError, FolderRules, LifecycleState, Node, NodeId, NodeKind};
use uuid::Uuid;

fn node(id: u128, name: &str, lifecycle_state: LifecycleState) -> Node {
    Node {
        id: NodeId::new(id),
        parent_id: None,
        name: name.to_owned(),
        kind: NodeKind::Folder,
        lifecycle_state,
        source_created_at: None,
        source_modified_at: None,
        created_at: 1_700_000_000_000_000,
        updated_at: 1_700_000_000_000_000,
    }
}

#[test]
fn rejects_only_empty_names() {
    assert_eq!(
        FolderRules::validate_name(""),
        Err(FolderError::InvalidName)
    );
    assert_eq!(FolderRules::validate_name(" "), Ok(" "));
    assert_eq!(FolderRules::validate_name("Photos"), Ok("Photos"));
}

#[test]
fn sibling_uniqueness_is_active_and_case_sensitive() {
    let siblings = [
        node(10, "Photos", LifecycleState::Active),
        node(11, "Archive", LifecycleState::Trashed),
    ];

    assert_eq!(
        FolderRules::validate_unique_sibling("Photos", &siblings),
        Err(FolderError::NameConflict)
    );
    assert_eq!(
        FolderRules::validate_unique_sibling("photos", &siblings),
        Ok(())
    );
    assert_eq!(
        FolderRules::validate_unique_sibling("Archive", &siblings),
        Ok(())
    );
}

#[test]
fn rejects_self_and_descendant_move_targets() {
    let folder_id = NodeId::new(Uuid::new_v4().as_u128());
    let child_id = NodeId::new(Uuid::new_v4().as_u128());
    let unrelated_id = NodeId::new(Uuid::new_v4().as_u128());

    assert_eq!(
        FolderRules::validate_move_target(folder_id, folder_id, &[child_id]),
        Err(FolderError::CycleDetected)
    );
    assert_eq!(
        FolderRules::validate_move_target(folder_id, child_id, &[child_id]),
        Err(FolderError::CycleDetected)
    );
    assert_eq!(
        FolderRules::validate_move_target(folder_id, unrelated_id, &[child_id]),
        Ok(())
    );
}

#[test]
fn deleted_and_trashed_siblings_never_conflict() {
    let siblings = [
        node(1, "Same", LifecycleState::Deleted),
        node(2, "Same", LifecycleState::Trashed),
    ];
    assert_eq!(FolderRules::validate_unique_sibling("Same", &siblings), Ok(()));
    assert_eq!(FolderRules::validate_unique_sibling("Same", &[]), Ok(()));
}

#[test]
fn a_deep_descendant_is_a_cycle_and_an_empty_tree_is_not() {
    let folder = NodeId::new(7);
    let deep = NodeId::new(99);
    let descendants = [NodeId::new(8), NodeId::new(9), deep];
    assert_eq!(
        FolderRules::validate_move_target(folder, deep, &descendants),
        Err(FolderError::CycleDetected)
    );
    assert_eq!(FolderRules::validate_move_target(folder, deep, &[]), Ok(()));
}

#[test]
fn node_ids_round_trip_and_errors_explain_themselves() {
    let id = NodeId::new(0xdead_beef);
    assert_eq!(id.into_uuid(), 0xdead_beef);
    assert_eq!(FolderError::InvalidName.message(), "folder names cannot be empty");
    assert_eq!(
        FolderError::NameConflict.message(),
        "an active sibling already has that name"
    );
    assert_eq!(
        FolderError::CycleDetected.message(),
        "the move would create a folder cycle"
    );
    assert_eq!(
        FolderError::NotFound.message(),
        "the folder or destination was not found"
    );
}
