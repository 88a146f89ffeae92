use strife::db::backfill::{
    campaign_transition_allowed, campaign_transition_applies, refill_may_enumerate,
    refill_state_permits, summarize_refill, transition_needs_free_heavy_permit,
    transition_skips_pending_jobs, RefillBatch, RefillCandidate,
};
use strife::db::email::{
    email_attachment_artifact_id, email_event_subject, none_if_empty, saturating_i32,
    EmailSearchFilters, EMAIL_ATTACHMENT_NAMESPACE, EMAIL_EVENT_SUBJECT_LIMIT,
};
use strife::db::folders::{
    children_kind_clause, children_kind_filter, children_order_sql, children_sort_sql,
    children_use_name_cursor, find_move_conflicts, sorted_unique_ids, ChildrenKindFilter,
    ChildrenSort, FolderMoveConflictReason, SortOrder,
};
use strife::db::imports::{
    finalize_import_gate, import_folder_step, FinalizeImportError, ImportFinalization,
    ImportFolderStep,
};
use strife::db::jobs::{
    claim_needs_resource_slot, default_resource_class, foreground_claims_after,
    select_claim_candidate,
};
use strife::db::records::{ocr_preflight_totals, NodeRecord, OcrPreflightFamily};
use strife::db::states::{
    BackfillState, EmailExtractionStatus, ImportEntryState, JobOrigin, JobResourceClass, JobType,
    LifecycleState, NodeKind, UploadSessionState,
};
use strife::db::trash::{
    favorite_outcome, favorite_target_allowed, permanent_deletion_gate, restore_parent,
    top_level_ids, trash_selection, TrashMutationError, DEFAULT_IMPORT_SOURCE_ID, ROOT_NODE_ID,
};
use strife::db::uploads::{
    admit_chunk, chunk_byte_count, finalize_upload_gate, FinalizeUploadError, ReceivedRange,
    RecordChunkError, UploadFinalization, UploadSessionRecord,
};
use strife::domain::{FolderError, NodeId};
use uuid::Uuid;

#[test]
fn foreground_jobs_draw_from_their_documented_pools() {
    assert_eq!(
        default_resource_class(JobType::MetadataExtraction),
        JobResourceClass::Extractor
    );
    assert_eq!(
        default_resource_class(JobType::PreviewGeneration),
        JobResourceClass::Preview
    );
    assert_eq!(default_resource_class(JobType::Ocr), JobResourceClass::HeavyCpu);
    assert_eq!(
        default_resource_class(JobType::EmailExtraction),
        JobResourceClass::HeavyCpu
    );
    assert_eq!(
        default_resource_class(JobType::AttachmentExtraction),
        JobResourceClass::HeavyCpu
    );
    assert_eq!(
        default_resource_class(JobType::ImportScan),
        JobResourceClass::HeavyIo
    );
    assert_eq!(
        default_resource_class(JobType::TrashCleanup),
        JobResourceClass::Light
    );
    assert_eq!(
        default_resource_class(JobType::PermanentDeletion),
        JobResourceClass::Light
    );
}

#[test]
fn claims_prefer_the_fairness_backfill_then_foreground_then_fallback() {
    assert_eq!(select_claim_candidate(Some(1), Some(2), Some(3)), Some(1));
    assert_eq!(select_claim_candidate(None, Some(2), Some(3)), Some(2));
    assert_eq!(select_claim_candidate(None, None, Some(3)), Some(3));
    assert_eq!(select_claim_candidate::<u8>(None, None, None), None);
    assert!(!claim_needs_resource_slot(JobResourceClass::Light));
    assert!(claim_needs_resource_slot(JobResourceClass::HeavyCpu));
    assert!(claim_needs_resource_slot(JobResourceClass::Extractor));
    assert_eq!(foreground_claims_after(4, JobOrigin::Foreground), Some(5));
    assert_eq!(foreground_claims_after(4, JobOrigin::Backfill), Some(0));
    assert_eq!(foreground_claims_after(4, JobOrigin::Repair), Some(4));
    assert_eq!(foreground_claims_after(i32::MAX, JobOrigin::Foreground), None);
}

#[test]
fn campaign_transitions_follow_the_operator_table() {
    let all = [BackfillState::Draft, BackfillState::Paused, BackfillState::Running, BackfillState::Draining, BackfillState::Completed, BackfillState::Cancelled, BackfillState::Failed];
    let allowed = [
        (BackfillState::Paused, BackfillState::Running),
        (BackfillState::Running, BackfillState::Paused),
        (BackfillState::Running, BackfillState::Draining),
        (BackfillState::Paused, BackfillState::Cancelled),
        (BackfillState::Running, BackfillState::Cancelled),
        (BackfillState::Draining, BackfillState::Cancelled),
        (BackfillState::Paused, BackfillState::Failed),
        (BackfillState::Running, BackfillState::Failed),
        (BackfillState::Draining, BackfillState::Failed),
        (BackfillState::Draining, BackfillState::Completed),
    ];
    for current in all {
        for target in all {
            assert_eq!(
                campaign_transition_allowed(current, target),
                allowed.contains(&(current, target)),
                "{current:?} -> {target:?}"
            );
        }
    }
    assert!(transition_needs_free_heavy_permit(BackfillState::Running));
    assert!(!transition_needs_free_heavy_permit(BackfillState::Paused));
    assert!(transition_skips_pending_jobs(BackfillState::Cancelled));
    assert!(!transition_skips_pending_jobs(BackfillState::Failed));
}

#[test]
fn a_second_heavy_campaign_cannot_resume() {
    assert!(campaign_transition_applies(Some(BackfillState::Paused), BackfillState::Running, 0));
    assert!(!campaign_transition_applies(Some(BackfillState::Paused), BackfillState::Running, 1));
    assert!(campaign_transition_applies(Some(BackfillState::Running), BackfillState::Paused, 3));
    assert!(!campaign_transition_applies(None, BackfillState::Paused, 0));
    assert!(!campaign_transition_applies(Some(BackfillState::Draft), BackfillState::Running, 0));
    assert!(!campaign_transition_applies(Some(BackfillState::Completed), BackfillState::Cancelled, 0));
}

#[test]
fn refills_enumerate_only_prepared_running_campaigns() {
    assert!(!refill_may_enumerate(None, 100));
    assert!(!refill_may_enumerate(Some(1_700_000_000_000_000), 0));
    assert!(!refill_may_enumerate(Some(1_700_000_000_000_000), -5));
    assert!(refill_may_enumerate(Some(1_700_000_000_000_000), 1));
    assert!(refill_state_permits(Some(BackfillState::Running)));
    assert!(!refill_state_permits(Some(BackfillState::Paused)));
    assert!(!refill_state_permits(None));
}

#[test]
fn a_refill_batch_advances_to_its_last_candidate() {
    let candidates = [
        RefillCandidate { node_id: 5, created_at: 10 },
        RefillCandidate { node_id: 2, created_at: 11 },
        RefillCandidate { node_id: 9, created_at: 12 },
    ];
    assert_eq!(
        summarize_refill(3, &candidates, &[true, false, true]),
        RefillBatch {
            enqueued: 2,
            exhausted: false,
            cursor: Some(RefillCandidate { node_id: 9, created_at: 12 }),
        }
    );
    assert_eq!(
        summarize_refill(4, &candidates, &[true, true, true]),
        RefillBatch {
            enqueued: 3,
            exhausted: true,
            cursor: Some(RefillCandidate { node_id: 9, created_at: 12 }),
        }
    );
    assert_eq!(
        summarize_refill(4, &[], &[]),
        RefillBatch { enqueued: 0, exhausted: true, cursor: None }
    );
}

#[test]
fn event_subjects_are_cut_at_a_character_boundary() {
    assert_eq!(EMAIL_EVENT_SUBJECT_LIMIT, 120);
    assert_eq!(email_event_subject(None), None);
    assert_eq!(email_event_subject(Some("short")), Some("short"));
    let exact = "a".repeat(120);
    assert_eq!(email_event_subject(Some(&exact)), Some(exact.as_str()));
    let long = "b".repeat(200);
    assert_eq!(email_event_subject(Some(&long)), Some(&long[..120]));
    // 119 ASCII bytes followed by a two-byte character: byte 120 falls inside
    // the character, so the cut backs up to 119.
    let straddling = format!("{}é tail", "c".repeat(119));
    assert_eq!(email_event_subject(Some(&straddling)), Some(&straddling[..119]));
    let wide = "€".repeat(50);
    let cut = email_event_subject(Some(&wide)).unwrap();
    assert_eq!(cut.len(), 120);
    assert_eq!(cut, "€".repeat(40));
}

#[test]
fn attachment_artifact_ids_hash_the_message_and_part_path() {
    let node = 0x67e5_5044_10b1_426f_9247_bb68_0e5f_e0c8u128;
    let expected = Uuid::new_v5(
        &Uuid::from_u128(EMAIL_ATTACHMENT_NAMESPACE),
        format!("{}:{}", Uuid::from_u128(node), "1.2").as_bytes(),
    )
    .as_u128();
    assert_eq!(email_attachment_artifact_id(node, "1.2"), expected);
    assert_eq!(
        email_attachment_artifact_id(node, "1.2"),
        email_attachment_artifact_id(node, "1.2")
    );
    assert_ne!(
        email_attachment_artifact_id(node, "1.2"),
        email_attachment_artifact_id(node, "1.3")
    );
    assert_ne!(
        email_attachment_artifact_id(node, "1.2"),
        email_attachment_artifact_id(node + 1, "1.2")
    );
    let zero = Uuid::new_v5(
        &Uuid::from_u128(EMAIL_ATTACHMENT_NAMESPACE),
        b"00000000-0000-0000-0000-000000000000:",
    )
    .as_u128();
    assert_eq!(email_attachment_artifact_id(0, ""), zero);
}

#[test]
fn only_structured_filters_constrain_a_search() {
    let mut filters = EmailSearchFilters::default();
    assert!(filters.is_empty());
    filters.include_trashed = true;
    filters.include_duplicates = true;
    assert!(filters.is_empty(), "visibility switches narrow nothing");
    filters.labels.push("Receipts".to_owned());
    assert!(!filters.is_empty());
    let dated = EmailSearchFilters {
        after: Some(0),
        ..EmailSearchFilters::default()
    };
    assert!(!dated.is_empty());
    let by_status = EmailSearchFilters {
        status: Some(EmailExtractionStatus::Failed),
        ..EmailSearchFilters::default()
    };
    assert!(!by_status.is_empty());
    let by_thread = EmailSearchFilters {
        thread_group_id: Some(7),
        ..EmailSearchFilters::default()
    };
    assert!(!by_thread.is_empty());
}

#[test]
fn empty_lists_bind_no_filter_and_counts_saturate() {
    assert_eq!(none_if_empty(&[]), None);
    let values = vec!["a@example.test".to_owned()];
    assert_eq!(none_if_empty(&values), Some(values.as_slice()));
    assert_eq!(saturating_i32(0), 0);
    assert_eq!(saturating_i32(41), 41);
    assert_eq!(saturating_i32(i32::MAX as usize), i32::MAX);
    assert_eq!(saturating_i32(i32::MAX as usize + 1), i32::MAX);
}

#[test]
fn preflight_totals_sum_every_family() {
    let family = |mime: &str, candidates: i64, total_bytes: i64| OcrPreflightFamily {
        detected_mime: mime.to_owned(),
        candidates,
        total_bytes,
        p50_bytes: 0,
        p95_bytes: 0,
        max_bytes: 0,
    };
    assert_eq!(ocr_preflight_totals(&[]), (0, 0));
    assert_eq!(
        ocr_preflight_totals(&[
            family("application/pdf", 2, 30_000),
            family("image/jpeg", 1, 90_000)
        ]),
        (3, 120_000)
    );
}

fn session(state: UploadSessionState, expected: Option<i64>, received: i64) -> UploadSessionRecord {
    UploadSessionRecord {
        id: 1,
        target_folder_id: ROOT_NODE_ID,
        display_name: "resume.bin".to_owned(),
        expected_byte_size: expected,
        received_bytes: received,
        staging_key: "abc".to_owned(),
        state,
        checksum_sha256: None,
        completed_node_id: None,
        source_created_at: None,
        source_modified_at: None,
        expires_at: 0,
        created_at: 0,
        updated_at: 0,
    }
}

#[test]
fn chunks_are_recorded_only_on_active_sessions_without_overlap() {
    let existing = [
        ReceivedRange { start_byte: 5, end_byte: 9 },
        ReceivedRange { start_byte: 0, end_byte: 4 },
    ];
    assert_eq!(admit_chunk(None, &existing, 10, 12), Err(RecordChunkError::NotFound));
    assert_eq!(
        admit_chunk(Some(UploadSessionState::Completed), &existing, 10, 12),
        Err(RecordChunkError::NotActive)
    );
    assert_eq!(
        admit_chunk(Some(UploadSessionState::Active), &existing, 9, 12),
        Err(RecordChunkError::Overlap)
    );
    assert_eq!(
        admit_chunk(Some(UploadSessionState::Active), &existing, 3, 3),
        Err(RecordChunkError::Overlap)
    );
    assert_eq!(admit_chunk(Some(UploadSessionState::Active), &existing, 10, 12), Ok(()));
    assert_eq!(admit_chunk(Some(UploadSessionState::Active), &[], 0, 0), Ok(()));
    assert_eq!(chunk_byte_count(10, 12), Some(3));
    assert_eq!(chunk_byte_count(5, 5), Some(1));
    assert_eq!(chunk_byte_count(i64::MIN, i64::MAX), None);
    assert_eq!(chunk_byte_count(0, i64::MAX), None);
}

#[test]
fn finalizing_an_upload_is_idempotent_and_requires_every_byte() {
    assert_eq!(finalize_upload_gate(None), Err(FinalizeUploadError::NotFound));
    assert_eq!(
        finalize_upload_gate(Some(&session(UploadSessionState::Completed, Some(10), 3))),
        Ok(UploadFinalization::AlreadyCompleted)
    );
    assert_eq!(
        finalize_upload_gate(Some(&session(UploadSessionState::Cancelled, None, 0))),
        Err(FinalizeUploadError::NotActive)
    );
    assert_eq!(
        finalize_upload_gate(Some(&session(UploadSessionState::Active, Some(10), 9))),
        Err(FinalizeUploadError::Incomplete)
    );
    assert_eq!(
        finalize_upload_gate(Some(&session(UploadSessionState::Active, Some(10), 10))),
        Ok(UploadFinalization::Publish)
    );
    assert_eq!(
        finalize_upload_gate(Some(&session(UploadSessionState::Active, None, 3))),
        Ok(UploadFinalization::Publish)
    );
}

#[test]
fn imports_publish_once_from_a_stable_entry() {
    assert_eq!(finalize_import_gate(None), Err(FinalizeImportError::NotFound));
    assert_eq!(
        finalize_import_gate(Some(ImportEntryState::Imported)),
        Ok(ImportFinalization::AlreadyImported)
    );
    assert_eq!(
        finalize_import_gate(Some(ImportEntryState::Stable)),
        Ok(ImportFinalization::Publish)
    );
    assert_eq!(
        finalize_import_gate(Some(ImportEntryState::Importing)),
        Ok(ImportFinalization::Publish)
    );
    assert_eq!(
        finalize_import_gate(Some(ImportEntryState::Discovered)),
        Err(FinalizeImportError::NotReady)
    );
    assert_eq!(
        finalize_import_gate(Some(ImportEntryState::Failed)),
        Err(FinalizeImportError::NotReady)
    );
    assert_eq!(import_folder_step(None), Ok(ImportFolderStep::Create));
    assert_eq!(import_folder_step(Some(NodeKind::Folder)), Ok(ImportFolderStep::Reuse));
    assert_eq!(
        import_folder_step(Some(NodeKind::File)),
        Err(FinalizeImportError::NameConflict)
    );
}

fn folder(id: u128, name: &str) -> NodeRecord {
    NodeRecord {
        id,
        parent_id: Some(ROOT_NODE_ID),
        name: name.to_owned(),
        kind: NodeKind::Folder,
        lifecycle_state: LifecycleState::Active,
        source_created_at: None,
        source_modified_at: None,
        created_at: 0,
        updated_at: 0,
    }
}

#[test]
fn selections_are_sorted_and_deduplicated() {
    assert_eq!(sorted_unique_ids(&[5, 3, 5, 1, 3]), vec![1, 3, 5]);
    assert_eq!(sorted_unique_ids(&[]), Vec::<u128>::new());
    assert_eq!(sorted_unique_ids(&[u128::MAX, 0]), vec![0, u128::MAX]);
}

#[test]
fn batch_moves_report_cycles_first_and_each_folder_once() {
    let folders = [folder(10, "A"), folder(20, "B"), folder(30, "A"), folder(40, "C")];
    let destination = 99;
    let descendants = vec![
        vec![NodeId::new(99)],
        vec![],
        vec![],
        vec![NodeId::new(41)],
    ];
    let conflicts = find_move_conflicts(&folders, destination, &descendants, &[false, false, false, true]);
    let summary: Vec<(u128, &str, FolderMoveConflictReason)> = conflicts
        .iter()
        .map(|c| (c.id, c.name.as_str(), c.reason))
        .collect();
    assert_eq!(
        summary,
        vec![
            (10, "A", FolderMoveConflictReason::CycleDetected),
            (30, "A", FolderMoveConflictReason::NameConflict),
            (40, "C", FolderMoveConflictReason::NameConflict),
        ]
    );
    let moving_into_itself = find_move_conflicts(&[folder(7, "X")], 7, &[vec![]], &[false]);
    assert_eq!(moving_into_itself.len(), 1);
    assert_eq!(moving_into_itself[0].reason, FolderMoveConflictReason::CycleDetected);
    assert!(find_move_conflicts(&[folder(7, "X")], 8, &[vec![]], &[false]).is_empty());
}

#[test]
fn children_listing_query_fragments_come_from_the_enums() {
    assert_eq!(children_order_sql(SortOrder::Asc), "ASC");
    assert_eq!(children_order_sql(SortOrder::Desc), "DESC");
    assert_eq!(children_sort_sql(ChildrenSort::Name), "n.name");
    assert_eq!(children_sort_sql(ChildrenSort::Kind), "n.kind::text");
    assert_eq!(children_sort_sql(ChildrenSort::Size), "COALESCE(fo.byte_size, 0)");
    assert_eq!(children_sort_sql(ChildrenSort::UpdatedAt), "n.updated_at");
    assert_eq!(children_sort_sql(ChildrenSort::CreatedAt), "n.created_at");
    assert_eq!(children_kind_clause(ChildrenKindFilter::Folder), "n.kind = 'folder'");
    assert_eq!(children_kind_filter(&[]), "TRUE");
    assert_eq!(
        children_kind_filter(&[ChildrenKindFilter::Folder, ChildrenKindFilter::Video]),
        "(n.kind = 'folder' OR n.kind = 'file' AND nm.media_kind = 'video')"
    );
    assert_eq!(
        children_kind_filter(&[ChildrenKindFilter::Audio]),
        "(n.kind = 'file' AND nm.media_kind = 'audio')"
    );
    assert_eq!(ChildrenSort::default(), ChildrenSort::Name);
    assert_eq!(SortOrder::default(), SortOrder::Asc);
    assert!(children_use_name_cursor(ChildrenSort::Name, SortOrder::Asc, &[]));
    assert!(!children_use_name_cursor(ChildrenSort::Name, SortOrder::Desc, &[]));
    assert!(!children_use_name_cursor(ChildrenSort::Size, SortOrder::Asc, &[]));
    assert!(!children_use_name_cursor(
        ChildrenSort::Name,
        SortOrder::Asc,
        &[ChildrenKindFilter::Image]
    ));
}

#[test]
fn the_root_is_never_trashed_and_nested_selections_collapse() {
    assert_eq!(DEFAULT_IMPORT_SOURCE_ID, 3);
    assert_eq!(trash_selection(&[]), Ok(vec![]));
    assert_eq!(trash_selection(&[4, 2, 4]), Ok(vec![2, 4]));
    assert_eq!(
        trash_selection(&[4, ROOT_NODE_ID]),
        Err(TrashMutationError::CannotTrashRoot)
    );
    // 4 sits below 2; both are selected, so only 2 gets a trash entry.
    let ancestry = [(4, 2), (4, ROOT_NODE_ID), (2, ROOT_NODE_ID), (6, 5)];
    assert_eq!(top_level_ids(&[2, 4, 6], &[2, 4, 6], &ancestry), vec![2, 6]);
    assert_eq!(top_level_ids(&[4], &[4], &ancestry), vec![4]);
}

#[test]
fn restores_fall_back_to_the_root_and_deletions_need_trash() {
    assert_eq!(restore_parent(Some(12), true), 12);
    assert_eq!(restore_parent(Some(12), false), ROOT_NODE_ID);
    assert_eq!(restore_parent(None, true), ROOT_NODE_ID);
    assert_eq!(permanent_deletion_gate(None), Ok(false));
    assert_eq!(
        permanent_deletion_gate(Some((9, LifecycleState::Active))),
        Err(TrashMutationError::NotTrashed)
    );
    assert_eq!(
        permanent_deletion_gate(Some((ROOT_NODE_ID, LifecycleState::Trashed))),
        Err(TrashMutationError::CannotTrashRoot)
    );
    assert_eq!(permanent_deletion_gate(Some((9, LifecycleState::Trashed))), Ok(true));
}

#[test]
fn favorites_exclude_the_root_and_are_idempotent() {
    assert_eq!(favorite_target_allowed(ROOT_NODE_ID), Err(FolderError::NotFound));
    assert_eq!(favorite_target_allowed(2), Ok(()));
    assert_eq!(favorite_outcome(true, false), Ok(()));
    assert_eq!(favorite_outcome(false, true), Ok(()));
    assert_eq!(favorite_outcome(false, false), Err(FolderError::NotFound));
}
