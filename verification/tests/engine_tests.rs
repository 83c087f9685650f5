use carbon_core::cloud::AccountStatus;
use carbon_core::cloud::CLOUDKIT_UNAVAILABLE_MSG;
use carbon_core::cloud::CloudKit;
use carbon_core::cloud::SyncResult;
use carbon_core::cloud::SyncStatus;
use carbon_core::data::AppData;
use carbon_core::data::default_collections;
use carbon_core::engine::PushFlow;
use carbon_core::engine::PushPhase;
use carbon_core::engine::PushStep;
use carbon_core::engine::StatusTracker;
use carbon_core::engine::apply_sync_outcome;
use carbon_core::engine::check_icloud_account;
use carbon_core::engine::classify_outcome;
use carbon_core::engine::ErrorKind;
use carbon_core::engine::delete_cloud_data;
use carbon_core::engine::detect_cas_conflict;
use carbon_core::engine::get_icloud_account_status;
use carbon_core::engine::get_sync_status;
use carbon_core::engine::init_cloudkit;
use carbon_core::engine::normalize_pull_outcome;
use carbon_core::engine::push_to_cloud;
use carbon_core::engine::status_after;
use carbon_core::engine::sync_from_cloud;
use carbon_core::engine::sync_to_cloud;
use carbon_core::store::LocalRead;
use carbon_core::store::load_snapshot;
use carbon_core::store::serialize_sync_data;

fn failure(message: &str) -> SyncResult {
    SyncResult {
        success: false,
        should_update_local: false,
        error: Some(message.to_string()),
        data: None,
        remote_last_modified: None,
    }
}

fn local_snapshot() -> AppData {
    load_snapshot(LocalRead::Missing, "2024-01-01T00:00:00+00:00").data
}

#[test]
fn cas_conflict_is_recognized_case_insensitively() {
    assert!(detect_cas_conflict(&failure("CAS failed: server has newer data")));
    assert!(detect_cas_conflict(&failure("Server Has Newer Data, please pull")));
    assert!(detect_cas_conflict(&failure("cas failed")));
}

#[test]
fn other_errors_are_not_conflicts() {
    assert!(!detect_cas_conflict(&failure("network unreachable")));
    assert!(!detect_cas_conflict(&failure("")));
    let no_error = SyncResult {
        success: false,
        should_update_local: false,
        error: None,
        data: None,
        remote_last_modified: None,
    };
    assert!(!detect_cas_conflict(&no_error));
}

#[test]
fn success_is_never_a_conflict() {
    let mut r = failure("cas failed");
    r.success = true;
    assert!(!detect_cas_conflict(&r));
}

#[test]
fn push_conflict_falls_back_to_exactly_one_pull() {
    // snapshot A is pushed with watermark T1; the provider reports a CAS
    // conflict; the pull returns snapshot B with watermark T2 > T1
    let mut flow = PushFlow::new();
    let conflicted = failure("CAS failed: server has newer data");
    let step = flow.on_push_result(conflicted);
    assert!(matches!(step, PushStep::Pull));
    assert!(matches!(flow.phase, PushPhase::AwaitingPull));
    let pulled = SyncResult {
        success: true,
        should_update_local: true,
        error: None,
        data: Some("{\"boards\":[],\"activeBoard\":null}".to_string()),
        remote_last_modified: Some("2024-01-02T00:00:00+00:00".to_string()),
    };
    let outcome = flow.on_pull_result(pulled.clone());
    assert!(matches!(flow.phase, PushPhase::Finished));
    // the caller receives the pull's outcome, not the push's
    assert_eq!(outcome, pulled);
    assert!(outcome.success);
    assert!(outcome.should_update_local);
}

#[test]
fn push_non_cas_error_returns_directly_with_no_pull() {
    let mut flow = PushFlow::new();
    let refused = failure("account restricted");
    let step = flow.on_push_result(refused.clone());
    match step {
        PushStep::Finished(outcome) => assert_eq!(outcome, refused),
        PushStep::Pull => panic!("a non-CAS error must not trigger a pull"),
    }
    assert!(matches!(flow.phase, PushPhase::Finished));
}

#[test]
fn unavailable_capability_yields_fixed_outcome_everywhere() {
    let data = local_snapshot().to_sync_data();
    let push = push_to_cloud(&data).unwrap();
    assert!(!push.success);
    assert_eq!(push.error.as_deref(), Some(CLOUDKIT_UNAVAILABLE_MSG));
    assert!(push.data.is_none());
    let full = sync_to_cloud(&data).unwrap();
    assert!(!full.success);
    assert_eq!(full.error.as_deref(), Some(CLOUDKIT_UNAVAILABLE_MSG));
    let pull = sync_from_cloud().unwrap();
    assert!(!pull.success);
    assert!(!pull.should_update_local);
    assert_eq!(pull.error.as_deref(), Some(CLOUDKIT_UNAVAILABLE_MSG));
    assert!(!check_icloud_account());
    assert!(!init_cloudkit());
    assert!(!delete_cloud_data());
    let status = get_sync_status();
    assert_eq!(status.status, "offline");
    assert_eq!(status.error.as_deref(), Some(CLOUDKIT_UNAVAILABLE_MSG));
    let account = get_icloud_account_status();
    assert!(!account.available);
    assert_eq!(account.status, "error");
    assert_eq!(account.error.as_deref(), Some(CLOUDKIT_UNAVAILABLE_MSG));
}

#[test]
fn capability_operations_report_absence() {
    assert!(!CloudKit::init());
    assert!(!CloudKit::check_account());
    assert!(!CloudKit::setup_subscriptions());
    assert!(!CloudKit::delete_data());
    let r = CloudKit::sync("{}", "t");
    assert_eq!(r.error.as_deref(), Some(CLOUDKIT_UNAVAILABLE_MSG));
    let r = CloudKit::push("{}", "t");
    assert_eq!(r.error.as_deref(), Some(CLOUDKIT_UNAVAILABLE_MSG));
    let r = CloudKit::pull();
    assert_eq!(r.error.as_deref(), Some(CLOUDKIT_UNAVAILABLE_MSG));
    assert_eq!(CloudKit::get_status().status, SyncStatus::Offline);
    assert_eq!(CloudKit::get_account_status().status, AccountStatus::Error);
}

#[test]
fn pull_update_flag_is_canonical() {
    let mut r = SyncResult {
        success: true,
        should_update_local: false,
        error: None,
        data: Some("{}".to_string()),
        remote_last_modified: None,
    };
    let n = normalize_pull_outcome(r.clone());
    assert!(n.should_update_local);
    r.data = None;
    let n = normalize_pull_outcome(r.clone());
    assert!(!n.should_update_local);
    r.data = Some("{}".to_string());
    r.success = false;
    let n = normalize_pull_outcome(r);
    assert!(!n.should_update_local);
}

#[test]
fn status_tracker_follows_the_attempt() {
    let mut tracker = StatusTracker::new();
    assert_eq!(tracker.current(), SyncStatus::Idle);
    tracker.begin();
    assert_eq!(tracker.current(), SyncStatus::Syncing);
    let ok = SyncResult {
        success: true,
        should_update_local: false,
        error: None,
        data: None,
        remote_last_modified: None,
    };
    tracker.complete(&ok);
    assert_eq!(tracker.current(), SyncStatus::Synced);
    tracker.begin();
    tracker.complete(&failure("network unreachable"));
    assert_eq!(tracker.current(), SyncStatus::Error);
    tracker.begin();
    tracker.complete(&SyncResult::unavailable());
    assert_eq!(tracker.current(), SyncStatus::Offline);
}

#[test]
fn bridge_answers_classify_into_error_kinds() {
    let ok = SyncResult {
        success: true,
        should_update_local: false,
        error: None,
        data: None,
        remote_last_modified: None,
    };
    assert_eq!(classify_outcome(&ok), None);
    assert_eq!(
        classify_outcome(&failure("CAS failed: server has newer data")),
        Some(ErrorKind::CasConflict)
    );
    assert_eq!(
        classify_outcome(&SyncResult::unavailable()),
        Some(ErrorKind::BridgeUnavailable)
    );
    assert_eq!(
        classify_outcome(&failure("network unreachable")),
        Some(ErrorKind::BridgeCallFailed)
    );
    assert_eq!(classify_outcome(&failure("")), Some(ErrorKind::BridgeCallFailed));
}

#[test]
fn status_after_classifies_outcomes() {
    let ok = SyncResult {
        success: true,
        should_update_local: false,
        error: None,
        data: None,
        remote_last_modified: None,
    };
    assert_eq!(status_after(&ok), SyncStatus::Synced);
    assert_eq!(status_after(&SyncResult::unavailable()), SyncStatus::Offline);
    assert_eq!(status_after(&failure("boom")), SyncStatus::Error);
}

#[test]
fn full_sync_keeping_local_changes_nothing() {
    // the bridge reports success with shouldUpdateLocal=false: the local
    // snapshot stands unchanged
    let local = local_snapshot();
    let outcome = SyncResult {
        success: true,
        should_update_local: false,
        error: None,
        data: None,
        remote_last_modified: None,
    };
    let after = apply_sync_outcome(local.clone(), &outcome);
    assert_eq!(after, local);
}

#[test]
fn remote_win_replaces_local_but_keeps_active_view() {
    let mut local = local_snapshot();
    local.active_view = "notes".to_string();
    let mut remote = local.clone().to_sync_data();
    remote.theme = "light".to_string();
    remote.last_modified = "2024-09-09T00:00:00+00:00".to_string();
    let payload = serialize_sync_data(&remote);
    let outcome = SyncResult {
        success: true,
        should_update_local: true,
        error: None,
        data: Some(payload),
        remote_last_modified: Some(remote.last_modified.clone()),
    };
    let after = apply_sync_outcome(local, &outcome);
    assert_eq!(after.theme, "light");
    assert_eq!(after.last_modified, "2024-09-09T00:00:00+00:00");
    assert_eq!(after.active_view, "notes");
}

#[test]
fn unparsable_remote_payload_keeps_local() {
    let local = local_snapshot();
    let outcome = SyncResult {
        success: true,
        should_update_local: true,
        error: None,
        data: Some("garbage".to_string()),
        remote_last_modified: None,
    };
    let after = apply_sync_outcome(local.clone(), &outcome);
    assert_eq!(after, local);
}

#[test]
fn status_codes_decode_to_statuses() {
    assert_eq!(SyncStatus::from(0), SyncStatus::Idle);
    assert_eq!(SyncStatus::from(1), SyncStatus::Syncing);
    assert_eq!(SyncStatus::from(2), SyncStatus::Synced);
    assert_eq!(SyncStatus::from(3), SyncStatus::Error);
    assert_eq!(SyncStatus::from(4), SyncStatus::Offline);
    assert_eq!(SyncStatus::from(99), SyncStatus::Error);
    assert_eq!(SyncStatus::from(-1), SyncStatus::Error);
}

#[test]
fn account_codes_decode_to_statuses() {
    assert_eq!(AccountStatus::from(0), AccountStatus::Available);
    assert_eq!(AccountStatus::from(1), AccountStatus::NoAccount);
    assert_eq!(AccountStatus::from(2), AccountStatus::Restricted);
    assert_eq!(AccountStatus::from(3), AccountStatus::CouldNotDetermine);
    assert_eq!(AccountStatus::from(4), AccountStatus::TemporarilyUnavailable);
    assert_eq!(AccountStatus::from(5), AccountStatus::Error);
    assert_eq!(AccountStatus::from(42), AccountStatus::Error);
}

#[test]
fn statuses_have_stable_labels() {
    assert_eq!(SyncStatus::Idle.as_str(), "idle");
    assert_eq!(SyncStatus::Syncing.as_str(), "syncing");
    assert_eq!(SyncStatus::Synced.as_str(), "synced");
    assert_eq!(SyncStatus::Error.as_str(), "error");
    assert_eq!(SyncStatus::Offline.as_str(), "offline");
    assert_eq!(AccountStatus::Available.as_str(), "available");
    assert_eq!(AccountStatus::NoAccount.as_str(), "no_account");
    assert_eq!(AccountStatus::Restricted.as_str(), "restricted");
    assert_eq!(AccountStatus::CouldNotDetermine.as_str(), "could_not_determine");
    assert_eq!(AccountStatus::TemporarilyUnavailable.as_str(), "temporarily_unavailable");
    assert_eq!(AccountStatus::Error.as_str(), "error");
}

#[test]
fn sync_projection_drops_only_the_active_view() {
    let local = local_snapshot();
    let projected = local.clone().to_sync_data();
    assert_eq!(projected.boards, local.boards);
    assert_eq!(projected.active_board, local.active_board);
    assert_eq!(projected.theme, local.theme);
    assert_eq!(projected.bookmarks, local.bookmarks);
    assert_eq!(projected.collections, local.collections);
    assert_eq!(projected.custom_tags, local.custom_tags);
    assert_eq!(projected.notes, local.notes);
    assert_eq!(projected.last_modified, local.last_modified);
    assert_eq!(projected.sync_enabled, local.sync_enabled);
}

#[test]
fn default_collections_are_the_three_builtins() {
    let c = default_collections();
    assert_eq!(c.len(), 3);
    assert_eq!(c[0].id, "all");
    assert_eq!(c[0].name, "All Bookmarks");
    assert_eq!(c[0].icon, "bookmark");
    assert_eq!(c[1].id, "favorites");
    assert_eq!(c[1].icon, "star");
    assert_eq!(c[2].id, "archive");
    assert_eq!(c[2].icon, "archive");
}
