//! The sync engine: orchestrates push, pull and full-sync requests against the
//! bridge, interprets compare-and-swap conflicts, and tracks the coarse sync
//! status.
//!
//! The engine never re-implements watermark comparison: the bridge is
//! authoritative for conflict detection, and the engine only interprets its
//! verdict. The one automatic fallback is push: a push the bridge rejects as a
//! CAS conflict is completed by a single pull, whose outcome is returned in
//! place of the push's; any other failure is returned verbatim.

use vstd::prelude::*;

use crate::cloud::AccountStatusJson;
use crate::cloud::CloudKit;
use crate::cloud::SyncResult;
use crate::cloud::SyncResultJson;
use crate::cloud::SyncResultV;
use crate::cloud::SyncStatus;
use crate::cloud::SyncStatusJson;
use crate::cloud::unavailable_msg;
use crate::cloud::unavailable_result;
use crate::data::AppData;
use crate::data::AppDataV;
use crate::data::SyncData;
use crate::store::parse_sync_data;
use crate::store::serialize_sync_data;
use crate::store::spec_parse_sync_data;
use crate::text::contains_chars;
use crate::text::contains_seq;
use crate::text::lower_seq;
use crate::text::str_to_chars;
use crate::text::to_lower;

verus! {

/// Whether a failed bridge answer is a compare-and-swap conflict: the remote
/// watermark was newer than the one presented. Conflicts are recognized by the
/// bridge's two conflict phrases, matched case-insensitively.
pub open spec fn is_cas_conflict(r: SyncResultV) -> bool {
    &&& !r.success
    &&& r.error is Some
    &&& (contains_seq(lower_seq(r.error.unwrap()), "cas failed"@) || contains_seq(
        lower_seq(r.error.unwrap()),
        "server has newer data"@,
    ))
}

/// Decides whether a bridge answer to a push is a CAS conflict.
pub fn detect_cas_conflict(r: &SyncResult) -> (b: bool)
    ensures
        b == is_cas_conflict(r@),
{
    if r.success {
        return false;
    }
    match &r.error {
        None => false,
        Some(e) => {
            let chars = str_to_chars(e.as_str());
            let low = to_lower(&chars);
            let cas = str_to_chars("cas failed");
            if contains_chars(&low, &cas) {
                return true;
            }
            let newer = str_to_chars("server has newer data");
            contains_chars(&low, &newer)
        },
    }
}

/// The engine's structured reading of a failed bridge answer, in place of
/// free-text sniffing at every call site.
#[derive(Debug, Clone, Copy, PartialEq, Eq, Structural)]
pub enum ErrorKind {
    /// The remote watermark was newer than the one presented.
    CasConflict,
    /// The capability is absent on this platform or build.
    BridgeUnavailable,
    /// Any other remote failure: network, account, provider-internal.
    BridgeCallFailed,
}

/// The class of a bridge answer: nothing for success, otherwise exactly one
/// of the error kinds.
pub open spec fn spec_classify_outcome(r: SyncResultV) -> Option<ErrorKind> {
    if r.success {
        None
    } else if is_cas_conflict(r) {
        Some(ErrorKind::CasConflict)
    } else if r.error == Some(unavailable_msg()) {
        Some(ErrorKind::BridgeUnavailable)
    } else {
        Some(ErrorKind::BridgeCallFailed)
    }
}

/// Classifies a bridge answer.
pub fn classify_outcome(r: &SyncResult) -> (k: Option<ErrorKind>)
    ensures
        k == spec_classify_outcome(r@),
{
    if r.success {
        return None;
    }
    if detect_cas_conflict(r) {
        return Some(ErrorKind::CasConflict);
    }
    match &r.error {
        Some(e) => {
            if e.eq(&crate::cloud::CLOUDKIT_UNAVAILABLE_MSG.to_owned()) {
                Some(ErrorKind::BridgeUnavailable)
            } else {
                Some(ErrorKind::BridgeCallFailed)
            }
        },
        None => Some(ErrorKind::BridgeCallFailed),
    }
}

/// The outcome of one logical push operation, given the bridge's answer to
/// the upload and, where the upload conflicted, the answer to the fallback
/// download.
pub open spec fn push_protocol_outcome(
    push_r: SyncResultV,
    pull_r: Option<SyncResultV>,
) -> SyncResultV {
    if is_cas_conflict(push_r) {
        pull_r.unwrap()
    } else {
        push_r
    }
}

/// How many fallback pulls one logical push performs for a given bridge answer.
pub open spec fn push_protocol_pulls(push_r: SyncResultV) -> nat {
    if is_cas_conflict(push_r) {
        1
    } else {
        0
    }
}

/// A push the bridge rejects as a CAS conflict is followed by exactly one
/// pull, and the caller receives that pull's outcome, not the push's.
pub proof fn lemma_push_cas_conflict_pulls_once(push_r: SyncResultV, pull_r: SyncResultV)
    requires
        is_cas_conflict(push_r),
    ensures
        push_protocol_pulls(push_r) == 1,
        push_protocol_outcome(push_r, Some(pull_r)) == pull_r,
{
}

/// A push failing with any non-CAS error is returned directly, with no
/// follow-up call.
pub proof fn lemma_push_other_error_returned_directly(push_r: SyncResultV)
    requires
        !push_r.success,
        !is_cas_conflict(push_r),
    ensures
        push_protocol_pulls(push_r) == 0,
        push_protocol_outcome(push_r, None) == push_r,
{
}

/// Where one logical push stands: the upload answer is awaited, a fallback
/// download is awaited, or the outcome is settled.
pub enum PushPhase {
    AwaitingPush,
    AwaitingPull,
    Finished,
}

/// What the driver of a push must do next.
pub enum PushStep {
    /// The upload conflicted: perform one pull and hand its outcome back.
    Pull,
    /// The push is settled with this outcome.
    Finished(SyncResult),
}

/// One logical push operation as a state machine. The driver performs the
/// bridge calls the flow asks for and feeds their answers back; the flow
/// decides. From the caller's perspective push-then-fallback-pull is one
/// operation with one outcome.
pub struct PushFlow {
    pub phase: PushPhase,
}

impl PushFlow {
    /// Starts a push: the driver is expected to upload and report the answer.
    pub fn new() -> (f: PushFlow)
        ensures
            f.phase == PushPhase::AwaitingPush,
    {
        PushFlow { phase: PushPhase::AwaitingPush }
    }

    /// Feeds the bridge's answer to the upload. On a CAS conflict the flow
    /// asks for exactly one pull; on anything else it settles with the
    /// answer as the outcome.
    pub fn on_push_result(&mut self, r: SyncResult) -> (step: PushStep)
        requires
            old(self).phase == PushPhase::AwaitingPush,
        ensures
            is_cas_conflict(r@) ==> final(self).phase == PushPhase::AwaitingPull && step
                == PushStep::Pull,
            !is_cas_conflict(r@) ==> final(self).phase == PushPhase::Finished && (step matches
                PushStep::Finished(out) && out@ == r@),
    {
        if detect_cas_conflict(&r) {
            self.phase = PushPhase::AwaitingPull;
            PushStep::Pull
        } else {
            self.phase = PushPhase::Finished;
            PushStep::Finished(r)
        }
    }

    /// Feeds the bridge's answer to the fallback pull; its outcome settles
    /// the push.
    pub fn on_pull_result(&mut self, r: SyncResult) -> (out: SyncResult)
        requires
            old(self).phase == PushPhase::AwaitingPull,
        ensures
            final(self).phase == PushPhase::Finished,
            out@ == r@,
    {
        self.phase = PushPhase::Finished;
        r
    }
}

/// A pull outcome with its update flag put in canonical form: local data is to
/// be replaced exactly when the pull succeeded and remote data exists.
pub open spec fn normalized_pull(r: SyncResultV) -> SyncResultV {
    SyncResultV {
        success: r.success,
        should_update_local: r.success && r.data is Some,
        error: r.error,
        data: r.data,
        remote_last_modified: r.remote_last_modified,
    }
}

/// Puts a pull outcome's update flag in canonical form.
pub fn normalize_pull_outcome(r: SyncResult) -> (out: SyncResult)
    ensures
        out@ == normalized_pull(r@),
{
    let update = r.success && r.data.is_some();
    SyncResult {
        success: r.success,
        should_update_local: update,
        error: r.error,
        data: r.data,
        remote_last_modified: r.remote_last_modified,
    }
}

/// The coarse status one completed attempt leaves the engine in: synced on
/// success, offline where the capability is absent, error otherwise.
pub open spec fn status_after_outcome(r: SyncResultV) -> SyncStatus {
    if r.success {
        SyncStatus::Synced
    } else if r.error == Some(unavailable_msg()) {
        SyncStatus::Offline
    } else {
        SyncStatus::Error
    }
}

/// Decides the coarse status a completed attempt leaves the engine in.
pub fn status_after(r: &SyncResult) -> (s: SyncStatus)
    ensures
        s == status_after_outcome(r@),
{
    if r.success {
        SyncStatus::Synced
    } else {
        match &r.error {
            Some(e) => {
                if e.eq(&crate::cloud::CLOUDKIT_UNAVAILABLE_MSG.to_owned()) {
                    SyncStatus::Offline
                } else {
                    SyncStatus::Error
                }
            },
            None => SyncStatus::Error,
        }
    }
}

/// The process-wide sync status surfaced to the UI shell. It starts over at
/// `Idle` on every process start, moves to `Syncing` while a request runs,
/// and is settled from the outcome when the attempt completes.
pub struct StatusTracker {
    pub status: SyncStatus,
}

impl StatusTracker {
    /// A fresh tracker: no attempt has run yet.
    pub fn new() -> (t: StatusTracker)
        ensures
            t.status == SyncStatus::Idle,
    {
        StatusTracker { status: SyncStatus::Idle }
    }

    /// Marks a sync request as in flight.
    pub fn begin(&mut self)
        ensures
            final(self).status == SyncStatus::Syncing,
    {
        self.status = SyncStatus::Syncing;
    }

    /// Settles the status from a completed attempt's outcome.
    pub fn complete(&mut self, outcome: &SyncResult)
        ensures
            final(self).status == status_after_outcome(outcome@),
    {
        self.status = status_after(outcome);
    }

    /// The current status; reading never mutates it.
    pub fn current(&self) -> (s: SyncStatus)
        ensures
            s == self.status,
    {
        self.status
    }
}

/// Runs one logical push of the serialized snapshot against this platform's
/// capability. Without a bridge the outcome is the fixed unavailability
/// answer, and no fallback pull can change that.
pub fn push_payload(json_data: &str, last_modified: &str) -> (out: SyncResult)
    ensures
        out@ == unavailable_result(),
{
    let mut flow = PushFlow::new();
    let pushed = CloudKit::push(json_data, last_modified);
    match flow.on_push_result(pushed) {
        PushStep::Finished(out) => out,
        PushStep::Pull => {
            let pulled = normalize_pull_outcome(CloudKit::pull());
            flow.on_pull_result(pulled)
        },
    }
}

/// Runs one bidirectional sync of the serialized snapshot against this
/// platform's capability; the bridge decides which side should win. Without a
/// bridge the outcome is the fixed unavailability answer.
pub fn full_sync_payload(json_data: &str, last_modified: &str) -> (out: SyncResult)
    ensures
        out@ == unavailable_result(),
{
    CloudKit::sync(json_data, last_modified)
}

/// Pulls the remote snapshot unconditionally. Without a bridge the outcome is
/// the fixed unavailability answer.
pub fn pull_payload() -> (out: SyncResult)
    ensures
        out@ == unavailable_result(),
{
    normalize_pull_outcome(CloudKit::pull())
}

/// Whether initialization succeeded, given the bridge's answers: a failed
/// best-effort subscription setup is non-fatal and never fails initialization.
pub fn interpret_init(init_ok: bool, subscriptions_ok: bool) -> (r: bool)
    ensures
        r == init_ok,
{
    let _ = subscriptions_ok;
    init_ok
}

/// Bootstraps the capability and best-effort registers for change
/// notifications; a subscription failure does not fail initialization.
/// Reports `false` here: no bridge is present.
pub fn init_cloudkit() -> (r: bool)
    ensures
        r == false,
{
    let ok = CloudKit::init();
    if !ok {
        return false;
    }
    let subs = CloudKit::setup_subscriptions();
    interpret_init(ok, subs)
}

/// Whether a remote account is reachable; `false` without a bridge.
pub fn check_icloud_account() -> (r: bool)
    ensures
        r == false,
{
    CloudKit::check_account()
}

/// Detailed account availability for the UI shell; without a bridge the
/// answer is the error status under its label, carrying the sentinel message.
pub fn get_icloud_account_status() -> (r: AccountStatusJson)
    ensures
        r@.available == false,
        r@.status == crate::cloud::account_label(crate::cloud::AccountStatus::Error),
        r@.error == Some(unavailable_msg()),
{
    AccountStatusJson::from_result(CloudKit::get_account_status())
}

/// Current sync status for the UI shell; without a bridge it is offline,
/// carrying the sentinel message. Reading never mutates persisted state.
pub fn get_sync_status() -> (r: SyncStatusJson)
    ensures
        r@.status == crate::cloud::status_label(SyncStatus::Offline),
        r@.error == Some(unavailable_msg()),
{
    SyncStatusJson::from_result(CloudKit::get_status())
}

/// Clears the remote replica only; the local snapshot is untouched. Reports
/// `false` without a bridge.
pub fn delete_cloud_data() -> (r: bool)
    ensures
        r == false,
{
    CloudKit::delete_data()
}

/// Uploads the snapshot to the remote replica: one logical push, with the
/// automatic fallback pull on a CAS conflict. Never fails outright; without a
/// bridge the outcome is the fixed unavailability answer.
pub fn push_to_cloud(data: &SyncData) -> (r: Result<SyncResultJson, String>)
    ensures
        r matches Ok(o) && o@ == unavailable_result(),
{
    let payload = serialize_sync_data(data);
    let out = push_payload(payload.as_str(), data.last_modified.as_str());
    Ok(SyncResultJson::from(out))
}

/// Bidirectional sync of the snapshot against the remote replica; the bridge
/// decides which side should win. Never fails outright; without a bridge the
/// outcome is the fixed unavailability answer.
pub fn sync_to_cloud(data: &SyncData) -> (r: Result<SyncResultJson, String>)
    ensures
        r matches Ok(o) && o@ == unavailable_result(),
{
    let payload = serialize_sync_data(data);
    let out = full_sync_payload(payload.as_str(), data.last_modified.as_str());
    Ok(SyncResultJson::from(out))
}

/// Downloads the remote snapshot unconditionally. Never fails outright;
/// without a bridge the outcome is the fixed unavailability answer.
pub fn sync_from_cloud() -> (r: Result<SyncResultJson, String>)
    ensures
        r matches Ok(o) && o@ == unavailable_result(),
{
    let out = pull_payload();
    Ok(SyncResultJson::from(out))
}

/// What applying a sync outcome leaves as the local record: where the bridge
/// reports that the remote side wins and its snapshot decodes, the remote
/// snapshot replaces the local one — keeping only the local-only active view —
/// with the remote watermark as fallback where the payload lacks one; in every
/// other case the local record stands unchanged.
pub open spec fn spec_apply_sync_outcome(local: AppDataV, o: SyncResultV) -> AppDataV {
    if o.success && o.should_update_local && o.data is Some {
        let fallback = if o.remote_last_modified is Some {
            o.remote_last_modified.unwrap()
        } else {
            local.last_modified
        };
        match spec_parse_sync_data(o.data.unwrap(), fallback) {
            Some(remote) => AppDataV {
                boards: remote.boards,
                active_board: remote.active_board,
                theme: remote.theme,
                active_view: local.active_view,
                bookmarks: remote.bookmarks,
                collections: remote.collections,
                custom_tags: remote.custom_tags,
                notes: remote.notes,
                last_modified: remote.last_modified,
                sync_enabled: remote.sync_enabled,
            },
            None => local,
        }
    } else {
        local
    }
}

/// Applies a sync outcome to the local record, honoring the bridge's verdict.
pub fn apply_sync_outcome(local: AppData, outcome: &SyncResult) -> (r: AppData)
    ensures
        r.deep_view() == spec_apply_sync_outcome(local.deep_view(), outcome@),
{
    if !(outcome.success && outcome.should_update_local) {
        return local;
    }
    let payload = match &outcome.data {
        Some(p) => p,
        None => {
            return local;
        },
    };
    let remote = match &outcome.remote_last_modified {
        Some(t) => parse_sync_data(payload.as_str(), t.as_str()),
        None => parse_sync_data(payload.as_str(), local.last_modified.as_str()),
    };
    match remote {
        Some(r) => r.into_app_data(local.active_view),
        None => local,
    }
}

/// Where the bridge reports that the local side should stand, applying the
/// outcome changes nothing.
pub proof fn lemma_apply_keeps_local_without_update(local: AppDataV, o: SyncResultV)
    requires
        !o.should_update_local,
    ensures
        spec_apply_sync_outcome(local, o) == local,
{
}

} // verus!
