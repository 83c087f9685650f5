//! Types at the remote-bridge boundary: sync outcomes, sync status, account
//! availability, and the `CloudKit` capability.
//!
//! The remote replica is reachable only through a platform bridge. On this
//! platform the bridge is absent, so every capability operation deterministically
//! reports the fixed unavailability outcome; callers can thereby distinguish
//! "tried and failed" from "not supported here".

use vstd::prelude::*;

verus! {

/// The fixed sentinel message returned by every bridge operation when the
/// sync capability is absent on this platform or build.
pub const CLOUDKIT_UNAVAILABLE_MSG: &'static str = "CloudKit is only available on macOS release builds";

/// The sentinel message as a character sequence, for contracts.
pub open spec fn unavailable_msg() -> Seq<char> {
    CLOUDKIT_UNAVAILABLE_MSG@
}

/// Coarse sync state surfaced to the UI shell; never persisted across restarts.
#[derive(Debug, Clone, Copy, PartialEq, Eq, Structural)]
pub enum SyncStatus {
    Idle,
    Syncing,
    Synced,
    Error,
    Offline,
}

/// What each bridge status code decodes to; codes outside the known range
/// are treated as `Error`.
pub open spec fn status_from_code(value: i32) -> SyncStatus {
    if value == 0 {
        SyncStatus::Idle
    } else if value == 1 {
        SyncStatus::Syncing
    } else if value == 2 {
        SyncStatus::Synced
    } else if value == 3 {
        SyncStatus::Error
    } else if value == 4 {
        SyncStatus::Offline
    } else {
        SyncStatus::Error
    }
}

/// The label each status is reported under to the UI shell.
pub open spec fn status_label(s: SyncStatus) -> Seq<char> {
    match s {
        SyncStatus::Idle => "idle"@,
        SyncStatus::Syncing => "syncing"@,
        SyncStatus::Synced => "synced"@,
        SyncStatus::Error => "error"@,
        SyncStatus::Offline => "offline"@,
    }
}

impl From<i32> for SyncStatus {
    fn from(value: i32) -> (r: SyncStatus)
        ensures
            r == status_from_code(value),
    {
        match value {
            0 => SyncStatus::Idle,
            1 => SyncStatus::Syncing,
            2 => SyncStatus::Synced,
            3 => SyncStatus::Error,
            4 => SyncStatus::Offline,
            _ => SyncStatus::Error,
        }
    }
}

impl vstd::std_specs::convert::FromSpecImpl<i32> for SyncStatus {
    open spec fn obeys_from_spec() -> bool {
        true
    }

    open spec fn from_spec(v: i32) -> SyncStatus {
        status_from_code(v)
    }
}

impl SyncStatus {
    /// The stable lower-case label for this status.
    pub fn as_str(&self) -> (r: &'static str)
        ensures
            r@ == status_label(*self),
    {
        match self {
            SyncStatus::Idle => "idle",
            SyncStatus::Syncing => "syncing",
            SyncStatus::Synced => "synced",
            SyncStatus::Error => "error",
            SyncStatus::Offline => "offline",
        }
    }
}

/// Remote account availability, queried on demand and never cached.
#[derive(Debug, Clone, Copy, PartialEq, Eq, Structural)]
pub enum AccountStatus {
    Available,
    NoAccount,
    Restricted,
    CouldNotDetermine,
    TemporarilyUnavailable,
    Error,
}

/// What each bridge account code decodes to; codes outside the known range
/// are treated as `Error`.
pub open spec fn account_from_code(value: i32) -> AccountStatus {
    if value == 0 {
        AccountStatus::Available
    } else if value == 1 {
        AccountStatus::NoAccount
    } else if value == 2 {
        AccountStatus::Restricted
    } else if value == 3 {
        AccountStatus::CouldNotDetermine
    } else if value == 4 {
        AccountStatus::TemporarilyUnavailable
    } else if value == 5 {
        AccountStatus::Error
    } else {
        AccountStatus::Error
    }
}

/// The label each account status is reported under to the UI shell.
pub open spec fn account_label(s: AccountStatus) -> Seq<char> {
    match s {
        AccountStatus::Available => "available"@,
        AccountStatus::NoAccount => "no_account"@,
        AccountStatus::Restricted => "restricted"@,
        AccountStatus::CouldNotDetermine => "could_not_determine"@,
        AccountStatus::TemporarilyUnavailable => "temporarily_unavailable"@,
        AccountStatus::Error => "error"@,
    }
}

impl From<i32> for AccountStatus {
    fn from(value: i32) -> (r: AccountStatus)
        ensures
            r == account_from_code(value),
    {
        match value {
            0 => AccountStatus::Available,
            1 => AccountStatus::NoAccount,
            2 => AccountStatus::Restricted,
            3 => AccountStatus::CouldNotDetermine,
            4 => AccountStatus::TemporarilyUnavailable,
            5 => AccountStatus::Error,
            _ => AccountStatus::Error,
        }
    }
}

impl vstd::std_specs::convert::FromSpecImpl<i32> for AccountStatus {
    open spec fn obeys_from_spec() -> bool {
        true
    }

    open spec fn from_spec(v: i32) -> AccountStatus {
        account_from_code(v)
    }
}

impl AccountStatus {
    /// The stable snake-case label for this account status.
    pub fn as_str(&self) -> (r: &'static str)
        ensures
            r@ == account_label(*self),
    {
        match self {
            AccountStatus::Available => "available",
            AccountStatus::NoAccount => "no_account",
            AccountStatus::Restricted => "restricted",
            AccountStatus::CouldNotDetermine => "could_not_determine",
            AccountStatus::TemporarilyUnavailable => "temporarily_unavailable",
            AccountStatus::Error => "error",
        }
    }
}

/// Outcome of one bridge sync operation.
///
/// Invariant at the bridge boundary: when `should_update_local` is set, the
/// remote payload and its watermark are expected to be present; the engine
/// nevertheless handles their absence gracefully.
#[derive(Debug, Clone, PartialEq)]
pub struct SyncResult {
    pub success: bool,
    pub should_update_local: bool,
    pub error: Option<String>,
    pub data: Option<String>,
    pub remote_last_modified: Option<String>,
}

/// Mathematical model of a `SyncResult`.
pub struct SyncResultV {
    pub success: bool,
    pub should_update_local: bool,
    pub error: Option<Seq<char>>,
    pub data: Option<Seq<char>>,
    pub remote_last_modified: Option<Seq<char>>,
}

impl View for SyncResult {
    type V = SyncResultV;

    open spec fn view(&self) -> SyncResultV {
        SyncResultV {
            success: self.success,
            should_update_local: self.should_update_local,
            error: self.error.deep_view(),
            data: self.data.deep_view(),
            remote_last_modified: self.remote_last_modified.deep_view(),
        }
    }
}

/// The outcome every operation yields when the capability is absent.
pub open spec fn unavailable_result() -> SyncResultV {
    SyncResultV {
        success: false,
        should_update_local: false,
        error: Some(unavailable_msg()),
        data: None,
        remote_last_modified: None,
    }
}

impl SyncResult {
    /// The fixed outcome for an absent capability: failure carrying the
    /// sentinel message and no remote payload.
    pub fn unavailable() -> (r: SyncResult)
        ensures
            r@ == unavailable_result(),
    {
        SyncResult {
            success: false,
            should_update_local: false,
            error: Some(CLOUDKIT_UNAVAILABLE_MSG.to_owned()),
            data: None,
            remote_last_modified: None,
        }
    }
}

/// Current sync status as the bridge reports it, with optional error detail.
#[derive(Debug, Clone)]
pub struct SyncStatusResult {
    pub status: SyncStatus,
    pub error: Option<String>,
}

/// Mathematical model of a `SyncStatusResult`.
pub struct SyncStatusResultV {
    pub status: SyncStatus,
    pub error: Option<Seq<char>>,
}

impl View for SyncStatusResult {
    type V = SyncStatusResultV;

    open spec fn view(&self) -> SyncStatusResultV {
        SyncStatusResultV { status: self.status, error: self.error.deep_view() }
    }
}

/// Detailed remote account availability, with optional error detail.
#[derive(Debug, Clone)]
pub struct AccountStatusResult {
    pub available: bool,
    pub status: AccountStatus,
    pub error: Option<String>,
}

/// Mathematical model of an `AccountStatusResult`.
pub struct AccountStatusResultV {
    pub available: bool,
    pub status: AccountStatus,
    pub error: Option<Seq<char>>,
}

impl View for AccountStatusResult {
    type V = AccountStatusResultV;

    open spec fn view(&self) -> AccountStatusResultV {
        AccountStatusResultV {
            available: self.available,
            status: self.status,
            error: self.error.deep_view(),
        }
    }
}

/// The sync capability of this platform.
///
/// On platforms with a bridge these operations reach the remote replica; on
/// this one the capability is absent, and each operation returns its fixed
/// negative outcome so that the command surface stays stable.
pub struct CloudKit;

impl CloudKit {
    /// Initialize the capability; reports whether a bridge is present.
    pub fn init() -> (r: bool)
        ensures
            r == false,
    {
        false
    }

    /// Whether a remote account is reachable.
    pub fn check_account() -> (r: bool)
        ensures
            r == false,
    {
        false
    }

    /// Detailed account availability; without a bridge the answer is the
    /// error status carrying the sentinel message.
    pub fn get_account_status() -> (r: AccountStatusResult)
        ensures
            r@.available == false,
            r@.status == AccountStatus::Error,
            r@.error == Some(unavailable_msg()),
    {
        AccountStatusResult {
            available: false,
            status: AccountStatus::Error,
            error: Some(CLOUDKIT_UNAVAILABLE_MSG.to_owned()),
        }
    }

    /// Bidirectional sync of the serialized snapshot against the remote replica.
    pub fn sync(local_data: &str, local_last_modified: &str) -> (r: SyncResult)
        ensures
            r@ == unavailable_result(),
    {
        let _ = local_data;
        let _ = local_last_modified;
        SyncResult::unavailable()
    }

    /// Upload of the serialized snapshot to the remote replica.
    pub fn push(data: &str, last_modified: &str) -> (r: SyncResult)
        ensures
            r@ == unavailable_result(),
    {
        let _ = data;
        let _ = last_modified;
        SyncResult::unavailable()
    }

    /// Unconditional download of the remote snapshot.
    pub fn pull() -> (r: SyncResult)
        ensures
            r@ == unavailable_result(),
    {
        SyncResult::unavailable()
    }

    /// Current sync status; without a bridge the status is `Offline` with the
    /// sentinel message.
    pub fn get_status() -> (r: SyncStatusResult)
        ensures
            r@.status == SyncStatus::Offline,
            r@.error == Some(unavailable_msg()),
    {
        SyncStatusResult {
            status: SyncStatus::Offline,
            error: Some(CLOUDKIT_UNAVAILABLE_MSG.to_owned()),
        }
    }

    /// Best-effort registration for remote change notifications.
    pub fn setup_subscriptions() -> (r: bool)
        ensures
            r == false,
    {
        false
    }

    /// Clears the remote replica only; the local snapshot is untouched.
    pub fn delete_data() -> (r: bool)
        ensures
            r == false,
    {
        false
    }
}

/// Sync outcome in the shape handed to the UI shell.
#[derive(Debug, Clone, PartialEq)]
pub struct SyncResultJson {
    pub success: bool,
    pub should_update_local: bool,
    pub error: Option<String>,
    pub data: Option<String>,
    pub remote_last_modified: Option<String>,
}

impl View for SyncResultJson {
    type V = SyncResultV;

    open spec fn view(&self) -> SyncResultV {
        SyncResultV {
            success: self.success,
            should_update_local: self.should_update_local,
            error: self.error.deep_view(),
            data: self.data.deep_view(),
            remote_last_modified: self.remote_last_modified.deep_view(),
        }
    }
}

impl From<SyncResult> for SyncResultJson {
    fn from(result: SyncResult) -> (r: SyncResultJson)
        ensures
            r@ == result@,
    {
        SyncResultJson {
            success: result.success,
            should_update_local: result.should_update_local,
            error: result.error,
            data: result.data,
            remote_last_modified: result.remote_last_modified,
        }
    }
}

impl vstd::std_specs::convert::FromSpecImpl<SyncResult> for SyncResultJson {
    open spec fn obeys_from_spec() -> bool {
        true
    }

    open spec fn from_spec(v: SyncResult) -> SyncResultJson {
        SyncResultJson {
            success: v.success,
            should_update_local: v.should_update_local,
            error: v.error,
            data: v.data,
            remote_last_modified: v.remote_last_modified,
        }
    }
}

/// Sync status in the shape handed to the UI shell: the status under its
/// stable label.
#[derive(Debug, Clone)]
pub struct SyncStatusJson {
    pub status: String,
    pub error: Option<String>,
}

/// Mathematical model of a `SyncStatusJson`.
pub struct SyncStatusJsonV {
    pub status: Seq<char>,
    pub error: Option<Seq<char>>,
}

impl View for SyncStatusJson {
    type V = SyncStatusJsonV;

    open spec fn view(&self) -> SyncStatusJsonV {
        SyncStatusJsonV { status: self.status@, error: self.error.deep_view() }
    }
}

impl SyncStatusJson {
    /// Labels the status for the UI shell, keeping the error detail.
    pub fn from_result(result: SyncStatusResult) -> (r: SyncStatusJson)
        ensures
            r@.status == status_label(result.status),
            r@.error == result@.error,
    {
        SyncStatusJson { status: result.status.as_str().to_owned(), error: result.error }
    }
}

/// Account availability in the shape handed to the UI shell: the status under
/// its stable label.
#[derive(Debug, Clone)]
pub struct AccountStatusJson {
    pub available: bool,
    pub status: String,
    pub error: Option<String>,
}

/// Mathematical model of an `AccountStatusJson`.
pub struct AccountStatusJsonV {
    pub available: bool,
    pub status: Seq<char>,
    pub error: Option<Seq<char>>,
}

impl View for AccountStatusJson {
    type V = AccountStatusJsonV;

    open spec fn view(&self) -> AccountStatusJsonV {
        AccountStatusJsonV {
            available: self.available,
            status: self.status@,
            error: self.error.deep_view(),
        }
    }
}

impl AccountStatusJson {
    /// Labels the account status for the UI shell, keeping availability and
    /// error detail.
    pub fn from_result(result: AccountStatusResult) -> (r: AccountStatusJson)
        ensures
            r@.available == result.available,
            r@.status == account_label(result.status),
            r@.error == result@.error,
    {
        AccountStatusJson {
            available: result.available,
            status: result.status.as_str().to_owned(),
            error: result.error,
        }
    }
}

} // verus!
