//! The gateway's view of where a worker is in its life.

use crate::text;
use vstd::prelude::*;
use vstd::string::*;

verus! {

/// Gateway-side view of a worker's lifecycle.
#[derive(Debug, Clone, Copy, PartialEq, Eq, Structural)]
pub enum WorkerStatus {
    /// Process spawned (or about to be); waiting for the model to load.
    Starting,
    /// Health reports READY; requests are routed.
    Ready,
    /// Being unloaded (eviction or idle TTL): drain in progress.
    Draining,
    /// Deliberately not loaded; a request (or admin action) reloads it.
    Unloaded { reason: UnloadReason },
    /// Crashed; the supervisor is backing off before respawning.
    Restarting { attempt: u32 },
    /// Exceeded the restart budget; requires manual intervention.
    Failed,
    /// Gateway is shutting down.
    Stopped,
}

/// Why a model is not loaded.
#[derive(Debug, Clone, Copy, PartialEq, Eq, Structural)]
pub enum UnloadReason {
    /// LRU-evicted to make room for another model's load.
    Evicted,
    /// Idle past its configured `ttl_seconds`.
    IdleTtl,
    /// Its own load was rejected: over budget with no evictable model.
    OverBudget,
    /// Operator asked for it via `POST /admin/models/{id}/unload`.
    Admin,
    /// Registered at runtime and not loaded yet.
    Registered,
}

impl UnloadReason {
    pub open spec fn spec_label(self) -> Seq<char> {
        match self {
            UnloadReason::Evicted => "evicted"@,
            UnloadReason::IdleTtl => "idle_ttl"@,
            UnloadReason::OverBudget => "over_budget"@,
            UnloadReason::Admin => "admin"@,
            UnloadReason::Registered => "registered"@,
        }
    }

    /// The words an operator reads for this reason.
    pub open spec fn spec_words(self) -> Seq<char> {
        match self {
            UnloadReason::Evicted => "unloaded (evicted)"@,
            UnloadReason::IdleTtl => "unloaded (idle ttl)"@,
            UnloadReason::OverBudget => "unloaded (over budget)"@,
            UnloadReason::Admin => "unloaded (admin)"@,
            UnloadReason::Registered => "unloaded (registered)"@,
        }
    }

    /// Bounded label for `kiln_worker_unloads_total{reason}`.
    pub fn label(self) -> (r: &'static str)
        ensures
            r@ == self.spec_label(),
    {
        match self {
            UnloadReason::Evicted => "evicted",
            UnloadReason::IdleTtl => "idle_ttl",
            UnloadReason::OverBudget => "over_budget",
            UnloadReason::Admin => "admin",
            UnloadReason::Registered => "registered",
        }
    }
}

impl WorkerStatus {
    /// The words an operator reads for this status.
    pub open spec fn spec_text(self) -> Seq<char> {
        match self {
            WorkerStatus::Starting => "starting"@,
            WorkerStatus::Ready => "ready"@,
            WorkerStatus::Draining => "draining"@,
            WorkerStatus::Unloaded { reason } => reason.spec_words(),
            WorkerStatus::Restarting { attempt } => "restarting (attempt "@ + text::decimal(
                attempt as nat,
            ) + ")"@,
            WorkerStatus::Failed => "failed"@,
            WorkerStatus::Stopped => "stopped"@,
        }
    }

    /// The status in words.
    pub fn text(self) -> (r: String)
        ensures
            r@ == self.spec_text(),
    {
        match self {
            WorkerStatus::Starting => "starting".to_owned(),
            WorkerStatus::Ready => "ready".to_owned(),
            WorkerStatus::Draining => "draining".to_owned(),
            WorkerStatus::Unloaded { reason } => match reason {
                UnloadReason::Evicted => "unloaded (evicted)".to_owned(),
                UnloadReason::IdleTtl => "unloaded (idle ttl)".to_owned(),
                UnloadReason::OverBudget => "unloaded (over budget)".to_owned(),
                UnloadReason::Admin => "unloaded (admin)".to_owned(),
                UnloadReason::Registered => "unloaded (registered)".to_owned(),
            },
            WorkerStatus::Restarting { attempt } => {
                let mut s: String = "restarting (attempt ".to_owned();
                text::push_decimal(&mut s, attempt as u64);
                s.append(")");
                s
            },
            WorkerStatus::Failed => "failed".to_owned(),
            WorkerStatus::Stopped => "stopped".to_owned(),
        }
    }
}

/// Operators and counters read the words for each reason and status.
pub proof fn law_statuses_have_their_words(attempt: u32)
    ensures
        UnloadReason::Evicted.spec_label() == "evicted"@,
        UnloadReason::IdleTtl.spec_label() == "idle_ttl"@,
        UnloadReason::OverBudget.spec_label() == "over_budget"@,
        UnloadReason::Admin.spec_label() == "admin"@,
        UnloadReason::Registered.spec_label() == "registered"@,
        WorkerStatus::Starting.spec_text() == "starting"@,
        WorkerStatus::Ready.spec_text() == "ready"@,
        WorkerStatus::Draining.spec_text() == "draining"@,
        WorkerStatus::Failed.spec_text() == "failed"@,
        WorkerStatus::Stopped.spec_text() == "stopped"@,
        (WorkerStatus::Restarting { attempt }).spec_text() == "restarting (attempt "@
            + text::decimal(attempt as nat) + ")"@,
        (WorkerStatus::Unloaded { reason: UnloadReason::Evicted }).spec_text()
            == "unloaded (evicted)"@,
        (WorkerStatus::Unloaded { reason: UnloadReason::IdleTtl }).spec_text()
            == "unloaded (idle ttl)"@,
        (WorkerStatus::Unloaded { reason: UnloadReason::OverBudget }).spec_text()
            == "unloaded (over budget)"@,
        (WorkerStatus::Unloaded { reason: UnloadReason::Admin }).spec_text()
            == "unloaded (admin)"@,
        (WorkerStatus::Unloaded { reason: UnloadReason::Registered }).spec_text()
            == "unloaded (registered)"@,
{
}

} // verus!
