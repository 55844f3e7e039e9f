//! The station bridge's wire contract (version 1).
//!
//! These are the values the operator page consumes: snapshots, events, pushes
//! and the boot payload. Each type that holds text or a list has a view, over
//! which the contracts of the rest of the library speak.

use vstd::prelude::*;

verus! {

pub const CONTRACT_VERSION: u32 = 1;

/// A parsed JSON value: the operator-string overrides, carried through to the
/// page and never looked into.
#[verifier::external_type_specification]
#[verifier::external_body]
pub struct ExJsonValue(serde_json::Value);

#[derive(Debug, Clone, Copy, PartialEq, Eq, Structural)]
pub enum ConnectionState {
    Connected,
    Disconnected,
}

#[derive(Debug, Clone, Copy, PartialEq, Eq, Structural)]
pub enum TapVerdict {
    Success,
    Retry,
    Dead,
}

#[derive(Debug, PartialEq, Eq)]
pub struct BatchInfo {
    pub id: String,
    /// Operator-visible. Confidentiality-bound: outcome words and product
    /// names only, never failure reasons, identifiers or technical vocabulary.
    pub name: String,
    pub total: u32,
    /// May exceed `total` (recounts). The page renders it unclamped by design.
    pub completed: u32,
    pub failed: u32,
}

/// What a batch is, with its numbers unbounded.
#[verifier::ext_equal]
pub ghost struct BatchView {
    pub id: Seq<char>,
    pub name: Seq<char>,
    pub total: nat,
    pub completed: nat,
    pub failed: nat,
}

impl View for BatchInfo {
    type V = BatchView;

    open spec fn view(&self) -> BatchView {
        BatchView {
            id: self.id@,
            name: self.name@,
            total: self.total as nat,
            completed: self.completed as nat,
            failed: self.failed as nat,
        }
    }
}

impl DeepView for BatchInfo {
    type V = BatchView;

    open spec fn deep_view(&self) -> BatchView {
        self@
    }
}

impl Clone for BatchInfo {
    fn clone(&self) -> (copy: BatchInfo)
        ensures
            copy == *self,
    {
        BatchInfo {
            id: self.id.clone(),
            name: self.name.clone(),
            total: self.total,
            completed: self.completed,
            failed: self.failed,
        }
    }
}

#[derive(Debug, Clone, Copy, PartialEq, Eq, Structural)]
pub struct SessionCounts {
    pub done: u32,
    pub failed: u32,
}

pub ghost struct CountsView {
    pub done: nat,
    pub failed: nat,
}

impl View for SessionCounts {
    type V = CountsView;

    open spec fn view(&self) -> CountsView {
        CountsView { done: self.done as nat, failed: self.failed as nat }
    }
}

impl CountsView {
    /// The counts of a session in which nothing has been tapped yet.
    pub open spec fn zero() -> CountsView {
        CountsView { done: 0, failed: 0 }
    }

    /// The counts once one more tap is ruled on. A success is done, a dead chip is
    /// failed, and a retry counts as nothing.
    pub open spec fn after(self, verdict: TapVerdict) -> CountsView {
        match verdict {
            TapVerdict::Success => CountsView { done: self.done + 1, ..self },
            TapVerdict::Dead => CountsView { failed: self.failed + 1, ..self },
            TapVerdict::Retry => self,
        }
    }
}

impl Default for SessionCounts {
    fn default() -> (counts: SessionCounts)
        ensures
            counts@ == CountsView::zero(),
    {
        SessionCounts { done: 0, failed: 0 }
    }
}

#[derive(Debug, Clone, Copy, PartialEq, Eq, Structural)]
pub enum FailBinSide {
    Left,
    Right,
}

#[derive(Debug, Clone, Copy, PartialEq, Eq, Structural)]
pub struct StationUiConfig {
    pub fail_bin_side: FailBinSide,
}

#[derive(Debug, PartialEq)]
pub struct StationSnapshot {
    pub connection: ConnectionState,
    pub current_batch: Option<BatchInfo>,
    pub session_counts: SessionCounts,
    pub config: StationUiConfig,
}

#[verifier::ext_equal]
pub ghost struct SnapshotView {
    pub connection: ConnectionState,
    pub current_batch: Option<BatchView>,
    pub session_counts: CountsView,
    pub config: StationUiConfig,
}

impl View for StationSnapshot {
    type V = SnapshotView;

    open spec fn view(&self) -> SnapshotView {
        SnapshotView {
            connection: self.connection,
            current_batch: self.current_batch.deep_view(),
            session_counts: self.session_counts@,
            config: self.config,
        }
    }
}

impl DeepView for StationSnapshot {
    type V = SnapshotView;

    open spec fn deep_view(&self) -> SnapshotView {
        self@
    }
}

impl Clone for StationSnapshot {
    fn clone(&self) -> (copy: StationSnapshot)
        ensures
            copy == *self,
    {
        StationSnapshot {
            connection: self.connection,
            current_batch: self.current_batch.clone(),
            session_counts: self.session_counts,
            config: self.config,
        }
    }
}

/// Wire form of a station event. `Data` and `ApplyBatch` carry no snapshot:
/// the page substitutes the one it just took from the same push.
#[derive(Debug, Clone, Copy, PartialEq, Eq, Structural)]
pub enum WireEvent {
    TapResult { result: TapVerdict },
    Connection { state: ConnectionState },
    Data,
    ApplyBatch,
    EndShift,
}

/// One atomic push to the page: the snapshot swap first (when present), then
/// the events in order. `seq` grows for the process lifetime and never resets;
/// the page drops any payload whose `seq` it has already passed.
#[derive(Debug, PartialEq)]
pub struct PushPayload {
    pub seq: u64,
    pub snapshot: Option<StationSnapshot>,
    pub events: Vec<WireEvent>,
}

#[verifier::ext_equal]
pub ghost struct PayloadView {
    pub seq: nat,
    pub snapshot: Option<SnapshotView>,
    pub events: Seq<WireEvent>,
}

impl View for PushPayload {
    type V = PayloadView;

    open spec fn view(&self) -> PayloadView {
        PayloadView {
            seq: self.seq as nat,
            snapshot: self.snapshot.deep_view(),
            events: self.events@,
        }
    }
}

impl DeepView for PushPayload {
    type V = PayloadView;

    open spec fn deep_view(&self) -> PayloadView {
        self@
    }
}

impl Clone for PushPayload {
    fn clone(&self) -> (copy: PushPayload)
        ensures
            copy@ == self@,
    {
        PushPayload {
            seq: self.seq,
            snapshot: self.snapshot.clone(),
            events: self.events.clone(),
        }
    }
}

/// What a fresh document boots from: pulled on every document creation, so a
/// reload hours into a shift still starts from current truth.
#[derive(Debug, PartialEq)]
pub struct BootPayload {
    pub seq: u64,
    pub snapshot: StationSnapshot,
    pub strings: Option<serde_json::Value>,
}

/// The views of the wire values show every field as it is.
pub proof fn law_wire_values_are_shown_as_they_are(
    batch: BatchInfo,
    counts: SessionCounts,
    snapshot: StationSnapshot,
    push: PushPayload,
)
    ensures
        batch@.id == batch.id@ && batch@.name == batch.name@,
        batch@.total == batch.total && batch@.completed == batch.completed && batch@.failed
            == batch.failed,
        counts@.done == counts.done && counts@.failed == counts.failed,
        snapshot@.connection == snapshot.connection && snapshot@.config == snapshot.config,
        snapshot@.session_counts == snapshot.session_counts@,
        snapshot@.current_batch is Some <==> snapshot.current_batch is Some,
        snapshot.current_batch matches Some(b) ==> snapshot@.current_batch == Some(b@),
        push@.seq == push.seq && push@.events == push.events@,
        push@.snapshot is Some <==> push.snapshot is Some,
        push.snapshot matches Some(s) ==> push@.snapshot == Some(s@),
{
}

}
