//! Station state and event composition, with no input or output of its own.
//!
//! Every change builds a new snapshot and takes the next `seq`, which stamps
//! the push that announces it. `StationView` is the state's model: each
//! operation has a spec function there, and the methods of `StationState`
//! compute exactly those.

use crate::contract::{
    BatchInfo, BootPayload, ConnectionState, PushPayload, SessionCounts, StationSnapshot,
    StationUiConfig, TapVerdict, WireEvent,
};
use crate::contract::{BatchView, CountsView, PayloadView, SnapshotView};
use vstd::prelude::*;

verus! {

#[derive(Debug, Clone, Copy, PartialEq, Eq, Structural)]
pub enum ShiftBeginKind {
    /// The operator picked a batch on the batch-select screen.
    Select,
    /// The shell began the shift (supervisor assignment).
    Apply,
}

#[derive(Debug)]
pub struct ShiftMeta {
    pub shift_id: String,
    pub started_at_ms: u64,
    /// Set when the shift ended. The snapshot is not touched by that: a crash
    /// after the end of a shift resumes with the old counts.
    pub ended: bool,
}

#[verifier::ext_equal]
pub ghost struct ShiftView {
    pub shift_id: Seq<char>,
    pub started_at_ms: u64,
    pub ended: bool,
}

impl View for ShiftMeta {
    type V = ShiftView;

    open spec fn view(&self) -> ShiftView {
        ShiftView {
            shift_id: self.shift_id@,
            started_at_ms: self.started_at_ms,
            ended: self.ended,
        }
    }
}

impl DeepView for ShiftMeta {
    type V = ShiftView;

    open spec fn deep_view(&self) -> ShiftView {
        self@
    }
}

impl Clone for ShiftMeta {
    fn clone(&self) -> (copy: ShiftMeta)
        ensures
            copy == *self,
    {
        ShiftMeta {
            shift_id: self.shift_id.clone(),
            started_at_ms: self.started_at_ms,
            ended: self.ended,
        }
    }
}

#[derive(Debug)]
pub struct PersistedShift {
    pub meta: ShiftMeta,
    pub batch: BatchInfo,
    pub counts: SessionCounts,
}

#[verifier::ext_equal]
pub ghost struct PersistedShiftView {
    pub meta: ShiftView,
    pub batch: BatchView,
    pub counts: CountsView,
}

impl View for PersistedShift {
    type V = PersistedShiftView;

    open spec fn view(&self) -> PersistedShiftView {
        PersistedShiftView { meta: self.meta@, batch: self.batch@, counts: self.counts@ }
    }
}

impl DeepView for PersistedShift {
    type V = PersistedShiftView;

    open spec fn deep_view(&self) -> PersistedShiftView {
        self@
    }
}

impl Clone for PersistedShift {
    fn clone(&self) -> (copy: PersistedShift)
        ensures
            copy == *self,
    {
        PersistedShift {
            meta: self.meta.clone(),
            batch: self.batch.clone(),
            counts: self.counts,
        }
    }
}

/// What the session file holds. The retry ledger is deliberately absent: it is
/// scoped to the session and starts empty after a crash.
#[derive(Debug)]
pub struct PersistedSession {
    pub schema: u32,
    pub shift: Option<PersistedShift>,
    pub pending_end_shift: bool,
}

#[verifier::ext_equal]
pub ghost struct PersistedView {
    pub schema: u32,
    pub shift: Option<PersistedShiftView>,
    pub pending_end_shift: bool,
}

impl View for PersistedSession {
    type V = PersistedView;

    open spec fn view(&self) -> PersistedView {
        PersistedView {
            schema: self.schema,
            shift: self.shift.deep_view(),
            pending_end_shift: self.pending_end_shift,
        }
    }
}

impl DeepView for PersistedSession {
    type V = PersistedView;

    open spec fn deep_view(&self) -> PersistedView {
        self@
    }
}

impl Clone for PersistedSession {
    fn clone(&self) -> (copy: PersistedSession)
        ensures
            copy == *self,
    {
        PersistedSession {
            schema: self.schema,
            shift: self.shift.clone(),
            pending_end_shift: self.pending_end_shift,
        }
    }
}

pub const SESSION_SCHEMA: u32 = 1;

impl PersistedView {
    /// The session of a station on which no shift has begun.
    pub open spec fn fresh() -> PersistedView {
        PersistedView { schema: SESSION_SCHEMA, shift: None, pending_end_shift: false }
    }
}

#[derive(Debug)]
pub struct StationState {
    pub snapshot: StationSnapshot,
    pub seq: u64,
    pub reader_present: bool,
    pub downstream_ready: bool,
    /// False while session persistence is failing. Folded into `connected`: a
    /// tap whose count would vanish in the next crash is not fully processed,
    /// so the line pauses.
    pub persist_ok: bool,
    pub shift: Option<ShiftMeta>,
    pub pending_end_shift: bool,
}

#[verifier::ext_equal]
pub ghost struct StationView {
    pub snapshot: SnapshotView,
    pub seq: nat,
    pub reader_present: bool,
    pub downstream_ready: bool,
    pub persist_ok: bool,
    pub shift: Option<ShiftView>,
    pub pending_end_shift: bool,
}

impl View for StationState {
    type V = StationView;

    open spec fn view(&self) -> StationView {
        StationView {
            snapshot: self.snapshot@,
            seq: self.seq as nat,
            reader_present: self.reader_present,
            downstream_ready: self.downstream_ready,
            persist_ok: self.persist_ok,
            shift: self.shift.deep_view(),
            pending_end_shift: self.pending_end_shift,
        }
    }
}

impl StationView {
    /// The state of a station that just started: disconnected until the reader
    /// and the keying layer report in, and resuming the shift that was on disk.
    pub open spec fn boot(config: StationUiConfig, persisted: Option<PersistedView>) -> StationView {
        StationView {
            snapshot: SnapshotView {
                connection: ConnectionState::Disconnected,
                current_batch: match persisted {
                    Some(PersistedView { shift: Some(s), .. }) => Some(s.batch),
                    _ => None,
                },
                session_counts: match persisted {
                    Some(PersistedView { shift: Some(s), .. }) => s.counts,
                    _ => CountsView::zero(),
                },
                config,
            },
            seq: 0,
            reader_present: false,
            downstream_ready: false,
            persist_ok: true,
            shift: match persisted {
                Some(PersistedView { shift: Some(s), .. }) => Some(s.meta),
                _ => None,
            },
            pending_end_shift: match persisted {
                Some(p) => p.pending_end_shift,
                None => false,
            },
        }
    }

    /// What the session file says of this state.
    pub open spec fn image(self) -> PersistedView {
        PersistedView {
            schema: SESSION_SCHEMA,
            shift: match (self.shift, self.snapshot.current_batch) {
                (Some(meta), Some(batch)) => Some(
                    PersistedShiftView { meta, batch, counts: self.snapshot.session_counts },
                ),
                _ => None,
            },
            pending_end_shift: self.pending_end_shift,
        }
    }

    /// The connection that the three inputs amount to: a tap would be
    /// processed end to end only if all of them are good.
    pub open spec fn connection_due(self) -> ConnectionState {
        if self.reader_present && self.downstream_ready && self.persist_ok {
            ConnectionState::Connected
        } else {
            ConnectionState::Disconnected
        }
    }

    /// The snapshot shows the connection that the inputs amount to.
    pub open spec fn truthful(self) -> bool {
        self.snapshot.connection == self.connection_due()
    }

    pub open spec fn connected(self) -> bool {
        self.snapshot.connection == ConnectionState::Connected
    }

    /// The push that announces this state, the last `seq` being its stamp.
    pub open spec fn announcing(self, snapshot_changed: bool, events: Seq<WireEvent>) -> PayloadView {
        PayloadView {
            seq: self.seq,
            snapshot: if snapshot_changed {
                Some(self.snapshot)
            } else {
                None
            },
            events,
        }
    }

    pub open spec fn with_inputs(
        self,
        reader_present: Option<bool>,
        downstream_ready: Option<bool>,
    ) -> StationView {
        StationView {
            reader_present: match reader_present {
                Some(r) => r,
                None => self.reader_present,
            },
            downstream_ready: match downstream_ready {
                Some(d) => d,
                None => self.downstream_ready,
            },
            ..self
        }
    }

    pub open spec fn with_persist_ok(self, ok: bool) -> StationView {
        StationView { persist_ok: ok, ..self }
    }

    /// The connection changes when the snapshot catches up with the inputs.
    pub open spec fn flips(self) -> bool {
        self.snapshot.connection != self.connection_due()
    }

    /// This state once the snapshot shows the connection due.
    pub open spec fn settled(self) -> StationView {
        if self.flips() {
            StationView {
                snapshot: SnapshotView { connection: self.connection_due(), ..self.snapshot },
                seq: self.seq + 1,
                ..self
            }
        } else {
            self
        }
    }

    /// The events of a flip to `state`: a reconnection also carries the
    /// catch-up `Data`.
    pub open spec fn flip_events(state: ConnectionState) -> Seq<WireEvent> {
        match state {
            ConnectionState::Connected => seq![WireEvent::Connection { state }, WireEvent::Data],
            ConnectionState::Disconnected => seq![WireEvent::Connection { state }],
        }
    }

    /// The push of `settled`: nothing when the connection did not flip.
    pub open spec fn settling_push(self) -> Option<PayloadView> {
        if self.flips() {
            Some(
                self.settled().announcing(true, Self::flip_events(self.connection_due())),
            )
        } else {
            None
        }
    }

    /// A fresh shift on `batch`: zero counts, nothing pending.
    pub open spec fn begun(self, batch: BatchView, shift_id: Seq<char>, now_ms: u64) -> StationView {
        StationView {
            snapshot: SnapshotView {
                current_batch: Some(batch),
                session_counts: CountsView::zero(),
                ..self.snapshot
            },
            seq: self.seq + 1,
            shift: Some(ShiftView { shift_id, started_at_ms: now_ms, ended: false }),
            pending_end_shift: false,
            ..self
        }
    }

    pub open spec fn begin_event(kind: ShiftBeginKind) -> WireEvent {
        match kind {
            ShiftBeginKind::Select => WireEvent::Data,
            ShiftBeginKind::Apply => WireEvent::ApplyBatch,
        }
    }

    /// Another batch in the same shift: the counts stay.
    pub open spec fn swapped(self, batch: BatchView) -> StationView {
        StationView {
            snapshot: SnapshotView { current_batch: Some(batch), ..self.snapshot },
            seq: self.seq + 1,
            ..self
        }
    }

    /// One tap ruled on. A retry moves nothing but `seq`; the others move the
    /// counts and adopt the batch that the batch source returned, if any.
    pub open spec fn ruled(self, verdict: TapVerdict, updated_batch: Option<BatchView>) -> StationView {
        StationView {
            snapshot: if verdict == TapVerdict::Retry {
                self.snapshot
            } else {
                SnapshotView {
                    current_batch: match updated_batch {
                        Some(b) => Some(b),
                        None => self.snapshot.current_batch,
                    },
                    session_counts: self.snapshot.session_counts.after(verdict),
                    ..self.snapshot
                }
            },
            seq: self.seq + 1,
            ..self
        }
    }

    /// The push that a ruling sends. The result comes first, and a retry carries no
    /// snapshot and no `Data`.
    pub open spec fn ruling_push(
        self,
        verdict: TapVerdict,
        updated_batch: Option<BatchView>,
    ) -> PayloadView {
        let after = self.ruled(verdict, updated_batch);
        if verdict == TapVerdict::Retry {
            after.announcing(false, seq![WireEvent::TapResult { result: verdict }])
        } else {
            after.announcing(true, seq![WireEvent::TapResult { result: verdict }, WireEvent::Data])
        }
    }

    /// The shift is over: the snapshot and `seq` stay as they are.
    pub open spec fn shift_ended(self) -> StationView {
        StationView {
            shift: match self.shift {
                Some(s) => Some(ShiftView { ended: true, ..s }),
                None => None,
            },
            pending_end_shift: false,
            ..self
        }
    }

    pub open spec fn end_shift_armed(self) -> StationView {
        StationView { pending_end_shift: true, ..self }
    }

    /// The same state under the next `seq`.
    pub open spec fn stamped(self) -> StationView {
        StationView { seq: self.seq + 1, ..self }
    }

    /// No shift, no batch and no counts, under the next `seq`; the connection
    /// and its inputs stay.
    pub open spec fn cleared(self) -> StationView {
        StationView {
            snapshot: SnapshotView {
                current_batch: None,
                session_counts: CountsView::zero(),
                ..self.snapshot
            },
            seq: self.seq + 1,
            shift: None,
            pending_end_shift: false,
            ..self
        }
    }
}

impl StationState {
    /// Boot state. The connection starts disconnected: truthful until the
    /// reader monitor and the keying layer report in, and safe if they never
    /// do.
    pub fn new(config: StationUiConfig, persisted: Option<PersistedSession>) -> (state: StationState)
        ensures
            state@ == StationView::boot(config, persisted.deep_view()),
    {
        let (shift, current_batch, counts, pending) = match persisted {
            Some(p) => match p.shift {
                Some(s) => (Some(s.meta), Some(s.batch), s.counts, p.pending_end_shift),
                None => (None, None, SessionCounts::default(), p.pending_end_shift),
            },
            None => (None, None, SessionCounts::default(), false),
        };
        StationState {
            snapshot: StationSnapshot {
                connection: ConnectionState::Disconnected,
                current_batch,
                session_counts: counts,
                config,
            },
            seq: 0,
            reader_present: false,
            downstream_ready: false,
            persist_ok: true,
            shift,
            pending_end_shift: pending,
        }
    }

    pub fn connected(&self) -> (connected: bool)
        ensures
            connected == self@.connected(),
    {
        self.snapshot.connection == ConnectionState::Connected
    }

    pub fn counts(&self) -> (counts: SessionCounts)
        ensures
            counts@ == self@.snapshot.session_counts,
    {
        self.snapshot.session_counts
    }

    pub fn to_persisted(&self) -> (session: PersistedSession)
        ensures
            session@ == self@.image(),
    {
        PersistedSession {
            schema: SESSION_SCHEMA,
            shift: match (&self.shift, &self.snapshot.current_batch) {
                (Some(meta), Some(batch)) => Some(
                    PersistedShift {
                        meta: meta.clone(),
                        batch: batch.clone(),
                        counts: self.snapshot.session_counts,
                    },
                ),
                _ => None,
            },
            pending_end_shift: self.pending_end_shift,
        }
    }

    fn next_seq(&mut self) -> (seq: u64)
        requires
            old(self).seq < u64::MAX,
        ensures
            final(self)@ == old(self)@.stamped(),
            seq == old(self).seq + 1,
    {
        self.seq = self.seq + 1;
        self.seq
    }

    fn payload(&mut self, snapshot_changed: bool, events: Vec<WireEvent>) -> (payload: PushPayload)
        requires
            old(self).seq < u64::MAX,
        ensures
            final(self)@ == old(self)@.stamped(),
            payload@ == final(self)@.announcing(snapshot_changed, events@),
            payload.seq == old(self).seq + 1,
            final(self).seq == payload.seq,
    {
        let seq: u64 = self.next_seq();
        PushPayload {
            seq,
            snapshot: if snapshot_changed {
                Some(self.snapshot.clone())
            } else {
                None
            },
            events,
        }
    }

    /// Reader and keying-layer inputs. A push comes back only when the
    /// connection flips; a report that changes nothing is silent.
    pub fn set_connection_inputs(
        &mut self,
        reader_present: Option<bool>,
        downstream_ready: Option<bool>,
    ) -> (push: Option<PushPayload>)
        requires
            old(self).seq < u64::MAX,
        ensures
            final(self)@ == old(self)@.with_inputs(reader_present, downstream_ready).settled(),
            push.deep_view() == old(self)@.with_inputs(
                reader_present,
                downstream_ready,
            ).settling_push(),
            match push {
                Some(p) => p.seq == old(self).seq + 1 && final(self).seq == p.seq,
                None => final(self).seq == old(self).seq,
            },
    {
        if let Some(r) = reader_present {
            self.reader_present = r;
        }
        if let Some(d) = downstream_ready {
            self.downstream_ready = d;
        }
        self.recompute_connection()
    }

    /// Persistence health: the third leg of the connection.
    pub fn set_persist_ok(&mut self, ok: bool) -> (push: Option<PushPayload>)
        requires
            old(self).seq < u64::MAX,
        ensures
            final(self)@ == old(self)@.with_persist_ok(ok).settled(),
            push.deep_view() == old(self)@.with_persist_ok(ok).settling_push(),
            match push {
                Some(p) => p.seq == old(self).seq + 1 && final(self).seq == p.seq,
                None => final(self).seq == old(self).seq,
            },
    {
        self.persist_ok = ok;
        self.recompute_connection()
    }

    fn recompute_connection(&mut self) -> (push: Option<PushPayload>)
        requires
            old(self).seq < u64::MAX,
        ensures
            final(self)@ == old(self)@.settled(),
            push.deep_view() == old(self)@.settling_push(),
            match push {
                Some(p) => p.seq == old(self).seq + 1 && final(self).seq == p.seq,
                None => final(self).seq == old(self).seq,
            },
    {
        let next = if self.reader_present && self.downstream_ready && self.persist_ok {
            ConnectionState::Connected
        } else {
            ConnectionState::Disconnected
        };
        if next == self.snapshot.connection {
            return None;
        }
        self.snapshot = StationSnapshot { connection: next, ..self.snapshot.clone() };
        let events = match next {
            ConnectionState::Connected => vec![
                WireEvent::Connection { state: next },
                WireEvent::Data,
            ],
            ConnectionState::Disconnected => vec![WireEvent::Connection { state: next }],
        };
        assert(events@ =~= StationView::flip_events(next));
        Some(self.payload(true, events))
    }

    /// Shift begin: resets the counts, as nothing but the demo reset does besides.
    pub fn begin_shift(
        &mut self,
        batch: BatchInfo,
        kind: ShiftBeginKind,
        shift_id: String,
        now_ms: u64,
    ) -> (push: PushPayload)
        requires
            old(self).seq < u64::MAX,
        ensures
            final(self)@ == old(self)@.begun(batch@, shift_id@, now_ms),
            push@ == final(self)@.announcing(true, seq![StationView::begin_event(kind)]),
            push.seq == old(self).seq + 1,
            final(self).seq == push.seq,
    {
        self.shift = Some(ShiftMeta { shift_id, started_at_ms: now_ms, ended: false });
        self.pending_end_shift = false;
        self.snapshot = StationSnapshot {
            current_batch: Some(batch),
            session_counts: SessionCounts::default(),
            ..self.snapshot.clone()
        };
        let event = match kind {
            ShiftBeginKind::Select => WireEvent::Data,
            ShiftBeginKind::Apply => WireEvent::ApplyBatch,
        };
        self.payload(true, vec![event])
    }

    /// Batch swap within a shift: the counts belong to the shift and stay.
    pub fn swap_batch(&mut self, batch: BatchInfo) -> (push: PushPayload)
        requires
            old(self).seq < u64::MAX,
        ensures
            final(self)@ == old(self)@.swapped(batch@),
            push@ == final(self)@.announcing(true, seq![WireEvent::Data]),
            push.seq == old(self).seq + 1,
            final(self).seq == push.seq,
    {
        self.snapshot = StationSnapshot { current_batch: Some(batch), ..self.snapshot.clone() };
        self.payload(true, vec![WireEvent::Data])
    }

    /// A verdict, announced the instant it exists.
    pub fn record_verdict(&mut self, verdict: TapVerdict, updated_batch: Option<BatchInfo>) -> (push:
        PushPayload)
        requires
            old(self).seq < u64::MAX,
            verdict == TapVerdict::Success ==> old(self).snapshot.session_counts.done < u32::MAX,
            verdict == TapVerdict::Dead ==> old(self).snapshot.session_counts.failed < u32::MAX,
        ensures
            final(self)@ == old(self)@.ruled(verdict, updated_batch.deep_view()),
            push@ == old(self)@.ruling_push(verdict, updated_batch.deep_view()),
            push.seq == old(self).seq + 1,
            final(self).seq == push.seq,
    {
        match verdict {
            TapVerdict::Retry => {
                self.payload(false, vec![WireEvent::TapResult { result: verdict }])
            },
            TapVerdict::Success | TapVerdict::Dead => {
                let counts = self.snapshot.session_counts;
                let session_counts = match verdict {
                    TapVerdict::Success => SessionCounts { done: counts.done + 1, ..counts },
                    _ => SessionCounts { failed: counts.failed + 1, ..counts },
                };
                let current_batch = match updated_batch {
                    Some(b) => Some(b),
                    None => self.snapshot.current_batch.clone(),
                };
                self.snapshot = StationSnapshot {
                    current_batch,
                    session_counts,
                    ..self.snapshot.clone()
                };
                self.payload(true, vec![WireEvent::TapResult { result: verdict }, WireEvent::Data])
            },
        }
    }

    /// The shift ends: answers the counts, resets nothing, pushes nothing.
    pub fn mark_shift_ended(&mut self) -> (counts: SessionCounts)
        ensures
            final(self)@ == old(self)@.shift_ended(),
            final(self).seq == old(self).seq,
            counts@ == old(self)@.snapshot.session_counts,
    {
        if let Some(shift) = &mut self.shift {
            shift.ended = true;
        }
        self.pending_end_shift = false;
        self.snapshot.session_counts
    }

    /// Corrective push for a page that started from a stale snapshot.
    pub fn catch_up(&mut self) -> (push: PushPayload)
        requires
            old(self).seq < u64::MAX,
        ensures
            final(self)@ == old(self)@.stamped(),
            push@ == final(self)@.announcing(true, seq![WireEvent::Data]),
            push.seq == old(self).seq + 1,
            final(self).seq == push.seq,
    {
        self.payload(true, vec![WireEvent::Data])
    }

    /// Shell-initiated end of shift: persisted, so that a crash in between
    /// resumes the emissions.
    pub fn arm_end_shift(&mut self)
        ensures
            final(self)@ == old(self)@.end_shift_armed(),
            final(self).seq == old(self).seq,
    {
        self.pending_end_shift = true;
    }

    /// One end-shift emission.
    pub fn emit_end_shift(&mut self) -> (push: PushPayload)
        requires
            old(self).seq < u64::MAX,
        ensures
            final(self)@ == old(self)@.stamped(),
            push@ == final(self)@.announcing(false, seq![WireEvent::EndShift]),
            push.seq == old(self).seq + 1,
            final(self).seq == push.seq,
    {
        self.payload(false, vec![WireEvent::EndShift])
    }

    /// Demo reset: forgets shift, batch and counts, keeps the connection.
    pub fn clear_session(&mut self)
        requires
            old(self).seq < u64::MAX,
        ensures
            final(self)@ == old(self)@.cleared(),
    {
        self.shift = None;
        self.pending_end_shift = false;
        self.snapshot = StationSnapshot {
            current_batch: None,
            session_counts: SessionCounts::default(),
            ..self.snapshot.clone()
        };
        let _ = self.next_seq();
    }

    pub fn boot_payload(&self, strings: Option<serde_json::Value>) -> (boot: BootPayload)
        ensures
            boot.seq == self.seq,
            boot.snapshot@ == self@.snapshot,
            boot.strings == strings,
    {
        BootPayload { seq: self.seq, snapshot: self.snapshot.clone(), strings }
    }
}

/// Every operation of the station state, with its arguments.
pub ghost enum StationOp {
    Inputs { reader_present: Option<bool>, downstream_ready: Option<bool> },
    PersistHealth { ok: bool },
    Begin { batch: BatchView, kind: ShiftBeginKind, shift_id: Seq<char>, now_ms: u64 },
    Swap { batch: BatchView },
    Rule { verdict: TapVerdict, updated_batch: Option<BatchView> },
    EndShift,
    CatchUp,
    ArmEndShift,
    EmitEndShift,
    ClearSession,
}

impl StationView {
    /// The state after one operation.
    pub open spec fn after(self, op: StationOp) -> StationView {
        match op {
            StationOp::Inputs { reader_present, downstream_ready } => self.with_inputs(
                reader_present,
                downstream_ready,
            ).settled(),
            StationOp::PersistHealth { ok } => self.with_persist_ok(ok).settled(),
            StationOp::Begin { batch, shift_id, now_ms, .. } => self.begun(batch, shift_id, now_ms),
            StationOp::Swap { batch } => self.swapped(batch),
            StationOp::Rule { verdict, updated_batch } => self.ruled(verdict, updated_batch),
            StationOp::EndShift => self.shift_ended(),
            StationOp::CatchUp => self.stamped(),
            StationOp::ArmEndShift => self.end_shift_armed(),
            StationOp::EmitEndShift => self.stamped(),
            StationOp::ClearSession => self.cleared(),
        }
    }

    /// The push of one operation, if it has one.
    pub open spec fn push_of(self, op: StationOp) -> Option<PayloadView> {
        match op {
            StationOp::Inputs { reader_present, downstream_ready } => self.with_inputs(
                reader_present,
                downstream_ready,
            ).settling_push(),
            StationOp::PersistHealth { ok } => self.with_persist_ok(ok).settling_push(),
            StationOp::Begin { kind, .. } => Some(
                self.after(op).announcing(true, seq![Self::begin_event(kind)]),
            ),
            StationOp::Swap { .. } => Some(
                self.after(op).announcing(true, seq![WireEvent::Data]),
            ),
            StationOp::Rule { verdict, updated_batch } => Some(
                self.ruling_push(verdict, updated_batch),
            ),
            StationOp::EndShift => None,
            StationOp::CatchUp => Some(self.after(op).announcing(true, seq![WireEvent::Data])),
            StationOp::ArmEndShift => None,
            StationOp::EmitEndShift => Some(
                self.after(op).announcing(false, seq![WireEvent::EndShift]),
            ),
            StationOp::ClearSession => None,
        }
    }

    /// The state after a run of operations.
    pub open spec fn after_all(self, ops: Seq<StationOp>) -> StationView
        decreases ops.len(),
    {
        if ops.len() == 0 {
            self
        } else {
            self.after_all(ops.drop_last()).after(ops.last())
        }
    }

    /// The pushes of a run of operations, in order.
    pub open spec fn pushes(self, ops: Seq<StationOp>) -> Seq<PayloadView>
        decreases ops.len(),
    {
        if ops.len() == 0 {
            Seq::empty()
        } else {
            let rest = self.pushes(ops.drop_last());
            match self.after_all(ops.drop_last()).push_of(ops.last()) {
                Some(payload) => rest.push(payload),
                None => rest,
            }
        }
    }
}

/// How many taps of a run were ruled on with `verdict`.
pub open spec fn rulings(ops: Seq<StationOp>, verdict: TapVerdict) -> nat
    decreases ops.len(),
{
    if ops.len() == 0 {
        0
    } else {
        let rest = rulings(ops.drop_last(), verdict);
        match ops.last() {
            StationOp::Rule { verdict: given, .. } => if given == verdict {
                rest + 1
            } else {
                rest
            },
            _ => rest,
        }
    }
}

/// Whatever is done to a station from boot on, its snapshot says `connected`
/// exactly when reader, keying layer and persistence are all good, and its
/// configuration stays the one it booted with.
pub proof fn law_the_connection_shown_is_always_true(
    config: StationUiConfig,
    persisted: Option<PersistedView>,
    ops: Seq<StationOp>,
)
    ensures
        StationView::boot(config, persisted).after_all(ops).truthful(),
        StationView::boot(config, persisted).after_all(ops).snapshot.config == config,
    decreases ops.len(),
{
    if ops.len() > 0 {
        law_the_connection_shown_is_always_true(config, persisted, ops.drop_last());
    }
}

/// `seq` never falls and never stands still under a new snapshot: along any
/// run of operations, a later state that shows something else has a larger
/// `seq`.
pub proof fn law_a_changed_snapshot_has_a_later_seq(start: StationView, ops: Seq<StationOp>)
    ensures
        start.seq <= start.after_all(ops).seq,
        start.after_all(ops).snapshot != start.snapshot ==> start.seq < start.after_all(ops).seq,
    decreases ops.len(),
{
    if ops.len() > 0 {
        law_a_changed_snapshot_has_a_later_seq(start, ops.drop_last());
    }
}

/// Every push takes the next number: an operation that pushes moves `seq` by
/// one, and its push carries that `seq` and, if any, the snapshot of the state
/// after it. An operation that pushes nothing leaves `seq` alone, save the demo
/// reset, which takes a number of its own.
pub proof fn law_every_push_takes_the_next_seq(s: StationView, op: StationOp)
    ensures
        match s.push_of(op) {
            Some(payload) => {
                &&& payload.seq == s.seq + 1
                &&& s.after(op).seq == s.seq + 1
                &&& payload.snapshot matches Some(shown) ==> shown == s.after(op).snapshot
            },
            None => s.after(op).seq == (if op is ClearSession {
                s.seq + 1
            } else {
                s.seq
            }),
        },
{
}

/// Pushes are numbered without a gap: along a run without a demo reset, the
/// first push carries the number behind the one the run started from, each
/// further one the number behind the push before it, and `seq` ends at the
/// last.
pub proof fn law_pushes_are_numbered_without_a_gap(start: StationView, ops: Seq<StationOp>)
    requires
        forall|i: int| 0 <= i < ops.len() ==> !(#[trigger] ops[i] is ClearSession),
    ensures
        start.after_all(ops).seq == start.seq + start.pushes(ops).len(),
        forall|i: int|
            0 <= i < start.pushes(ops).len() ==> (#[trigger] start.pushes(ops)[i]).seq == start.seq
                + 1 + i,
    decreases ops.len(),
{
    if ops.len() > 0 {
        let rest = ops.drop_last();
        assert forall|i: int| 0 <= i < rest.len() implies !(#[trigger] rest[i] is ClearSession) by {
            assert(rest[i] == ops[i]);
        }
        assert(!(ops[ops.len() - 1] is ClearSession));
        law_pushes_are_numbered_without_a_gap(start, rest);
        law_every_push_takes_the_next_seq(start.after_all(rest), ops.last());
    }
}

/// The counts are reset by a shift begin and by the demo reset alone. Along a
/// run without either they grow by the taps that were ruled on: `done` by one
/// for each success, `failed` by one for each dead chip. Swaps, retries, the
/// end of a shift and connection flips never move them.
pub proof fn law_only_a_fresh_session_resets_the_counts(start: StationView, ops: Seq<StationOp>)
    requires
        forall|i: int|
            0 <= i < ops.len() ==> !(#[trigger] ops[i] is Begin) && !(ops[i] is ClearSession),
    ensures
        start.after_all(ops).snapshot.session_counts == (CountsView {
            done: start.snapshot.session_counts.done + rulings(ops, TapVerdict::Success),
            failed: start.snapshot.session_counts.failed + rulings(ops, TapVerdict::Dead),
        }),
    decreases ops.len(),
{
    if ops.len() > 0 {
        let rest = ops.drop_last();
        assert forall|i: int| 0 <= i < rest.len() implies !(#[trigger] rest[i] is Begin) && !(
        rest[i] is ClearSession) by {
            assert(rest[i] == ops[i]);
        }
        let last = ops[ops.len() - 1];
        assert(!(last is Begin) && !(last is ClearSession));
        law_only_a_fresh_session_resets_the_counts(start, rest);
    }
}

/// A retry moves nothing: the snapshot, the shift and what the session file
/// says stay, and the push carries neither snapshot nor `Data`.
pub proof fn law_a_retry_moves_nothing(s: StationView, updated_batch: Option<BatchView>)
    ensures
        s.ruled(TapVerdict::Retry, updated_batch) == s.stamped(),
        s.ruled(TapVerdict::Retry, updated_batch).image() == s.image(),
        s.ruling_push(TapVerdict::Retry, updated_batch).snapshot is None,
        !s.ruling_push(TapVerdict::Retry, updated_batch).events.contains(WireEvent::Data),
{
}

/// The end of a shift changes nothing that the page shows: snapshot and `seq`
/// stay until the next shift begins.
pub proof fn law_end_of_shift_resets_nothing(s: StationView)
    ensures
        s.shift_ended().snapshot == s.snapshot,
        s.shift_ended().seq == s.seq,
        !s.shift_ended().pending_end_shift,
{
}

/// A crash loses nothing of a running shift: a station that boots from the
/// session file of another shows its batch, its counts, its shift and its
/// pending end of shift. A batch without a shift is not persisted, so shift
/// and batch stand or fall together here; a station with neither has counted
/// nothing.
pub proof fn law_recovery_restores_the_shift(s: StationView)
    requires
        s.shift is Some <==> s.snapshot.current_batch is Some,
        s.shift is None ==> s.snapshot.session_counts == CountsView::zero(),
    ensures
        ({
            let resumed = StationView::boot(s.snapshot.config, Some(s.image()));
            &&& resumed.snapshot.current_batch == s.snapshot.current_batch
            &&& resumed.snapshot.session_counts == s.snapshot.session_counts
            &&& resumed.shift == s.shift
            &&& resumed.pending_end_shift == s.pending_end_shift
            &&& resumed.image() == s.image()
        }),
{
}

/// A redundant report is silent, and a reconnection is a disconnection undone:
/// losing an input and regaining it ends in the same snapshot, two pushes
/// later, the second of which carries the catch-up `Data`.
pub proof fn law_a_blip_is_announced_and_undone(s: StationView)
    requires
        s.truthful(),
        s.connected(),
    ensures
        s.with_inputs(Some(true), Some(true)).settling_push() is None,
        ({
            let down = s.with_inputs(None, Some(false)).settled();
            let up = down.with_inputs(None, Some(true)).settled();
            &&& !down.connected()
            &&& s.with_inputs(None, Some(false)).settling_push() is Some
            &&& down.with_inputs(None, Some(false)).settling_push() is None
            &&& up.snapshot == s.snapshot
            &&& up.seq == s.seq + 2
            &&& down.with_inputs(None, Some(true)).settling_push()->0.events.last()
                == WireEvent::Data
        }),
{
}

/// A station starts disconnected, with no input known to be good but the disk,
/// and under the first number. From the session file it takes the shift, its
/// batch and its counts, and whether an end of shift is pending; without a
/// shift there it has none of them.
pub proof fn law_a_station_starts_disconnected(
    config: StationUiConfig,
    persisted: Option<PersistedView>,
)
    ensures
        ({
            let s = StationView::boot(config, persisted);
            &&& s.snapshot.connection == ConnectionState::Disconnected
            &&& s.snapshot.config == config
            &&& !s.reader_present && !s.downstream_ready && s.persist_ok
            &&& s.seq == 0
            &&& s.pending_end_shift <==> (persisted matches Some(p) && p.pending_end_shift)
            &&& persisted matches Some(p) ==> p.shift is Some ==> {
                &&& s.shift == Some(p.shift->0.meta)
                &&& s.snapshot.current_batch == Some(p.shift->0.batch)
                &&& s.snapshot.session_counts == p.shift->0.counts
            }
            &&& !(persisted matches Some(p) && p.shift is Some) ==> {
                &&& s.shift is None
                &&& s.snapshot.current_batch is None
                &&& s.snapshot.session_counts.done == 0 && s.snapshot.session_counts.failed == 0
            }
        }),
{
}

/// What an operation is called with is what the state takes from it: new inputs
/// are the inputs from then on, an input that is not given stays, and no
/// operation but these touches an input.
pub proof fn law_inputs_are_taken_as_given(s: StationView, op: StationOp)
    ensures
        ({
            let after = s.after(op);
            &&& match op {
                StationOp::Inputs { reader_present, downstream_ready } => {
                    &&& reader_present matches Some(r) ==> after.reader_present == r
                    &&& reader_present is None ==> after.reader_present == s.reader_present
                    &&& downstream_ready matches Some(d) ==> after.downstream_ready == d
                    &&& downstream_ready is None ==> after.downstream_ready == s.downstream_ready
                    &&& after.persist_ok == s.persist_ok
                },
                StationOp::PersistHealth { ok } => {
                    &&& after.persist_ok == ok
                    &&& after.reader_present == s.reader_present
                    &&& after.downstream_ready == s.downstream_ready
                },
                _ => {
                    &&& after.reader_present == s.reader_present
                    &&& after.downstream_ready == s.downstream_ready
                    &&& after.persist_ok == s.persist_ok
                    &&& after.snapshot.connection == s.snapshot.connection
                },
            }
            &&& op is Inputs || op is PersistHealth ==> (after.snapshot.connection
                == ConnectionState::Connected <==> after.reader_present && after.downstream_ready
                && after.persist_ok)
        }),
{
}

/// The batch on show changes with a begin, a swap and a counted tap, to the one
/// that came with it, and is taken away by the demo reset alone. The shift
/// changes with a begin, with its end, and with the demo reset.
pub proof fn law_batch_and_shift_change_as_told(s: StationView, op: StationOp)
    ensures
        ({
            let after = s.after(op);
            match op {
                StationOp::Begin { batch, shift_id, now_ms, .. } => {
                    &&& after.snapshot.current_batch == Some(batch)
                    &&& after.shift == Some(
                        ShiftView { shift_id, started_at_ms: now_ms, ended: false },
                    )
                    &&& !after.pending_end_shift
                },
                StationOp::Swap { batch } => {
                    &&& after.snapshot.current_batch == Some(batch)
                    &&& after.shift == s.shift
                    &&& after.pending_end_shift == s.pending_end_shift
                },
                StationOp::Rule { verdict, updated_batch } => {
                    &&& verdict != TapVerdict::Retry && updated_batch is Some
                        ==> after.snapshot.current_batch == updated_batch
                    &&& verdict == TapVerdict::Retry || updated_batch is None
                        ==> after.snapshot.current_batch == s.snapshot.current_batch
                    &&& after.shift == s.shift
                    &&& after.pending_end_shift == s.pending_end_shift
                },
                StationOp::EndShift => {
                    &&& after.snapshot.current_batch == s.snapshot.current_batch
                    &&& s.shift is None ==> after.shift is None
                    &&& s.shift matches Some(shift) ==> after.shift == Some(
                        ShiftView { ended: true, ..shift },
                    )
                    &&& !after.pending_end_shift
                },
                StationOp::ArmEndShift => {
                    &&& after.snapshot.current_batch == s.snapshot.current_batch
                    &&& after.shift == s.shift
                    &&& after.pending_end_shift
                },
                StationOp::ClearSession => {
                    &&& after.snapshot.current_batch is None
                    &&& after.snapshot.session_counts.done == 0
                    &&& after.snapshot.session_counts.failed == 0
                    &&& after.shift is None
                    &&& !after.pending_end_shift
                },
                _ => {
                    &&& after.snapshot.current_batch == s.snapshot.current_batch
                    &&& after.shift == s.shift
                    &&& after.pending_end_shift == s.pending_end_shift
                },
            }
        }),
        op is Begin ==> s.after(op).snapshot.session_counts.done == 0 && s.after(
            op,
        ).snapshot.session_counts.failed == 0,
        s.after(op).snapshot.config == s.snapshot.config,
{
}

/// What each push says: a flip says which way, and catches a line up that comes
/// back; a begin tells who began it; a tap's result comes first, with the
/// catch-up behind it unless it is a retry; and an end of shift says just that.
/// Only a retry and an end of shift come without the snapshot.
pub proof fn law_a_push_says_what_happened(s: StationView, op: StationOp)
    ensures
        ({
            let after = s.after(op);
            match s.push_of(op) {
                Some(payload) => {
                    &&& payload.snapshot is None <==> op is EmitEndShift || (
                    op matches StationOp::Rule { verdict, .. } && verdict == TapVerdict::Retry)
                    &&& payload.snapshot is Some ==> payload.snapshot == Some(after.snapshot)
                    &&& match op {
                        StationOp::Begin { kind, .. } => payload.events == seq![
                            if kind == ShiftBeginKind::Select {
                                WireEvent::Data
                            } else {
                                WireEvent::ApplyBatch
                            },
                        ],
                        StationOp::Swap { .. } => payload.events == seq![WireEvent::Data],
                        StationOp::CatchUp => payload.events == seq![WireEvent::Data],
                        StationOp::EmitEndShift => payload.events == seq![WireEvent::EndShift],
                        StationOp::Rule { verdict, .. } => if verdict == TapVerdict::Retry {
                            payload.events == seq![
                                WireEvent::TapResult { result: TapVerdict::Retry },
                            ]
                        } else {
                            payload.events == seq![
                                WireEvent::TapResult { result: verdict },
                                WireEvent::Data,
                            ]
                        },
                        _ => {
                            &&& after.snapshot.connection != s.snapshot.connection
                            &&& payload.events == (if after.snapshot.connection
                                == ConnectionState::Connected {
                                seq![
                                    WireEvent::Connection { state: ConnectionState::Connected },
                                    WireEvent::Data,
                                ]
                            } else {
                                seq![
                                    WireEvent::Connection { state: ConnectionState::Disconnected },
                                ]
                            })
                        },
                    }
                },
                None => op is ClearSession || (op is EndShift || op is ArmEndShift || op is Inputs
                    || op is PersistHealth) && after.snapshot == s.snapshot,
            }
        }),
{
}

/// The methods of a station state do what the operations of these names do.
pub proof fn law_the_methods_are_the_operations(
    batch: BatchInfo,
    kind: ShiftBeginKind,
    shift_id: String,
    now_ms: u64,
    verdict: TapVerdict,
    updated: Option<BatchInfo>,
    a: Option<bool>,
    b: Option<bool>,
    ok: bool,
)
    ensures
        forall|s: &mut StationState, push: Option<PushPayload>| #[trigger]
            call_ensures(StationState::set_connection_inputs, (s, a, b), push) ==> {
                let op = StationOp::Inputs { reader_present: a, downstream_ready: b };
                (*final(s))@ == (*s)@.after(op) && push.deep_view() == (*s)@.push_of(op)
            },
        forall|s: &mut StationState, push: Option<PushPayload>| #[trigger]
            call_ensures(StationState::set_persist_ok, (s, ok), push) ==> {
                let op = StationOp::PersistHealth { ok };
                (*final(s))@ == (*s)@.after(op) && push.deep_view() == (*s)@.push_of(op)
            },
        forall|s: &mut StationState, push: PushPayload| #[trigger]
            call_ensures(StationState::begin_shift, (s, batch, kind, shift_id, now_ms), push) ==> {
                let op = StationOp::Begin { batch: batch@, kind, shift_id: shift_id@, now_ms };
                (*final(s))@ == (*s)@.after(op) && Some(push@) == (*s)@.push_of(op)
            },
        forall|s: &mut StationState, push: PushPayload| #[trigger]
            call_ensures(StationState::swap_batch, (s, batch), push) ==> {
                let op = StationOp::Swap { batch: batch@ };
                (*final(s))@ == (*s)@.after(op) && Some(push@) == (*s)@.push_of(op)
            },
        forall|s: &mut StationState, push: PushPayload| #[trigger]
            call_ensures(StationState::record_verdict, (s, verdict, updated), push) ==> {
                let op = StationOp::Rule { verdict, updated_batch: updated.deep_view() };
                (*final(s))@ == (*s)@.after(op) && Some(push@) == (*s)@.push_of(op)
            },
        forall|s: &mut StationState, counts: SessionCounts| #[trigger]
            call_ensures(StationState::mark_shift_ended, (s,), counts) ==> (*final(s))@
                == (*s)@.after(StationOp::EndShift) && counts@ == (*s)@.snapshot.session_counts,
        forall|s: &mut StationState, push: PushPayload| #[trigger]
            call_ensures(StationState::catch_up, (s,), push) ==> (*final(s))@ == (*s)@.after(
                StationOp::CatchUp,
            ) && Some(push@) == (*s)@.push_of(StationOp::CatchUp),
        forall|s: &mut StationState, push: PushPayload| #[trigger]
            call_ensures(StationState::emit_end_shift, (s,), push) ==> (*final(s))@ == (*s)@.after(
                StationOp::EmitEndShift,
            ) && Some(push@) == (*s)@.push_of(StationOp::EmitEndShift),
        forall|s: &mut StationState| #[trigger]
            call_ensures(StationState::arm_end_shift, (s,), ()) ==> (*final(s))@ == (*s)@.after(
                StationOp::ArmEndShift,
            ),
        forall|s: &mut StationState| #[trigger]
            call_ensures(StationState::clear_session, (s,), ()) ==> (*final(s))@ == (*s)@.after(
                StationOp::ClearSession,
            ),
{
}

/// A state is written as it is: the shift with its batch and its counts where
/// there are both, and whether an end of shift is pending. It starts from what
/// was written, and documents boot from its number and its snapshot.
pub proof fn law_a_state_is_written_and_booted_from_as_it_is(
    state: &StationState,
    session: PersistedSession,
    strings: Option<serde_json::Value>,
    boot: BootPayload,
    config: StationUiConfig,
    persisted: Option<PersistedSession>,
    started: StationState,
)
    requires
        call_ensures(StationState::to_persisted, (state,), session),
        call_ensures(StationState::boot_payload, (state, strings), boot),
        call_ensures(StationState::new, (config, persisted), started),
    ensures
        session.schema == 1,
        session.pending_end_shift == state.pending_end_shift,
        session@.shift is Some <==> state@.shift is Some && state@.snapshot.current_batch is Some,
        session@.shift matches Some(shift) ==> state@.shift == Some(shift.meta)
            && state@.snapshot.current_batch == Some(shift.batch) && state@.snapshot.session_counts
            == shift.counts,
        boot.seq == state.seq,
        boot.snapshot@ == state@.snapshot,
        boot.strings == strings,
        started@ == StationView::boot(config, persisted.deep_view()),
{
}

/// What is asked of a state is answered as it stands.
pub proof fn law_a_state_answers_as_it_stands(
    state: &StationState,
    connected: bool,
    counts: SessionCounts,
)
    requires
        call_ensures(StationState::connected, (state,), connected),
        call_ensures(StationState::counts, (state,), counts),
    ensures
        connected <==> state.snapshot.connection == ConnectionState::Connected,
        counts@ == state.snapshot.session_counts@,
{
}

/// The views of the state and of the session file show every field as it is.
pub proof fn law_states_are_shown_as_they_are(
    meta: ShiftMeta,
    shift: PersistedShift,
    session: PersistedSession,
    state: StationState,
)
    ensures
        meta@.shift_id == meta.shift_id@ && meta@.started_at_ms == meta.started_at_ms
            && meta@.ended == meta.ended,
        shift@.meta == shift.meta@ && shift@.batch == shift.batch@ && shift@.counts
            == shift.counts@,
        session@.schema == session.schema && session@.pending_end_shift
            == session.pending_end_shift,
        session@.shift is Some <==> session.shift is Some,
        session.shift matches Some(s) ==> session@.shift == Some(s@),
        state@.snapshot == state.snapshot@ && state@.seq == state.seq,
        state@.reader_present == state.reader_present && state@.downstream_ready
            == state.downstream_ready && state@.persist_ok == state.persist_ok,
        state@.pending_end_shift == state.pending_end_shift,
        state@.shift is Some <==> state.shift is Some,
        state.shift matches Some(s) ==> state@.shift == Some(s@),
{
}

}
