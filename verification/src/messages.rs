//! Messages into the station core, and what the core asks for in return.
//!
//! The core performs no input or output. It takes a message, changes the
//! state, and answers with a `Step`: the effects to perform, in their order,
//! and what comes next.

use crate::contract::{
    BatchInfo, BatchView, CountsView, PayloadView, PushPayload, SessionCounts, SnapshotView,
    StationSnapshot, TapVerdict,
};
use crate::keying::{ChipPresentation, ForcedOutcome, PresentationView, SimArming, WallClock};
use crate::records::{FailureRecord, FailureView, OverrunRecord, OverrunView};
use crate::state::{PersistedSession, PersistedView, ShiftBeginKind};
use vstd::prelude::*;

verus! {

/// The two clocks at one instant.
#[derive(Debug, Clone, Copy, PartialEq, Eq, Structural)]
pub struct Clock {
    /// Nanoseconds of a clock that never goes back.
    pub mono_ns: u64,
    /// The wall clock, which can be set at will: for timestamps alone.
    pub wall: WallClock,
}

#[derive(Debug)]
pub struct EndShiftReply {
    pub counts: SessionCounts,
    /// Present only if late reconciliation changed data.
    pub payload: Option<PushPayload>,
}

/// What the sim console shows of the station.
#[derive(Debug)]
pub struct SimStateView {
    pub connection: &'static str,
    pub reader_present: bool,
    pub downstream_ready: bool,
    pub batch_name: Option<String>,
    pub counts: SessionCounts,
    pub pending_end_shift: bool,
    pub seq: u64,
    pub sticky_chip: Option<String>,
    pub forced_next: Option<String>,
    pub latency_ms: u64,
    /// How many documents announced a `seq` behind the core's: they booted
    /// from a stale snapshot. A working boot pull keeps this at zero.
    pub stale_attaches: u64,
}

#[derive(Debug)]
pub enum CoreMsg {
    ListBatches,
    SelectBatch { id: String },
    EndShiftCmd,
    /// A fresh document with the `seq` that it booted from.
    BridgeAttached { adapter_seq: u64 },
    BootPulled,
    /// A chip on the reader, or a simulated one. `atr` was read passively and
    /// is empty for simulated taps.
    CardPresented { reader_id: String, atr: Vec<u8>, forced: Option<ForcedOutcome> },
    ReaderPresence { present: bool },
    ApplyBatch { id: String },
    SwapBatch { id: Option<String> },
    BeginEndShift,
    SetDownstream { ready: bool },
    Blip { ms: u64 },
    GetSimState,
    /// Forgets batch progress and session, keeps the connection inputs. The
    /// page is reloaded afterwards.
    ResetDemo,
    Tick,
    ConformanceReset,
}

/// Why a request was turned down.
#[derive(Debug, PartialEq, Eq)]
pub enum CoreError {
    /// The batch source failed, and said this.
    Source { message: String },
    UnknownBatch { id: String },
    NoOtherBatch,
}

pub ghost enum ErrorView {
    Source { message: Seq<char> },
    UnknownBatch { id: Seq<char> },
    NoOtherBatch,
}

impl View for CoreError {
    type V = ErrorView;

    open spec fn view(&self) -> ErrorView {
        match *self {
            CoreError::Source { message } => ErrorView::Source { message: message@ },
            CoreError::UnknownBatch { id } => ErrorView::UnknownBatch { id: id@ },
            CoreError::NoOtherBatch => ErrorView::NoOtherBatch,
        }
    }
}

impl CoreError {
    /// The text that the caller gets to see.
    pub fn message(&self) -> (text: String)
        ensures
            text@ == match self@ {
                ErrorView::Source { message } => message,
                ErrorView::UnknownBatch { id } => "unknown batch: "@ + id,
                ErrorView::NoOtherBatch => "no other batch to swap to"@,
            },
    {
        match self {
            CoreError::Source { message } => message.clone(),
            CoreError::UnknownBatch { id } => "unknown batch: ".to_owned().concat(id.as_str()),
            CoreError::NoOtherBatch => "no other batch to swap to".to_owned(),
        }
    }
}

/// One thing to perform. Effects are performed in their order, each when those
/// before it are through. `Persist` stands before what announces the session
/// that it writes. Where the write fails, what stands behind it is performed
/// all the same, and the core hears of the failure by `CoreActor::persisted`,
/// which pauses the line.
#[derive(Debug)]
pub enum Effect {
    /// Write the session file.
    Persist { session: PersistedSession },
    /// Let fresh documents boot from this.
    RefreshBoot { seq: u64, snapshot: StationSnapshot },
    /// Send to the page.
    Push { payload: PushPayload },
    AppendFailure { failure: FailureRecord },
    AppendOverrun { overrun: OverrunRecord },
    /// Tell the simulated keying layer, where there is one.
    ArmSim { arming: SimArming },
    /// Forget the simulated batch progress, where there is any.
    ResetBatches,
}

#[verifier::ext_equal]
pub ghost enum EffectView {
    Persist { session: PersistedView },
    RefreshBoot { seq: nat, snapshot: SnapshotView },
    Push { payload: PayloadView },
    AppendFailure { failure: FailureView },
    AppendOverrun { overrun: OverrunView },
    ArmSim { arming: SimArming },
    ResetBatches,
}

impl View for Effect {
    type V = EffectView;

    open spec fn view(&self) -> EffectView {
        match *self {
            Effect::Persist { session } => EffectView::Persist { session: session@ },
            Effect::RefreshBoot { seq, snapshot } => EffectView::RefreshBoot {
                seq: seq as nat,
                snapshot: snapshot@,
            },
            Effect::Push { payload } => EffectView::Push { payload: payload@ },
            Effect::AppendFailure { failure } => EffectView::AppendFailure { failure: failure@ },
            Effect::AppendOverrun { overrun } => EffectView::AppendOverrun { overrun: overrun@ },
            Effect::ArmSim { arming } => EffectView::ArmSim { arming },
            Effect::ResetBatches => EffectView::ResetBatches,
        }
    }
}

impl DeepView for Effect {
    type V = EffectView;

    open spec fn deep_view(&self) -> EffectView {
        self@
    }
}

/// A chip to hand to the keying layer, and the batch it was presented for.
#[derive(Debug)]
pub struct TapAttempt {
    pub presentation: ChipPresentation,
    pub batch: BatchInfo,
}

#[verifier::ext_equal]
pub ghost struct AttemptView {
    pub presentation: PresentationView,
    pub batch: BatchView,
}

impl View for TapAttempt {
    type V = AttemptView;

    open spec fn view(&self) -> AttemptView {
        AttemptView { presentation: self.presentation@, batch: self.batch@ }
    }
}

/// The answer to whoever sent the message.
#[derive(Debug)]
pub enum Reply {
    /// Nobody waits for one.
    Silent,
    Accepted,
    Began { payload: PushPayload },
    Ended { reply: EndShiftReply },
    Refused { error: CoreError },
}

#[verifier::ext_equal]
pub ghost enum ReplyView {
    Silent,
    Accepted,
    Began { payload: PayloadView },
    Ended { counts: CountsView, late: Option<PayloadView> },
    Refused { error: ErrorView },
}

impl View for Reply {
    type V = ReplyView;

    open spec fn view(&self) -> ReplyView {
        match *self {
            Reply::Silent => ReplyView::Silent,
            Reply::Accepted => ReplyView::Accepted,
            Reply::Began { payload } => ReplyView::Began { payload: payload@ },
            Reply::Ended { reply } => ReplyView::Ended {
                counts: reply.counts@,
                late: reply.payload.deep_view(),
            },
            Reply::Refused { error } => ReplyView::Refused { error: error@ },
        }
    }
}

/// What comes after the effects. All but `Done` ask for outside work whose
/// result goes back into the core, before any other message does.
#[derive(Debug)]
pub enum Next {
    Done { reply: Reply },
    /// The batch list goes straight to whoever asked.
    ListBatches,
    /// The state that the sim console shows.
    ReportState,
    /// Get the batch, for `begin_fetched`.
    FetchForBegin { id: String, kind: ShiftBeginKind },
    /// Get the batch, for `swap_fetched`.
    FetchForSwap { id: String },
    /// List the batches, for `swap_listed`.
    ListForSwap,
    /// Key the chip, for `chip_keyed`.
    KeyChip { attempt: TapAttempt },
    /// Record the outcome, for `outcome_recorded`.
    RecordOutcome { batch_id: String, verdict: TapVerdict },
}

#[verifier::ext_equal]
pub ghost enum NextView {
    Done { reply: ReplyView },
    ListBatches,
    ReportState,
    FetchForBegin { id: Seq<char>, kind: ShiftBeginKind },
    FetchForSwap { id: Seq<char> },
    ListForSwap,
    KeyChip { attempt: AttemptView },
    RecordOutcome { batch_id: Seq<char>, verdict: TapVerdict },
}

impl View for Next {
    type V = NextView;

    open spec fn view(&self) -> NextView {
        match *self {
            Next::Done { reply } => NextView::Done { reply: reply@ },
            Next::ListBatches => NextView::ListBatches,
            Next::ReportState => NextView::ReportState,
            Next::FetchForBegin { id, kind } => NextView::FetchForBegin { id: id@, kind },
            Next::FetchForSwap { id } => NextView::FetchForSwap { id: id@ },
            Next::ListForSwap => NextView::ListForSwap,
            Next::KeyChip { attempt } => NextView::KeyChip { attempt: attempt@ },
            Next::RecordOutcome { batch_id, verdict } => NextView::RecordOutcome {
                batch_id: batch_id@,
                verdict,
            },
        }
    }
}

#[derive(Debug)]
pub struct Step {
    pub effects: Vec<Effect>,
    pub next: Next,
}

#[verifier::ext_equal]
pub ghost struct StepView {
    pub effects: Seq<EffectView>,
    pub next: NextView,
}

impl View for Step {
    type V = StepView;

    open spec fn view(&self) -> StepView {
        StepView { effects: self.effects.deep_view(), next: self.next@ }
    }
}

/// A refusal says what is wrong: what the source said, which batch is unknown,
/// or that there is no other.
pub proof fn law_a_refusal_is_worded(error: CoreError, text: String)
    requires
        call_ensures(CoreError::message, (&error,), text),
    ensures
        error matches CoreError::Source { message } ==> text@ == message@,
        error matches CoreError::UnknownBatch { id } ==> text@ == "unknown batch: "@ + id@,
        error is NoOtherBatch ==> text@ == "no other batch to swap to"@,
{
}

/// The views of effects show what is to be performed, with what is in it.
pub proof fn law_effects_are_shown_as_they_are(effect: Effect)
    ensures
        match effect {
            Effect::Persist { session } => effect@ == (EffectView::Persist {
                session: session@,
            }),
            Effect::RefreshBoot { seq, snapshot } => effect@ == (EffectView::RefreshBoot {
                seq: seq as nat,
                snapshot: snapshot@,
            }),
            Effect::Push { payload } => effect@ == (EffectView::Push { payload: payload@ }),
            Effect::AppendFailure { failure } => effect@ == (EffectView::AppendFailure {
                failure: failure@,
            }),
            Effect::AppendOverrun { overrun } => effect@ == (EffectView::AppendOverrun {
                overrun: overrun@,
            }),
            Effect::ArmSim { arming } => effect@ == (EffectView::ArmSim { arming }),
            Effect::ResetBatches => effect@ is ResetBatches,
        },
{
}

/// The views of steps show what comes next and who is answered what.
pub proof fn law_steps_are_shown_as_they_are(
    step: Step,
    attempt: TapAttempt,
    reply: Reply,
    next: Next,
)
    ensures
        step@.effects == step.effects.deep_view() && step@.next == step.next@,
        attempt@.presentation == attempt.presentation@ && attempt@.batch == attempt.batch@,
        match reply {
            Reply::Silent => reply@ is Silent,
            Reply::Accepted => reply@ is Accepted,
            Reply::Began { payload } => reply@ == (ReplyView::Began { payload: payload@ }),
            Reply::Ended { reply: ended } => reply@ matches ReplyView::Ended { counts, late }
                && counts == ended.counts@ && (late is Some <==> ended.payload is Some),
            Reply::Refused { error } => reply@ == (ReplyView::Refused { error: error@ }),
        },
        match next {
            Next::Done { reply } => next@ == (NextView::Done { reply: reply@ }),
            Next::ListBatches => next@ is ListBatches,
            Next::ReportState => next@ is ReportState,
            Next::FetchForBegin { id, kind } => next@ == (NextView::FetchForBegin {
                id: id@,
                kind,
            }),
            Next::FetchForSwap { id } => next@ == (NextView::FetchForSwap { id: id@ }),
            Next::ListForSwap => next@ is ListForSwap,
            Next::KeyChip { attempt } => next@ == (NextView::KeyChip { attempt: attempt@ }),
            Next::RecordOutcome { batch_id, verdict } => next@ == (NextView::RecordOutcome {
                batch_id: batch_id@,
                verdict,
            }),
        },
{
}

}
