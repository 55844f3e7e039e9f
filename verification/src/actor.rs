//! The station core: the single owner of the station state.
//!
//! Every change that the page can see is committed in one order: the session
//! goes to disk first, then fresh documents are made to boot from the new
//! state, and only then is the page told. Verdicts are announced the instant
//! they exist; nothing here queues, paces or merges them.
//!
//! `CoreView` is the core's model. Each message, and each result of outside
//! work, has a spec function there that gives the `Move` it leads to, and the
//! methods of `CoreActor` make exactly those moves.

use crate::config::OverrunPolicy;
use crate::contract::{BatchInfo, BatchView, PayloadView, PushPayload, TapVerdict, WireEvent};
use crate::keying::{
    ChipPresentation, ForcedOutcome, KeyingOutcome, KeyingView, PresentationView, SimArming,
    SimPolicy, WallClock,
};
use crate::messages::{
    AttemptView, Clock, CoreError, CoreMsg, Effect, EffectView, EndShiftReply, ErrorView, Next,
    NextView, Reply, ReplyView, SimStateView, Step, StepView, TapAttempt,
};
use crate::outside::random_uuid;
use crate::records::{FailureRecord, FailureView, OverrunRecord, OverrunView};
use crate::retry::{RetryLedger, ESCALATION_THRESHOLD};
use crate::state::{ShiftBeginKind, StationState, StationView};
use vstd::prelude::*;

verus! {

#[derive(Debug, Clone, Copy, PartialEq, Eq, Structural)]
pub struct Timing {
    /// An end of shift is deliverable only this long after the last verdict,
    /// since the page drops it while one is on screen.
    pub verdict_quiet_ms: u64,
    /// And this long after the last boot pull: a fresh document takes a moment
    /// to listen.
    pub boot_quiet_ms: u64,
    pub emit_spacing_ms: u64,
    pub tick_ms: u64,
}

impl Timing {
    pub open spec fn usual() -> Timing {
        Timing {
            verdict_quiet_ms: 2600,
            boot_quiet_ms: 3000,
            emit_spacing_ms: 1000,
            tick_ms: 250,
        }
    }
}

impl Default for Timing {
    fn default() -> (timing: Timing)
        ensures
            timing == Timing::usual(),
    {
        Timing {
            verdict_quiet_ms: 2600,
            boot_quiet_ms: 3000,
            emit_spacing_ms: 1000,
            tick_ms: 250,
        }
    }
}

/// How many spaced emissions of an end of shift, each under deliverable
/// conditions, count as delivery.
pub const END_SHIFT_EMITS_TO_CONFIRM: u8 = 2;

/// Milliseconds after the Unix epoch, as records are stamped; zero on a clock
/// set before it.
pub open spec fn epoch_ms(wall: WallClock) -> u64 {
    match wall {
        Some(n) => (n / 1_000_000) as u64,
        None => 0,
    }
}

/// Whether `window_ms` have passed since an instant. A clock that reads an
/// earlier instant now has let no time pass.
pub open spec fn passed(since: u64, now: u64, window_ms: u64) -> bool {
    (if now >= since {
        now - since
    } else {
        0
    }) >= window_ms * 1_000_000
}

pub open spec fn passed_if_any(since: Option<u64>, now: u64, window_ms: u64) -> bool {
    match since {
        Some(t) => passed(t, now, window_ms),
        None => true,
    }
}

/// What the core knows.
#[verifier::ext_equal]
pub ghost struct CoreView {
    pub station: StationView,
    pub ledger: Map<Seq<char>, u8>,
    pub timing: Timing,
    pub conformance: bool,
    pub overrun: OverrunPolicy,
    pub last_verdict_at: Option<u64>,
    pub last_boot_pull_at: u64,
    pub last_end_shift_emit: Option<u64>,
    pub end_shift_emits: u8,
    pub blip_until: Option<u128>,
    pub stale_attaches: nat,
}

/// What one input leads to.
#[verifier::ext_equal]
pub ghost struct Move {
    pub after: CoreView,
    pub effects: Seq<EffectView>,
    pub next: NextView,
}

impl Move {
    pub open spec fn step(self) -> StepView {
        StepView { effects: self.effects, next: self.next }
    }

    /// The same move with effects ahead of its own.
    pub open spec fn led_by(self, effects: Seq<EffectView>) -> Move {
        Move { effects: effects + self.effects, ..self }
    }

    pub open spec fn answering(self, reply: ReplyView) -> Move {
        Move { next: NextView::Done { reply }, ..self }
    }
}

/// Nothing that the page sees: the session to disk, and the state for fresh
/// documents.
pub open spec fn saved(s: StationView) -> Seq<EffectView> {
    seq![
        EffectView::Persist { session: s.image() },
        EffectView::RefreshBoot { seq: s.seq, snapshot: s.snapshot },
    ]
}

/// The order of every change that the page sees: disk, boot, push.
pub open spec fn committed(s: StationView, payload: PayloadView) -> Seq<EffectView> {
    saved(s).push(EffectView::Push { payload })
}

/// The first batch that is not the current one.
pub open spec fn first_other(batches: Seq<BatchView>, current: Option<Seq<char>>) -> Option<
    BatchView,
>
    decreases batches.len(),
{
    if batches.len() == 0 {
        None
    } else if Some(batches[0].id) != current {
        Some(batches[0])
    } else {
        first_other(batches.skip(1), current)
    }
}

/// The batch is at or past its total.
pub open spec fn overrun(batch: BatchView) -> bool {
    batch.completed >= batch.total
}

impl CoreView {
    /// Nothing changes and nothing is done.
    pub open spec fn still(self) -> Move {
        Move {
            after: self,
            effects: Seq::empty(),
            next: NextView::Done { reply: ReplyView::Silent },
        }
    }

    /// New inputs to the connection: a flip is committed, anything else is
    /// silent.
    pub open spec fn settling(self, changed: StationView) -> Move {
        Move {
            after: CoreView { station: changed.settled(), ..self },
            effects: match changed.settling_push() {
                Some(payload) => committed(changed.settled(), payload),
                None => Seq::empty(),
            },
            next: NextView::Done { reply: ReplyView::Silent },
        }
    }

    pub open spec fn inputs(self, reader_present: Option<bool>, downstream_ready: Option<bool>) -> Move {
        self.settling(self.station.with_inputs(reader_present, downstream_ready))
    }

    /// Another state, committed with the push that announces it.
    pub open spec fn committing(self, s: StationView, payload: PayloadView) -> Move {
        Move {
            after: CoreView { station: s, ..self },
            effects: committed(s, payload),
            next: NextView::Done { reply: ReplyView::Silent },
        }
    }

    /// Another state that the page is not told of.
    pub open spec fn saving(self, s: StationView) -> Move {
        Move {
            after: CoreView { station: s, ..self },
            effects: saved(s),
            next: NextView::Done { reply: ReplyView::Silent },
        }
    }

    /// Outside work and nothing else.
    pub open spec fn asking(self, next: NextView) -> Move {
        Move { after: self, effects: Seq::empty(), next }
    }

    pub open spec fn refusing(self, error: ErrorView) -> Move {
        self.still().answering(ReplyView::Refused { error })
    }

    pub open spec fn shift_id(self) -> Seq<char> {
        match self.station.shift {
            Some(s) => s.shift_id,
            None => ""@,
        }
    }

    /// The session facts that a fresh session starts without.
    pub open spec fn fresh_session(self) -> CoreView {
        CoreView {
            ledger: Map::empty(),
            last_verdict_at: None,
            end_shift_emits: 0,
            ..self
        }
    }

    /// A shift begins. It starts a fresh session, retry ledger included.
    pub open spec fn beginning(
        self,
        batch: BatchView,
        kind: ShiftBeginKind,
        shift_id: Seq<char>,
        clock: Clock,
    ) -> Move {
        let s = self.station.begun(batch, shift_id, epoch_ms(clock.wall));
        let payload = s.announcing(true, seq![StationView::begin_event(kind)]);
        CoreView { ledger: Map::empty(), end_shift_emits: 0, ..self }.committing(
            s,
            payload,
        ).answering(
            match kind {
                ShiftBeginKind::Select => ReplyView::Began { payload },
                ShiftBeginKind::Apply => ReplyView::Accepted,
            },
        )
    }

    pub open spec fn swapping(self, batch: BatchView) -> Move {
        let s = self.station.swapped(batch);
        self.committing(s, s.announcing(true, seq![WireEvent::Data])).answering(
            ReplyView::Accepted,
        )
    }

    pub open spec fn swap_from_list(self, batches: Seq<BatchView>) -> Move {
        let current = match self.station.snapshot.current_batch {
            Some(b) => Some(b.id),
            None => None,
        };
        match first_other(batches, current) {
            Some(batch) => self.swapping(batch),
            None => self.refusing(ErrorView::NoOtherBatch),
        }
    }

    /// A chip was presented. A tap that could not be processed end to end, has
    /// no batch to go to, or is past a total that blocks, leads to nothing.
    pub open spec fn presented(
        self,
        presentation: PresentationView,
        forced: Option<ForcedOutcome>,
    ) -> Move {
        match self.station.snapshot.current_batch {
            Some(batch) => if !self.station.connected() {
                self.still()
            } else if self.overrun == OverrunPolicy::Block && overrun(batch) {
                self.still()
            } else {
                self.asking(
                    NextView::KeyChip { attempt: AttemptView { presentation, batch } },
                ).led_by(
                    match forced {
                        Some(outcome) => seq![
                            EffectView::ArmSim { arming: SimArming::Force { outcome } },
                        ],
                        None => Seq::empty(),
                    },
                )
            },
            None => self.still(),
        }
    }

    /// The record of a failure, this being the given attempt of the chip.
    pub open spec fn failure(
        self,
        attempt: AttemptView,
        class: Seq<char>,
        chip_ref: Seq<char>,
        verdict: Seq<char>,
        nth: u8,
        escalated: bool,
        clock: Clock,
    ) -> EffectView {
        EffectView::AppendFailure {
            failure: FailureView {
                ts: epoch_ms(clock.wall),
                chip_ref,
                class,
                verdict,
                attempt: nth,
                escalated,
                reader_id: attempt.presentation.reader_id,
                batch_id: attempt.batch.id,
                shift_id: self.shift_id(),
            },
        }
    }

    /// The attempt number of a chip's next failure.
    pub open spec fn next_attempt(self, chip: Seq<char>) -> u8 {
        crate::retry::next_attempt(crate::retry::attempts_of(self.ledger, chip))
    }

    /// The keying layer answered.
    pub open spec fn keyed(self, attempt: AttemptView, outcome: KeyingView, clock: Clock) -> Move {
        match outcome {
            KeyingView::Keyed { chip } => {
                CoreView { ledger: self.ledger.remove(chip), ..self }.asking(
                    NextView::RecordOutcome {
                        batch_id: attempt.batch.id,
                        verdict: TapVerdict::Success,
                    },
                ).led_by(
                    if overrun(attempt.batch) {
                        seq![
                            EffectView::AppendOverrun {
                                overrun: OverrunView {
                                    ts: epoch_ms(clock.wall),
                                    chip_ref: chip,
                                    reader_id: attempt.presentation.reader_id,
                                    batch_id: attempt.batch.id,
                                    shift_id: self.shift_id(),
                                    total: attempt.batch.total,
                                    completed: attempt.batch.completed,
                                },
                            },
                        ]
                    } else {
                        Seq::empty()
                    },
                )
            },
            KeyingView::Recoverable { class, chip } => {
                let nth = self.next_attempt(chip);
                if nth >= ESCALATION_THRESHOLD {
                    CoreView { ledger: self.ledger.remove(chip), ..self }.asking(
                        NextView::RecordOutcome {
                            batch_id: attempt.batch.id,
                            verdict: TapVerdict::Dead,
                        },
                    ).led_by(seq![self.failure(attempt, class, chip, "dead"@, nth, true, clock)])
                } else {
                    CoreView {
                        ledger: crate::retry::after_failure(self.ledger, chip),
                        ..self
                    }.ruled(TapVerdict::Retry, None, clock).led_by(
                        seq![self.failure(attempt, class, chip, "retry"@, nth, false, clock)],
                    )
                }
            },
            KeyingView::Permanent { class, chip } => {
                CoreView { ledger: self.ledger.remove(chip), ..self }.asking(
                    NextView::RecordOutcome {
                        batch_id: attempt.batch.id,
                        verdict: TapVerdict::Dead,
                    },
                ).led_by(
                    seq![
                        self.failure(
                            attempt,
                            class,
                            chip,
                            "dead"@,
                            self.next_attempt(chip),
                            false,
                            clock,
                        ),
                    ],
                )
            },
            KeyingView::NotReady => self.inputs(None, Some(false)),
        }
    }

    /// A tap is ruled on, with the batch that the batch source returned.
    pub open spec fn ruled(
        self,
        verdict: TapVerdict,
        updated_batch: Option<BatchView>,
        clock: Clock,
    ) -> Move {
        CoreView { last_verdict_at: Some(clock.mono_ns), ..self }.committing(
            self.station.ruled(verdict, updated_batch),
            self.station.ruling_push(verdict, updated_batch),
        )
    }

    /// A page announced the `seq` it booted from. Only a stale one is
    /// corrected.
    pub open spec fn attached(self, adapter_seq: u64) -> Move {
        if adapter_seq < self.station.seq {
            let s = self.station.stamped();
            CoreView { stale_attaches: self.stale_attaches + 1, ..self }.committing(
                s,
                s.announcing(true, seq![WireEvent::Data]),
            )
        } else {
            self.still()
        }
    }

    /// The state of a station that runs conformance: connected, no shift, and
    /// under the next `seq`.
    pub open spec fn conformance_state(self) -> StationView {
        StationView {
            seq: self.station.seq,
            ..StationView::boot(self.station.snapshot.config, None)
        }.with_inputs(Some(true), Some(true)).settled()
    }

    pub open spec fn conformance_reset(self) -> Move {
        self.fresh_session().saving(self.conformance_state()).led_by(
            seq![EffectView::ResetBatches, EffectView::ArmSim { arming: SimArming::Reset }],
        ).answering(ReplyView::Accepted)
    }

    pub open spec fn demo_reset(self) -> Move {
        self.fresh_session().saving(self.station.cleared()).led_by(
            seq![EffectView::ResetBatches],
        ).answering(ReplyView::Accepted)
    }

    /// The blip is over by now.
    pub open spec fn blip_over(self, clock: Clock) -> bool {
        self.blip_until matches Some(until) && clock.mono_ns >= until
    }

    /// An end of shift that is sent now reaches the page.
    pub open spec fn deliverable(self, clock: Clock) -> bool {
        &&& self.station.connected()
        &&& passed_if_any(self.last_verdict_at, clock.mono_ns, self.timing.verdict_quiet_ms)
        &&& passed(self.last_boot_pull_at, clock.mono_ns, self.timing.boot_quiet_ms)
        &&& passed_if_any(self.last_end_shift_emit, clock.mono_ns, self.timing.emit_spacing_ms)
    }

    pub open spec fn emits_end_shift(self, clock: Clock) -> bool {
        self.station.pending_end_shift && !self.conformance && self.deliverable(clock)
    }

    /// First half of a tick: the end of a blip.
    pub open spec fn blip_tick(self, clock: Clock) -> Move {
        if self.blip_over(clock) {
            CoreView { blip_until: None, ..self }.inputs(None, Some(true)).led_by(
                seq![EffectView::ArmSim { arming: SimArming::Ready { ready: true } }],
            )
        } else {
            self.still()
        }
    }

    /// Second half of a tick: a session that did not reach the disk is tried
    /// again, and a pending end of shift is sent. The last of its emissions
    /// ends the shift.
    pub open spec fn end_shift_tick(self, clock: Clock) -> Move {
        if !self.station.persist_ok {
            self.saving(self.station)
        } else if self.emits_end_shift(clock) {
            let s = self.station.stamped();
            let emitted = CoreView {
                last_end_shift_emit: Some(clock.mono_ns),
                end_shift_emits: (self.end_shift_emits + 1) as u8,
                ..self
            };
            let payload = s.announcing(false, seq![WireEvent::EndShift]);
            if self.end_shift_emits + 1 >= END_SHIFT_EMITS_TO_CONFIRM {
                emitted.saving(s.shift_ended()).led_by(committed(s, payload))
            } else {
                emitted.committing(s, payload)
            }
        } else {
            self.still()
        }
    }

    pub open spec fn ticked(self, clock: Clock) -> Move {
        let first = self.blip_tick(clock);
        first.after.end_shift_tick(clock).led_by(first.effects)
    }

    /// The move of a message.
    pub open spec fn handled(self, msg: CoreMsg, clock: Clock) -> Move {
        match msg {
            CoreMsg::ListBatches => self.asking(NextView::ListBatches),
            CoreMsg::SelectBatch { id } => self.asking(
                NextView::FetchForBegin { id: id@, kind: ShiftBeginKind::Select },
            ),
            CoreMsg::ApplyBatch { id } => self.asking(
                NextView::FetchForBegin { id: id@, kind: ShiftBeginKind::Apply },
            ),
            CoreMsg::SwapBatch { id } => self.asking(
                match id {
                    Some(id) => NextView::FetchForSwap { id: id@ },
                    None => NextView::ListForSwap,
                },
            ),
            CoreMsg::EndShiftCmd => self.saving(self.station.shift_ended()).answering(
                ReplyView::Ended { counts: self.station.snapshot.session_counts, late: None },
            ),
            CoreMsg::BeginEndShift => CoreView {
                end_shift_emits: 0,
                last_end_shift_emit: None,
                ..self
            }.saving(self.station.end_shift_armed()),
            CoreMsg::BridgeAttached { adapter_seq } => self.attached(adapter_seq),
            CoreMsg::BootPulled => CoreView {
                last_boot_pull_at: clock.mono_ns,
                ..self
            }.still(),
            CoreMsg::CardPresented { reader_id, atr, forced } => self.presented(
                PresentationView { reader_id: reader_id@, at: clock.wall, atr: atr@ },
                forced,
            ),
            CoreMsg::ReaderPresence { present } => self.inputs(Some(present), None),
            CoreMsg::SetDownstream { ready } => self.inputs(None, Some(ready)).led_by(
                seq![EffectView::ArmSim { arming: SimArming::Ready { ready } }],
            ),
            CoreMsg::Blip { ms } => CoreView {
                blip_until: Some((clock.mono_ns + ms * 1_000_000) as u128),
                ..self
            }.inputs(None, Some(false)),
            CoreMsg::GetSimState => self.asking(NextView::ReportState),
            CoreMsg::ResetDemo => self.demo_reset(),
            CoreMsg::Tick => self.ticked(clock),
            CoreMsg::ConformanceReset => self.conformance_reset(),
        }
    }

    /// What holds of the core at all times: the snapshot shows the connection
    /// that the inputs amount to, a pending end of shift still has emissions
    /// to make, a ledger entry is below the threshold, and every stale page
    /// has cost a `seq`.
    pub open spec fn wf(self) -> bool {
        &&& self.station.truthful()
        &&& self.end_shift_emits <= END_SHIFT_EMITS_TO_CONFIRM
        &&& self.station.pending_end_shift ==> self.end_shift_emits < END_SHIFT_EMITS_TO_CONFIRM
        &&& forall|chip: Seq<char>| #[trigger]
            self.ledger.contains_key(chip) ==> 1 <= self.ledger[chip] < ESCALATION_THRESHOLD
        &&& self.stale_attaches <= self.station.seq
    }

    /// One more move keeps `seq` within its type.
    pub open spec fn has_room(self) -> bool {
        self.station.seq + 2 <= u64::MAX
    }

    /// One more tap of that verdict keeps the counts within their type.
    pub open spec fn can_count(self, verdict: TapVerdict) -> bool {
        let counts = self.station.snapshot.session_counts.after(verdict);
        counts.done <= u32::MAX && counts.failed <= u32::MAX
    }
}

pub struct CoreActor {
    state: StationState,
    retry: RetryLedger,
    timing: Timing,
    conformance: bool,
    overrun: OverrunPolicy,
    last_verdict_at: Option<u64>,
    last_boot_pull_at: u64,
    last_end_shift_emit: Option<u64>,
    end_shift_emits: u8,
    blip_until: Option<u128>,
    stale_attaches: u64,
}

impl View for CoreActor {
    type V = CoreView;

    closed spec fn view(&self) -> CoreView {
        CoreView {
            station: self.state@,
            ledger: self.retry@,
            timing: self.timing,
            conformance: self.conformance,
            overrun: self.overrun,
            last_verdict_at: self.last_verdict_at,
            last_boot_pull_at: self.last_boot_pull_at,
            last_end_shift_emit: self.last_end_shift_emit,
            end_shift_emits: self.end_shift_emits,
            blip_until: self.blip_until,
            stale_attaches: self.stale_attaches as nat,
        }
    }
}

fn now_ms(wall: WallClock) -> (ms: u64)
    ensures
        ms == epoch_ms(wall),
{
    match wall {
        Some(n) => (n / 1_000_000) as u64,
        None => 0,
    }
}

fn has_passed(since: u64, now: u64, window_ms: u64) -> (yes: bool)
    ensures
        yes == passed(since, now, window_ms),
{
    now.saturating_sub(since) as u128 >= window_ms as u128 * 1_000_000
}

fn has_passed_if_any(since: Option<u64>, now: u64, window_ms: u64) -> (yes: bool)
    ensures
        yes == passed_if_any(since, now, window_ms),
{
    match since {
        Some(t) => has_passed(t, now, window_ms),
        None => true,
    }
}

fn add_effect(effects: &mut Vec<Effect>, effect: Effect)
    ensures
        final(effects).deep_view() == old(effects).deep_view().push(effect@),
{
    effects.push(effect);
    assert(effects.deep_view() =~= old(effects).deep_view().push(effect@));
}

fn silent(effects: Vec<Effect>) -> (step: Step)
    ensures
        step@ == (StepView {
            effects: effects.deep_view(),
            next: NextView::Done { reply: ReplyView::Silent },
        }),
{
    Step { effects, next: Next::Done { reply: Reply::Silent } }
}

fn asking(next: Next) -> (step: Step)
    ensures
        step@ == (StepView { effects: Seq::empty(), next: next@ }),
{
    Step { effects: Vec::new(), next }
}

fn accepted(effects: Vec<Effect>) -> (step: Step)
    ensures
        step@ == (StepView {
            effects: effects.deep_view(),
            next: NextView::Done { reply: ReplyView::Accepted },
        }),
{
    Step { effects, next: Next::Done { reply: Reply::Accepted } }
}

fn refused(error: CoreError) -> (step: Step)
    ensures
        step@ == (StepView {
            effects: Seq::empty(),
            next: NextView::Done { reply: ReplyView::Refused { error: error@ } },
        }),
{
    Step { effects: Vec::new(), next: Next::Done { reply: Reply::Refused { error } } }
}

impl CoreActor {
    /// The core of a station that starts from `state`. The keying layer's
    /// readiness is half of the connection; the reader's presence comes in by
    /// message, so nothing is pushed yet.
    pub fn new(
        state: StationState,
        timing: Timing,
        conformance: bool,
        overrun: OverrunPolicy,
        keying_ready: bool,
        clock: Clock,
    ) -> (started: (CoreActor, Step))
        requires
            state.seq < u64::MAX,
        ensures
            started.0@ == (CoreView {
                station: state@.with_inputs(None, Some(keying_ready)).settled(),
                ledger: Map::empty(),
                timing,
                conformance,
                overrun,
                last_verdict_at: None,
                last_boot_pull_at: clock.mono_ns,
                last_end_shift_emit: None,
                end_shift_emits: 0,
                blip_until: None,
                stale_attaches: 0,
            }),
            started.0@.wf(),
            started.1@ == (StepView {
                effects: seq![
                    EffectView::RefreshBoot {
                        seq: started.0@.station.seq,
                        snapshot: started.0@.station.snapshot,
                    },
                ],
                next: NextView::Done { reply: ReplyView::Silent },
            }),
    {
        let mut actor = CoreActor {
            state,
            retry: RetryLedger::default(),
            timing,
            conformance,
            overrun,
            last_verdict_at: None,
            last_boot_pull_at: clock.mono_ns,
            last_end_shift_emit: None,
            end_shift_emits: 0,
            blip_until: None,
            stale_attaches: 0,
        };
        let _ = actor.state.set_connection_inputs(None, Some(keying_ready));
        let mut effects: Vec<Effect> = Vec::new();
        actor.refresh_boot_cache(&mut effects);
        assert(effects.deep_view() =~= seq![
            EffectView::RefreshBoot {
                seq: actor@.station.seq,
                snapshot: actor@.station.snapshot,
            },
        ]);
        (actor, silent(effects))
    }

    /// Whether one more move keeps `seq` within its type.
    pub fn has_room(&self) -> (room: bool)
        ensures
            room == self@.has_room(),
    {
        self.state.seq <= u64::MAX - 2
    }

    /// Whether one more tap of that verdict keeps the counts within their type.
    pub fn can_count(&self, verdict: TapVerdict) -> (can: bool)
        ensures
            can == self@.can_count(verdict),
    {
        let counts = self.state.counts();
        match verdict {
            TapVerdict::Success => counts.done < u32::MAX,
            TapVerdict::Dead => counts.failed < u32::MAX,
            TapVerdict::Retry => true,
        }
    }

    fn refresh_boot_cache(&self, effects: &mut Vec<Effect>)
        ensures
            final(effects).deep_view() == old(effects).deep_view().push(
                EffectView::RefreshBoot {
                    seq: self@.station.seq,
                    snapshot: self@.station.snapshot,
                },
            ),
    {
        let refresh = Effect::RefreshBoot {
            seq: self.state.seq,
            snapshot: self.state.snapshot.clone(),
        };
        add_effect(effects, refresh);
    }

    /// Persists without a push.
    fn persist_quietly(&self, effects: &mut Vec<Effect>)
        ensures
            final(effects).deep_view() == old(effects).deep_view() + saved(self@.station),
    {
        let persist = Effect::Persist { session: self.state.to_persisted() };
        add_effect(effects, persist);
        self.refresh_boot_cache(effects);
        assert(effects.deep_view() =~= old(effects).deep_view() + saved(self@.station));
    }

    /// The order that every visible change keeps: disk, boot, push.
    fn commit(&self, payload: PushPayload, effects: &mut Vec<Effect>)
        ensures
            final(effects).deep_view() == old(effects).deep_view() + committed(
                self@.station,
                payload@,
            ),
    {
        self.persist_quietly(effects);
        let push = Effect::Push { payload };
        add_effect(effects, push);
        assert(effects.deep_view() =~= old(effects).deep_view() + committed(
            self@.station,
            payload@,
        ));
    }

    fn commit_if_any(&self, payload: Option<PushPayload>, effects: &mut Vec<Effect>)
        ensures
            final(effects).deep_view() == old(effects).deep_view() + match payload.deep_view() {
                Some(p) => committed(self@.station, p),
                None => Seq::empty(),
            },
    {
        match payload {
            Some(p) => self.commit(p, effects),
            None => {
                assert(effects.deep_view() =~= old(effects).deep_view() + Seq::empty());
            },
        }
    }

    /// Takes a message. What the step asks for is performed, and its result
    /// handed back, before the next message is taken.
    #[verifier::rlimit(30)]
    pub fn handle(&mut self, msg: CoreMsg, clock: Clock) -> (step: Step)
        requires
            old(self)@.wf(),
            old(self)@.has_room(),
        ensures
            final(self)@ == old(self)@.handled(msg, clock).after,
            step@ == old(self)@.handled(msg, clock).step(),
            final(self)@.wf(),
    {
        match msg {
            CoreMsg::ListBatches => asking(Next::ListBatches),
            CoreMsg::SelectBatch { id } => asking(
                Next::FetchForBegin { id, kind: ShiftBeginKind::Select },
            ),
            CoreMsg::ApplyBatch { id } => asking(
                Next::FetchForBegin { id, kind: ShiftBeginKind::Apply },
            ),
            CoreMsg::SwapBatch { id } => asking(
                match id {
                    Some(id) => Next::FetchForSwap { id },
                    None => Next::ListForSwap,
                },
            ),
            CoreMsg::EndShiftCmd => self.on_end_shift_cmd(clock),
            CoreMsg::BeginEndShift => self.on_begin_end_shift(clock),
            CoreMsg::BridgeAttached { adapter_seq } => self.on_bridge_attached(adapter_seq),
            CoreMsg::BootPulled => self.on_boot_pulled(clock),
            CoreMsg::CardPresented { reader_id, atr, forced } => {
                self.on_card_presented(
                    ChipPresentation { reader_id, at: clock.wall, atr },
                    forced,
                )
            },
            CoreMsg::ReaderPresence { present } => {
                self.on_inputs(Some(present), None, Vec::new())
            },
            CoreMsg::SetDownstream { ready } => self.on_set_downstream(ready, clock),
            CoreMsg::Blip { ms } => self.on_blip(ms, clock),
            CoreMsg::GetSimState => asking(Next::ReportState),
            CoreMsg::ResetDemo => self.on_reset_demo(),
            CoreMsg::Tick => self.on_tick(clock),
            CoreMsg::ConformanceReset => self.on_conformance_reset(),
        }
    }

    /// New inputs to the connection, behind effects that come first.
    fn on_inputs(
        &mut self,
        reader_present: Option<bool>,
        downstream_ready: Option<bool>,
        first: Vec<Effect>,
    ) -> (step: Step)
        requires
            old(self)@.wf(),
            old(self)@.has_room(),
        ensures
            final(self)@ == old(self)@.inputs(reader_present, downstream_ready).after,
            step@ == old(self)@.inputs(reader_present, downstream_ready).led_by(
                first.deep_view(),
            ).step(),
            final(self)@.wf(),
    {
        let mut effects = first;
        let flip = self.state.set_connection_inputs(reader_present, downstream_ready);
        self.commit_if_any(flip, &mut effects);
        silent(effects)
    }

    fn on_set_downstream(&mut self, ready: bool, clock: Clock) -> (step: Step)
        requires
            old(self)@.wf(),
            old(self)@.has_room(),
        ensures
            final(self)@ == old(self)@.handled(CoreMsg::SetDownstream { ready }, clock).after,
            step@ == old(self)@.handled(CoreMsg::SetDownstream { ready }, clock).step(),
            final(self)@.wf(),
    {
        let mut effects: Vec<Effect> = Vec::new();
        add_effect(&mut effects, Effect::ArmSim { arming: SimArming::Ready { ready } });
        assert(effects.deep_view() =~= seq![
            EffectView::ArmSim { arming: SimArming::Ready { ready } },
        ]);
        self.on_inputs(None, Some(ready), effects)
    }

    fn on_blip(&mut self, ms: u64, clock: Clock) -> (step: Step)
        requires
            old(self)@.wf(),
            old(self)@.has_room(),
        ensures
            final(self)@ == old(self)@.handled(CoreMsg::Blip { ms }, clock).after,
            step@ == old(self)@.handled(CoreMsg::Blip { ms }, clock).step(),
            final(self)@.wf(),
    {
        self.blip_until = Some(clock.mono_ns as u128 + ms as u128 * 1_000_000);
        self.on_inputs(None, Some(false), Vec::new())
    }

    fn on_boot_pulled(&mut self, clock: Clock) -> (step: Step)
        requires
            old(self)@.wf(),
        ensures
            final(self)@ == old(self)@.handled(CoreMsg::BootPulled, clock).after,
            step@ == old(self)@.handled(CoreMsg::BootPulled, clock).step(),
            final(self)@.wf(),
    {
        self.last_boot_pull_at = clock.mono_ns;
        silent(Vec::new())
    }

    fn on_end_shift_cmd(&mut self, clock: Clock) -> (step: Step)
        requires
            old(self)@.wf(),
            old(self)@.has_room(),
        ensures
            final(self)@ == old(self)@.handled(CoreMsg::EndShiftCmd, clock).after,
            step@ == old(self)@.handled(CoreMsg::EndShiftCmd, clock).step(),
            final(self)@.wf(),
    {
        let mut effects: Vec<Effect> = Vec::new();
        let counts = self.state.mark_shift_ended();
        self.persist_quietly(&mut effects);
        let reply = EndShiftReply { counts, payload: None };
        Step { effects, next: Next::Done { reply: Reply::Ended { reply } } }
    }

    fn on_begin_end_shift(&mut self, clock: Clock) -> (step: Step)
        requires
            old(self)@.wf(),
            old(self)@.has_room(),
        ensures
            final(self)@ == old(self)@.handled(CoreMsg::BeginEndShift, clock).after,
            step@ == old(self)@.handled(CoreMsg::BeginEndShift, clock).step(),
            final(self)@.wf(),
    {
        let mut effects: Vec<Effect> = Vec::new();
        self.state.arm_end_shift();
        self.end_shift_emits = 0;
        self.last_end_shift_emit = None;
        self.persist_quietly(&mut effects);
        silent(effects)
    }

    fn on_bridge_attached(&mut self, adapter_seq: u64) -> (step: Step)
        requires
            old(self)@.wf(),
            old(self)@.has_room(),
        ensures
            final(self)@ == old(self)@.attached(adapter_seq).after,
            step@ == old(self)@.attached(adapter_seq).step(),
            final(self)@.wf(),
    {
        let mut effects: Vec<Effect> = Vec::new();
        if adapter_seq < self.state.seq {
            self.stale_attaches = self.stale_attaches + 1;
            let payload = self.state.catch_up();
            self.commit(payload, &mut effects);
        }
        silent(effects)
    }

    fn on_reset_demo(&mut self) -> (step: Step)
        requires
            old(self)@.wf(),
            old(self)@.has_room(),
        ensures
            final(self)@ == old(self)@.demo_reset().after,
            step@ == old(self)@.demo_reset().step(),
            final(self)@.wf(),
    {
        let mut effects: Vec<Effect> = Vec::new();
        self.state.clear_session();
        self.retry.clear_all();
        self.last_verdict_at = None;
        self.end_shift_emits = 0;
        add_effect(&mut effects, Effect::ResetBatches);
        self.persist_quietly(&mut effects);
        accepted(effects)
    }

    fn on_conformance_reset(&mut self) -> (step: Step)
        requires
            old(self)@.wf(),
            old(self)@.has_room(),
        ensures
            final(self)@ == old(self)@.conformance_reset().after,
            step@ == old(self)@.conformance_reset().step(),
            final(self)@.wf(),
    {
        let mut effects: Vec<Effect> = Vec::new();
        let seq = self.state.seq;
        let config = self.state.snapshot.config;
        self.state = StationState::new(config, None);
        self.state.seq = seq;
        // Conformance starts connected without a push of its own.
        let _ = self.state.set_connection_inputs(Some(true), Some(true));
        self.retry.clear_all();
        self.last_verdict_at = None;
        self.end_shift_emits = 0;
        add_effect(&mut effects, Effect::ResetBatches);
        add_effect(&mut effects, Effect::ArmSim { arming: SimArming::Reset });
        self.persist_quietly(&mut effects);
        accepted(effects)
    }

    fn on_card_presented(
        &mut self,
        presentation: ChipPresentation,
        forced: Option<ForcedOutcome>,
    ) -> (step: Step)
        ensures
            final(self)@ == old(self)@,
            step@ == old(self)@.presented(presentation@, forced).step(),
            old(self)@.presented(presentation@, forced).after == old(self)@,
    {
        let mut effects: Vec<Effect> = Vec::new();
        if !self.state.connected() {
            return silent(effects);
        }
        let batch = match &self.state.snapshot.current_batch {
            Some(batch) => batch.clone(),
            None => {
                return silent(effects);
            },
        };
        if self.overrun == OverrunPolicy::Block && batch.completed >= batch.total {
            return silent(effects);
        }
        if let Some(outcome) = forced {
            add_effect(&mut effects, Effect::ArmSim { arming: SimArming::Force { outcome } });
        }
        Step { effects, next: Next::KeyChip { attempt: TapAttempt { presentation, batch } } }
    }

    /// The self-tick: ends a blip, tries again to persist, sends a pending end
    /// of shift.
    #[verifier::rlimit(30)]
    pub fn on_tick(&mut self, clock: Clock) -> (step: Step)
        requires
            old(self)@.wf(),
            old(self)@.has_room(),
        ensures
            final(self)@ == old(self)@.ticked(clock).after,
            step@ == old(self)@.ticked(clock).step(),
            final(self)@.wf(),
    {
        let mut effects: Vec<Effect> = Vec::new();
        let over = match self.blip_until {
            Some(until) => clock.mono_ns as u128 >= until,
            None => false,
        };
        if over {
            self.blip_until = None;
            add_effect(&mut effects, Effect::ArmSim { arming: SimArming::Ready { ready: true } });
            let flip = self.state.set_connection_inputs(None, Some(true));
            self.commit_if_any(flip, &mut effects);
        }
        if !self.state.persist_ok {
            self.persist_quietly(&mut effects);
        } else if self.state.pending_end_shift && !self.conformance {
            let now = clock.mono_ns;
            let deliverable = self.state.connected() && has_passed_if_any(
                self.last_verdict_at,
                now,
                self.timing.verdict_quiet_ms,
            ) && has_passed(self.last_boot_pull_at, now, self.timing.boot_quiet_ms)
                && has_passed_if_any(
                self.last_end_shift_emit,
                now,
                self.timing.emit_spacing_ms,
            );
            if deliverable {
                let payload = self.state.emit_end_shift();
                self.commit(payload, &mut effects);
                self.end_shift_emits = self.end_shift_emits + 1;
                self.last_end_shift_emit = Some(now);
                if self.end_shift_emits >= END_SHIFT_EMITS_TO_CONFIRM {
                    let _ = self.state.mark_shift_ended();
                    self.persist_quietly(&mut effects);
                }
            }
        }
        silent(effects)
    }

    /// Begins a shift under the given id.
    pub fn begin_shift(
        &mut self,
        batch: BatchInfo,
        kind: ShiftBeginKind,
        shift_id: String,
        clock: Clock,
    ) -> (step: Step)
        requires
            old(self)@.wf(),
            old(self)@.has_room(),
        ensures
            final(self)@ == old(self)@.beginning(batch@, kind, shift_id@, clock).after,
            step@ == old(self)@.beginning(batch@, kind, shift_id@, clock).step(),
            final(self)@.wf(),
    {
        let mut effects: Vec<Effect> = Vec::new();
        let payload = self.state.begin_shift(batch, kind, shift_id, now_ms(clock.wall));
        self.retry.clear_all();
        self.end_shift_emits = 0;
        self.commit(payload.clone(), &mut effects);
        match kind {
            ShiftBeginKind::Select => Step {
                effects,
                next: Next::Done { reply: Reply::Began { payload } },
            },
            ShiftBeginKind::Apply => accepted(effects),
        }
    }

    /// The batch source answered for a shift begin. The shift that begins has
    /// a random id.
    pub fn begin_fetched(
        &mut self,
        id: String,
        kind: ShiftBeginKind,
        fetched: Result<Option<BatchInfo>, String>,
        clock: Clock,
    ) -> (step: Step)
        requires
            old(self)@.wf(),
            old(self)@.has_room(),
        ensures
            match fetched {
                Ok(Some(batch)) => exists|shift_id: Seq<char>| #[trigger]
                    crate::outside::is_random_uuid(shift_id) && final(self)@
                        == old(self)@.beginning(batch@, kind, shift_id, clock).after && step@
                        == old(self)@.beginning(batch@, kind, shift_id, clock).step(),
                Ok(None) => final(self)@ == old(self)@ && step@ == old(self)@.refusing(
                    ErrorView::UnknownBatch { id: id@ },
                ).step(),
                Err(message) => final(self)@ == old(self)@ && step@ == old(self)@.refusing(
                    ErrorView::Source { message: message@ },
                ).step(),
            },
            final(self)@.wf(),
    {
        match fetched {
            Ok(Some(batch)) => {
                let shift_id = random_uuid();
                self.begin_shift(batch, kind, shift_id, clock)
            },
            Ok(None) => refused(CoreError::UnknownBatch { id }),
            Err(message) => refused(CoreError::Source { message }),
        }
    }

    fn swap_to(&mut self, batch: BatchInfo) -> (step: Step)
        requires
            old(self)@.wf(),
            old(self)@.has_room(),
        ensures
            final(self)@ == old(self)@.swapping(batch@).after,
            step@ == old(self)@.swapping(batch@).step(),
            final(self)@.wf(),
    {
        let mut effects: Vec<Effect> = Vec::new();
        let payload = self.state.swap_batch(batch);
        self.commit(payload, &mut effects);
        accepted(effects)
    }

    /// The batch source answered for a swap to one batch.
    pub fn swap_fetched(&mut self, id: String, fetched: Result<Option<BatchInfo>, String>) -> (step:
        Step)
        requires
            old(self)@.wf(),
            old(self)@.has_room(),
        ensures
            ({
                let made = match fetched {
                    Ok(Some(batch)) => old(self)@.swapping(batch@),
                    Ok(None) => old(self)@.refusing(ErrorView::UnknownBatch { id: id@ }),
                    Err(message) => old(self)@.refusing(ErrorView::Source { message: message@ }),
                };
                final(self)@ == made.after && step@ == made.step()
            }),
            final(self)@.wf(),
    {
        match fetched {
            Ok(Some(batch)) => self.swap_to(batch),
            Ok(None) => refused(CoreError::UnknownBatch { id }),
            Err(message) => refused(CoreError::Source { message }),
        }
    }

    /// The batch source answered for a swap to any other batch: the first one
    /// that is not the current one.
    pub fn swap_listed(&mut self, listed: Result<Vec<BatchInfo>, String>) -> (step: Step)
        requires
            old(self)@.wf(),
            old(self)@.has_room(),
        ensures
            ({
                let made = match listed {
                    Ok(batches) => old(self)@.swap_from_list(batches.deep_view()),
                    Err(message) => old(self)@.refusing(ErrorView::Source { message: message@ }),
                };
                final(self)@ == made.after && step@ == made.step()
            }),
            final(self)@.wf(),
    {
        match listed {
            Ok(batches) => match other_batch(&batches, &self.state.snapshot.current_batch) {
                Some(batch) => self.swap_to(batch),
                None => refused(CoreError::NoOtherBatch),
            },
            Err(message) => refused(CoreError::Source { message }),
        }
    }

    fn shift_id(&self) -> (id: String)
        ensures
            id@ == self@.shift_id(),
    {
        match &self.state.shift {
            Some(shift) => shift.shift_id.clone(),
            None => "".to_owned(),
        }
    }

    /// The keying layer answered. Verdicts that count are recorded against
    /// the batch first; a retry counts nowhere and is announced at once.
    pub fn chip_keyed(&mut self, attempt: TapAttempt, outcome: KeyingOutcome, clock: Clock) -> (step:
        Step)
        requires
            old(self)@.wf(),
            old(self)@.has_room(),
        ensures
            final(self)@ == old(self)@.keyed(attempt@, outcome@, clock).after,
            step@ == old(self)@.keyed(attempt@, outcome@, clock).step(),
            final(self)@.wf(),
    {
        match outcome {
            KeyingOutcome::Keyed { chip_ref } => self.on_keyed(attempt, chip_ref.0, clock),
            KeyingOutcome::Recoverable { class, chip_ref } => {
                self.on_recoverable(attempt, class, chip_ref.0, clock)
            },
            KeyingOutcome::Permanent { class, chip_ref } => {
                self.on_permanent(attempt, class, chip_ref.0, clock)
            },
            KeyingOutcome::NotReady => self.on_inputs(None, Some(false), Vec::new()),
        }
    }

    fn on_keyed(&mut self, attempt: TapAttempt, chip: String, clock: Clock) -> (step: Step)
        requires
            old(self)@.wf(),
        ensures
            final(self)@ == old(self)@.keyed(
                attempt@,
                KeyingView::Keyed { chip: chip@ },
                clock,
            ).after,
            step@ == old(self)@.keyed(attempt@, KeyingView::Keyed { chip: chip@ }, clock).step(),
            final(self)@.wf(),
    {
        let mut effects: Vec<Effect> = Vec::new();
        self.retry.clear_chip(chip.as_str());
        let batch_id = attempt.batch.id.clone();
        if attempt.batch.completed >= attempt.batch.total {
            let overrun = OverrunRecord {
                ts: now_ms(clock.wall),
                chip_ref: chip,
                reader_id: attempt.presentation.reader_id,
                batch_id: attempt.batch.id,
                shift_id: self.shift_id(),
                total: attempt.batch.total,
                completed: attempt.batch.completed,
            };
            add_effect(&mut effects, Effect::AppendOverrun { overrun });
        }
        Step { effects, next: Next::RecordOutcome { batch_id, verdict: TapVerdict::Success } }
    }

    fn failure(
        &self,
        attempt: TapAttempt,
        class: String,
        chip: String,
        verdict: &'static str,
        nth: u8,
        escalated: bool,
        clock: Clock,
    ) -> (effect: Effect)
        ensures
            effect@ == self@.failure(attempt@, class@, chip@, verdict@, nth, escalated, clock),
    {
        Effect::AppendFailure {
            failure: FailureRecord {
                ts: now_ms(clock.wall),
                chip_ref: chip,
                class,
                verdict,
                attempt: nth,
                escalated,
                reader_id: attempt.presentation.reader_id,
                batch_id: attempt.batch.id,
                shift_id: self.shift_id(),
            },
        }
    }

    fn on_recoverable(&mut self, attempt: TapAttempt, class: String, chip: String, clock: Clock) -> (step:
        Step)
        requires
            old(self)@.wf(),
            old(self)@.has_room(),
        ensures
            final(self)@ == old(self)@.keyed(
                attempt@,
                KeyingView::Recoverable { class: class@, chip: chip@ },
                clock,
            ).after,
            step@ == old(self)@.keyed(
                attempt@,
                KeyingView::Recoverable { class: class@, chip: chip@ },
                clock,
            ).step(),
            final(self)@.wf(),
    {
        let mut effects: Vec<Effect> = Vec::new();
        let nth: u8 = self.retry.record_failure(chip.as_str());
        if nth >= ESCALATION_THRESHOLD {
            self.retry.clear_chip(chip.as_str());
            assert(self@.ledger =~= old(self)@.ledger.remove(chip@));
            let batch_id = attempt.batch.id.clone();
            add_effect(
                &mut effects,
                self.failure(attempt, class, chip, "dead", nth, true, clock),
            );
            Step { effects, next: Next::RecordOutcome { batch_id, verdict: TapVerdict::Dead } }
        } else {
            add_effect(
                &mut effects,
                self.failure(attempt, class, chip, "retry", nth, false, clock),
            );
            let payload = self.state.record_verdict(TapVerdict::Retry, None);
            self.last_verdict_at = Some(clock.mono_ns);
            self.commit(payload, &mut effects);
            silent(effects)
        }
    }

    fn on_permanent(&mut self, attempt: TapAttempt, class: String, chip: String, clock: Clock) -> (step:
        Step)
        requires
            old(self)@.wf(),
        ensures
            final(self)@ == old(self)@.keyed(
                attempt@,
                KeyingView::Permanent { class: class@, chip: chip@ },
                clock,
            ).after,
            step@ == old(self)@.keyed(
                attempt@,
                KeyingView::Permanent { class: class@, chip: chip@ },
                clock,
            ).step(),
            final(self)@.wf(),
    {
        let mut effects: Vec<Effect> = Vec::new();
        let nth: u8 = self.retry.record_failure(chip.as_str());
        self.retry.clear_chip(chip.as_str());
        assert(self@.ledger =~= old(self)@.ledger.remove(chip@));
        let batch_id = attempt.batch.id.clone();
        add_effect(&mut effects, self.failure(attempt, class, chip, "dead", nth, false, clock));
        Step { effects, next: Next::RecordOutcome { batch_id, verdict: TapVerdict::Dead } }
    }

    /// A batch was recorded against, or could not be: `recorded` is then
    /// `None`, and the tap still counts in the session and is still announced.
    pub fn outcome_recorded(
        &mut self,
        verdict: TapVerdict,
        recorded: Option<BatchInfo>,
        clock: Clock,
    ) -> (step: Step)
        requires
            old(self)@.wf(),
            old(self)@.has_room(),
            old(self)@.can_count(verdict),
        ensures
            final(self)@ == old(self)@.ruled(verdict, recorded.deep_view(), clock).after,
            step@ == old(self)@.ruled(verdict, recorded.deep_view(), clock).step(),
            final(self)@.wf(),
    {
        let mut effects: Vec<Effect> = Vec::new();
        let payload = self.state.record_verdict(verdict, recorded);
        self.last_verdict_at = Some(clock.mono_ns);
        self.commit(payload, &mut effects);
        silent(effects)
    }

    /// The session file was written, or could not be. While it cannot, the
    /// line pauses.
    pub fn persisted(&mut self, ok: bool) -> (step: Step)
        requires
            old(self)@.wf(),
            old(self)@.has_room(),
        ensures
            final(self)@ == old(self)@.settling(old(self)@.station.with_persist_ok(ok)).after,
            step@ == old(self)@.settling(old(self)@.station.with_persist_ok(ok)).step(),
            final(self)@.wf(),
    {
        let mut effects: Vec<Effect> = Vec::new();
        let flip = self.state.set_persist_ok(ok);
        self.commit_if_any(flip, &mut effects);
        silent(effects)
    }

    /// What the sim console shows, given the simulated layer's policy, if
    /// there is one.
    pub fn sim_state(&self, policy: Option<SimPolicy>) -> (view: SimStateView)
        requires
            self@.wf(),
        ensures
            view.connection@ == (if self@.station.connected() {
                "connected"@
            } else {
                "disconnected"@
            }),
            view.reader_present == self@.station.reader_present,
            view.downstream_ready == self@.station.downstream_ready,
            view.batch_name.deep_view() == match self@.station.snapshot.current_batch {
                Some(b) => Some(b.name),
                None => None,
            },
            view.counts@ == self@.station.snapshot.session_counts,
            view.pending_end_shift == self@.station.pending_end_shift,
            view.seq == self@.station.seq,
            view.sticky_chip == match policy {
                Some(p) => p.sticky_chip,
                None => None,
            },
            view.forced_next.deep_view() == match policy {
                Some(SimPolicy { forced_next: Some(f), .. }) => Some(f.name_of()),
                _ => None,
            },
            view.latency_ms == match policy {
                Some(p) => p.latency_ms,
                None => 0,
            },
            view.stale_attaches == self@.stale_attaches,
    {
        let (sticky_chip, forced, latency_ms) = match policy {
            Some(p) => (p.sticky_chip, p.forced_next, p.latency_ms),
            None => (None, None, 0),
        };
        SimStateView {
            connection: if self.state.connected() {
                "connected"
            } else {
                "disconnected"
            },
            reader_present: self.state.reader_present,
            downstream_ready: self.state.downstream_ready,
            batch_name: match &self.state.snapshot.current_batch {
                Some(b) => Some(b.name.clone()),
                None => None,
            },
            counts: self.state.counts(),
            pending_end_shift: self.state.pending_end_shift,
            seq: self.state.seq,
            sticky_chip,
            forced_next: match forced {
                Some(f) => Some(f.name().to_owned()),
                None => None,
            },
            latency_ms,
            stale_attaches: self.stale_attaches,
        }
    }
}

fn other_batch(batches: &Vec<BatchInfo>, current: &Option<BatchInfo>) -> (other: Option<BatchInfo>)
    ensures
        other.deep_view() == first_other(
            batches.deep_view(),
            match current.deep_view() {
                Some(b) => Some(b.id),
                None => None,
            },
        ),
{
    let ghost all = batches.deep_view();
    let ghost current_id = match current.deep_view() {
        Some(b) => Some(b.id),
        None => None,
    };
    let mut i: usize = 0;
    assert(all.skip(0) =~= all);
    while i < batches.len()
        invariant
            i <= batches.len(),
            all == batches.deep_view(),
            current_id == match current.deep_view() {
                Some(b) => Some(b.id),
                None => None,
            },
            first_other(all, current_id) == first_other(all.skip(i as int), current_id),
        decreases batches.len() - i,
    {
        assert(all.skip(i as int)[0] == batches[i as int]@);
        let same = match current {
            Some(b) => b.id == batches[i].id,
            None => false,
        };
        if !same {
            return Some(batches[i].clone());
        }
        assert(all.skip(i as int).skip(1) =~= all.skip(i + 1));
        i = i + 1;
    }
    None
}

}
