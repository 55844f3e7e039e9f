use station_shell::actor::{CoreActor, Timing};
use station_shell::batch_source::SimBatchSource;
use station_shell::config::OverrunPolicy;
use station_shell::contract::{
    BatchInfo, ConnectionState, FailBinSide, PushPayload, StationSnapshot, StationUiConfig,
    TapVerdict, WireEvent,
};
use station_shell::keying::{ForcedOutcome, SimKeying, SimPolicy};
use station_shell::messages::{Clock, CoreMsg, Effect, Next, Reply, SimStateView, Step};
use station_shell::records::{FailureRecord, OverrunRecord};
use station_shell::state::{PersistedSession, StationState};

const MS: u64 = 1_000_000;

/// Performs the core's steps against the simulated layers, in memory.
struct Rig {
    actor: CoreActor,
    keying: SimKeying,
    batches: SimBatchSource,
    clock: Clock,
    pushes: Vec<PushPayload>,
    session: Option<PersistedSession>,
    boot: Option<(u64, StationSnapshot)>,
    failures: Vec<FailureRecord>,
    overruns: Vec<OverrunRecord>,
    trace: Vec<&'static str>,
    disk_fails: bool,
    records_fail: bool,
}

fn batch(id: &str, name: &str, total: u32) -> BatchInfo {
    BatchInfo { id: id.into(), name: name.into(), total, completed: 0, failed: 0 }
}

fn start(timing: Timing, overrun: OverrunPolicy, persisted: Option<PersistedSession>) -> Rig {
    let config = StationUiConfig { fail_bin_side: FailBinSide::Right };
    let keying = SimKeying::new(SimPolicy { latency_ms: 0, ..SimPolicy::default() });
    let batches =
        SimBatchSource::new(vec![batch("b1", "B ONE", 10), batch("b2", "B TWO", 5)], Vec::new());
    let clock = Clock { mono_ns: 10_000 * MS, wall: Some(1_000_000_000) };
    let state = StationState::new(config, persisted);
    let (actor, step) = CoreActor::new(state, timing, false, overrun, keying.ready(), clock);
    let mut rig = Rig {
        actor,
        keying,
        batches,
        clock,
        pushes: Vec::new(),
        session: None,
        boot: None,
        failures: Vec::new(),
        overruns: Vec::new(),
        trace: Vec::new(),
        disk_fails: false,
        records_fail: false,
    };
    rig.run(step);
    // Bring the line up: the keying layer is ready, the reader comes in.
    rig.send(CoreMsg::ReaderPresence { present: true });
    rig
}

fn rig(timing: Timing) -> Rig {
    start(timing, OverrunPolicy::Allow, None)
}

impl Rig {
    fn perform(&mut self, effects: Vec<Effect>) {
        let mut written = false;
        for effect in effects {
            match effect {
                Effect::Persist { session } => {
                    written = true;
                    self.trace.push("persist");
                    if !self.disk_fails {
                        self.session = Some(session);
                    }
                }
                Effect::RefreshBoot { seq, snapshot } => {
                    self.trace.push("boot");
                    self.boot = Some((seq, snapshot));
                }
                Effect::Push { payload } => {
                    self.trace.push("push");
                    self.pushes.push(payload);
                }
                Effect::AppendFailure { failure } => self.failures.push(failure),
                Effect::AppendOverrun { overrun } => self.overruns.push(overrun),
                Effect::ArmSim { arming } => self.keying.arm(|p| p.take_arming(arming)),
                Effect::ResetBatches => self.batches.reset(),
            }
        }
        if written {
            assert!(self.actor.has_room());
            let step = self.actor.persisted(!self.disk_fails);
            self.perform(step.effects);
        }
    }

    fn run(&mut self, first: Step) -> Option<Reply> {
        let mut step = first;
        loop {
            self.perform(step.effects);
            step = match step.next {
                Next::Done { reply } => return Some(reply),
                Next::ListBatches | Next::ReportState => return None,
                Next::FetchForBegin { id, kind } => {
                    let fetched = Ok(self.batches.get(&id));
                    self.actor.begin_fetched(id, kind, fetched, self.clock)
                }
                Next::FetchForSwap { id } => {
                    let fetched = Ok(self.batches.get(&id));
                    self.actor.swap_fetched(id, fetched)
                }
                Next::ListForSwap => self.actor.swap_listed(Ok(self.batches.list())),
                Next::KeyChip { attempt } => {
                    let (outcome, _) = self.keying.key_chip(&attempt.presentation);
                    self.actor.chip_keyed(attempt, outcome, self.clock)
                }
                Next::RecordOutcome { batch_id, verdict } => {
                    let recorded = if self.records_fail {
                        None
                    } else {
                        self.batches.record_outcome(&batch_id, verdict).ok()
                    };
                    assert!(self.actor.can_count(verdict));
                    self.actor.outcome_recorded(verdict, recorded, self.clock)
                }
            };
        }
    }

    fn send(&mut self, msg: CoreMsg) -> Option<Reply> {
        assert!(self.actor.has_room());
        let step = self.actor.handle(msg, self.clock);
        self.run(step)
    }

    fn select(&mut self, id: &str) -> Option<Reply> {
        self.send(CoreMsg::SelectBatch { id: id.into() })
    }

    fn tap(&mut self, forced: ForcedOutcome) {
        self.send(CoreMsg::CardPresented {
            reader_id: "test".into(),
            atr: vec![0x3b, 0x00],
            forced: Some(forced),
        });
    }

    fn stick(&mut self, chip: &str) {
        self.keying.arm(|p| p.sticky_chip = Some(chip.to_string()));
    }

    fn wait_ms(&mut self, ms: u64) {
        self.clock.mono_ns += ms * MS;
        self.clock.wall = self.clock.wall.map(|w| w + (ms * MS) as u128);
    }

    fn take(&mut self) -> Vec<PushPayload> {
        std::mem::take(&mut self.pushes)
    }

    fn state(&self) -> SimStateView {
        self.actor.sim_state(Some(self.keying.policy()))
    }
}

fn verdicts(payloads: &[PushPayload]) -> Vec<TapVerdict> {
    payloads
        .iter()
        .flat_map(|p| &p.events)
        .filter_map(|e| match e {
            WireEvent::TapResult { result } => Some(*result),
            _ => None,
        })
        .collect()
}

fn refusal(reply: Option<Reply>) -> String {
    match reply {
        Some(Reply::Refused { error }) => error.message(),
        other => panic!("not refused: {other:?}"),
    }
}

#[test]
fn third_consecutive_recoverable_on_same_chip_escalates_to_dead() {
    let mut rig = rig(Timing::default());
    rig.stick("chip-x");
    rig.select("b1");
    rig.take();

    rig.tap(ForcedOutcome::Recoverable);
    rig.tap(ForcedOutcome::Recoverable);
    rig.tap(ForcedOutcome::Recoverable);

    let payloads = rig.take();
    assert_eq!(
        verdicts(&payloads),
        vec![TapVerdict::Retry, TapVerdict::Retry, TapVerdict::Dead],
        "3rd consecutive recoverable failure on one chip must escalate"
    );
    let last = payloads.last().unwrap().snapshot.as_ref().unwrap();
    assert_eq!(last.session_counts.failed, 1, "only the escalation moves counts");
    assert_eq!(last.session_counts.done, 0);
    assert_eq!(last.current_batch.as_ref().unwrap().failed, 1);

    assert_eq!(
        rig.failures.len(),
        3,
        "every failure gets a RECORD (the counter is never persisted)"
    );
    assert_eq!(rig.failures[2].escalated, true);
    assert_eq!(rig.failures[2].attempt, 3);

    // A fresh chip after the escalation starts a fresh count.
    rig.stick("chip-y");
    rig.tap(ForcedOutcome::Recoverable);
    assert_eq!(verdicts(&rig.take()), vec![TapVerdict::Retry]);
}

#[test]
fn shift_begin_clears_the_retry_ledger() {
    let mut rig = rig(Timing::default());
    rig.stick("chip-x");
    rig.select("b1");
    rig.tap(ForcedOutcome::Recoverable);
    rig.tap(ForcedOutcome::Recoverable);
    // New shift — the 3rd failure must NOT escalate (ledger cleared).
    rig.select("b2");
    rig.take();
    rig.tap(ForcedOutcome::Recoverable);
    assert_eq!(verdicts(&rig.take()), vec![TapVerdict::Retry]);
}

#[test]
fn success_pipeline_persists_before_it_pushes() {
    let mut rig = rig(Timing::default());
    rig.select("b1");
    rig.take();
    rig.trace.clear();
    rig.tap(ForcedOutcome::Keyed);

    let payloads = rig.take();
    assert_eq!(payloads.len(), 1);
    assert_eq!(
        payloads[0].events,
        vec![WireEvent::TapResult { result: TapVerdict::Success }, WireEvent::Data]
    );
    assert_eq!(rig.trace, vec!["persist", "boot", "push"]);
    // The session file already carries the count the push announced.
    let shift = rig.session.as_ref().unwrap().shift.as_ref().unwrap();
    assert_eq!(shift.counts.done, 1);
    assert_eq!(shift.batch.completed, 1);
    assert_eq!(rig.boot.as_ref().unwrap().0, payloads[0].seq);
}

#[test]
fn shell_initiated_end_shift_re_emits_until_confirmed() {
    let timing =
        Timing { verdict_quiet_ms: 150, boot_quiet_ms: 0, emit_spacing_ms: 30, tick_ms: 10 };
    let mut rig = rig(timing);
    rig.select("b1");
    rig.tap(ForcedOutcome::Keyed);
    rig.wait_ms(30);
    rig.take();

    rig.send(CoreMsg::BeginEndShift);
    assert!(rig.session.as_ref().unwrap().pending_end_shift);
    // Still inside the verdict-quiet window: nothing may be emitted yet.
    for _ in 0..5 {
        rig.wait_ms(10);
        rig.send(CoreMsg::Tick);
    }
    assert!(
        rig.take().iter().all(|p| !p.events.contains(&WireEvent::EndShift)),
        "end-shift must not be emitted while a flash could still be on screen"
    );
    // After the quiet window: spaced re-emits until confirmed.
    for _ in 0..25 {
        rig.wait_ms(10);
        rig.send(CoreMsg::Tick);
    }
    let emits =
        rig.take().iter().filter(|p| p.events.contains(&WireEvent::EndShift)).count();
    assert_eq!(emits, 2, "exactly the confirm count, spaced, then stop");
    let session = rig.session.as_ref().unwrap();
    assert_eq!(session.pending_end_shift, false, "confirmed delivery is persisted");
    assert!(session.shift.as_ref().unwrap().meta.ended);
}

#[test]
fn taps_while_disconnected_produce_no_verdict() {
    let mut rig = rig(Timing::default());
    rig.select("b1");
    rig.send(CoreMsg::ReaderPresence { present: false });
    rig.take();
    rig.tap(ForcedOutcome::Keyed);
    assert!(rig.take().is_empty(), "a correct shell sends nothing while disconnected");
    assert_eq!(rig.keying.policy().forced_next, None, "the keying layer is not even armed");
}

#[test]
fn a_tap_without_a_batch_leads_to_nothing() {
    let mut rig = rig(Timing::default());
    rig.take();
    rig.tap(ForcedOutcome::Keyed);
    assert!(rig.take().is_empty());
    assert_eq!(rig.state().counts.done, 0);
}

#[test]
fn a_failed_permanent_tap_is_dead_at_once() {
    let mut rig = rig(Timing::default());
    rig.stick("chip-p");
    rig.select("b1");
    rig.tap(ForcedOutcome::Recoverable);
    rig.take();
    rig.wait_ms(5);
    rig.tap(ForcedOutcome::Permanent);
    assert_eq!(verdicts(&rig.take()), vec![TapVerdict::Dead]);
    let shift_id = rig.session.as_ref().unwrap().shift.as_ref().unwrap().meta.shift_id.clone();
    assert_eq!(
        rig.failures[1],
        FailureRecord {
            ts: 1_005,
            chip_ref: "chip-p".into(),
            class: "S2".into(),
            verdict: "dead",
            attempt: 2,
            escalated: false,
            reader_id: "test".into(),
            batch_id: "b1".into(),
            shift_id,
        }
    );
    assert_eq!(rig.failures[0].verdict, "retry");
    // The ladder is closed: the next failure is a first one.
    rig.tap(ForcedOutcome::Recoverable);
    assert_eq!(rig.failures[2].attempt, 1);
}

#[test]
fn a_keyed_chip_starts_over_and_leaves_no_failure_record() {
    let mut rig = rig(Timing::default());
    rig.stick("chip-k");
    rig.select("b1");
    rig.tap(ForcedOutcome::Recoverable);
    rig.tap(ForcedOutcome::Recoverable);
    rig.tap(ForcedOutcome::Keyed);
    rig.take();
    rig.tap(ForcedOutcome::Recoverable);
    assert_eq!(verdicts(&rig.take()), vec![TapVerdict::Retry]);
    assert_eq!(rig.failures.len(), 3);
}

#[test]
fn not_ready_pauses_the_line_and_counts_nothing() {
    let mut rig = rig(Timing::default());
    rig.select("b1");
    rig.take();
    rig.tap(ForcedOutcome::Notready);
    let pushes = rig.take();
    assert_eq!(
        pushes[0].events,
        vec![WireEvent::Connection { state: ConnectionState::Disconnected }]
    );
    assert!(rig.failures.is_empty());
    let state = rig.state();
    assert_eq!((state.counts.done, state.counts.failed), (0, 0));
    assert_eq!((state.connection, state.downstream_ready), ("disconnected", false));
    rig.send(CoreMsg::SetDownstream { ready: true });
    assert_eq!(rig.state().connection, "connected");
}

#[test]
fn a_failed_record_still_counts_and_announces() {
    let mut rig = rig(Timing::default());
    rig.select("b1");
    rig.take();
    rig.records_fail = true;
    rig.tap(ForcedOutcome::Keyed);
    let pushes = rig.take();
    assert_eq!(verdicts(&pushes), vec![TapVerdict::Success]);
    let shown = pushes[0].snapshot.as_ref().unwrap();
    assert_eq!(shown.session_counts.done, 1);
    assert_eq!(shown.current_batch.as_ref().unwrap().completed, 0);
}

#[test]
fn unknown_batches_and_failing_sources_are_refused() {
    let mut rig = rig(Timing::default());
    assert_eq!(refusal(rig.select("nope")), "unknown batch: nope");
    assert_eq!(
        refusal(rig.send(CoreMsg::SwapBatch { id: Some("gone".into()) })),
        "unknown batch: gone"
    );
    let step = rig.actor.begin_fetched(
        "b1".into(),
        station_shell::state::ShiftBeginKind::Select,
        Err("no route".into()),
        rig.clock,
    );
    assert_eq!(refusal(rig.run(step)), "no route");
    let step = rig.actor.swap_fetched("b1".into(), Err("down".into()));
    assert_eq!(refusal(rig.run(step)), "down");
    let step = rig.actor.swap_listed(Err("list down".into()));
    assert_eq!(refusal(rig.run(step)), "list down");
    assert!(rig.state().batch_name.is_none());
}

#[test]
fn a_select_answers_the_push_it_made() {
    let mut rig = rig(Timing::default());
    rig.take();
    let reply = rig.select("b1");
    let pushed = rig.take();
    match reply {
        Some(Reply::Began { payload }) => assert_eq!(payload, pushed[0]),
        other => panic!("unexpected {other:?}"),
    }
    let shift = rig.session.as_ref().unwrap().shift.as_ref().unwrap();
    assert_eq!(shift.meta.started_at_ms, 1_000);
    let id: Vec<char> = shift.meta.shift_id.chars().collect();
    assert_eq!((id.len(), id[8], id[14]), (36, '-', '4'));
    assert!(matches!(
        rig.send(CoreMsg::ApplyBatch { id: "b2".into() }),
        Some(Reply::Accepted)
    ));
    assert_eq!(rig.take()[0].events, vec![WireEvent::ApplyBatch]);
    assert_ne!(
        rig.session.as_ref().unwrap().shift.as_ref().unwrap().meta.shift_id,
        id.iter().collect::<String>()
    );
}

#[test]
fn a_blind_swap_takes_the_first_other_batch() {
    let mut rig = rig(Timing::default());
    rig.select("b1");
    rig.tap(ForcedOutcome::Keyed);
    rig.send(CoreMsg::SwapBatch { id: None });
    let state = rig.state();
    assert_eq!(state.batch_name.as_deref(), Some("B TWO"));
    assert_eq!(state.counts.done, 1);
    rig.send(CoreMsg::SwapBatch { id: None });
    assert_eq!(rig.state().batch_name.as_deref(), Some("B ONE"));
    rig.send(CoreMsg::SwapBatch { id: Some("b2".into()) });
    assert_eq!(rig.state().batch_name.as_deref(), Some("B TWO"));
    let step = rig.actor.swap_listed(Ok(vec![batch("b2", "B TWO", 5)]));
    assert_eq!(refusal(rig.run(step)), "no other batch to swap to");
}

#[test]
fn only_stale_pages_are_corrected() {
    let mut rig = rig(Timing::default());
    rig.select("b1");
    rig.take();
    let seq = rig.state().seq;
    rig.send(CoreMsg::BridgeAttached { adapter_seq: seq });
    assert!(rig.take().is_empty());
    rig.send(CoreMsg::BridgeAttached { adapter_seq: seq - 1 });
    let pushes = rig.take();
    assert_eq!(pushes.len(), 1);
    assert_eq!(pushes[0].events, vec![WireEvent::Data]);
    assert_eq!(pushes[0].seq, seq + 1);
    assert_eq!(rig.state().stale_attaches, 1);
}

#[test]
fn a_blip_ends_by_itself() {
    let mut rig = rig(Timing::default());
    rig.take();
    rig.send(CoreMsg::Blip { ms: 500 });
    assert_eq!(rig.state().connection, "disconnected");
    rig.wait_ms(499);
    rig.send(CoreMsg::Tick);
    assert_eq!(rig.state().connection, "disconnected");
    rig.wait_ms(1);
    rig.send(CoreMsg::Tick);
    assert_eq!(rig.state().connection, "connected");
    let pushes = rig.take();
    assert_eq!(pushes.len(), 2);
    assert_eq!(pushes[1].events.last(), Some(&WireEvent::Data));
}

#[test]
fn overruns_are_allowed_and_recorded() {
    let mut rig = rig(Timing::default());
    rig.select("b2");
    for _ in 0..7 {
        rig.tap(ForcedOutcome::Keyed);
    }
    assert_eq!(rig.state().counts.done, 7);
    assert_eq!(rig.overruns.len(), 2);
    assert_eq!((rig.overruns[1].total, rig.overruns[1].completed), (5, 6));
    assert_eq!(rig.overruns[1].batch_id, "b2");
    rig.tap(ForcedOutcome::Permanent);
    assert_eq!(rig.overruns.len(), 2, "only successes overrun");
}

#[test]
fn blocked_overruns_never_reach_keying() {
    let mut rig = start(Timing::default(), OverrunPolicy::Block, None);
    rig.select("b2");
    for _ in 0..5 {
        rig.tap(ForcedOutcome::Keyed);
    }
    rig.take();
    rig.tap(ForcedOutcome::Keyed);
    assert!(rig.take().is_empty());
    assert_eq!(rig.state().counts.done, 5);
    assert!(rig.overruns.is_empty());
}

#[test]
fn a_failing_disk_pauses_the_line_until_a_write_succeeds() {
    let mut rig = rig(Timing::default());
    rig.select("b1");
    rig.disk_fails = true;
    rig.tap(ForcedOutcome::Keyed);
    assert_eq!(rig.state().connection, "disconnected");
    rig.take();
    rig.tap(ForcedOutcome::Keyed);
    assert!(rig.take().is_empty());
    rig.send(CoreMsg::Tick);
    assert_eq!(rig.state().connection, "disconnected");
    rig.disk_fails = false;
    rig.send(CoreMsg::Tick);
    assert_eq!(rig.state().connection, "connected");
    assert_eq!(rig.session.as_ref().unwrap().shift.as_ref().unwrap().counts.done, 1);
}

#[test]
fn a_restart_resumes_the_shift() {
    let mut rig = rig(Timing::default());
    rig.select("b1");
    rig.tap(ForcedOutcome::Keyed);
    rig.send(CoreMsg::BeginEndShift);
    let again = start(Timing::default(), OverrunPolicy::Allow, rig.session.clone());
    let state = again.state();
    assert_eq!((state.counts.done, state.batch_name.as_deref()), (1, Some("B ONE")));
    assert!(state.pending_end_shift);
}

#[test]
fn ending_a_shift_answers_the_counts() {
    let mut rig = rig(Timing::default());
    rig.select("b1");
    rig.tap(ForcedOutcome::Keyed);
    rig.take();
    match rig.send(CoreMsg::EndShiftCmd) {
        Some(Reply::Ended { reply }) => {
            assert_eq!((reply.counts.done, reply.counts.failed), (1, 0));
            assert!(reply.payload.is_none());
        }
        other => panic!("unexpected {other:?}"),
    }
    assert!(rig.take().is_empty());
    assert_eq!(rig.state().counts.done, 1);
}

#[test]
fn a_booting_page_holds_the_end_of_shift_back() {
    let mut rig = rig(Timing::default());
    rig.select("b1");
    rig.send(CoreMsg::BeginEndShift);
    rig.wait_ms(4_000);
    rig.send(CoreMsg::BootPulled);
    rig.take();
    rig.wait_ms(2_999);
    rig.send(CoreMsg::Tick);
    assert!(rig.take().is_empty());
    rig.wait_ms(1);
    rig.send(CoreMsg::Tick);
    assert_eq!(rig.take()[0].events, vec![WireEvent::EndShift]);
}

#[test]
fn resets_keep_the_sequence_going() {
    let mut rig = rig(Timing::default());
    rig.stick("chip-x");
    rig.select("b2");
    rig.tap(ForcedOutcome::Keyed);
    rig.tap(ForcedOutcome::Recoverable);
    let seq = rig.state().seq;
    rig.take();
    assert!(matches!(rig.send(CoreMsg::ResetDemo), Some(Reply::Accepted)));
    assert!(rig.take().is_empty());
    let state = rig.state();
    assert_eq!((state.seq, state.counts.done, state.batch_name), (seq + 1, 0, None));
    assert_eq!(state.connection, "connected");
    assert!(rig.session.as_ref().unwrap().shift.is_none());
    assert_eq!(rig.batches.get("b2").unwrap().completed, 0);
    assert_eq!(rig.boot.as_ref().unwrap().0, seq + 1);

    rig.send(CoreMsg::ReaderPresence { present: false });
    rig.take();
    assert!(matches!(rig.send(CoreMsg::ConformanceReset), Some(Reply::Accepted)));
    assert!(rig.take().is_empty());
    let state = rig.state();
    assert_eq!((state.connection, state.latency_ms), ("connected", 0));
    assert_eq!((state.sticky_chip, state.forced_next), (None, None));
    assert_eq!(state.seq, seq + 3);
}

#[test]
fn requests_for_the_outside_change_nothing() {
    let mut rig = rig(Timing::default());
    rig.take();
    let step = rig.actor.handle(CoreMsg::ListBatches, rig.clock);
    assert!(step.effects.is_empty() && matches!(step.next, Next::ListBatches));
    let step = rig.actor.handle(CoreMsg::GetSimState, rig.clock);
    assert!(step.effects.is_empty() && matches!(step.next, Next::ReportState));
    rig.keying.arm(|p| p.forced_next = Some(ForcedOutcome::Permanent));
    assert_eq!(rig.state().forced_next.as_deref(), Some("permanent"));
    assert_eq!(rig.actor.sim_state(None).latency_ms, 0);
}

#[test]
fn pushes_rise_and_fresh_documents_are_current() {
    let mut rig = rig(Timing::default());
    rig.select("b1");
    rig.tap(ForcedOutcome::Keyed);
    rig.tap(ForcedOutcome::Recoverable);
    rig.send(CoreMsg::Blip { ms: 100 });
    rig.wait_ms(5_000);
    rig.send(CoreMsg::BeginEndShift);
    for _ in 0..4 {
        rig.send(CoreMsg::Tick);
        rig.wait_ms(1_000);
    }
    rig.send(CoreMsg::SwapBatch { id: None });
    let pushes = rig.take();
    assert!(pushes.len() > 6);
    assert!(pushes.windows(2).all(|w| w[0].seq < w[1].seq));
    let (seq, snapshot) = rig.boot.clone().unwrap();
    assert_eq!(seq, pushes.last().unwrap().seq);
    assert_eq!(Some(snapshot), pushes.last().unwrap().snapshot);
    rig.send(CoreMsg::BridgeAttached { adapter_seq: seq });
    assert!(rig.take().is_empty());
    assert_eq!(rig.state().stale_attaches, 0);
}
