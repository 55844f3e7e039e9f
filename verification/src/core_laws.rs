//! What each input does to the station core, said of what goes in and what
//! comes out.
//!
//! Every message and every result of outside work has a law here. It says
//! which facts change and to what, that all others stay, which effects there
//! are, in their order and with what in them, and what comes next.

use crate::actor::{CoreActor, CoreView, Move, Timing};
use crate::config::OverrunPolicy;
use crate::contract::{
    BatchInfo, BatchView, ConnectionState, CountsView, PayloadView, SnapshotView, TapVerdict, WireEvent,
};
use crate::keying::{
    KeyingOutcome, KeyingView, PresentationView, SimArming, SimPolicy, WallClock,
};
use crate::messages::{
    AttemptView, Clock, CoreMsg, EffectView, ErrorView, NextView, ReplyView, SimStateView, Step,
    TapAttempt,
};
use crate::state::{ShiftBeginKind, ShiftView, StationState, StationView};
use vstd::prelude::*;

verus! {

/// The effect writes the session of this state: the shift with its batch and
/// counts, if there are both, and whether an end of shift is pending.
pub open spec fn writes(effect: EffectView, s: StationView) -> bool {
    effect matches EffectView::Persist { session } && {
        &&& session.schema == 1
        &&& session.pending_end_shift == s.pending_end_shift
        &&& session.shift is Some <==> s.shift is Some && s.snapshot.current_batch is Some
        &&& session.shift matches Some(shift) ==> {
            &&& s.shift == Some(shift.meta)
            &&& s.snapshot.current_batch == Some(shift.batch)
            &&& s.snapshot.session_counts == shift.counts
        }
    }
}

/// The effects write this state and let fresh documents boot from it, and do
/// nothing else.
pub open spec fn saves(effects: Seq<EffectView>, s: StationView) -> bool {
    &&& effects.len() == 2
    &&& writes(effects[0], s)
    &&& effects[1] == EffectView::RefreshBoot { seq: s.seq, snapshot: s.snapshot }
}

/// The effects save this state, send this push behind it, and do nothing else.
pub open spec fn commits(effects: Seq<EffectView>, s: StationView, payload: PayloadView) -> bool {
    &&& effects.len() == 3
    &&& writes(effects[0], s)
    &&& effects[1] == EffectView::RefreshBoot { seq: s.seq, snapshot: s.snapshot }
    &&& effects[2] == EffectView::Push { payload }
}

/// The connection follows the three inputs of `after`, nothing else that the
/// page shows or the session file holds differs from `before`, and the page is
/// told of a flip and of nothing else. A line that comes back is caught up.
pub open spec fn settles(
    before: StationView,
    after: StationView,
    effects: Seq<EffectView>,
) -> bool {
    &&& after.snapshot.connection == ConnectionState::Connected <==> after.reader_present
        && after.downstream_ready && after.persist_ok
    &&& after.snapshot.current_batch == before.snapshot.current_batch
    &&& after.snapshot.session_counts == before.snapshot.session_counts
    &&& after.snapshot.config == before.snapshot.config
    &&& after.shift == before.shift
    &&& after.pending_end_shift == before.pending_end_shift
    &&& after.snapshot.connection == before.snapshot.connection ==> {
        &&& after.seq == before.seq
        &&& effects.len() == 0
    }
    &&& after.snapshot.connection != before.snapshot.connection ==> {
        &&& after.seq == before.seq + 1
        &&& commits(
            effects,
            after,
            PayloadView {
                seq: after.seq,
                snapshot: Some(after.snapshot),
                events: if after.snapshot.connection == ConnectionState::Connected {
                    seq![
                        WireEvent::Connection { state: ConnectionState::Connected },
                        WireEvent::Data,
                    ]
                } else {
                    seq![WireEvent::Connection { state: ConnectionState::Disconnected }]
                },
            },
        )
    }
}

/// Nobody waits for an answer.
pub open spec fn silent(next: NextView) -> bool {
    next == NextView::Done { reply: ReplyView::Silent }
}

/// The two differ in the station alone.
pub open spec fn rest_stays(before: CoreView, after: CoreView) -> bool {
    after == CoreView { station: after.station, ..before }
}

/// `ts` is the millisecond that the wall clock is in, as far as such a number
/// can hold it; zero on a clock that is set before the epoch.
pub open spec fn is_stamp(ts: u64, wall: WallClock) -> bool {
    match wall {
        Some(n) => n / 1_000_000 <= u64::MAX ==> ts * 1_000_000 <= n < (ts + 1) * 1_000_000,
        None => ts == 0,
    }
}

/// Since `since` the clock has gone on by `window_ms`. A window of no length is
/// always over.
pub open spec fn quiet_since(since: u64, clock: Clock, window_ms: u64) -> bool {
    window_ms == 0 || clock.mono_ns >= since + window_ms * 1_000_000
}

/// The failures of a chip that the session has counted.
pub open spec fn failures_so_far(core: CoreView, chip: Seq<char>) -> nat {
    if core.ledger.contains_key(chip) {
        core.ledger[chip] as nat
    } else {
        0
    }
}

/// What is asked of the outside on behalf of a page or the console changes
/// nothing here, and asks for exactly what the message names.
pub proof fn law_requests_are_passed_on(core: CoreView, msg: CoreMsg, clock: Clock)
    requires
        msg is ListBatches || msg is SelectBatch || msg is ApplyBatch || msg is SwapBatch
            || msg is GetSimState,
    ensures
        ({
            let m = core.handled(msg, clock);
            &&& m.after == core
            &&& m.effects.len() == 0
            &&& match msg {
                CoreMsg::ListBatches => m.next == NextView::ListBatches,
                CoreMsg::SelectBatch { id } => m.next == (NextView::FetchForBegin {
                    id: id@,
                    kind: ShiftBeginKind::Select,
                }),
                CoreMsg::ApplyBatch { id } => m.next == (NextView::FetchForBegin {
                    id: id@,
                    kind: ShiftBeginKind::Apply,
                }),
                CoreMsg::SwapBatch { id: Some(id) } => m.next == (NextView::FetchForSwap {
                    id: id@,
                }),
                CoreMsg::SwapBatch { id: None } => m.next == NextView::ListForSwap,
                _ => m.next == NextView::ReportState,
            }
        }),
{
}

/// A chip that is presented reaches the keying layer exactly where the line is
/// up, a batch is active and no total blocks: as it was read, at the time it
/// was read, and for that batch. Only an outcome that the tap itself forces is
/// armed. A tap that does not reach the keying layer does nothing at all.
pub proof fn law_a_tap_arms_what_it_forces_and_nothing_else(
    core: CoreView,
    msg: CoreMsg,
    clock: Clock,
)
    requires
        msg is CardPresented,
    ensures
        ({
            let m = core.handled(msg, clock);
            let batch = core.station.snapshot.current_batch;
            let taken = core.station.snapshot.connection == ConnectionState::Connected
                && batch is Some && !(core.overrun == OverrunPolicy::Block && batch->0.completed
                >= batch->0.total);
            &&& m.after == core
            &&& !taken ==> m.effects.len() == 0 && silent(m.next)
            &&& msg matches CoreMsg::CardPresented { reader_id, atr, forced } && {
                &&& forced is None ==> m.effects.len() == 0
                &&& taken ==> {
                    &&& m.next == (NextView::KeyChip {
                        attempt: AttemptView {
                            presentation: PresentationView {
                                reader_id: reader_id@,
                                at: clock.wall,
                                atr: atr@,
                            },
                            batch: batch->0,
                        },
                    })
                    &&& forced matches Some(outcome) ==> m.effects == seq![
                        EffectView::ArmSim { arming: SimArming::Force { outcome } },
                    ]
                }
            }
        }),
{
}

/// The reader comes or goes: the station knows, and the line is up or paused
/// accordingly.
pub proof fn law_the_line_follows_the_reader(core: CoreView, present: bool, clock: Clock)
    ensures
        ({
            let m = core.handled(CoreMsg::ReaderPresence { present }, clock);
            &&& m.after.station.reader_present == present
            &&& m.after.station.downstream_ready == core.station.downstream_ready
            &&& m.after.station.persist_ok == core.station.persist_ok
            &&& settles(core.station, m.after.station, m.effects)
            &&& rest_stays(core, m.after)
            &&& silent(m.next)
            &&& !present ==> m.after.station.snapshot.connection == ConnectionState::Disconnected
        }),
{
}

/// The keying layer reports whether it is ready: the simulated one is told so
/// first, the station knows, and the line is up or paused accordingly. A layer
/// that is down takes the line down, and a page that showed it up is told.
pub proof fn law_the_line_follows_the_keying_layer(core: CoreView, ready: bool, clock: Clock)
    ensures
        ({
            let m = core.handled(CoreMsg::SetDownstream { ready }, clock);
            &&& m.after.station.downstream_ready == ready
            &&& m.after.station.reader_present == core.station.reader_present
            &&& m.after.station.persist_ok == core.station.persist_ok
            &&& m.effects.len() >= 1
            &&& m.effects[0] == (EffectView::ArmSim { arming: SimArming::Ready { ready } })
            &&& settles(core.station, m.after.station, m.effects.skip(1))
            &&& rest_stays(core, m.after)
            &&& silent(m.next)
            &&& !ready ==> m.after.station.snapshot.connection == ConnectionState::Disconnected
            &&& !ready && core.station.snapshot.connection == ConnectionState::Connected ==> (
            m.effects.last() matches EffectView::Push { payload } && payload.events == seq![
                WireEvent::Connection { state: ConnectionState::Disconnected },
            ] && payload.snapshot == Some(m.after.station.snapshot))
        }),
{
    let m = core.handled(CoreMsg::SetDownstream { ready }, clock);
    assert(m.effects.skip(1) =~= core.inputs(None, Some(ready)).effects);
}

/// A blip takes the keying layer away until so many milliseconds from now.
pub proof fn law_a_blip_pauses_the_line_for_its_time(core: CoreView, ms: u64, clock: Clock)
    ensures
        ({
            let m = core.handled(CoreMsg::Blip { ms }, clock);
            &&& !m.after.station.downstream_ready
            &&& m.after.station.reader_present == core.station.reader_present
            &&& m.after.station.persist_ok == core.station.persist_ok
            &&& settles(core.station, m.after.station, m.effects)
            &&& m.after.blip_until matches Some(until) && until == clock.mono_ns + ms * 1_000_000
            &&& rest_stays(CoreView { blip_until: m.after.blip_until, ..core }, m.after)
            &&& silent(m.next)
        }),
{
    assert(clock.mono_ns + ms * 1_000_000 <= u128::MAX) by (nonlinear_arith)
        requires
            clock.mono_ns <= u64::MAX,
            ms <= u64::MAX,
    ;
}

/// The disk took a session or did not: the line is up or paused accordingly.
pub proof fn law_the_line_follows_the_disk(core: CoreView, ok: bool)
    ensures
        ({
            let m = core.settling(core.station.with_persist_ok(ok));
            &&& m.after.station.persist_ok == ok
            &&& m.after.station.reader_present == core.station.reader_present
            &&& m.after.station.downstream_ready == core.station.downstream_ready
            &&& settles(core.station, m.after.station, m.effects)
            &&& rest_stays(core, m.after)
            &&& silent(m.next)
            &&& !ok ==> m.after.station.snapshot.connection == ConnectionState::Disconnected
        }),
{
}

/// A document that pulls its boot state sets the boot clock and nothing else.
pub proof fn law_a_boot_pull_is_only_timed(core: CoreView, clock: Clock)
    ensures
        ({
            let m = core.handled(CoreMsg::BootPulled, clock);
            &&& m.after == (CoreView { last_boot_pull_at: clock.mono_ns, ..core })
            &&& m.effects.len() == 0
            &&& silent(m.next)
        }),
{
}

/// A page that booted behind the core gets one push of current truth, and
/// counts as stale. Any other gets nothing.
pub proof fn law_a_stale_page_is_caught_up(core: CoreView, adapter_seq: u64, clock: Clock)
    ensures
        ({
            let m = core.handled(CoreMsg::BridgeAttached { adapter_seq }, clock);
            &&& silent(m.next)
            &&& adapter_seq >= core.station.seq ==> m.after == core && m.effects.len() == 0
            &&& adapter_seq < core.station.seq ==> {
                let s = StationView { seq: core.station.seq + 1, ..core.station };
                &&& m.after == (CoreView {
                    station: s,
                    stale_attaches: core.stale_attaches + 1,
                    ..core
                })
                &&& commits(
                    m.effects,
                    s,
                    PayloadView {
                        seq: s.seq,
                        snapshot: Some(core.station.snapshot),
                        events: seq![WireEvent::Data],
                    },
                )
            }
        }),
{
}

/// The operator ends the shift: it is marked as ended, nothing is pending any
/// more, that much is saved, and the counts are the answer. What the page
/// shows stays.
pub proof fn law_the_operator_ends_the_shift(core: CoreView, clock: Clock)
    ensures
        ({
            let m = core.handled(CoreMsg::EndShiftCmd, clock);
            let s = m.after.station;
            &&& core.station.shift is None ==> s.shift is None
            &&& core.station.shift matches Some(shift) ==> s.shift == Some(
                ShiftView {
                    shift_id: shift.shift_id,
                    started_at_ms: shift.started_at_ms,
                    ended: true,
                },
            )
            &&& s == (StationView { shift: s.shift, pending_end_shift: false, ..core.station })
            &&& rest_stays(core, m.after)
            &&& saves(m.effects, s)
            &&& m.next == (NextView::Done {
                reply: ReplyView::Ended {
                    counts: core.station.snapshot.session_counts,
                    late: None,
                },
            })
        }),
{
}

/// The shell wants the shift ended: that is pending from now on, saved, and
/// counted from the start. The page is told nothing yet.
pub proof fn law_an_end_of_shift_is_armed(core: CoreView, clock: Clock)
    ensures
        ({
            let m = core.handled(CoreMsg::BeginEndShift, clock);
            let s = StationView { pending_end_shift: true, ..core.station };
            &&& m.after == (CoreView {
                station: s,
                end_shift_emits: 0,
                last_end_shift_emit: None,
                ..core
            })
            &&& saves(m.effects, s)
            &&& silent(m.next)
        }),
{
}

/// The demo reset takes shift, batch, counts, ladders and recorded progress,
/// saves that, and leaves the line and everything else as it is. The page is
/// told nothing.
pub proof fn law_the_demo_reset_takes_the_session(core: CoreView, clock: Clock)
    ensures
        ({
            let m = core.handled(CoreMsg::ResetDemo, clock);
            let s = StationView {
                snapshot: SnapshotView {
                    current_batch: None,
                    session_counts: CountsView { done: 0, failed: 0 },
                    ..core.station.snapshot
                },
                seq: core.station.seq + 1,
                shift: None,
                pending_end_shift: false,
                ..core.station
            };
            &&& m.after == (CoreView {
                station: s,
                ledger: Map::empty(),
                last_verdict_at: None,
                end_shift_emits: 0,
                ..core
            })
            &&& m.effects.len() == 3
            &&& m.effects[0] == EffectView::ResetBatches
            &&& saves(m.effects.skip(1), s)
            &&& m.next == (NextView::Done { reply: ReplyView::Accepted })
        }),
{
    let m = core.handled(CoreMsg::ResetDemo, clock);
    assert(m.effects.skip(1) =~= crate::actor::saved(core.station.cleared()));
}

/// The conformance reset makes a fresh, connected station of this one, with
/// its configuration and its running numbers, and a clean slate of both
/// simulated layers. The page is told nothing.
pub proof fn law_the_conformance_reset_starts_over(core: CoreView, clock: Clock)
    ensures
        ({
            let m = core.handled(CoreMsg::ConformanceReset, clock);
            let s = StationView {
                snapshot: SnapshotView {
                    connection: ConnectionState::Connected,
                    current_batch: None,
                    session_counts: CountsView { done: 0, failed: 0 },
                    config: core.station.snapshot.config,
                },
                seq: core.station.seq + 1,
                reader_present: true,
                downstream_ready: true,
                persist_ok: true,
                shift: None,
                pending_end_shift: false,
            };
            &&& m.after == (CoreView {
                station: s,
                ledger: Map::empty(),
                last_verdict_at: None,
                end_shift_emits: 0,
                ..core
            })
            &&& m.effects.len() == 4
            &&& m.effects[0] == EffectView::ResetBatches
            &&& m.effects[1] == (EffectView::ArmSim { arming: SimArming::Reset })
            &&& saves(m.effects.skip(2), s)
            &&& m.next == (NextView::Done { reply: ReplyView::Accepted })
        }),
{
    let m = core.handled(CoreMsg::ConformanceReset, clock);
    assert(m.effects.skip(2) =~= crate::actor::saved(core.conformance_state()));
}

/// A shift begins on a batch: under its id, stamped with the time, with zero
/// counts and every ladder at its foot. The change is committed, and answered
/// to whoever selected the batch.
pub proof fn law_a_shift_begins_from_zero(
    core: CoreView,
    batch: BatchView,
    kind: ShiftBeginKind,
    shift_id: Seq<char>,
    clock: Clock,
)
    ensures
        ({
            let m = core.beginning(batch, kind, shift_id, clock);
            let s = m.after.station;
            let payload = PayloadView {
                seq: core.station.seq + 1,
                snapshot: Some(s.snapshot),
                events: if kind == ShiftBeginKind::Select {
                    seq![WireEvent::Data]
                } else {
                    seq![WireEvent::ApplyBatch]
                },
            };
            &&& s.shift matches Some(shift) && shift.shift_id == shift_id && !shift.ended
                && is_stamp(shift.started_at_ms, clock.wall)
            &&& s == (StationView {
                snapshot: SnapshotView {
                    current_batch: Some(batch),
                    session_counts: CountsView { done: 0, failed: 0 },
                    ..core.station.snapshot
                },
                seq: core.station.seq + 1,
                shift: s.shift,
                pending_end_shift: false,
                ..core.station
            })
            &&& m.after == (CoreView {
                station: s,
                ledger: Map::empty(),
                end_shift_emits: 0,
                ..core
            })
            &&& commits(m.effects, s, payload)
            &&& m.next == (NextView::Done {
                reply: if kind == ShiftBeginKind::Select {
                    ReplyView::Began { payload }
                } else {
                    ReplyView::Accepted
                },
            })
        }),
{
}

/// Another batch in the same shift: the batch is all that changes, and the
/// change is committed.
pub proof fn law_a_swap_changes_the_batch_alone(core: CoreView, batch: BatchView)
    ensures
        ({
            let m = core.swapping(batch);
            let s = StationView {
                snapshot: SnapshotView { current_batch: Some(batch), ..core.station.snapshot },
                seq: core.station.seq + 1,
                ..core.station
            };
            &&& m.after == (CoreView { station: s, ..core })
            &&& commits(
                m.effects,
                s,
                PayloadView {
                    seq: s.seq,
                    snapshot: Some(s.snapshot),
                    events: seq![WireEvent::Data],
                },
            )
            &&& m.next == (NextView::Done { reply: ReplyView::Accepted })
        }),
{
}

/// A swap without a target goes to the first listed batch that is not the
/// active one, whatever stands behind it; with no active batch that is the
/// first of all. It is refused, and changes nothing, only where there is none.
pub proof fn law_a_blind_swap_takes_the_first_other(core: CoreView, batches: Seq<BatchView>, i: int)
    requires
        0 <= i <= batches.len(),
        forall|j: int|
            0 <= j < i ==> (core.station.snapshot.current_batch matches Some(b) && (
            #[trigger] batches[j]).id == b.id),
        i < batches.len() ==> !(core.station.snapshot.current_batch matches Some(b)
            && batches[i].id == b.id),
    ensures
        ({
            let m = core.swap_from_list(batches);
            &&& i < batches.len() ==> {
                &&& m.after.station.snapshot.current_batch == Some(batches[i])
                &&& m == core.swapping(batches[i])
            }
            &&& i == batches.len() ==> {
                &&& m.after == core
                &&& m.effects.len() == 0
                &&& m.next == (NextView::Done {
                    reply: ReplyView::Refused { error: ErrorView::NoOtherBatch },
                })
            }
        }),
{
    let current = match core.station.snapshot.current_batch {
        Some(b) => Some(b.id),
        None => None,
    };
    lemma_first_other_at(batches, current, i);
}

proof fn lemma_first_other_at(batches: Seq<BatchView>, current: Option<Seq<char>>, i: int)
    requires
        0 <= i <= batches.len(),
        forall|j: int| 0 <= j < i ==> Some((#[trigger] batches[j]).id) == current,
        i < batches.len() ==> Some(batches[i].id) != current,
    ensures
        crate::actor::first_other(batches, current) == (if i < batches.len() {
            Some(batches[i])
        } else {
            None
        }),
    decreases batches.len(),
{
    if batches.len() > 0 && i > 0 {
        let rest = batches.skip(1);
        assert(Some(batches[0].id) == current);
        assert forall|j: int| 0 <= j < i - 1 implies Some((#[trigger] rest[j]).id) == current by {
            assert(rest[j] == batches[j + 1]);
        }
        lemma_first_other_at(rest, current, i - 1);
    }
}

/// The record of a failed attempt: the time, the chip, the class, what is
/// ruled, which attempt of the chip it was, and the reader, batch and shift.
pub open spec fn tells_of_failure(
    effect: EffectView,
    core: CoreView,
    attempt: AttemptView,
    class: Seq<char>,
    chip: Seq<char>,
    verdict: Seq<char>,
    escalated: bool,
    clock: Clock,
) -> bool {
    effect matches EffectView::AppendFailure { failure } && {
        &&& is_stamp(failure.ts, clock.wall)
        &&& failure.chip_ref == chip
        &&& failure.class == class
        &&& failure.verdict == verdict
        &&& failure.attempt == failures_so_far(core, chip) + 1
        &&& failure.escalated == escalated
        &&& failure.reader_id == attempt.presentation.reader_id
        &&& failure.batch_id == attempt.batch.id
        &&& core.station.shift matches Some(shift) ==> failure.shift_id == shift.shift_id
        &&& core.station.shift is None ==> failure.shift_id.len() == 0
    }
}

/// A keyed chip: its ladder is closed, a success is recorded against the batch
/// it was presented for, and a batch that was at or past its total leaves an
/// overrun record that says so.
pub proof fn law_a_keyed_chip_is_a_success(
    core: CoreView,
    attempt: AttemptView,
    chip: Seq<char>,
    clock: Clock,
)
    ensures
        ({
            let m = core.keyed(attempt, KeyingView::Keyed { chip }, clock);
            &&& m.after == (CoreView { ledger: core.ledger.remove(chip), ..core })
            &&& m.next == (NextView::RecordOutcome {
                batch_id: attempt.batch.id,
                verdict: TapVerdict::Success,
            })
            &&& attempt.batch.completed < attempt.batch.total ==> m.effects.len() == 0
            &&& attempt.batch.completed >= attempt.batch.total ==> {
                &&& m.effects.len() == 1
                &&& m.effects[0] matches EffectView::AppendOverrun { overrun } && {
                    &&& is_stamp(overrun.ts, clock.wall)
                    &&& overrun.chip_ref == chip
                    &&& overrun.reader_id == attempt.presentation.reader_id
                    &&& overrun.batch_id == attempt.batch.id
                    &&& overrun.total == attempt.batch.total
                    &&& overrun.completed == attempt.batch.completed
                    &&& core.station.shift matches Some(shift) ==> overrun.shift_id
                        == shift.shift_id
                    &&& core.station.shift is None ==> overrun.shift_id.len() == 0
                }
            }
        }),
{
    reveal_strlit("");
}

/// A recoverable failure of a chip that has failed less than twice in a row
/// climbs its ladder and is a retry: announced at once, with neither snapshot
/// nor counts moved, and left in a record.
pub proof fn law_a_recoverable_failure_is_a_retry(
    core: CoreView,
    attempt: AttemptView,
    class: Seq<char>,
    chip: Seq<char>,
    clock: Clock,
)
    requires
        failures_so_far(core, chip) < 2,
    ensures
        ({
            let m = core.keyed(attempt, KeyingView::Recoverable { class, chip }, clock);
            let s = StationView { seq: core.station.seq + 1, ..core.station };
            &&& m.after == (CoreView {
                station: s,
                ledger: core.ledger.insert(chip, (failures_so_far(core, chip) + 1) as u8),
                last_verdict_at: Some(clock.mono_ns),
                ..core
            })
            &&& m.effects.len() == 4
            &&& tells_of_failure(m.effects[0], core, attempt, class, chip, "retry"@, false, clock)
            &&& commits(
                m.effects.skip(1),
                s,
                PayloadView {
                    seq: s.seq,
                    snapshot: None,
                    events: seq![WireEvent::TapResult { result: TapVerdict::Retry }],
                },
            )
            &&& silent(m.next)
        }),
{
    reveal_strlit("");
    let m = core.keyed(attempt, KeyingView::Recoverable { class, chip }, clock);
    assert(m.effects.skip(1) =~= crate::actor::committed(
        core.station.ruled(TapVerdict::Retry, None),
        core.station.ruling_push(TapVerdict::Retry, None),
    ));
}

/// A recoverable failure of a chip that has already failed twice in a row is
/// dead: its ladder is closed, the record says that it escalated, and dead is
/// recorded against the batch.
pub proof fn law_a_third_failure_escalates(
    core: CoreView,
    attempt: AttemptView,
    class: Seq<char>,
    chip: Seq<char>,
    clock: Clock,
)
    requires
        2 <= failures_so_far(core, chip) < u8::MAX,
    ensures
        ({
            let m = core.keyed(attempt, KeyingView::Recoverable { class, chip }, clock);
            &&& m.after == (CoreView { ledger: core.ledger.remove(chip), ..core })
            &&& m.effects.len() == 1
            &&& tells_of_failure(m.effects[0], core, attempt, class, chip, "dead"@, true, clock)
            &&& m.next == (NextView::RecordOutcome {
                batch_id: attempt.batch.id,
                verdict: TapVerdict::Dead,
            })
        }),
{
    reveal_strlit("");
}

/// A chip that is beyond use is dead at once, whatever its ladder was.
pub proof fn law_a_permanent_failure_is_dead_at_once(
    core: CoreView,
    attempt: AttemptView,
    class: Seq<char>,
    chip: Seq<char>,
    clock: Clock,
)
    requires
        failures_so_far(core, chip) < u8::MAX,
    ensures
        ({
            let m = core.keyed(attempt, KeyingView::Permanent { class, chip }, clock);
            &&& m.after == (CoreView { ledger: core.ledger.remove(chip), ..core })
            &&& m.effects.len() == 1
            &&& tells_of_failure(m.effects[0], core, attempt, class, chip, "dead"@, false, clock)
            &&& m.next == (NextView::RecordOutcome {
                batch_id: attempt.batch.id,
                verdict: TapVerdict::Dead,
            })
        }),
{
    reveal_strlit("");
}

/// A keying layer that was not ready takes the line down and does nothing
/// else.
pub proof fn law_an_unready_layer_pauses_the_line(
    core: CoreView,
    attempt: AttemptView,
    clock: Clock,
)
    ensures
        ({
            let m = core.keyed(attempt, KeyingView::NotReady, clock);
            &&& !m.after.station.downstream_ready
            &&& m.after.station.reader_present == core.station.reader_present
            &&& m.after.station.persist_ok == core.station.persist_ok
            &&& settles(core.station, m.after.station, m.effects)
            &&& rest_stays(core, m.after)
            &&& silent(m.next)
        }),
{
}

/// A success or a dead chip is counted once, in the number it is about, takes
/// over the batch as the source has it now, if it has, and is committed with
/// the result first and the catch-up behind it.
pub proof fn law_a_counted_tap_moves_its_number(
    core: CoreView,
    verdict: TapVerdict,
    recorded: Option<BatchView>,
    clock: Clock,
)
    requires
        verdict != TapVerdict::Retry,
    ensures
        ({
            let m = core.ruled(verdict, recorded, clock);
            let before = core.station.snapshot;
            let s = StationView {
                snapshot: SnapshotView {
                    current_batch: if recorded is Some {
                        recorded
                    } else {
                        before.current_batch
                    },
                    session_counts: if verdict == TapVerdict::Success {
                        CountsView {
                            done: before.session_counts.done + 1,
                            failed: before.session_counts.failed,
                        }
                    } else {
                        CountsView {
                            done: before.session_counts.done,
                            failed: before.session_counts.failed + 1,
                        }
                    },
                    ..before
                },
                seq: core.station.seq + 1,
                ..core.station
            };
            &&& m.after == (CoreView {
                station: s,
                last_verdict_at: Some(clock.mono_ns),
                ..core
            })
            &&& commits(
                m.effects,
                s,
                PayloadView {
                    seq: s.seq,
                    snapshot: Some(s.snapshot),
                    events: seq![WireEvent::TapResult { result: verdict }, WireEvent::Data],
                },
            )
            &&& silent(m.next)
        }),
{
}

/// A request that is turned down changes nothing and says why.
pub proof fn law_a_refusal_says_why(core: CoreView, error: ErrorView)
    ensures
        core.refusing(error).after == core,
        core.refusing(error).effects.len() == 0,
        core.refusing(error).next == (NextView::Done { reply: ReplyView::Refused { error } }),
{
}

/// The blip of this core is over at that time.
pub open spec fn blip_ends(core: CoreView, clock: Clock) -> bool {
    core.blip_until matches Some(until) && clock.mono_ns >= until
}

/// How many effects the end of a blip has: the simulated layer is told, and a
/// line that comes up is committed.
pub open spec fn blip_effects(core: CoreView, clock: Clock) -> int {
    if !blip_ends(core, clock) {
        0
    } else if core.station.snapshot.connection == ConnectionState::Disconnected
        && core.station.reader_present && core.station.persist_ok {
        4
    } else {
        1
    }
}

/// An end of shift may be sent by this core at that time: one is pending, this
/// is no conformance run, and each of the three quiet times is over.
pub open spec fn end_of_shift_due(core: CoreView, clock: Clock) -> bool {
    &&& core.station.pending_end_shift
    &&& !core.conformance
    &&& core.last_verdict_at matches Some(at) ==> quiet_since(
        at,
        clock,
        core.timing.verdict_quiet_ms,
    )
    &&& quiet_since(core.last_boot_pull_at, clock, core.timing.boot_quiet_ms)
    &&& core.last_end_shift_emit matches Some(at) ==> quiet_since(
        at,
        clock,
        core.timing.emit_spacing_ms,
    )
}

/// A tick ends a blip that is over, and nothing else touches the line: the
/// keying layer is back, the simulated one is told so, and a page is told of a
/// line that comes up.
pub proof fn law_a_tick_ends_a_blip_in_time(core: CoreView, clock: Clock)
    requires
        core.wf(),
    ensures
        ({
            let m = core.ticked(clock);
            let after = m.after.station;
            let n = blip_effects(core, clock);
            &&& after.reader_present == core.station.reader_present
            &&& after.persist_ok == core.station.persist_ok
            &&& m.effects.len() >= n
            &&& !blip_ends(core, clock) ==> {
                &&& after.downstream_ready == core.station.downstream_ready
                &&& after.snapshot == core.station.snapshot
                &&& m.after.blip_until == core.blip_until
            }
            &&& blip_ends(core, clock) ==> {
                &&& after.downstream_ready
                &&& m.after.blip_until is None
                &&& m.effects[0] == (EffectView::ArmSim {
                    arming: SimArming::Ready { ready: true },
                })
                &&& settles(
                    core.station,
                    StationView {
                        seq: core.station.seq + (if n == 4 {
                            1nat
                        } else {
                            0
                        }),
                        shift: core.station.shift,
                        pending_end_shift: core.station.pending_end_shift,
                        ..after
                    },
                    m.effects.subrange(1, n),
                )
            }
        }),
{
    let first = core.blip_tick(clock);
    let m = core.ticked(clock);
    let n = blip_effects(core, clock);
    assert(first.effects.len() == n);
    assert(m.effects.take(n) =~= first.effects);
    if blip_ends(core, clock) {
        let rest = CoreView { blip_until: None, ..core };
        assert(m.effects.subrange(1, n) =~= rest.inputs(None, Some(true)).effects);
        assert(m.effects[0] == first.effects[0]);
    }
}

/// What a tick does behind the end of a blip. While the disk fails, the
/// session is written again and nothing is sent. Otherwise a due end of shift
/// is sent if the line is up: an announcement of its own under the next number,
/// saved before. The second one ends the shift, and that is saved too. In all
/// other cases nothing happens.
pub proof fn law_a_tick_sends_a_due_end_of_shift(core: CoreView, clock: Clock)
    requires
        core.wf(),
    ensures
        ({
            let m = core.ticked(clock);
            let after = m.after.station;
            let n = blip_effects(core, clock);
            let rest = m.effects.skip(n);
            let seq = core.station.seq + (if n == 4 {
                1nat
            } else {
                0
            });
            let sent = core.station.persist_ok && after.snapshot.connection
                == ConnectionState::Connected && end_of_shift_due(core, clock);
            let last = sent && core.end_shift_emits >= 1;
            let announced = StationView {
                seq: seq + 1,
                shift: core.station.shift,
                pending_end_shift: true,
                ..after
            };
            &&& core.handled(CoreMsg::Tick, clock) == m
            &&& m.effects.len() >= n
            &&& silent(m.next)
            &&& m.after == (CoreView {
                station: after,
                blip_until: m.after.blip_until,
                last_end_shift_emit: if sent {
                    Some(clock.mono_ns)
                } else {
                    core.last_end_shift_emit
                },
                end_shift_emits: m.after.end_shift_emits,
                ..core
            })
            &&& m.after.end_shift_emits == core.end_shift_emits + (if sent {
                1int
            } else {
                0
            })
            &&& after.seq == (if sent {
                seq + 1
            } else {
                seq
            })
            &&& !last ==> after.shift == core.station.shift && after.pending_end_shift
                == core.station.pending_end_shift
            &&& !core.station.persist_ok ==> saves(rest, after)
            &&& core.station.persist_ok && !sent ==> rest.len() == 0
            &&& sent ==> {
                &&& rest.len() >= 3
                &&& commits(
                    rest.take(3),
                    announced,
                    PayloadView {
                        seq: seq + 1,
                        snapshot: None,
                        events: seq![WireEvent::EndShift],
                    },
                )
            }
            &&& sent && !last ==> rest.len() == 3
            &&& last ==> {
                &&& saves(rest.skip(3), after)
                &&& !after.pending_end_shift
                &&& core.station.shift is None ==> after.shift is None
                &&& core.station.shift matches Some(shift) ==> after.shift == Some(
                    ShiftView {
                        shift_id: shift.shift_id,
                        started_at_ms: shift.started_at_ms,
                        ended: true,
                    },
                )
            }
        }),
{
    let first = core.blip_tick(clock);
    let mid = first.after;
    let second = mid.end_shift_tick(clock);
    let m = core.ticked(clock);
    let n = blip_effects(core, clock);
    assert(first.effects.len() == n);
    assert(m.effects.skip(n) =~= second.effects);
    assert(mid.wf());
    assert(mid.deliverable(clock) <==> mid.station.snapshot.connection
        == ConnectionState::Connected && quiet_since(
        mid.last_boot_pull_at,
        clock,
        mid.timing.boot_quiet_ms,
    ) && (mid.last_verdict_at matches Some(at) ==> quiet_since(
        at,
        clock,
        mid.timing.verdict_quiet_ms,
    )) && (mid.last_end_shift_emit matches Some(at) ==> quiet_since(
        at,
        clock,
        mid.timing.emit_spacing_ms,
    )));
    let s = mid.station.stamped();
    let payload = s.announcing(false, seq![WireEvent::EndShift]);
    if mid.station.persist_ok && mid.emits_end_shift(clock) {
        assert(second.effects.take(3) =~= crate::actor::committed(s, payload));
        if core.end_shift_emits >= 1 {
            assert(second.effects.skip(3) =~= crate::actor::saved(s.shift_ended()));
        }
    }
}

/// The page is never sent an end of shift that it cannot take: whenever a tick
/// sends one, the line is up, no verdict has been given, no document has booted
/// and no other end of shift has been sent for as long as the timing asks.
pub proof fn law_no_end_of_shift_reaches_a_blocked_page(core: CoreView, clock: Clock)
    requires
        core.wf(),
        crate::shift_laws::sends_end_shift(core.ticked(clock).effects),
    ensures
        core.ticked(clock).after.station.snapshot.connection == ConnectionState::Connected,
        core.station.reader_present && core.station.persist_ok,
        core.station.downstream_ready || blip_ends(core, clock),
        end_of_shift_due(core, clock),
{
    law_a_tick_sends_a_due_end_of_shift(core, clock);
    law_a_tick_ends_a_blip_in_time(core, clock);
    let m = core.ticked(clock);
    let n = blip_effects(core, clock);
    let i = choose|i: int|
        0 <= i < m.effects.len() && (#[trigger] m.effects[i] matches EffectView::Push { payload }
            && payload.events.contains(WireEvent::EndShift));
    if i < n {
        assert(m.effects[i] == m.effects.subrange(1, n)[i - 1]);
    } else {
        assert(m.effects[i] == m.effects.skip(n)[i - n]);
    }
}

/// Records of one instant carry one time, whatever they are about, and a later
/// instant never an earlier time.
pub proof fn law_time_stamps_do_not_go_back(
    core: CoreView,
    batch: BatchView,
    kind: ShiftBeginKind,
    shift_id: Seq<char>,
    attempt: AttemptView,
    class: Seq<char>,
    chip: Seq<char>,
    earlier: Clock,
    later: Clock,
)
    requires
        earlier.wall matches Some(a) && later.wall matches Some(b) && a <= b && b / 1_000_000
            <= u64::MAX,
    ensures
        ({
            let begun = core.beginning(batch, kind, shift_id, earlier).after.station.shift->0;
            let failed = core.keyed(
                attempt,
                KeyingView::Permanent { class, chip },
                later,
            ).effects[0]->failure;
            &&& begun.started_at_ms <= failed.ts
            &&& earlier.wall == later.wall ==> begun.started_at_ms == failed.ts
        }),
{
}

/// The actor's methods make the moves that these laws are about: the state
/// after a call is the move's, and the step is its effects and what comes next.
pub proof fn law_the_actor_makes_these_moves(
    msg: CoreMsg,
    clock: Clock,
    attempt: TapAttempt,
    outcome: KeyingOutcome,
    verdict: TapVerdict,
    recorded: Option<BatchInfo>,
    ok: bool,
)
    ensures
        forall|actor: &mut CoreActor, step: Step| #[trigger]
            call_ensures(CoreActor::handle, (actor, msg, clock), step) ==> made(
                (*actor)@.handled(msg, clock),
                (*final(actor))@,
                step,
            ),
        forall|actor: &mut CoreActor, step: Step| #[trigger]
            call_ensures(CoreActor::on_tick, (actor, clock), step) ==> made(
                (*actor)@.handled(CoreMsg::Tick, clock),
                (*final(actor))@,
                step,
            ),
        forall|actor: &mut CoreActor, step: Step| #[trigger]
            call_ensures(CoreActor::chip_keyed, (actor, attempt, outcome, clock), step) ==> made(
                (*actor)@.keyed(attempt@, outcome@, clock),
                (*final(actor))@,
                step,
            ),
        forall|actor: &mut CoreActor, step: Step| #[trigger]
            call_ensures(
                CoreActor::outcome_recorded,
                (actor, verdict, recorded, clock),
                step,
            ) ==> made(
                (*actor)@.ruled(verdict, recorded.deep_view(), clock),
                (*final(actor))@,
                step,
            ),
        forall|actor: &mut CoreActor, step: Step| #[trigger]
            call_ensures(CoreActor::persisted, (actor, ok), step) ==> made(
                (*actor)@.settling((*actor)@.station.with_persist_ok(ok)),
                (*final(actor))@,
                step,
            ),
{
}

/// The call made this move.
pub open spec fn made(m: Move, after: CoreView, step: Step) -> bool {
    &&& after == m.after
    &&& step.effects.deep_view() == m.effects
    &&& step.next@ == m.next
}

/// What a batch source answers decides a request: a batch that it has is begun
/// on or swapped to, one that it does not have is refused by its id, and a
/// source that fails is refused with what it said. The id of a shift that is
/// begun is a random one.
pub proof fn law_an_answer_decides_a_request(
    id: String,
    kind: ShiftBeginKind,
    fetched: Result<Option<BatchInfo>, String>,
    listed: Result<Vec<BatchInfo>, String>,
    clock: Clock,
)
    ensures
        forall|actor: &mut CoreActor, step: Step| #[trigger]
            call_ensures(CoreActor::begin_fetched, (actor, id, kind, fetched, clock), step) ==> {
                let core = (*actor)@;
                let after = (*final(actor))@;
                match fetched {
                    Ok(Some(batch)) => after.station.shift matches Some(shift)
                        && crate::outside::is_random_uuid(shift.shift_id) && made(
                        core.beginning(batch@, kind, shift.shift_id, clock),
                        after,
                        step,
                    ),
                    Ok(None) => refuses(core, after, step, ErrorView::UnknownBatch { id: id@ }),
                    Err(message) => refuses(
                        core,
                        after,
                        step,
                        ErrorView::Source { message: message@ },
                    ),
                }
            },
        forall|actor: &mut CoreActor, step: Step| #[trigger]
            call_ensures(CoreActor::swap_fetched, (actor, id, fetched), step) ==> {
                let core = (*actor)@;
                let after = (*final(actor))@;
                match fetched {
                    Ok(Some(batch)) => made(core.swapping(batch@), after, step),
                    Ok(None) => refuses(core, after, step, ErrorView::UnknownBatch { id: id@ }),
                    Err(message) => refuses(
                        core,
                        after,
                        step,
                        ErrorView::Source { message: message@ },
                    ),
                }
            },
        forall|actor: &mut CoreActor, step: Step| #[trigger]
            call_ensures(CoreActor::swap_listed, (actor, listed), step) ==> {
                let core = (*actor)@;
                let after = (*final(actor))@;
                match listed {
                    Ok(batches) => made(core.swap_from_list(batches.deep_view()), after, step),
                    Err(message) => refuses(
                        core,
                        after,
                        step,
                        ErrorView::Source { message: message@ },
                    ),
                }
            },
{
}

/// Nothing changed, nothing is done, and the answer says why.
pub open spec fn refuses(before: CoreView, after: CoreView, step: Step, error: ErrorView) -> bool {
    &&& after == before
    &&& step.effects.deep_view().len() == 0
    &&& step.next@ == NextView::Done { reply: ReplyView::Refused { error } }
}

/// A core starts with an empty ledger and nothing timed but the boot, knows of
/// the keying layer whether it is ready, shows the connection that follows from
/// its inputs, and lets documents boot from that. It pushes and writes nothing.
pub proof fn law_a_core_starts_quietly(
    state: StationState,
    timing: Timing,
    conformance: bool,
    overrun: OverrunPolicy,
    keying_ready: bool,
    clock: Clock,
    started: (CoreActor, Step),
)
    requires
        call_ensures(
            CoreActor::new,
            (state, timing, conformance, overrun, keying_ready, clock),
            started,
        ),
    ensures
        ({
            let core = started.0@;
            let s = core.station;
            &&& s.downstream_ready == keying_ready
            &&& s.reader_present == state@.reader_present && s.persist_ok == state@.persist_ok
            &&& s.snapshot.connection == ConnectionState::Connected <==> s.reader_present
                && s.downstream_ready && s.persist_ok
            &&& s.snapshot.current_batch == state@.snapshot.current_batch
            &&& s.snapshot.session_counts == state@.snapshot.session_counts
            &&& s.snapshot.config == state@.snapshot.config
            &&& s.shift == state@.shift && s.pending_end_shift == state@.pending_end_shift
            &&& core.ledger == Map::<Seq<char>, u8>::empty()
            &&& core.timing == timing && core.conformance == conformance && core.overrun == overrun
            &&& core.last_verdict_at is None && core.last_end_shift_emit is None
            &&& core.last_boot_pull_at == clock.mono_ns
            &&& core.end_shift_emits == 0 && core.blip_until is None && core.stale_attaches == 0
            &&& started.1.effects.deep_view() == seq![
                EffectView::RefreshBoot { seq: s.seq, snapshot: s.snapshot },
            ]
            &&& silent(started.1.next@)
        }),
{
}

/// The console sees the station as it is.
pub proof fn law_the_console_sees_the_station(
    actor: &CoreActor,
    policy: Option<SimPolicy>,
    view: SimStateView,
)
    requires
        call_ensures(CoreActor::sim_state, (actor, policy), view),
    ensures
        ({
            let s = actor@.station;
            &&& view.connection@ == "connected"@ <==> s.snapshot.connection
                == ConnectionState::Connected
            &&& view.reader_present == s.reader_present
            &&& view.downstream_ready == s.downstream_ready
            &&& view.batch_name is Some <==> s.snapshot.current_batch is Some
            &&& view.batch_name matches Some(name) ==> name@ == s.snapshot.current_batch->0.name
            &&& view.counts@ == s.snapshot.session_counts
            &&& view.pending_end_shift == s.pending_end_shift
            &&& view.seq == s.seq
            &&& view.stale_attaches == actor@.stale_attaches
            &&& policy matches Some(p) ==> view.latency_ms == p.latency_ms && view.sticky_chip
                == p.sticky_chip && (view.forced_next is Some <==> p.forced_next is Some)
            &&& policy is None ==> view.latency_ms == 0 && view.sticky_chip is None
                && view.forced_next is None
        }),
{
    reveal_strlit("connected");
    reveal_strlit("disconnected");
    assert("connected"@.len() != "disconnected"@.len());
}

/// The usual timing: an end of shift waits 2.6 seconds after a verdict, three
/// after a boot and one after another, and the core looks four times a second.
pub proof fn law_the_usual_timing(timing: Timing)
    requires
        call_ensures(Timing::default, (), timing),
    ensures
        timing.verdict_quiet_ms == 2600,
        timing.boot_quiet_ms == 3000,
        timing.emit_spacing_ms == 1000,
        timing.tick_ms == 250,
{
}

/// There is room for a move exactly if two more numbers are left, and a tap can
/// be counted exactly if the number that it moves can still grow.
pub proof fn law_room_is_left_until_a_number_is_full(
    actor: &CoreActor,
    verdict: TapVerdict,
    room: bool,
    can: bool,
)
    requires
        call_ensures(CoreActor::has_room, (actor,), room),
        call_ensures(CoreActor::can_count, (actor, verdict), can),
        actor@.station.snapshot.session_counts.done <= u32::MAX,
        actor@.station.snapshot.session_counts.failed <= u32::MAX,
    ensures
        room <==> actor@.station.seq <= 0xffff_ffff_ffff_fffd,
        can <==> !(verdict == TapVerdict::Success
            && actor@.station.snapshot.session_counts.done == 0xffff_ffff) && !(verdict
            == TapVerdict::Dead && actor@.station.snapshot.session_counts.failed == 0xffff_ffff),
{
}

/// A retry that is ruled on moves no count and no batch, whatever came back: it
/// is announced under the next number, without the snapshot.
pub proof fn law_a_retry_is_only_announced(
    core: CoreView,
    recorded: Option<BatchView>,
    clock: Clock,
)
    ensures
        ({
            let m = core.ruled(TapVerdict::Retry, recorded, clock);
            let s = StationView { seq: core.station.seq + 1, ..core.station };
            &&& m.after == (CoreView {
                station: s,
                last_verdict_at: Some(clock.mono_ns),
                ..core
            })
            &&& commits(
                m.effects,
                s,
                PayloadView {
                    seq: s.seq,
                    snapshot: None,
                    events: seq![WireEvent::TapResult { result: TapVerdict::Retry }],
                },
            )
            &&& silent(m.next)
        }),
{
}

}
