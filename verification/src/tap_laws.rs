//! What the station core promises about taps.
//!
//! The outcome of a keying attempt becomes a verdict, a ledger entry and a
//! record; here the rules of that are stated over the moves of `CoreView`.

use crate::actor::CoreView;
use crate::config::OverrunPolicy;
use crate::contract::{BatchView, TapVerdict, WireEvent};
use crate::keying::{ForcedOutcome, KeyingView, PresentationView};
use crate::messages::{AttemptView, Clock, EffectView, NextView, ReplyView};
use crate::retry::ESCALATION_THRESHOLD;
use crate::state::ShiftBeginKind;
use vstd::prelude::*;

verus! {

/// The announcement that a move makes of a tap, if it makes one.
pub open spec fn announces(effects: Seq<EffectView>, verdict: TapVerdict) -> bool {
    exists|i: int|
        0 <= i < effects.len() && (#[trigger] effects[i] matches EffectView::Push { payload }
            && payload.events.contains(WireEvent::TapResult { result: verdict }))
}

/// A recoverable failure of a chip that is below the threshold is announced as
/// a retry at once, and counts nowhere but in the ledger. At the threshold the
/// chip is dead, and its entry is closed.
pub proof fn law_the_third_recoverable_failure_is_dead(
    core: CoreView,
    attempt: AttemptView,
    class: Seq<char>,
    chip: Seq<char>,
    clock: Clock,
)
    requires
        core.wf(),
    ensures
        ({
            let n = crate::retry::attempts_of(core.ledger, chip);
            let m = core.keyed(attempt, KeyingView::Recoverable { class, chip }, clock);
            &&& n <= 2
            &&& n < 2 ==> {
                &&& crate::retry::attempts_of(m.after.ledger, chip) == n + 1
                &&& m.next == NextView::Done { reply: ReplyView::Silent }
                &&& announces(m.effects, TapVerdict::Retry)
                &&& m.after.station == core.station.stamped()
            }
            &&& n == 2 ==> {
                &&& crate::retry::attempts_of(m.after.ledger, chip) == 0
                &&& m.next == NextView::RecordOutcome {
                    batch_id: attempt.batch.id,
                    verdict: TapVerdict::Dead,
                }
                &&& m.after.station == core.station
            }
        }),
{
    let n = crate::retry::attempts_of(core.ledger, chip);
    let m = core.keyed(attempt, KeyingView::Recoverable { class, chip }, clock);
    assert(core.ledger.contains_key(chip) ==> 1 <= core.ledger[chip] < ESCALATION_THRESHOLD);
    if n < 2 {
        let payload = core.station.ruling_push(TapVerdict::Retry, None);
        assert(payload.events[0] == WireEvent::TapResult { result: TapVerdict::Retry });
        assert(m.effects[3] == EffectView::Push { payload });
    }
}

/// Three recoverable failures in a row of one chip that the session has not
/// seen fail: retry, retry, dead.
pub proof fn law_retry_retry_dead(
    core: CoreView,
    attempt: AttemptView,
    class: Seq<char>,
    chip: Seq<char>,
    clock: Clock,
)
    requires
        core.wf(),
        !core.ledger.contains_key(chip),
    ensures
        ({
            let failure = KeyingView::Recoverable { class, chip };
            let one = core.keyed(attempt, failure, clock);
            let two = one.after.keyed(attempt, failure, clock);
            let three = two.after.keyed(attempt, failure, clock);
            &&& announces(one.effects, TapVerdict::Retry)
            &&& announces(two.effects, TapVerdict::Retry)
            &&& three.next == NextView::RecordOutcome {
                batch_id: attempt.batch.id,
                verdict: TapVerdict::Dead,
            }
            &&& !three.after.ledger.contains_key(chip)
        }),
{
    let failure = KeyingView::Recoverable { class, chip };
    let one = core.keyed(attempt, failure, clock);
    let two = one.after.keyed(attempt, failure, clock);
    law_the_third_recoverable_failure_is_dead(core, attempt, class, chip, clock);
    assert(one.after.wf());
    law_the_third_recoverable_failure_is_dead(one.after, attempt, class, chip, clock);
    assert(two.after.wf());
    law_the_third_recoverable_failure_is_dead(two.after, attempt, class, chip, clock);
}

/// What happens to one chip moves no other chip's ladder.
pub proof fn law_a_tap_moves_one_ladder(
    core: CoreView,
    attempt: AttemptView,
    class: Seq<char>,
    chip: Seq<char>,
    other: Seq<char>,
    outcome: KeyingView,
    clock: Clock,
)
    requires
        other != chip,
        outcome == (KeyingView::Keyed { chip }) || outcome == (KeyingView::Recoverable {
            class,
            chip,
        }) || outcome == (KeyingView::Permanent { class, chip }) || outcome
            == KeyingView::NotReady,
    ensures
        crate::retry::attempts_of(core.keyed(attempt, outcome, clock).after.ledger, other)
            == crate::retry::attempts_of(core.ledger, other),
{
}

/// A shift begin forgets every failure: no chip is nearer to dead than at its
/// first tap.
pub proof fn law_a_shift_begin_clears_the_ledger(
    core: CoreView,
    batch: BatchView,
    kind: ShiftBeginKind,
    shift_id: Seq<char>,
    clock: Clock,
    chip: Seq<char>,
)
    ensures
        crate::retry::attempts_of(
            core.beginning(batch, kind, shift_id, clock).after.ledger,
            chip,
        ) == 0,
{
}

/// A chip presented while the line is paused, or with no batch, leads to
/// nothing: no keying call, no verdict, no change.
pub proof fn law_a_paused_line_takes_no_taps(
    core: CoreView,
    presentation: PresentationView,
    forced: Option<ForcedOutcome>,
)
    requires
        !core.station.connected() || core.station.snapshot.current_batch is None,
    ensures
        core.presented(presentation, forced) == core.still(),
{
}

/// The keying layer is called exactly where the line is up, a batch is active
/// and no total blocks; it gets the chip as presented and the active batch.
pub proof fn law_keying_is_called_for_the_active_batch(
    core: CoreView,
    presentation: PresentationView,
    forced: Option<ForcedOutcome>,
)
    ensures
        ({
            let next = core.presented(presentation, forced).next;
            let batch = core.station.snapshot.current_batch;
            &&& next is KeyChip <==> core.station.connected() && batch is Some && !(core.overrun
                == OverrunPolicy::Block && crate::actor::overrun(batch->0))
            &&& next matches NextView::KeyChip { attempt } ==> attempt.presentation == presentation
                && Some(attempt.batch) == batch
        }),
{
}

/// A keying layer that is not ready rules on nothing: nothing is counted, no
/// ladder moves, nothing is recorded, and the line is paused.
pub proof fn law_not_ready_counts_nothing(core: CoreView, attempt: AttemptView, clock: Clock)
    ensures
        ({
            let m = core.keyed(attempt, KeyingView::NotReady, clock);
            &&& m.after.ledger == core.ledger
            &&& m.after.station.snapshot.session_counts == core.station.snapshot.session_counts
            &&& m.after.station.snapshot.current_batch == core.station.snapshot.current_batch
            &&& m.after.station.shift == core.station.shift
            &&& m.next == NextView::Done { reply: ReplyView::Silent }
            &&& !m.after.station.connected()
            &&& forall|verdict: TapVerdict| !announces(m.effects, verdict)
        }),
{
    let m = core.keyed(attempt, KeyingView::NotReady, clock);
    assert forall|verdict: TapVerdict| !announces(m.effects, verdict) by {
        if announces(m.effects, verdict) {
            let i = choose|i: int|
                0 <= i < m.effects.len() && (#[trigger] m.effects[i] matches EffectView::Push {
                    payload,
                } && payload.events.contains(WireEvent::TapResult { result: verdict }));
            assert(i == 2);
            let changed = core.station.with_inputs(None, Some(false));
            assert(m.effects[2] == EffectView::Push { payload: changed.settling_push()->0 });
        }
    }
}

/// Outcomes are recorded against a batch for successes and dead chips alone,
/// and each such tap is recorded once: a retry never is.
pub proof fn law_retries_are_never_recorded(
    core: CoreView,
    attempt: AttemptView,
    outcome: KeyingView,
    clock: Clock,
)
    ensures
        core.keyed(attempt, outcome, clock).next matches NextView::RecordOutcome {
            batch_id,
            verdict,
        } ==> verdict != TapVerdict::Retry && batch_id == attempt.batch.id,
        !(core.keyed(attempt, outcome, clock).next is RecordOutcome) ==> {
            let after = core.keyed(attempt, outcome, clock).after.station.snapshot;
            after.session_counts == core.station.snapshot.session_counts && after.current_batch
                == core.station.snapshot.current_batch
        },
{
}

/// Every ruling is announced the instant it is made. A success or a dead chip
/// moves the session's counts by one and adopts the batch's numbers as the
/// source returned them; a write of the outcome that failed holds nothing up
/// and leaves only the batch's numbers as they were.
pub proof fn law_a_ruling_is_counted_and_announced(
    core: CoreView,
    verdict: TapVerdict,
    recorded: Option<BatchView>,
    clock: Clock,
)
    ensures
        ({
            let m = core.ruled(verdict, recorded, clock);
            let after = m.after.station.snapshot;
            &&& announces(m.effects, verdict)
            &&& m.next == NextView::Done { reply: ReplyView::Silent }
            &&& after.session_counts == core.station.snapshot.session_counts.after(verdict)
            &&& verdict != TapVerdict::Retry && recorded is Some ==> after.current_batch == recorded
            &&& verdict == TapVerdict::Retry || recorded is None ==> after.current_batch
                == core.station.snapshot.current_batch
        }),
{
    let m = core.ruled(verdict, recorded, clock);
    let payload = core.station.ruling_push(verdict, recorded);
    assert(payload.events[0] == WireEvent::TapResult { result: verdict });
    assert(m.effects[2] == EffectView::Push { payload });
}

/// How many failure records are among the effects.
pub open spec fn failure_records(effects: Seq<EffectView>) -> nat {
    effects.filter(|e: EffectView| e is AppendFailure).len()
}

/// How many overrun records are among the effects.
pub open spec fn overrun_records(effects: Seq<EffectView>) -> nat {
    effects.filter(|e: EffectView| e is AppendOverrun).len()
}

/// Every failed attempt leaves one failure record, stamped with what the chip,
/// the reader, the batch and the shift are; a keyed chip and a layer that is
/// not ready leave none.
pub proof fn law_each_failure_leaves_one_record(
    core: CoreView,
    attempt: AttemptView,
    outcome: KeyingView,
    clock: Clock,
)
    ensures
        failure_records(core.keyed(attempt, outcome, clock).effects) == (if outcome is Recoverable
            || outcome is Permanent {
            1nat
        } else {
            0
        }),
{
    let m = core.keyed(attempt, outcome, clock);
    reveal(Seq::filter);
    reveal_with_fuel(Seq::filter, 6);
    assert(m.effects.len() <= 4);
    if m.effects.len() > 0 {
        let one = m.effects.drop_last();
        if one.len() > 0 {
            let two = one.drop_last();
            if two.len() > 0 {
                let three = two.drop_last();
                if three.len() > 0 {
                    assert(three.drop_last() =~= Seq::empty());
                }
            }
        }
    }
}

/// The record of a failure carries what a supervisor needs: which chip, which
/// class, which attempt, what was ruled, and where.
pub proof fn law_the_record_says_what_happened(
    core: CoreView,
    attempt: AttemptView,
    class: Seq<char>,
    chip: Seq<char>,
    permanent: bool,
    clock: Clock,
)
    requires
        core.wf(),
    ensures
        ({
            let outcome = if permanent {
                KeyingView::Permanent { class, chip }
            } else {
                KeyingView::Recoverable { class, chip }
            };
            let nth = crate::retry::attempts_of(core.ledger, chip) + 1;
            core.keyed(attempt, outcome, clock).effects[0] matches EffectView::AppendFailure {
                failure,
            } && {
                &&& failure.chip_ref == chip
                &&& failure.class == class
                &&& failure.attempt == nth
                &&& failure.escalated == (!permanent && nth == ESCALATION_THRESHOLD)
                &&& failure.verdict == (if permanent || nth == ESCALATION_THRESHOLD {
                    "dead"@
                } else {
                    "retry"@
                })
                &&& failure.reader_id == attempt.presentation.reader_id
                &&& failure.batch_id == attempt.batch.id
            }
        }),
{
    assert(core.ledger.contains_key(chip) ==> 1 <= core.ledger[chip] < ESCALATION_THRESHOLD);
}

/// A success on a batch at or past its total leaves one overrun record, and
/// nothing else does.
pub proof fn law_each_overrun_success_leaves_one_record(
    core: CoreView,
    attempt: AttemptView,
    outcome: KeyingView,
    clock: Clock,
)
    ensures
        overrun_records(core.keyed(attempt, outcome, clock).effects) == (if outcome is Keyed
            && attempt.batch.completed >= attempt.batch.total {
            1nat
        } else {
            0
        }),
{
    let m = core.keyed(attempt, outcome, clock);
    reveal(Seq::filter);
    reveal_with_fuel(Seq::filter, 6);
    assert(m.effects.len() <= 4);
    if m.effects.len() > 0 {
        let one = m.effects.drop_last();
        if one.len() > 0 {
            let two = one.drop_last();
            if two.len() > 0 {
                let three = two.drop_last();
                if three.len() > 0 {
                    assert(three.drop_last() =~= Seq::empty());
                }
            }
        }
    }
}

/// Where the policy blocks overruns, a chip that is presented at or past the
/// total never reaches keying: nothing happens at all.
pub proof fn law_a_blocked_overrun_leads_to_nothing(
    core: CoreView,
    presentation: PresentationView,
    forced: Option<ForcedOutcome>,
)
    requires
        core.overrun == OverrunPolicy::Block,
        core.station.snapshot.current_batch matches Some(batch) && batch.completed >= batch.total,
    ensures
        core.presented(presentation, forced) == core.still(),
{
}

/// Forcing an outcome for a verdict rules exactly that verdict on a chip that
/// the session has not seen fail: one recoverable failure never escalates.
pub proof fn law_a_forced_verdict_is_the_verdict(
    core: CoreView,
    attempt: AttemptView,
    verdict: TapVerdict,
    chip: Seq<char>,
    clock: Clock,
)
    requires
        !core.ledger.contains_key(chip),
    ensures
        ({
            let drawn = crate::keying::forcing(verdict);
            let m = core.keyed(attempt, crate::keying::sim_answer(drawn, chip), clock);
            match verdict {
                TapVerdict::Retry => announces(m.effects, TapVerdict::Retry) && m.next
                    == NextView::Done { reply: ReplyView::Silent },
                _ => m.next == NextView::RecordOutcome { batch_id: attempt.batch.id, verdict },
            }
        }),
{
    let drawn = crate::keying::forcing(verdict);
    let m = core.keyed(attempt, crate::keying::sim_answer(drawn, chip), clock);
    if verdict == TapVerdict::Retry {
        let payload = core.station.ruling_push(TapVerdict::Retry, None);
        assert(payload.events[0] == WireEvent::TapResult { result: TapVerdict::Retry });
        assert(m.effects[3] == EffectView::Push { payload });
    }
}

/// A keyed chip's ladder is closed, whatever it was.
pub proof fn law_a_keyed_chip_starts_over(
    core: CoreView,
    attempt: AttemptView,
    chip: Seq<char>,
    clock: Clock,
)
    ensures
        crate::retry::attempts_of(
            core.keyed(attempt, KeyingView::Keyed { chip }, clock).after.ledger,
            chip,
        ) == 0,
{
}

}
