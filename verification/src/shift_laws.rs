//! What the station core promises about shifts, pages and resets.

use crate::actor::CoreView;
use crate::contract::{BatchView, CountsView, WireEvent};
use crate::messages::{Clock, CoreMsg, EffectView, ErrorView, NextView, ReplyView};
use crate::state::{PersistedView, ShiftBeginKind};
use vstd::prelude::*;

verus! {

/// Whether an end of shift is sent to the page.
pub open spec fn sends_end_shift(effects: Seq<EffectView>) -> bool {
    exists|i: int|
        0 <= i < effects.len() && (#[trigger] effects[i] matches EffectView::Push { payload }
            && payload.events.contains(WireEvent::EndShift))
}

proof fn lemma_a_flip_sends_no_end_shift(core: CoreView, clock: Clock)
    ensures
        !sends_end_shift(core.blip_tick(clock).effects),
{
    let m = core.blip_tick(clock);
    if sends_end_shift(m.effects) {
        let i = choose|i: int|
            0 <= i < m.effects.len() && (#[trigger] m.effects[i] matches EffectView::Push {
                payload,
            } && payload.events.contains(WireEvent::EndShift));
        let changed = core.station.with_inputs(None, Some(true));
        assert(m.effects[i] == EffectView::Push { payload: changed.settling_push()->0 });
    }
}

/// A tick sends an end of shift exactly when one is pending and would reach
/// the page once a blip that is over is out of the way: the line is up, no
/// verdict is on screen, no document is just booting, and the last emission is
/// far enough back. Conformance runs see none.
pub proof fn law_end_of_shift_waits_for_quiet(core: CoreView, clock: Clock)
    requires
        core.wf(),
    ensures
        sends_end_shift(core.ticked(clock).effects) <==> core.blip_tick(
            clock,
        ).after.emits_end_shift(clock),
{
    let first = core.blip_tick(clock);
    let mid = first.after;
    let second = mid.end_shift_tick(clock);
    let m = core.ticked(clock);
    assert(m.effects == first.effects + second.effects);
    lemma_a_flip_sends_no_end_shift(core, clock);
    assert(mid.station.truthful());
    if mid.emits_end_shift(clock) {
        let s = mid.station.stamped();
        let payload = s.announcing(false, seq![WireEvent::EndShift]);
        assert(payload.events[0] == WireEvent::EndShift);
        assert(second.effects[2] == EffectView::Push { payload });
        assert(m.effects[first.effects.len() as int + 2] == EffectView::Push { payload });
    } else if sends_end_shift(m.effects) {
        let i = choose|i: int|
            0 <= i < m.effects.len() && (#[trigger] m.effects[i] matches EffectView::Push {
                payload,
            } && payload.events.contains(WireEvent::EndShift));
        if i < first.effects.len() {
            assert(first.effects[i] == m.effects[i]);
        } else {
            assert(second.effects[i - first.effects.len()] == m.effects[i]);
        }
    }
}

/// A pending end of shift is sent twice, each time under deliverable
/// conditions, and then the shift has ended: nothing is pending any more, the
/// snapshot is untouched, and no tick sends it again.
pub proof fn law_end_of_shift_is_sent_twice(
    core: CoreView,
    armed_at: Clock,
    first: Clock,
    second: Clock,
    later: Clock,
)
    requires
        core.wf(),
        core.station.connected(),
        !core.conformance,
        ({
            let armed = core.handled(CoreMsg::BeginEndShift, armed_at).after;
            let once = armed.ticked(first).after;
            armed.deliverable(first) && once.deliverable(second)
        }),
    ensures
        ({
            let armed = core.handled(CoreMsg::BeginEndShift, armed_at).after;
            let once = armed.ticked(first);
            let twice = once.after.ticked(second);
            &&& sends_end_shift(once.effects)
            &&& once.after.station.pending_end_shift
            &&& sends_end_shift(twice.effects)
            &&& !twice.after.station.pending_end_shift
            &&& twice.after.station.snapshot == core.station.snapshot
            &&& !sends_end_shift(twice.after.ticked(later).effects)
        }),
{
    let armed = core.handled(CoreMsg::BeginEndShift, armed_at).after;
    let once = armed.ticked(first);
    let twice = once.after.ticked(second);
    assert(armed.wf());
    law_end_of_shift_waits_for_quiet(armed, first);
    assert(once.after.wf());
    law_end_of_shift_waits_for_quiet(once.after, second);
    assert(twice.after.wf());
    law_end_of_shift_waits_for_quiet(twice.after, later);
}

/// A pending end of shift survives a restart: it is on disk from the moment
/// it is armed until the shift has ended.
pub proof fn law_a_pending_end_of_shift_is_on_disk(core: CoreView, clock: Clock)
    ensures
        ({
            let m = core.handled(CoreMsg::BeginEndShift, clock);
            m.effects[0] matches EffectView::Persist { session } && session.pending_end_shift
        }),
        ({
            let m = core.handled(CoreMsg::EndShiftCmd, clock);
            m.effects[0] matches EffectView::Persist { session } && !session.pending_end_shift
        }),
{
}

/// The end of a shift answers the counts and resets nothing: what the page
/// shows stays, and the page is sent nothing.
pub proof fn law_ending_a_shift_answers_the_counts(core: CoreView, clock: Clock)
    ensures
        ({
            let m = core.handled(CoreMsg::EndShiftCmd, clock);
            &&& m.after.station.snapshot == core.station.snapshot
            &&& m.after.station.seq == core.station.seq
            &&& m.next == NextView::Done {
                reply: ReplyView::Ended {
                    counts: core.station.snapshot.session_counts,
                    late: None,
                },
            }
            &&& forall|i: int| 0 <= i < m.effects.len() ==> !(#[trigger] m.effects[i] is Push)
        }),
{
}

/// Only a page that booted behind the core is corrected, with one push of
/// current truth; it counts as stale. A page that booted from current truth
/// gets nothing.
pub proof fn law_only_stale_pages_are_corrected(core: CoreView, adapter_seq: u64)
    ensures
        ({
            let m = core.attached(adapter_seq);
            &&& adapter_seq >= core.station.seq ==> m == core.still()
            &&& adapter_seq < core.station.seq ==> {
                &&& m.after.stale_attaches == core.stale_attaches + 1
                &&& m.after.station.snapshot == core.station.snapshot
                &&& m.effects.last() matches EffectView::Push { payload } && payload.snapshot
                    == Some(core.station.snapshot) && payload.seq > adapter_seq
            }
        }),
{
}

/// A batch that the source does not know, or a source that fails, begins no
/// shift and swaps nothing: the request is refused and all stays as it was.
pub proof fn law_a_refusal_changes_nothing(core: CoreView, error: ErrorView)
    ensures
        core.refusing(error).after == core,
        core.refusing(error).effects.len() == 0,
        core.refusing(error).next == (NextView::Done { reply: ReplyView::Refused { error } }),
{
}

/// A swap within a shift keeps the shift and its counts; a begin starts both
/// afresh.
pub proof fn law_a_swap_keeps_what_a_begin_resets(
    core: CoreView,
    batch: BatchView,
    kind: ShiftBeginKind,
    shift_id: Seq<char>,
    clock: Clock,
)
    ensures
        ({
            let swapped = core.swapping(batch).after.station;
            let begun = core.beginning(batch, kind, shift_id, clock).after.station;
            &&& swapped.snapshot.current_batch == Some(batch)
            &&& swapped.snapshot.session_counts == core.station.snapshot.session_counts
            &&& swapped.shift == core.station.shift
            &&& begun.snapshot.current_batch == Some(batch)
            &&& begun.snapshot.session_counts == CountsView::zero()
            &&& begun.shift matches Some(shift) && shift.shift_id == shift_id && !shift.ended
            &&& !begun.pending_end_shift
        }),
{
}

/// A swap without a target never lands on the batch that is already active,
/// and is refused only where there is no other.
pub proof fn law_a_blind_swap_moves_on(core: CoreView, batches: Seq<BatchView>)
    requires
        core.station.snapshot.current_batch is Some,
    ensures
        ({
            let current = core.station.snapshot.current_batch->0.id;
            let m = core.swap_from_list(batches);
            if exists|i: int| 0 <= i < batches.len() && (#[trigger] batches[i]).id != current {
                m.after.station.snapshot.current_batch matches Some(b) && b.id != current
                    && batches.contains(b)
            } else {
                m == core.refusing(ErrorView::NoOtherBatch)
            }
        }),
{
    let current = core.station.snapshot.current_batch->0.id;
    lemma_first_other(batches, current);
}

proof fn lemma_first_other(batches: Seq<BatchView>, current: Seq<char>)
    ensures
        match crate::actor::first_other(batches, Some(current)) {
            Some(b) => b.id != current && batches.contains(b),
            None => forall|i: int| 0 <= i < batches.len() ==> (#[trigger] batches[i]).id == current,
        },
        (exists|i: int| 0 <= i < batches.len() && (#[trigger] batches[i]).id != current) ==>
            crate::actor::first_other(batches, Some(current)) is Some,
    decreases batches.len(),
{
    if batches.len() > 0 {
        let rest = batches.skip(1);
        if batches[0].id == current {
            lemma_first_other(rest, current);
            match crate::actor::first_other(rest, Some(current)) {
                Some(b) => {
                    let i = choose|i: int| 0 <= i < rest.len() && rest[i] == b;
                    assert(batches[i + 1] == b);
                },
                None => {
                    assert forall|i: int| 0 <= i < batches.len() implies (
                    #[trigger] batches[i]).id == current by {
                        if i > 0 {
                            assert(rest[i - 1] == batches[i]);
                        }
                    }
                },
            }
        } else {
            assert(batches.contains(batches[0]));
        }
    }
}

/// The demo reset forgets batch progress, shift, counts and ledger, on disk
/// too, and keeps the connection; the page is told nothing and boots from the
/// reset state when it reloads.
pub proof fn law_the_demo_reset_keeps_the_line(core: CoreView)
    ensures
        ({
            let m = core.demo_reset();
            &&& m.after.station.snapshot.current_batch is None
            &&& m.after.station.snapshot.session_counts == CountsView::zero()
            &&& m.after.station.image() == PersistedView::fresh()
            &&& m.after.ledger == Map::<Seq<char>, u8>::empty()
            &&& m.after.station.reader_present == core.station.reader_present
            &&& m.after.station.downstream_ready == core.station.downstream_ready
            &&& m.after.station.snapshot.connection == core.station.snapshot.connection
            &&& m.after.station.seq > core.station.seq
            &&& m.effects[0] == EffectView::ResetBatches
            &&& forall|i: int| 0 <= i < m.effects.len() ==> !(#[trigger] m.effects[i] is Push)
        }),
{
}

/// The conformance reset is a fresh connected station that no push announces;
/// only `seq` carries on.
pub proof fn law_the_conformance_reset_is_a_fresh_station(core: CoreView)
    ensures
        ({
            let m = core.conformance_reset();
            &&& m.after.station.connected()
            &&& m.after.station.snapshot.current_batch is None
            &&& m.after.station.snapshot.session_counts == CountsView::zero()
            &&& m.after.station.image() == PersistedView::fresh()
            &&& m.after.ledger == Map::<Seq<char>, u8>::empty()
            &&& m.after.station.seq == core.station.seq + 1
            &&& forall|i: int| 0 <= i < m.effects.len() ==> !(#[trigger] m.effects[i] is Push)
        }),
{
}

/// A session that cannot be written pauses the line, ticks try again, and the
/// first write that succeeds brings the line back.
pub proof fn law_a_failing_disk_pauses_the_line(core: CoreView, clock: Clock)
    requires
        core.wf(),
        core.station.connected(),
    ensures
        ({
            let down = core.settling(core.station.with_persist_ok(false)).after;
            let tick = down.ticked(clock);
            let up = tick.after.settling(tick.after.station.with_persist_ok(true)).after;
            &&& !down.station.connected()
            &&& tick.effects.contains(EffectView::Persist { session: down.station.image() })
            &&& up.station.snapshot == core.station.snapshot
        }),
{
    let down = core.settling(core.station.with_persist_ok(false)).after;
    let first = down.blip_tick(clock);
    let tick = down.ticked(clock);
    assert(first.after.station == down.station);
    assert(tick.effects[first.effects.len() as int] == EffectView::Persist {
        session: down.station.image(),
    });
}

}
