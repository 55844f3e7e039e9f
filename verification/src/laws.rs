//! What the station core promises whatever comes in.
//!
//! The methods of `CoreActor` make the moves of `CoreView`. Here those moves
//! are shown, one by one and along every run, to keep the order in which
//! disk, boot and page learn of a change, and to stay well-formed.

use crate::actor::{CoreView, Move, END_SHIFT_EMITS_TO_CONFIRM};
use crate::contract::{BatchView, SnapshotView, TapVerdict, WireEvent};
use crate::keying::KeyingView;
use crate::messages::{AttemptView, Clock, CoreMsg, EffectView, ErrorView};
use crate::retry::ESCALATION_THRESHOLD;
use crate::state::{PersistedView, ShiftBeginKind, StationView, SESSION_SCHEMA};
use vstd::prelude::*;

verus! {

/// Everything that can reach the core, with what outside work answered.
pub ghost enum CoreInput {
    Message { msg: CoreMsg, clock: Clock },
    BeginFetched {
        id: Seq<char>,
        kind: ShiftBeginKind,
        fetched: Result<Option<BatchView>, Seq<char>>,
        shift_id: Seq<char>,
        clock: Clock,
    },
    SwapFetched { id: Seq<char>, fetched: Result<Option<BatchView>, Seq<char>> },
    SwapListed { listed: Result<Seq<BatchView>, Seq<char>> },
    ChipKeyed { attempt: AttemptView, outcome: KeyingView, clock: Clock },
    OutcomeRecorded { verdict: TapVerdict, recorded: Option<BatchView>, clock: Clock },
    Persisted { ok: bool },
}

impl CoreView {
    /// The move that an input leads to.
    #[verifier::opaque]
    pub open spec fn moved(self, input: CoreInput) -> Move {
        match input {
            CoreInput::Message { msg, clock } => self.handled(msg, clock),
            CoreInput::BeginFetched { id, kind, fetched, shift_id, clock } => match fetched {
                Ok(Some(batch)) => self.beginning(batch, kind, shift_id, clock),
                Ok(None) => self.refusing(ErrorView::UnknownBatch { id }),
                Err(message) => self.refusing(ErrorView::Source { message }),
            },
            CoreInput::SwapFetched { id, fetched } => match fetched {
                Ok(Some(batch)) => self.swapping(batch),
                Ok(None) => self.refusing(ErrorView::UnknownBatch { id }),
                Err(message) => self.refusing(ErrorView::Source { message }),
            },
            CoreInput::SwapListed { listed } => match listed {
                Ok(batches) => self.swap_from_list(batches),
                Err(message) => self.refusing(ErrorView::Source { message }),
            },
            CoreInput::ChipKeyed { attempt, outcome, clock } => self.keyed(attempt, outcome, clock),
            CoreInput::OutcomeRecorded { verdict, recorded, clock } => self.ruled(
                verdict,
                recorded,
                clock,
            ),
            CoreInput::Persisted { ok } => self.settling(self.station.with_persist_ok(ok)),
        }
    }

    /// The core after a run of inputs.
    pub open spec fn reached(self, inputs: Seq<CoreInput>) -> CoreView
        decreases inputs.len(),
    {
        if inputs.len() == 0 {
            self
        } else {
            self.reached(inputs.drop_last()).moved(inputs.last()).after
        }
    }

    /// All the effects of a run of inputs, in order.
    pub open spec fn performed(self, inputs: Seq<CoreInput>) -> Seq<EffectView>
        decreases inputs.len(),
    {
        if inputs.len() == 0 {
            Seq::empty()
        } else {
            self.performed(inputs.drop_last()) + self.reached(inputs.drop_last()).moved(
                inputs.last(),
            ).effects
        }
    }
}

/// The session that was last handed to the disk once the effects are
/// performed, whether or not it could be written.
pub open spec fn handed_after(session: PersistedView, effects: Seq<EffectView>) -> PersistedView
    decreases effects.len(),
{
    if effects.len() == 0 {
        session
    } else {
        match effects.last() {
            EffectView::Persist { session: handed } => handed,
            _ => handed_after(session, effects.drop_last()),
        }
    }
}

/// The session file once the effects are performed. Of an effect that writes
/// it, `written` says at the same index whether that succeeded: a write that
/// fails leaves the file as it was.
pub open spec fn disk_after(
    disk: PersistedView,
    effects: Seq<EffectView>,
    written: Seq<bool>,
) -> PersistedView
    decreases effects.len(),
{
    if effects.len() == 0 {
        disk
    } else {
        let rest = disk_after(disk, effects.drop_last(), written);
        match effects.last() {
            EffectView::Persist { session } => if written[effects.len() - 1] {
                session
            } else {
                rest
            },
            _ => rest,
        }
    }
}

/// The last of the effects that write the session file, if there is one,
/// succeeded.
pub open spec fn last_write_held(effects: Seq<EffectView>, written: Seq<bool>) -> bool
    decreases effects.len(),
{
    if effects.len() == 0 {
        true
    } else if effects.last() is Persist {
        written[effects.len() - 1]
    } else {
        last_write_held(effects.drop_last(), written)
    }
}

/// What fresh documents boot from once the effects are performed.
pub open spec fn boot_after(boot: (nat, SnapshotView), effects: Seq<EffectView>) -> (
    nat,
    SnapshotView,
)
    decreases effects.len(),
{
    if effects.len() == 0 {
        boot
    } else {
        match effects.last() {
            EffectView::RefreshBoot { seq, snapshot } => (seq, snapshot),
            _ => boot_after(boot, effects.drop_last()),
        }
    }
}

/// Right before the push at `i` the session of the state that it announces
/// was handed to the disk, and fresh documents were made to boot from that
/// state.
pub open spec fn pushed_in_order(effects: Seq<EffectView>, i: int) -> bool {
    effects[i] matches EffectView::Push { payload } ==> {
        &&& i >= 2
        &&& exists|s: StationView|
            {
                &&& effects[i - 2] == EffectView::Persist { session: #[trigger] s.image() }
                &&& effects[i - 1] == EffectView::RefreshBoot { seq: s.seq, snapshot: s.snapshot }
                &&& payload.seq == s.seq
                &&& payload.snapshot matches Some(shown) ==> shown == s.snapshot
            }
    }
}

pub open spec fn all_in_order(effects: Seq<EffectView>) -> bool {
    forall|i: int| 0 <= i < effects.len() ==> #[trigger] pushed_in_order(effects, i)
}

proof fn lemma_committed_in_order(s: StationView, payload: crate::contract::PayloadView)
    requires
        payload.seq == s.seq,
        payload.snapshot matches Some(shown) ==> shown == s.snapshot,
    ensures
        all_in_order(crate::actor::committed(s, payload)),
{
    let effects = crate::actor::committed(s, payload);
    assert(effects[0] == EffectView::Persist { session: s.image() });
}

proof fn lemma_joined_in_order(a: Seq<EffectView>, b: Seq<EffectView>)
    requires
        all_in_order(a),
        all_in_order(b),
    ensures
        all_in_order(a + b),
{
    let ab = a + b;
    assert forall|i: int| 0 <= i < ab.len() implies #[trigger] pushed_in_order(ab, i) by {
        if i < a.len() {
            assert(pushed_in_order(a, i));
            if ab[i] is Push {
                assert(ab[i - 2] == a[i - 2] && ab[i - 1] == a[i - 1]);
            }
        } else {
            let j = i - a.len();
            assert(pushed_in_order(b, j));
            if ab[i] is Push {
                assert(ab[i - 2] == b[j - 2] && ab[i - 1] == b[j - 1]);
            }
        }
    }
}

proof fn lemma_joined_rising(
    from: nat,
    a: Seq<EffectView>,
    mid: nat,
    b: Seq<EffectView>,
    to: nat,
)
    requires
        rising(from, a, mid),
        rising(mid, b, to),
    ensures
        rising(from, a + b, to),
{
    let ab = a + b;
    assert forall|i: int| 0 <= i < ab.len() implies (
    #[trigger] ab[i] matches EffectView::Push { payload } ==> from < payload.seq <= to) by {
        if i < a.len() {
            assert(ab[i] == a[i]);
        } else {
            assert(ab[i] == b[i - a.len()]);
        }
    }
    assert forall|i: int, j: int|
        0 <= i < j < ab.len() && #[trigger] ab[i] is Push && #[trigger] ab[j] is Push implies
        ab[i]->payload.seq < ab[j]->payload.seq by {
        if j < a.len() {
            assert(ab[i] == a[i] && ab[j] == a[j]);
        } else if i >= a.len() {
            assert(ab[i] == b[i - a.len()] && ab[j] == b[j - a.len()]);
        } else {
            assert(ab[i] == a[i] && ab[j] == b[j - a.len()]);
        }
    }
}

proof fn lemma_joined_handed(session: PersistedView, a: Seq<EffectView>, b: Seq<EffectView>)
    ensures
        handed_after(session, a + b) == handed_after(handed_after(session, a), b),
    decreases b.len(),
{
    if b.len() == 0 {
        assert(a + b =~= a);
    } else {
        lemma_joined_handed(session, a, b.drop_last());
        assert((a + b).drop_last() =~= a + b.drop_last());
        assert((a + b).last() == b.last());
    }
}

proof fn lemma_joined_boot(boot: (nat, SnapshotView), a: Seq<EffectView>, b: Seq<EffectView>)
    ensures
        boot_after(boot, a + b) == boot_after(boot_after(boot, a), b),
    decreases b.len(),
{
    if b.len() == 0 {
        assert(a + b =~= a);
    } else {
        lemma_joined_boot(boot, a, b.drop_last());
        assert((a + b).drop_last() =~= a + b.drop_last());
        assert((a + b).last() == b.last());
    }
}

/// The pushes among the effects are stamped upwards, from beyond `from` to at
/// most `to`.
pub open spec fn rising(from: nat, effects: Seq<EffectView>, to: nat) -> bool {
    &&& from <= to
    &&& forall|i: int|
        0 <= i < effects.len() ==> (#[trigger] effects[i] matches EffectView::Push { payload }
            ==> from < payload.seq <= to)
    &&& forall|i: int, j: int|
        0 <= i < j < effects.len() && #[trigger] effects[i] is Push && #[trigger] effects[j] is Push
            ==> effects[i]->payload.seq < effects[j]->payload.seq
}

/// The effects keep the order, and once they are performed, the session last
/// handed to the disk and what fresh documents boot from are what the core
/// knows.
pub open spec fn follows(before: StationView, effects: Seq<EffectView>, after: StationView) -> bool {
    &&& all_in_order(effects)
    &&& rising(before.seq, effects, after.seq)
    &&& handed_after(before.image(), effects) == after.image()
    &&& boot_after((before.seq, before.snapshot), effects) == (after.seq, after.snapshot)
}

/// Effects that concern neither disk, boot nor page.
pub open spec fn aside(effects: Seq<EffectView>) -> bool {
    forall|i: int|
        0 <= i < effects.len() ==> !(#[trigger] effects[i] is Persist) && !(effects[i] is RefreshBoot)
            && !(effects[i] is Push)
}

proof fn lemma_aside_follows(s: StationView, effects: Seq<EffectView>)
    requires
        aside(effects),
    ensures
        follows(s, effects, s),
    decreases effects.len(),
{
    if effects.len() > 0 {
        lemma_aside_follows(s, effects.drop_last());
    }
}

proof fn lemma_joined_follows(
    a: StationView,
    first: Seq<EffectView>,
    b: StationView,
    second: Seq<EffectView>,
    c: StationView,
)
    requires
        follows(a, first, b),
        follows(b, second, c),
    ensures
        follows(a, first + second, c),
{
    lemma_joined_in_order(first, second);
    lemma_joined_rising(a.seq, first, b.seq, second, c.seq);
    lemma_joined_handed(a.image(), first, second);
    lemma_joined_boot((a.seq, a.snapshot), first, second);
}

proof fn lemma_saved_follows(before: StationView, s: StationView)
    requires
        before.seq <= s.seq,
    ensures
        follows(before, crate::actor::saved(s), s),
{
    let effects = crate::actor::saved(s);
    reveal_with_fuel(handed_after, 3);
    reveal_with_fuel(boot_after, 3);
    assert(effects.drop_last().last() == effects[0]);
}

proof fn lemma_committed_follows(
    before: StationView,
    s: StationView,
    payload: crate::contract::PayloadView,
)
    requires
        before.seq < s.seq,
        payload.seq == s.seq,
        payload.snapshot matches Some(shown) ==> shown == s.snapshot,
    ensures
        follows(before, crate::actor::committed(s, payload), s),
{
    let effects = crate::actor::committed(s, payload);
    lemma_saved_follows(before, s);
    lemma_committed_in_order(s, payload);
    assert(effects.drop_last() =~= crate::actor::saved(s));
}

proof fn lemma_nothing_follows(before: StationView, after: StationView)
    requires
        before.image() == after.image(),
        before.seq == after.seq,
        before.snapshot == after.snapshot,
    ensures
        follows(before, Seq::empty(), after),
{
}

proof fn lemma_settling_follows(core: CoreView, changed: StationView)
    requires
        changed.image() == core.station.image(),
        changed.seq == core.station.seq,
        changed.snapshot == core.station.snapshot,
    ensures
        follows(core.station, core.settling(changed).effects, core.settling(changed).after.station),
{
    if changed.flips() {
        lemma_committed_follows(
            core.station,
            changed.settled(),
            changed.settling_push()->0,
        );
    } else {
        lemma_nothing_follows(core.station, changed);
    }
}

proof fn lemma_led_follows(core: CoreView, m: Move, first: Seq<EffectView>)
    requires
        aside(first),
        follows(core.station, m.effects, m.after.station),
    ensures
        follows(core.station, m.led_by(first).effects, m.led_by(first).after.station),
{
    lemma_aside_follows(core.station, first);
    lemma_joined_follows(core.station, first, core.station, m.effects, m.after.station);
}

#[verifier::rlimit(30)]
proof fn lemma_tick_follows(core: CoreView, clock: Clock)
    ensures
        follows(core.station, core.ticked(clock).effects, core.ticked(clock).after.station),
{
    let first = core.blip_tick(clock);
    if core.blip_over(clock) {
        let rest = CoreView { blip_until: None, ..core };
        lemma_settling_follows(rest, rest.station.with_inputs(None, Some(true)));
        lemma_led_follows(
            rest,
            rest.inputs(None, Some(true)),
            seq![
                EffectView::ArmSim { arming: crate::keying::SimArming::Ready { ready: true } },
            ],
        );
    } else {
        lemma_nothing_follows(core.station, core.station);
    }
    let mid = first.after;
    let second = mid.end_shift_tick(clock);
    if !mid.station.persist_ok {
        lemma_saved_follows(mid.station, mid.station);
    } else if mid.emits_end_shift(clock) {
        let s = mid.station.stamped();
        let payload = s.announcing(false, seq![WireEvent::EndShift]);
        lemma_committed_follows(mid.station, s, payload);
        if mid.end_shift_emits + 1 >= END_SHIFT_EMITS_TO_CONFIRM {
            lemma_saved_follows(s, s.shift_ended());
            lemma_joined_follows(
                mid.station,
                crate::actor::committed(s, payload),
                s,
                crate::actor::saved(s.shift_ended()),
                s.shift_ended(),
            );
        }
    } else {
        lemma_nothing_follows(mid.station, mid.station);
    }
    lemma_joined_follows(
        core.station,
        first.effects,
        mid.station,
        second.effects,
        second.after.station,
    );
}

proof fn lemma_keyed_follows(core: CoreView, attempt: AttemptView, outcome: KeyingView, clock: Clock)
    ensures
        ({
            let m = core.keyed(attempt, outcome, clock);
            follows(core.station, m.effects, m.after.station)
        }),
{
    let m = core.keyed(attempt, outcome, clock);
    match outcome {
        KeyingView::Recoverable { class, chip } => {
            let nth = core.next_attempt(chip);
            if nth < ESCALATION_THRESHOLD {
                let counted = CoreView {
                    ledger: crate::retry::after_failure(core.ledger, chip),
                    ..core
                };
                let ruled = counted.ruled(TapVerdict::Retry, None, clock);
                lemma_committed_follows(
                    core.station,
                    core.station.ruled(TapVerdict::Retry, None),
                    core.station.ruling_push(TapVerdict::Retry, None),
                );
                lemma_led_follows(
                    core,
                    ruled,
                    seq![core.failure(attempt, class, chip, "retry"@, nth, false, clock)],
                );
            } else {
                lemma_aside_follows(core.station, m.effects);
            }
        },
        KeyingView::NotReady => {
            lemma_settling_follows(core, core.station.with_inputs(None, Some(false)));
        },
        _ => {
            lemma_aside_follows(core.station, m.effects);
        },
    }
}

#[verifier::rlimit(30)]
proof fn lemma_message_follows(core: CoreView, msg: CoreMsg, clock: Clock)
    ensures
        ({
            let m = core.handled(msg, clock);
            follows(core.station, m.effects, m.after.station)
        }),
{
    let m = core.handled(msg, clock);
    match msg {
        CoreMsg::EndShiftCmd | CoreMsg::BeginEndShift => {
            lemma_saved_follows(core.station, m.after.station);
        },
        CoreMsg::BridgeAttached { adapter_seq } => {
            if adapter_seq < core.station.seq {
                lemma_committed_follows(
                    core.station,
                    core.station.stamped(),
                    core.station.stamped().announcing(true, seq![WireEvent::Data]),
                );
            } else {
                lemma_nothing_follows(core.station, core.station);
            }
        },
        CoreMsg::CardPresented { .. } => {
            lemma_aside_follows(core.station, m.effects);
        },
        CoreMsg::ReaderPresence { present } => {
            lemma_settling_follows(core, core.station.with_inputs(Some(present), None));
        },
        CoreMsg::SetDownstream { ready } => {
            lemma_settling_follows(core, core.station.with_inputs(None, Some(ready)));
            lemma_led_follows(
                core,
                core.inputs(None, Some(ready)),
                seq![
                    EffectView::ArmSim { arming: crate::keying::SimArming::Ready { ready } },
                ],
            );
        },
        CoreMsg::Blip { ms } => {
            let blipping = CoreView { blip_until: m.after.blip_until, ..core };
            lemma_settling_follows(blipping, core.station.with_inputs(None, Some(false)));
        },
        CoreMsg::ResetDemo => {
            lemma_saved_follows(core.station, core.station.cleared());
            lemma_led_follows(
                core,
                core.fresh_session().saving(core.station.cleared()),
                seq![EffectView::ResetBatches],
            );
        },
        CoreMsg::Tick => {
            lemma_tick_follows(core, clock);
        },
        CoreMsg::ConformanceReset => {
            lemma_saved_follows(core.station, core.conformance_state());
            lemma_led_follows(
                core,
                core.fresh_session().saving(core.conformance_state()),
                seq![
                    EffectView::ResetBatches,
                    EffectView::ArmSim { arming: crate::keying::SimArming::Reset },
                ],
            );
        },
        _ => {
            lemma_nothing_follows(core.station, core.station);
        },
    }
}

/// Persist before emit, one input at a time: every push stands right behind
/// the write of the session it announces and the refresh of what fresh
/// documents boot from, and when the effects are through, the session last
/// handed to the disk and what documents boot from are what the core knows.
#[verifier::rlimit(30)]
pub proof fn law_disk_and_boot_lead_the_page(core: CoreView, input: CoreInput)
    ensures
        ({
            let m = core.moved(input);
            follows(core.station, m.effects, m.after.station)
        }),
{
    reveal(CoreView::moved);
    match input {
        CoreInput::Message { msg, clock } => {
            lemma_message_follows(core, msg, clock);
        },
        CoreInput::BeginFetched { kind, fetched, shift_id, clock, .. } => {
            match fetched {
                Ok(Some(batch)) => {
                    let s = core.station.begun(
                        batch,
                        shift_id,
                        crate::actor::epoch_ms(clock.wall),
                    );
                    lemma_committed_follows(
                        core.station,
                        s,
                        s.announcing(true, seq![StationView::begin_event(kind)]),
                    );
                },
                _ => {
                    lemma_nothing_follows(core.station, core.station);
                },
            }
        },
        CoreInput::SwapFetched { fetched, .. } => {
            match fetched {
                Ok(Some(batch)) => {
                    lemma_swap_follows(core, batch);
                },
                _ => {
                    lemma_nothing_follows(core.station, core.station);
                },
            }
        },
        CoreInput::SwapListed { listed } => {
            lemma_nothing_follows(core.station, core.station);
            match listed {
                Ok(batches) => {
                    let current = match core.station.snapshot.current_batch {
                        Some(b) => Some(b.id),
                        None => None,
                    };
                    match crate::actor::first_other(batches, current) {
                        Some(batch) => {
                            lemma_swap_follows(core, batch);
                        },
                        None => {},
                    }
                },
                Err(_) => {},
            }
        },
        CoreInput::ChipKeyed { attempt, outcome, clock } => {
            lemma_keyed_follows(core, attempt, outcome, clock);
        },
        CoreInput::OutcomeRecorded { verdict, recorded, clock } => {
            lemma_committed_follows(
                core.station,
                core.station.ruled(verdict, recorded),
                core.station.ruling_push(verdict, recorded),
            );
        },
        CoreInput::Persisted { ok } => {
            lemma_settling_follows(core, core.station.with_persist_ok(ok));
        },
    }
}

proof fn lemma_swap_follows(core: CoreView, batch: BatchView)
    ensures
        follows(core.station, core.swapping(batch).effects, core.swapping(batch).after.station),
{
    let s = core.station.swapped(batch);
    lemma_committed_follows(core.station, s, s.announcing(true, seq![WireEvent::Data]));
}

proof fn lemma_run_follows(core: CoreView, inputs: Seq<CoreInput>)
    ensures
        follows(core.station, core.performed(inputs), core.reached(inputs).station),
    decreases inputs.len(),
{
    if inputs.len() == 0 {
        lemma_nothing_follows(core.station, core.station);
    } else {
        let rest = inputs.drop_last();
        let mid = core.reached(rest);
        lemma_run_follows(core, rest);
        law_disk_and_boot_lead_the_page(mid, inputs.last());
        lemma_joined_follows(
            core.station,
            core.performed(rest),
            mid.station,
            mid.moved(inputs.last()).effects,
            mid.moved(inputs.last()).after.station,
        );
    }
}

proof fn lemma_a_held_write_is_on_disk(
    disk: PersistedView,
    effects: Seq<EffectView>,
    written: Seq<bool>,
)
    requires
        last_write_held(effects, written),
    ensures
        disk_after(disk, effects, written) == handed_after(disk, effects),
    decreases effects.len(),
{
    if effects.len() > 0 && !(effects.last() is Persist) {
        lemma_a_held_write_is_on_disk(disk, effects.drop_last(), written);
    }
}

/// The same along every run of inputs: a document that boots between two of
/// them boots from current truth, and a kill there leaves the session on disk
/// that the core had, if the last write of the run succeeded. Earlier writes
/// may fail as they will: the next one that succeeds makes up for them.
pub proof fn law_a_run_leaves_disk_and_boot_current(
    core: CoreView,
    inputs: Seq<CoreInput>,
    written: Seq<bool>,
)
    requires
        written.len() == core.performed(inputs).len(),
    ensures
        follows(core.station, core.performed(inputs), core.reached(inputs).station),
        last_write_held(core.performed(inputs), written) ==> disk_after(
            core.station.image(),
            core.performed(inputs),
            written,
        ) == core.reached(inputs).station.image(),
{
    lemma_run_follows(core, inputs);
    if last_write_held(core.performed(inputs), written) {
        lemma_a_held_write_is_on_disk(core.station.image(), core.performed(inputs), written);
    }
}

/// The page can rely on `seq` alone to drop what it has already passed: along
/// every run, each push carries a larger `seq` than all pushes before it, and
/// none beyond what the core has reached.
pub proof fn law_pushes_are_stamped_upwards(core: CoreView, inputs: Seq<CoreInput>)
    ensures
        rising(core.station.seq, core.performed(inputs), core.reached(inputs).station.seq),
{
    lemma_run_follows(core, inputs);
}

/// What the page was told is not lost in a kill: at the moment a push leaves,
/// a document that boots then boots from the very state that the push
/// announces, and the disk holds the session of that state, if the write that
/// the push stands behind succeeded. If it failed, the disk holds what it held
/// before that write.
pub proof fn law_what_is_announced_is_on_disk(
    core: CoreView,
    inputs: Seq<CoreInput>,
    written: Seq<bool>,
    j: int,
    disk: PersistedView,
    boot: (nat, SnapshotView),
)
    requires
        written.len() == core.performed(inputs).len(),
        0 <= j < core.performed(inputs).len(),
        core.performed(inputs)[j] is Push,
    ensures
        j >= 2,
        core.performed(inputs)[j - 2] is Persist,
        ({
            let before = core.performed(inputs).take(j);
            let payload = core.performed(inputs)[j]->payload;
            exists|s: StationView|
                {
                    &&& disk_after(disk, before, written) == (if written[j - 2] {
                        #[trigger] s.image()
                    } else {
                        disk_after(disk, core.performed(inputs).take(j - 2), written)
                    })
                    &&& boot_after(boot, before) == (s.seq, s.snapshot)
                    &&& payload.seq == s.seq
                    &&& payload.snapshot matches Some(shown) ==> shown == s.snapshot
                }
        }),
{
    let effects = core.performed(inputs);
    let before = effects.take(j);
    lemma_run_follows(core, inputs);
    assert(pushed_in_order(effects, j));
    assert(before.last() == effects[j - 1]);
    assert(before.drop_last().last() == effects[j - 2]);
    assert(before.drop_last().drop_last() =~= effects.take(j - 2));
    reveal_with_fuel(disk_after, 3);
    reveal_with_fuel(boot_after, 3);
}

proof fn lemma_tick_keeps_wf(core: CoreView, clock: Clock)
    requires
        core.wf(),
    ensures
        core.ticked(clock).after.wf(),
        core.ticked(clock).after.station.seq >= core.station.seq,
{
    let mid = core.blip_tick(clock).after;
    assert(mid.wf());
    assert(mid.station.seq >= core.station.seq);
    assert(mid.end_shift_tick(clock).after.wf());
}

#[verifier::rlimit(30)]
proof fn lemma_message_keeps_wf(core: CoreView, msg: CoreMsg, clock: Clock)
    requires
        core.wf(),
    ensures
        core.handled(msg, clock).after.wf(),
        core.handled(msg, clock).after.station.seq >= core.station.seq,
{
    match msg {
        CoreMsg::Tick => {
            lemma_tick_keeps_wf(core, clock);
        },
        _ => {},
    }
}

proof fn lemma_keyed_keeps_wf(
    core: CoreView,
    attempt: AttemptView,
    outcome: KeyingView,
    clock: Clock,
)
    requires
        core.wf(),
    ensures
        core.keyed(attempt, outcome, clock).after.wf(),
        core.keyed(attempt, outcome, clock).after.station.seq >= core.station.seq,
{
}

proof fn lemma_swap_keeps_wf(core: CoreView, batch: BatchView)
    requires
        core.wf(),
    ensures
        core.swapping(batch).after.wf(),
        core.swapping(batch).after.station.seq >= core.station.seq,
{
}

#[verifier::rlimit(30)]
proof fn lemma_move_keeps_wf(core: CoreView, input: CoreInput)
    requires
        core.wf(),
    ensures
        core.moved(input).after.wf(),
        core.moved(input).after.station.seq >= core.station.seq,
{
    reveal(CoreView::moved);
    match input {
        CoreInput::Message { msg, clock } => {
            lemma_message_keeps_wf(core, msg, clock);
        },
        CoreInput::ChipKeyed { attempt, outcome, clock } => {
            lemma_keyed_keeps_wf(core, attempt, outcome, clock);
        },
        CoreInput::SwapFetched { fetched: Ok(Some(batch)), .. } => {
            lemma_swap_keeps_wf(core, batch);
        },
        CoreInput::SwapListed { listed: Ok(batches) } => {
            let current = match core.station.snapshot.current_batch {
                Some(b) => Some(b.id),
                None => None,
            };
            match crate::actor::first_other(batches, current) {
                Some(batch) => {
                    lemma_swap_keeps_wf(core, batch);
                },
                None => {},
            }
        },
        _ => {},
    }
}

/// The core stays well-formed whatever comes in, and `seq` never falls: not
/// even the resets take it back.
pub proof fn law_the_core_stays_well_formed(core: CoreView, inputs: Seq<CoreInput>)
    requires
        core.wf(),
    ensures
        core.reached(inputs).wf(),
        core.reached(inputs).station.seq >= core.station.seq,
    decreases inputs.len(),
{
    if inputs.len() > 0 {
        law_the_core_stays_well_formed(core, inputs.drop_last());
        lemma_move_keeps_wf(core.reached(inputs.drop_last()), inputs.last());
    }
}

/// A station that boots from a session file resumes exactly that session:
/// what it would write is what it read.
pub proof fn law_a_restart_resumes_the_session(
    config: crate::contract::StationUiConfig,
    session: PersistedView,
)
    requires
        session.schema == SESSION_SCHEMA,
    ensures
        StationView::boot(config, Some(session)).image() == session,
{
}

/// Reloads are lossless: whenever a document boots from what the effects have
/// left for it, it holds the current snapshot, and announcing the `seq` that
/// it booted from leads to nothing. No such document is ever stale.
pub proof fn law_a_fresh_document_is_never_stale(core: CoreView, inputs: Seq<CoreInput>, seq: u64)
    requires
        seq == boot_after((core.station.seq, core.station.snapshot), core.performed(inputs)).0,
    ensures
        boot_after((core.station.seq, core.station.snapshot), core.performed(inputs)).1
            == core.reached(inputs).station.snapshot,
        core.reached(inputs).attached(seq) == core.reached(inputs).still(),
{
    lemma_run_follows(core, inputs);
}

/// The core never retries on its own: the keying layer is called for a chip
/// that was just presented and for nothing else, and an outcome is recorded
/// for a chip that was just keyed and for nothing else.
#[verifier::rlimit(30)]
pub proof fn law_every_attempt_is_a_tap(core: CoreView, input: CoreInput)
    ensures
        core.moved(input).next is KeyChip ==> (input matches CoreInput::Message { msg, .. }
            && msg is CardPresented),
        core.moved(input).next is RecordOutcome ==> input is ChipKeyed,
{
    reveal(CoreView::moved);
    match input {
        CoreInput::Message { msg, clock } => {
            lemma_only_a_presentation_is_keyed(core, msg, clock);
        },
        _ => {},
    }
}

#[verifier::rlimit(30)]
proof fn lemma_only_a_presentation_is_keyed(core: CoreView, msg: CoreMsg, clock: Clock)
    ensures
        core.handled(msg, clock).next is KeyChip ==> msg is CardPresented,
        !(core.handled(msg, clock).next is RecordOutcome),
{
}

}
