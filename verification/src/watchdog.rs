//! Watchdog: recovers the page, never the state, and never hides a failure.
//!
//! Every recovery has a reason and a number. Past the cap the watchdog stops
//! recovering and a fault screen stays up: a station that is down and says so
//! beats one that flickers back to life while the operator watches.

use crate::text::{decimal, signed_decimal};
use vstd::prelude::*;

verus! {

#[derive(Debug, Clone, Copy, PartialEq, Eq, Structural)]
pub enum WatchdogEvent {
    /// The raw kind of a failed webview process.
    ProcessFailed(i32),
}

pub const KIND_BROWSER_PROCESS_EXITED: i32 = 0;

/// A page is taken for hung when its heartbeat is silent for longer.
pub const HEARTBEAT_LIMIT_MS: u64 = 30_000;

/// How often the watchdog looks at the heartbeat.
pub const CHECK_EVERY_S: u64 = 10;

/// Exit code when not even the fault screen can be created.
pub const EXIT_STORM: i32 = 70;

/// The recoveries that are allowed within the storm window.
pub const RECOVERY_LIMIT: usize = 3;

/// The storm window: a minute.
pub const RECOVERY_WINDOW_NS: u64 = 60_000_000_000;

pub open spec fn kind_name_of(kind: i32) -> Seq<char> {
    if kind == 0 {
        "browser process exited"@
    } else if kind == 1 {
        "render process exited"@
    } else if kind == 2 {
        "render process unresponsive"@
    } else if kind == 3 {
        "frame render process exited"@
    } else if kind == 4 {
        "utility process exited"@
    } else if kind == 5 {
        "sandbox helper exited"@
    } else if kind == 6 {
        "gpu process exited"@
    } else {
        "unknown process failure"@
    }
}

fn kind_name(kind: i32) -> (name: &'static str)
    ensures
        name@ == kind_name_of(kind),
{
    match kind {
        0 => "browser process exited",
        1 => "render process exited",
        2 => "render process unresponsive",
        3 => "frame render process exited",
        4 => "utility process exited",
        5 => "sandbox helper exited",
        6 => "gpu process exited",
        _ => "unknown process failure",
    }
}

/// Nanoseconds from one reading of a clock to another; none, if the second is
/// the earlier one.
pub open spec fn elapsed(from: u64, to: u64) -> u64 {
    if to >= from {
        (to - from) as u64
    } else {
        0
    }
}

/// The recoveries that still count at `now`: those within the window.
pub open spec fn within(events: Seq<u64>, now: u64, window: u64) -> Seq<u64>
    decreases events.len(),
{
    if events.len() == 0 {
        Seq::empty()
    } else {
        let rest = within(events.drop_last(), now, window);
        if elapsed(events.last(), now) < window {
            rest.push(events.last())
        } else {
            rest
        }
    }
}

/// Recovery-storm gate: at most `limit` recoveries within a window.
#[derive(Debug)]
pub struct StormGate {
    pub window_ns: u64,
    pub limit: usize,
    pub events: Vec<u64>,
}

impl StormGate {
    pub fn new(window_ns: u64, limit: usize) -> (gate: StormGate)
        ensures
            gate.window_ns == window_ns,
            gate.limit == limit,
            gate.events@.len() == 0,
    {
        StormGate { window_ns, limit, events: Vec::new() }
    }

    /// Registers a recovery attempt at `now_ns` and answers its number within
    /// the window and whether it is allowed. Once it is not, recovering stops.
    pub fn admit_at(&mut self, now_ns: u64) -> (admitted: (usize, bool))
        ensures
            final(self).window_ns == old(self).window_ns,
            final(self).limit == old(self).limit,
            final(self).events@ == within(
                old(self).events@.push(now_ns),
                now_ns,
                old(self).window_ns,
            ),
            admitted.0 == final(self).events@.len(),
            admitted.1 == (admitted.0 <= old(self).limit),
    {
        self.events.push(now_ns);
        let ghost all = self.events@;
        let mut kept: Vec<u64> = Vec::new();
        let mut i: usize = 0;
        while i < self.events.len()
            invariant
                i <= self.events.len(),
                self.events@ == all,
                self.window_ns == old(self).window_ns,
                self.limit == old(self).limit,
                kept@ == within(all.take(i as int), now_ns, self.window_ns),
            decreases self.events.len() - i,
        {
            let t: u64 = self.events[i];
            assert(all.take(i + 1).drop_last() =~= all.take(i as int));
            if now_ns.saturating_sub(t) < self.window_ns {
                kept.push(t);
            }
            i = i + 1;
        }
        assert(all.take(i as int) =~= all);
        self.events = kept;
        let n: usize = self.events.len();
        (n, n <= self.limit)
    }
}

/// Page heartbeat, on a clock that never goes back: a wall clock that is set
/// forward would fake a silent page. Times are milliseconds since the tracker
/// was made.
#[derive(Debug)]
pub struct Heartbeat {
    pub last_ms: u64,
}

impl Heartbeat {
    pub fn new() -> (heartbeat: Heartbeat)
        ensures
            heartbeat.last_ms == 0,
    {
        Heartbeat { last_ms: 0 }
    }

    /// A beat, `elapsed_ms` after the start.
    pub fn touch(&mut self, elapsed_ms: u64)
        ensures
            final(self).last_ms == elapsed_ms,
    {
        self.last_ms = elapsed_ms;
    }

    /// How long the last beat is ago.
    pub fn age_ms(&self, elapsed_ms: u64) -> (age: u64)
        ensures
            age == elapsed(self.last_ms, elapsed_ms),
    {
        elapsed_ms.saturating_sub(self.last_ms)
    }
}

/// What the watchdog has done.
#[derive(Debug, PartialEq, Eq)]
pub enum Recovery {
    /// Reload the document in the window that is there.
    Reload { attempt: usize, reason: String },
    /// Destroy the main window and create it anew.
    Recreate { attempt: usize, reason: String },
    /// The cap is exceeded: put the fault screen up and stop.
    Fault { attempt: usize, reason: String },
}

pub ghost enum RecoveryView {
    Reload { attempt: nat, reason: Seq<char> },
    Recreate { attempt: nat, reason: Seq<char> },
    Fault { attempt: nat, reason: Seq<char> },
}

impl View for Recovery {
    type V = RecoveryView;

    open spec fn view(&self) -> RecoveryView {
        match *self {
            Recovery::Reload { attempt, reason } => RecoveryView::Reload {
                attempt: attempt as nat,
                reason: reason@,
            },
            Recovery::Recreate { attempt, reason } => RecoveryView::Recreate {
                attempt: attempt as nat,
                reason: reason@,
            },
            Recovery::Fault { attempt, reason } => RecoveryView::Fault {
                attempt: attempt as nat,
                reason: reason@,
            },
        }
    }
}

impl DeepView for Recovery {
    type V = RecoveryView;

    open spec fn deep_view(&self) -> RecoveryView {
        self@
    }
}

/// The reason of a failed process.
pub open spec fn failure_reason(kind: i32) -> Seq<char> {
    kind_name_of(kind) + " (kind "@ + crate::text::signed_decimal_of(kind as int) + ")"@
}

/// The reason of a silent page.
pub open spec fn silence_reason(age_ms: u64) -> Seq<char> {
    "page heartbeat silent for "@ + crate::text::decimal_of(age_ms as nat) + "ms"@
}

/// The watchdog's decisions. Once it has put the fault screen up, it recovers
/// nothing any more.
#[derive(Debug)]
pub struct Watchdog {
    pub gate: StormGate,
    /// The fault screen is up.
    pub down: bool,
}

#[verifier::ext_equal]
pub ghost struct WatchdogView {
    pub window_ns: u64,
    pub limit: nat,
    pub events: Seq<u64>,
    pub down: bool,
}

impl View for Watchdog {
    type V = WatchdogView;

    open spec fn view(&self) -> WatchdogView {
        WatchdogView {
            window_ns: self.gate.window_ns,
            limit: self.gate.limit as nat,
            events: self.gate.events@,
            down: self.down,
        }
    }
}

impl WatchdogView {
    pub open spec fn initial() -> WatchdogView {
        WatchdogView {
            window_ns: RECOVERY_WINDOW_NS,
            limit: RECOVERY_LIMIT as nat,
            events: Seq::empty(),
            down: false,
        }
    }

    /// The recoveries that count at `now_ns`, one at that moment included.
    pub open spec fn attempts(self, now_ns: u64) -> Seq<u64> {
        within(self.events.push(now_ns), now_ns, self.window_ns)
    }

    /// The watchdog after a failure at `now_ns`.
    pub open spec fn after_failure(self, now_ns: u64) -> WatchdogView {
        if self.down {
            self
        } else {
            WatchdogView {
                events: self.attempts(now_ns),
                down: self.attempts(now_ns).len() > self.limit,
                ..self
            }
        }
    }

    /// A failure at `now_ns` is recovered from.
    pub open spec fn recovers(self, now_ns: u64) -> bool {
        !self.down && self.attempts(now_ns).len() <= self.limit
    }

    /// What is done about a failure at `now_ns`.
    pub open spec fn recovery(self, recreate: bool, reason: Seq<char>, now_ns: u64) -> Option<
        RecoveryView,
    > {
        let attempt = self.attempts(now_ns).len();
        if self.down {
            None
        } else if attempt > self.limit {
            Some(RecoveryView::Fault { attempt, reason })
        } else if recreate {
            Some(RecoveryView::Recreate { attempt, reason })
        } else {
            Some(RecoveryView::Reload { attempt, reason })
        }
    }
}

impl Watchdog {
    pub fn new() -> (watchdog: Watchdog)
        ensures
            watchdog@ == WatchdogView::initial(),
    {
        Watchdog { gate: StormGate::new(RECOVERY_WINDOW_NS, RECOVERY_LIMIT), down: false }
    }

    fn recover(&mut self, recreate: bool, reason: String, now_ns: u64) -> (recovery: Option<
        Recovery,
    >)
        ensures
            final(self)@ == old(self)@.after_failure(now_ns),
            recovery.deep_view() == old(self)@.recovery(recreate, reason@, now_ns),
    {
        if self.down {
            return None;
        }
        let (attempt, allowed) = self.gate.admit_at(now_ns);
        if !allowed {
            self.down = true;
            Some(Recovery::Fault { attempt, reason })
        } else if recreate {
            Some(Recovery::Recreate { attempt, reason })
        } else {
            Some(Recovery::Reload { attempt, reason })
        }
    }

    /// A webview process failed. Only the loss of the browser process takes
    /// the window with it; after any other the document is reloaded.
    pub fn on_event(&mut self, event: WatchdogEvent, now_ns: u64) -> (recovery: Option<Recovery>)
        ensures
            final(self)@ == old(self)@.after_failure(now_ns),
            event matches WatchdogEvent::ProcessFailed(kind) && recovery.deep_view()
                == old(self)@.recovery(
                kind == KIND_BROWSER_PROCESS_EXITED,
                failure_reason(kind),
                now_ns,
            ),
    {
        let WatchdogEvent::ProcessFailed(kind) = event;
        let number = signed_decimal(kind);
        let reason = kind_name(kind).to_owned().concat(" (kind ").concat(number.as_str()).concat(
            ")",
        );
        self.recover(kind == KIND_BROWSER_PROCESS_EXITED, reason, now_ns)
    }

    /// The regular look at the heartbeat. A page that has been silent for too
    /// long is reloaded, and counted as beating now, so that the recovery gets
    /// its time.
    pub fn on_check(&mut self, heartbeat: &mut Heartbeat, elapsed_ms: u64, now_ns: u64) -> (recovery:
        Option<Recovery>)
        ensures
            ({
                let age = elapsed(old(heartbeat).last_ms, elapsed_ms);
                if age > HEARTBEAT_LIMIT_MS {
                    &&& final(heartbeat).last_ms == elapsed_ms
                    &&& final(self)@ == old(self)@.after_failure(now_ns)
                    &&& recovery.deep_view() == old(self)@.recovery(
                        false,
                        silence_reason(age),
                        now_ns,
                    )
                } else {
                    &&& *final(heartbeat) == *old(heartbeat)
                    &&& final(self)@ == old(self)@
                    &&& recovery is None
                }
            }),
    {
        let age: u64 = heartbeat.age_ms(elapsed_ms);
        if age > HEARTBEAT_LIMIT_MS {
            heartbeat.touch(elapsed_ms);
            let number = decimal(age);
            let reason = "page heartbeat silent for ".to_owned().concat(number.as_str()).concat(
                "ms",
            );
            self.recover(false, reason, now_ns)
        } else {
            None
        }
    }
}

proof fn lemma_within_is_recent(events: Seq<u64>, now: u64, window: u64)
    ensures
        forall|i: int|
            0 <= i < within(events, now, window).len() ==> elapsed(
                #[trigger] within(events, now, window)[i],
                now,
            ) < window,
        within(events, now, window).len() <= events.len(),
    decreases events.len(),
{
    if events.len() > 0 {
        lemma_within_is_recent(events.drop_last(), now, window);
    }
}

/// Recoveries are capped: something is done about a failure, and it is not the
/// fault screen, exactly when `recovers` says so, and what is done then is one
/// of at most `limit` recoveries within the window that ends with it.
pub proof fn law_recoveries_are_capped(
    watchdog: WatchdogView,
    recreate: bool,
    reason: Seq<char>,
    now_ns: u64,
)
    ensures
        ({
            let attempts = watchdog.attempts(now_ns);
            let recovery = watchdog.recovery(recreate, reason, now_ns);
            &&& watchdog.recovers(now_ns) <==> recovery is Some && !(recovery->0 is Fault)
            &&& watchdog.recovers(now_ns) ==> attempts.len() <= watchdog.limit
            &&& forall|i: int|
                0 <= i < attempts.len() ==> elapsed(#[trigger] attempts[i], now_ns)
                    < watchdog.window_ns
        }),
{
    lemma_within_is_recent(watchdog.events.push(now_ns), now_ns, watchdog.window_ns);
}

/// Times that a clock which never goes back gives in this order.
pub open spec fn in_order(times: Seq<u64>) -> bool {
    forall|i: int, j: int| 0 <= i <= j < times.len() ==> times[i] <= times[j]
}

/// What a storm gate remembers after attempts at `times`, one call for each,
/// from nothing.
pub open spec fn remembered(times: Seq<u64>, window: u64) -> Seq<u64>
    decreases times.len(),
{
    if times.len() == 0 {
        Seq::empty()
    } else {
        within(
            remembered(times.drop_last(), window).push(times.last()),
            times.last(),
            window,
        )
    }
}

/// How many of the attempts at `times` a storm gate allowed in the span of one
/// window that starts with `from`.
pub open spec fn allowed_in_span(times: Seq<u64>, window: u64, limit: nat, from: int) -> nat
    decreases times.len(),
{
    if times.len() == 0 {
        0
    } else {
        let rest = allowed_in_span(times.drop_last(), window, limit, from);
        if from <= times.last() < from + window && remembered(times, window).len() <= limit {
            rest + 1
        } else {
            rest
        }
    }
}

proof fn lemma_order_of_the_rest(times: Seq<u64>)
    requires
        times.len() > 0,
        in_order(times),
    ensures
        in_order(times.drop_last()),
{
    let rest = times.drop_last();
    assert forall|i: int, j: int| 0 <= i <= j < rest.len() implies rest[i] <= rest[j] by {
        assert(rest[i] == times[i] && rest[j] == times[j]);
    }
}

/// What is out of the window stays out of it.
proof fn lemma_within_again(events: Seq<u64>, earlier: u64, now: u64, window: u64)
    requires
        earlier <= now,
    ensures
        within(within(events, earlier, window), now, window) == within(events, now, window),
    decreases events.len(),
{
    if events.len() > 0 {
        let rest = events.drop_last();
        lemma_within_again(rest, earlier, now, window);
        let kept = within(rest, earlier, window);
        assert(kept.push(events.last()).drop_last() =~= kept);
    }
}

proof fn lemma_remembered_is_the_window(times: Seq<u64>, window: u64)
    requires
        times.len() > 0,
        in_order(times),
    ensures
        remembered(times, window) == within(times, times.last(), window),
    decreases times.len(),
{
    let rest = times.drop_last();
    let now = times.last();
    let before = remembered(rest, window);
    assert(before.push(now).drop_last() =~= before);
    if rest.len() > 0 {
        lemma_order_of_the_rest(times);
        lemma_remembered_is_the_window(rest, window);
        assert(rest.last() == times[times.len() - 2]);
        lemma_within_again(rest, rest.last(), now, window);
    } else {
        assert(before =~= rest);
    }
    assert(within(before, now, window) == within(rest, now, window));
}

proof fn lemma_within_is_a_filter(events: Seq<u64>, now: u64, window: u64)
    requires
        forall|i: int| 0 <= i < events.len() ==> #[trigger] events[i] <= now,
    ensures
        within(events, now, window) == events.filter(|t: u64| now - t < window),
    decreases events.len(),
{
    reveal(Seq::filter);
    if events.len() > 0 {
        let rest = events.drop_last();
        assert forall|i: int| 0 <= i < rest.len() implies #[trigger] rest[i] <= now by {
            assert(rest[i] == events[i]);
        }
        assert(events[events.len() - 1] <= now);
        lemma_within_is_a_filter(rest, now, window);
    }
}

/// The number of an attempt counts every attempt within the window that ends
/// with it, itself and the refused ones included, and no other: a gate that
/// was called at `times`, and is called at `now` next, remembers exactly
/// those, and their number is what it answers.
pub proof fn law_the_number_counts_the_window(
    events: Seq<u64>,
    times: Seq<u64>,
    now: u64,
    window: u64,
)
    requires
        events == remembered(times, window),
        in_order(times.push(now)),
    ensures
        within(events.push(now), now, window) == remembered(times.push(now), window),
        within(events.push(now), now, window) == times.push(now).filter(
            |t: u64| now - t < window,
        ),
{
    let all = times.push(now);
    assert(all.drop_last() =~= times);
    assert(all[all.len() - 1] == now);
    lemma_remembered_is_the_window(all, window);
    lemma_within_is_a_filter(all, now, window);
}

proof fn lemma_span_fits_the_window(
    times: Seq<u64>,
    window: u64,
    limit: nat,
    from: int,
    now: u64,
)
    requires
        forall|i: int| 0 <= i < times.len() ==> #[trigger] times[i] <= now,
        now < from + window,
    ensures
        allowed_in_span(times, window, limit, from) <= within(times, now, window).len(),
    decreases times.len(),
{
    if times.len() > 0 {
        let rest = times.drop_last();
        assert forall|i: int| 0 <= i < rest.len() implies #[trigger] rest[i] <= now by {
            assert(rest[i] == times[i]);
        }
        assert(times[times.len() - 1] <= now);
        lemma_span_fits_the_window(rest, window, limit, from, now);
    }
}

/// A storm is capped whenever it is looked at: no span as long as the window
/// holds more than `limit` allowed attempts, wherever it starts and however
/// many attempts there were.
pub proof fn law_no_span_holds_more_than_the_limit(
    times: Seq<u64>,
    window: u64,
    limit: nat,
    from: int,
)
    requires
        in_order(times),
    ensures
        allowed_in_span(times, window, limit, from) <= limit,
    decreases times.len(),
{
    if times.len() > 0 {
        let now = times.last();
        lemma_order_of_the_rest(times);
        law_no_span_holds_more_than_the_limit(times.drop_last(), window, limit, from);
        if from <= now < from + window && remembered(times, window).len() <= limit {
            lemma_remembered_is_the_window(times, window);
            lemma_span_fits_the_window(times, window, limit, from, now);
        }
    }
}

impl WatchdogView {
    /// The watchdog after failures at `times`.
    pub open spec fn after_failures(self, times: Seq<u64>) -> WatchdogView
        decreases times.len(),
    {
        if times.len() == 0 {
            self
        } else {
            self.after_failures(times.drop_last()).after_failure(times.last())
        }
    }

    /// How many of the failures at `times` were recovered from in the span of
    /// one window that starts with `from`.
    pub open spec fn recoveries_in_span(self, times: Seq<u64>, from: int) -> nat
        decreases times.len(),
    {
        if times.len() == 0 {
            0
        } else {
            let rest = self.recoveries_in_span(times.drop_last(), from);
            if from <= times.last() < from + self.window_ns && self.after_failures(
                times.drop_last(),
            ).recovers(times.last()) {
                rest + 1
            } else {
                rest
            }
        }
    }
}

proof fn lemma_recoveries_are_allowed(times: Seq<u64>, from: int)
    ensures
        ({
            let initial = WatchdogView::initial();
            let now = initial.after_failures(times);
            &&& now.window_ns == initial.window_ns
            &&& now.limit == initial.limit
            &&& !now.down ==> now.events == remembered(times, initial.window_ns)
            &&& initial.recoveries_in_span(times, from) <= allowed_in_span(
                times,
                initial.window_ns,
                initial.limit,
                from,
            )
        }),
    decreases times.len(),
{
    if times.len() > 0 {
        lemma_recoveries_are_allowed(times.drop_last(), from);
    }
}

/// The page does not flicker: from the watchdog's start on, no minute holds
/// more than three recoveries, whatever fails and when.
pub proof fn law_no_minute_holds_more_recoveries_than_the_limit(times: Seq<u64>, from: int)
    requires
        in_order(times),
    ensures
        WatchdogView::initial().recoveries_in_span(times, from) <= RECOVERY_LIMIT,
{
    lemma_recoveries_are_allowed(times, from);
    law_no_span_holds_more_than_the_limit(
        times,
        RECOVERY_WINDOW_NS,
        RECOVERY_LIMIT as nat,
        from,
    );
}

/// The fault state is final: past the cap there is one fault screen and no
/// recovery ever again.
pub proof fn law_a_fault_is_final(
    watchdog: WatchdogView,
    recreate: bool,
    reason: Seq<char>,
    now_ns: u64,
    recreate_later: bool,
    reason_later: Seq<char>,
    later_ns: u64,
)
    requires
        watchdog.recovery(recreate, reason, now_ns) matches Some(r) && r is Fault,
    ensures
        ({
            let down = watchdog.after_failure(now_ns);
            &&& down.recovery(recreate_later, reason_later, later_ns) is None
            &&& down.after_failure(later_ns) == down
        }),
{
}

/// Old failures do not poison a later recovery: one that comes when all
/// earlier ones are out of the window is the first again.
pub proof fn law_old_failures_are_forgotten(events: Seq<u64>, now: u64, window: u64)
    requires
        window > 0,
        forall|i: int| 0 <= i < events.len() ==> elapsed(#[trigger] events[i], now) >= window,
    ensures
        within(events.push(now), now, window) == seq![now],
{
    assert(events.push(now).drop_last() =~= events);
    lemma_none_within(events, now, window);
}

proof fn lemma_none_within(events: Seq<u64>, now: u64, window: u64)
    requires
        forall|i: int| 0 <= i < events.len() ==> elapsed(#[trigger] events[i], now) >= window,
    ensures
        within(events, now, window).len() == 0,
    decreases events.len(),
{
    if events.len() > 0 {
        assert(elapsed(events[events.len() - 1], now) >= window);
        assert forall|i: int| 0 <= i < events.drop_last().len() implies elapsed(
            #[trigger] events.drop_last()[i],
            now,
        ) >= window by {
            assert(events[i] == events.drop_last()[i]);
        }
        lemma_none_within(events.drop_last(), now, window);
    }
}

/// What is done about a failure has its number and its reason. The window is
/// made anew exactly where that was called for and recovery is still allowed.
pub proof fn law_a_recovery_has_its_reason(
    watchdog: WatchdogView,
    recreate: bool,
    reason: Seq<char>,
    now_ns: u64,
)
    ensures
        ({
            let attempt = within(
                watchdog.events.push(now_ns),
                now_ns,
                watchdog.window_ns,
            ).len();
            let recovery = watchdog.recovery(recreate, reason, now_ns);
            let after = watchdog.after_failure(now_ns);
            &&& watchdog.down ==> recovery is None && after == watchdog
            &&& !watchdog.down ==> {
                &&& attempt > watchdog.limit ==> recovery == Some(
                    RecoveryView::Fault { attempt, reason },
                )
                &&& attempt <= watchdog.limit && recreate ==> recovery == Some(
                    RecoveryView::Recreate { attempt, reason },
                )
                &&& attempt <= watchdog.limit && !recreate ==> recovery == Some(
                    RecoveryView::Reload { attempt, reason },
                )
                &&& after.down <==> attempt > watchdog.limit
                &&& after.window_ns == watchdog.window_ns && after.limit == watchdog.limit
            }
        }),
{
}

/// Three recoveries in a minute, to begin with none.
pub proof fn law_the_watchdog_starts_with_a_clean_record(watchdog: Watchdog)
    requires
        call_ensures(Watchdog::new, (), watchdog),
    ensures
        watchdog@.window_ns == 60_000_000_000,
        watchdog@.limit == 3,
        watchdog@.events.len() == 0,
        !watchdog@.down,
{
}

/// Only the loss of the browser process takes the window with it.
pub proof fn law_only_a_lost_browser_is_recreated(kind: i32, now_ns: u64)
    ensures
        forall|watchdog: &mut Watchdog, recovery: Option<Recovery>| #[trigger]
            call_ensures(
                Watchdog::on_event,
                (watchdog, WatchdogEvent::ProcessFailed(kind), now_ns),
                recovery,
            ) ==> {
                &&& recovery is Some <==> !(*watchdog)@.down
                &&& recovery matches Some(Recovery::Recreate { .. }) ==> kind == 0
                &&& recovery matches Some(Recovery::Reload { .. }) ==> kind != 0
                &&& (*final(watchdog))@ == (*watchdog)@.after_failure(now_ns)
            },
{
}

/// A page is recovered when it has been silent for more than half a minute, and
/// then counts as beating; up to that nothing happens at all.
pub proof fn law_a_page_is_hung_after_half_a_minute(elapsed_ms: u64, now_ns: u64)
    ensures
        forall|watchdog: &mut Watchdog, heartbeat: &mut Heartbeat, recovery: Option<Recovery>|
            #[trigger] call_ensures(
                Watchdog::on_check,
                (watchdog, heartbeat, elapsed_ms, now_ns),
                recovery,
            ) ==> {
                let silent = elapsed_ms > (*heartbeat).last_ms + 30_000;
                &&& !silent ==> recovery is None && *final(heartbeat) == *heartbeat
                    && (*final(watchdog))@ == (*watchdog)@
                &&& silent ==> {
                    &&& (*final(heartbeat)).last_ms == elapsed_ms
                    &&& (*final(watchdog))@ == (*watchdog)@.after_failure(now_ns)
                    &&& recovery is Some <==> !(*watchdog)@.down
                    &&& !(recovery matches Some(Recovery::Recreate { .. }))
                }
            },
{
}

/// The kinds of failure that there are have names, and no others.
pub proof fn law_unknown_failures_are_called_so(kind: i32)
    ensures
        kind_name_of(kind) == "unknown process failure"@ <==> kind < 0 || kind > 6,
        failure_reason(kind) == kind_name_of(kind) + " (kind "@ + (if kind < 0 {
            seq!['-'] + crate::text::decimal_of((-kind) as nat)
        } else {
            crate::text::decimal_of(kind as nat)
        }) + ")"@,
{
    reveal_strlit("browser process exited");
    reveal_strlit("render process exited");
    reveal_strlit("render process unresponsive");
    reveal_strlit("frame render process exited");
    reveal_strlit("utility process exited");
    reveal_strlit("sandbox helper exited");
    reveal_strlit("gpu process exited");
    reveal_strlit("unknown process failure");
    assert("unknown process failure"@.len() == 23);
    assert("browser process exited"@.len() == 22 && "utility process exited"@.len() == 22);
    assert("render process exited"@.len() == 21 && "sandbox helper exited"@.len() == 21);
    assert("render process unresponsive"@.len() == 27 && "frame render process exited"@.len()
        == 27);
    assert("gpu process exited"@.len() == 18);
}

/// A gate answers the number of an attempt within its window and whether that
/// is within its limit, and starts with none.
pub proof fn law_a_gate_answers_the_number(
    window_ns: u64,
    limit: usize,
    gate: StormGate,
    now_ns: u64,
)
    requires
        call_ensures(StormGate::new, (window_ns, limit), gate),
    ensures
        gate.window_ns == window_ns && gate.limit == limit && gate.events@ == remembered(
            Seq::empty(),
            window_ns,
        ),
        forall|g: &mut StormGate, admitted: (usize, bool)| #[trigger]
            call_ensures(StormGate::admit_at, (g, now_ns), admitted) ==> {
                &&& admitted.0 == within(
                    (*g).events@.push(now_ns),
                    now_ns,
                    (*g).window_ns,
                ).len()
                &&& admitted.1 <==> admitted.0 <= (*g).limit
                &&& (*final(g)).limit == (*g).limit && (*final(g)).window_ns == (*g).window_ns
                &&& (*final(g)).events@ == within(
                    (*g).events@.push(now_ns),
                    now_ns,
                    (*g).window_ns,
                )
            },
{
}

/// A beat is as old as the time since it, and a fresh tracker has beaten at its
/// start.
pub proof fn law_a_beat_ages(fresh: Heartbeat, beat: Heartbeat, elapsed_ms: u64, age: u64)
    requires
        call_ensures(Heartbeat::new, (), fresh),
        call_ensures(Heartbeat::age_ms, (&beat, elapsed_ms), age),
    ensures
        fresh.last_ms == 0,
        elapsed_ms >= beat.last_ms ==> age == elapsed_ms - beat.last_ms,
        elapsed_ms < beat.last_ms ==> age == 0,
        forall|h: &mut Heartbeat| #[trigger]
            call_ensures(Heartbeat::touch, (h, elapsed_ms), ()) ==> (*final(h)).last_ms
                == elapsed_ms,
        EXIT_STORM == 70 && CHECK_EVERY_S == 10,
{
}

/// A silent page's reason says for how long it has been.
pub proof fn law_silence_is_told_in_milliseconds(age_ms: u64)
    ensures
        silence_reason(age_ms) == "page heartbeat silent for "@ + crate::text::decimal_of(
            age_ms as nat,
        ) + "ms"@,
{
}

/// The views of the watchdog and its recoveries show every field as it is.
pub proof fn law_recoveries_are_shown_as_they_are(watchdog: Watchdog, recovery: Recovery)
    ensures
        watchdog@.window_ns == watchdog.gate.window_ns && watchdog@.limit == watchdog.gate.limit
            && watchdog@.events == watchdog.gate.events@ && watchdog@.down == watchdog.down,
        match recovery {
            Recovery::Reload { attempt, reason } => recovery@ == (RecoveryView::Reload {
                attempt: attempt as nat,
                reason: reason@,
            }),
            Recovery::Recreate { attempt, reason } => recovery@ == (RecoveryView::Recreate {
                attempt: attempt as nat,
                reason: reason@,
            }),
            Recovery::Fault { attempt, reason } => recovery@ == (RecoveryView::Fault {
                attempt: attempt as nat,
                reason: reason@,
            }),
        },
{
}

}
