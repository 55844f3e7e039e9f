//! The exit chord: its hold, the proof that it is delivered, and the guided
//! check of a keyboard.
//!
//! Arming is a proof, not a claim: a synthetic tap of the real chord has to
//! come back through the whole chain before a launch that asked for the chord
//! is trusted. The chord fires only when it is held; a tap never does, so what
//! is proved is what a human later presses.

use vstd::prelude::*;

verus! {

/// Exit code when the chord was asked for and its delivery could not be
/// verified.
pub const EXIT_UNVERIFIED: i32 = 71;

/// How long the chord must be held, without a break, to fire.
pub const HOLD_MS: u64 = 2000;

/// How long the event loop gets to settle before the synthetic tap.
pub const SETTLE_MS: u64 = 300;

#[derive(Debug, Clone, Copy, PartialEq, Eq, Structural)]
pub struct DevExitFlags {
    /// A press of the chord reached its handler.
    pub delivery_seen: bool,
    /// A full hold was completed.
    pub chord_held: bool,
}

/// What a completed hold leads to.
#[derive(Debug, Clone, Copy, PartialEq, Eq, Structural)]
pub enum HoldOutcome {
    /// Not a hold: released in between, or the keys are up.
    Nothing,
    /// The guided check takes note of it.
    Reported,
    Exit,
}

/// The chord's state. Each press that starts a hold has a number of its own,
/// by which its timer finds out whether it is still the one.
#[derive(Debug, Clone, Copy, PartialEq, Eq, Structural)]
pub struct Hold {
    pub gen: u64,
    /// The number of the press while the chord is down.
    pub pressed: Option<u64>,
    pub flags: DevExitFlags,
    /// The guided check reports a hold instead of exiting.
    pub probe: bool,
}

impl Hold {
    pub open spec fn next_gen(self) -> u64 {
        if self.gen == u64::MAX {
            0
        } else {
            (self.gen + 1) as u64
        }
    }

    /// A press: the first starts a hold, the ones that the keyboard repeats
    /// keep its deadline.
    pub open spec fn after_press(self) -> Hold {
        let seen = DevExitFlags { delivery_seen: true, ..self.flags };
        if self.pressed is Some {
            Hold { flags: seen, ..self }
        } else {
            Hold {
                gen: self.next_gen(),
                pressed: Some(self.next_gen()),
                flags: seen,
                ..self
            }
        }
    }

    pub open spec fn after_release(self) -> Hold {
        Hold { pressed: None, ..self }
    }

    /// The press of that number is still down, and so are the keys.
    pub open spec fn held(self, gen: u64, keys_down: bool) -> bool {
        self.pressed == Some(gen) && keys_down
    }

    pub fn new(probe: bool) -> (hold: Hold)
        ensures
            hold == (Hold {
                gen: 0,
                pressed: None,
                flags: DevExitFlags { delivery_seen: false, chord_held: false },
                probe,
            }),
    {
        Hold {
            gen: 0,
            pressed: None,
            flags: DevExitFlags { delivery_seen: false, chord_held: false },
            probe,
        }
    }

    /// The chord is pressed. A number means that a hold starts now: its timer
    /// is due after `HOLD_MS`.
    pub fn press(&mut self) -> (started: Option<u64>)
        ensures
            *final(self) == old(self).after_press(),
            started == (if old(self).pressed is Some {
                None
            } else {
                Some(old(self).next_gen())
            }),
    {
        self.flags.delivery_seen = true;
        if self.pressed.is_some() {
            return None;
        }
        self.gen = self.gen.wrapping_add(1);
        self.pressed = Some(self.gen);
        Some(self.gen)
    }

    /// The chord is released.
    pub fn release(&mut self)
        ensures
            *final(self) == old(self).after_release(),
    {
        self.pressed = None;
    }

    /// The timer of a press is over. It fires only if that press is still down
    /// and the keys are down at this instant: a lost release or a ghost press
    /// never fires.
    pub fn timer_over(&mut self, gen: u64, keys_down: bool) -> (outcome: HoldOutcome)
        ensures
            outcome == (if !old(self).held(gen, keys_down) {
                HoldOutcome::Nothing
            } else if old(self).probe {
                HoldOutcome::Reported
            } else {
                HoldOutcome::Exit
            }),
            *final(self) == (Hold {
                flags: DevExitFlags {
                    chord_held: old(self).flags.chord_held || outcome == HoldOutcome::Reported,
                    ..old(self).flags
                },
                ..*old(self)
            }),
    {
        if self.pressed != Some(gen) || !keys_down {
            return HoldOutcome::Nothing;
        }
        if self.probe {
            self.flags.chord_held = true;
            HoldOutcome::Reported
        } else {
            HoldOutcome::Exit
        }
    }
}

/// A look at a flag.
#[derive(Debug, Clone, Copy, PartialEq, Eq, Structural)]
pub enum Polled {
    Seen,
    /// Look again after this long.
    Wait { ms: u64 },
    GaveUp,
}

/// A flag that is looked at again and again, for so many times.
#[derive(Debug, Clone, Copy, PartialEq, Eq, Structural)]
pub struct Poll {
    pub left: u32,
    pub every_ms: u64,
}

impl Poll {
    /// For the synthetic tap: two seconds.
    pub fn delivery() -> (poll: Poll)
        ensures
            poll == (Poll { left: 40, every_ms: 50 }),
    {
        Poll { left: 40, every_ms: 50 }
    }

    /// For a physical hold: fifteen seconds to start, the hold itself, and a
    /// little more.
    pub fn physical_hold() -> (poll: Poll)
        ensures
            poll == (Poll { left: 175, every_ms: 100 }),
    {
        Poll { left: 175, every_ms: 100 }
    }

    pub open spec fn ruling(self, seen: bool) -> Polled {
        if self.left == 0 {
            Polled::GaveUp
        } else if seen {
            Polled::Seen
        } else {
            Polled::Wait { ms: self.every_ms }
        }
    }

    pub open spec fn after(self, seen: bool) -> Poll {
        if self.left > 0 && !seen {
            Poll { left: (self.left - 1) as u32, ..self }
        } else {
            self
        }
    }

    /// One look.
    pub fn look(&mut self, seen: bool) -> (polled: Polled)
        ensures
            *final(self) == old(self).after(seen),
            polled == old(self).ruling(seen),
    {
        if self.left == 0 {
            return Polled::GaveUp;
        }
        if seen {
            return Polled::Seen;
        }
        self.left = self.left - 1;
        Polled::Wait { ms: self.every_ms }
    }

    /// After looking in vain `n` times.
    pub open spec fn after_vain(self, n: nat) -> Poll
        decreases n,
    {
        if n == 0 {
            self
        } else {
            self.after_vain((n - 1) as nat).after(false)
        }
    }
}

/// How an armed launch goes on, once the delivery of the chord is known: it
/// runs, or it exits at once.
pub fn arm_verified(delivered: bool) -> (exit: Option<i32>)
    ensures
        exit == (if delivered {
            None
        } else {
            Some(EXIT_UNVERIFIED)
        }),
{
    if delivered {
        None
    } else {
        Some(EXIT_UNVERIFIED)
    }
}

/// A stretch of the guided check: what to print, and how to exit, if it is
/// over.
#[derive(Debug)]
pub struct ExitProbeStep {
    pub lines: Vec<&'static str>,
    pub exit: Option<i32>,
}

/// How the guided check begins.
pub fn probe_start() -> (step: ExitProbeStep)
    ensures
        step.lines@ == seq!["EXIT PROBE — step 1/2: synthetic delivery check…"],
        step.exit is None,
{
    ExitProbeStep {
        lines: vec!["EXIT PROBE — step 1/2: synthetic delivery check…"],
        exit: None,
    }
}

/// The first step: without delivery the check has failed, and the second step
/// would prove nothing.
pub fn probe_delivered(delivered: bool) -> (step: ExitProbeStep)
    ensures
        delivered ==> step.exit is None && step.lines@ == seq![
            "step 1 OK — every software layer delivers.",
            "step 2/2: on the KEYBOARD, press AND HOLD Ctrl+Shift+F12 for 2 full",
            "seconds, starting within the next 15 seconds.",
            "KEYBOARD ONLY — the card reader plays no part in this probe; tapping",
            "a card does nothing here.",
            "(this proves the physical keyboard can form and sustain the chord)",
        ],
        !delivered ==> step.exit == Some(1i32) && step.lines@ == seq![
            "EXIT PROBE: FAIL — the synthetic chord tap never reached the handler.",
            "The hotkey pipeline is broken at the software layer on this machine.",
        ],
{
    if delivered {
        ExitProbeStep {
            lines: vec![
                "step 1 OK — every software layer delivers.",
                "step 2/2: on the KEYBOARD, press AND HOLD Ctrl+Shift+F12 for 2 full",
                "seconds, starting within the next 15 seconds.",
                "KEYBOARD ONLY — the card reader plays no part in this probe; tapping",
                "a card does nothing here.",
                "(this proves the physical keyboard can form and sustain the chord)",
            ],
            exit: None,
        }
    } else {
        ExitProbeStep {
            lines: vec![
                "EXIT PROBE: FAIL — the synthetic chord tap never reached the handler.",
                "The hotkey pipeline is broken at the software layer on this machine.",
            ],
            exit: Some(1),
        }
    }
}

/// The second step: a physical hold came through, or none did in time.
pub fn probe_held(held: bool) -> (step: ExitProbeStep)
    ensures
        held ==> step.exit == Some(0i32) && step.lines@ == seq![
            "EXIT PROBE: PASS — physical 2s hold received end-to-end.",
        ],
        !held ==> step.exit == Some(1i32) && step.lines@ == seq![
            "EXIT PROBE: FAIL — no completed 2s hold within the window.",
            "Synthetic delivery works, so the software chain is fine: either this",
            "keyboard cannot form/sustain Ctrl+Shift+F12 (rollover/ghosting) or",
            "something intercepts the physical press. Try another keyboard.",
        ],
{
    if held {
        ExitProbeStep {
            lines: vec!["EXIT PROBE: PASS — physical 2s hold received end-to-end."],
            exit: Some(0),
        }
    } else {
        ExitProbeStep {
            lines: vec![
                "EXIT PROBE: FAIL — no completed 2s hold within the window.",
                "Synthetic delivery works, so the software chain is fine: either this",
                "keyboard cannot form/sustain Ctrl+Shift+F12 (rollover/ghosting) or",
                "something intercepts the physical press. Try another keyboard.",
            ],
            exit: Some(1),
        }
    }
}

/// A tap never exits: once the chord was released, the timer of the press is
/// void, whatever is pressed later.
pub proof fn law_a_tap_never_fires(hold: Hold, keys_down: bool)
    requires
        hold.pressed is None,
    ensures
        ({
            let down = hold.after_press();
            let up = down.after_release();
            let again = up.after_press();
            &&& !up.held(hold.next_gen(), keys_down)
            &&& !again.held(hold.next_gen(), keys_down)
        }),
{
}

/// A hold fires with its own deadline, however often the keyboard repeats the
/// press.
pub proof fn law_key_repeat_keeps_the_deadline(hold: Hold)
    requires
        hold.pressed is None,
    ensures
        hold.after_press().after_press() == hold.after_press(),
        hold.after_press().after_press().held(hold.next_gen(), true),
{
}

/// Keys that are not physically down fire nothing.
pub proof fn law_ghost_presses_fire_nothing(hold: Hold, gen: u64)
    ensures
        !hold.held(gen, false),
{
}

/// A flag that never rises is given up on after as many looks as allowed, and
/// not before.
pub proof fn law_a_poll_ends(poll: Poll, n: nat)
    ensures
        n <= poll.left ==> poll.after_vain(n).left == poll.left - n,
        n >= poll.left ==> poll.after_vain(n).ruling(false) == Polled::GaveUp,
        n < poll.left ==> poll.after_vain(n).ruling(false) == (Polled::Wait { ms: poll.every_ms }),
        poll.after_vain(n).every_ms == poll.every_ms,
    decreases n,
{
    if n > 0 {
        law_a_poll_ends(poll, (n - 1) as nat);
    }
}

/// A press is seen, and starts a hold under a number of its own exactly if none
/// is on; a release ends it. What the guided check has noted stays noted.
pub proof fn law_a_press_starts_one_hold()
    ensures
        forall|hold: &mut Hold, started: Option<u64>| #[trigger]
            call_ensures(Hold::press, (hold,), started) ==> {
                let before = *hold;
                let after = *final(hold);
                &&& after.flags.delivery_seen
                &&& after.flags.chord_held == before.flags.chord_held
                &&& after.probe == before.probe
                &&& before.pressed is Some ==> started is None && after.pressed == before.pressed
                    && after.gen == before.gen
                &&& before.pressed is None ==> started is Some && after.pressed == started
                    && started == Some(after.gen) && after.gen != before.gen
            },
        forall|hold: &mut Hold| #[trigger]
            call_ensures(Hold::release, (hold,), ()) ==> *final(hold) == (Hold {
                pressed: None,
                ..*hold
            }),
{
}

/// The timer of a press fires exactly if that press is still down and the keys
/// are down with it: a station exits, the guided check takes note. Nothing else
/// changes.
pub proof fn law_a_hold_fires_only_while_it_lasts(gen: u64, keys_down: bool)
    ensures
        forall|hold: &mut Hold, outcome: HoldOutcome| #[trigger]
            call_ensures(Hold::timer_over, (hold, gen, keys_down), outcome) ==> {
                let before = *hold;
                let after = *final(hold);
                let held = before.pressed == Some(gen) && keys_down;
                &&& outcome == HoldOutcome::Exit <==> held && !before.probe
                &&& outcome == HoldOutcome::Reported <==> held && before.probe
                &&& outcome == HoldOutcome::Nothing <==> !held
                &&& after.flags.chord_held == (before.flags.chord_held || (held && before.probe))
                &&& after.flags.delivery_seen == before.flags.delivery_seen
                &&& after.pressed == before.pressed && after.gen == before.gen && after.probe
                    == before.probe
            },
        HOLD_MS == 2000 && SETTLE_MS == 300,
{
}

/// A chord that was not shown to arrive ends the launch with 71; one that was
/// ends nothing.
pub proof fn law_an_unproved_chord_is_refused(delivered: bool, exit: Option<i32>)
    requires
        call_ensures(arm_verified, (delivered,), exit),
    ensures
        delivered ==> exit is None,
        !delivered ==> exit == Some(71i32),
{
}

/// The guided check passes only with a delivery and then a physical hold: each
/// step that fails ends it with 1, and the last that succeeds with 0.
pub proof fn law_the_guided_check_passes_only_whole(
    delivered: bool,
    held: bool,
    start: ExitProbeStep,
    first: ExitProbeStep,
    second: ExitProbeStep,
)
    requires
        call_ensures(probe_start, (), start),
        call_ensures(probe_delivered, (delivered,), first),
        call_ensures(probe_held, (held,), second),
    ensures
        start.exit is None,
        delivered ==> first.exit is None,
        !delivered ==> first.exit == Some(1i32),
        held ==> second.exit == Some(0i32),
        !held ==> second.exit == Some(1i32),
{
}

/// A flag that is up when it is looked at in time is seen, and the look costs
/// nothing; one that is down costs a look. Delivery is waited for two seconds,
/// a physical hold seventeen and a half.
pub proof fn law_a_flag_is_seen_in_time(poll: Poll, seen: bool, delivery: Poll, hold: Poll)
    requires
        call_ensures(Poll::delivery, (), delivery),
        call_ensures(Poll::physical_hold, (), hold),
    ensures
        poll.ruling(seen) == Polled::Seen <==> seen && poll.left > 0,
        poll.ruling(seen) == Polled::GaveUp <==> poll.left == 0,
        seen ==> poll.after(seen) == poll,
        !seen && poll.left > 0 ==> poll.after(seen).left == poll.left - 1,
        delivery.left * delivery.every_ms == 2_000,
        hold.left * hold.every_ms == 17_500,
{
}

}
