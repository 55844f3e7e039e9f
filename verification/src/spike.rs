//! The reload spike: changes state and reloads the document, again and again.
//! Every fresh document has to boot from current truth.
//!
//! `Spike` says what to do; whoever runs it performs that and hands back how
//! it went.

use vstd::prelude::*;

verus! {

/// Before the first cycle the page gets this long to come up.
pub const SETTLE_MS: u64 = 2500;

/// How long a change gets to reach the page before the document is reloaded.
pub const SHOW_MS: u64 = 400;

/// How long a fresh document gets to boot.
pub const LOAD_MS: u64 = 900;

/// The batch that a cycle begins a shift on: the two take turns, so that every
/// cycle changes the state.
pub fn spike_batch(cycle: u32) -> (id: &'static str)
    ensures
        id@ == (if cycle % 2 == 0 {
            "b-tee-navy"@
        } else {
            "b-hoodie"@
        }),
{
    if cycle % 2 == 0 {
        "b-tee-navy"
    } else {
        "b-hoodie"
    }
}

/// The spike passes if no document ever booted from a stale snapshot.
pub open spec fn exit_code_of(stale_attaches: u64) -> i32 {
    if stale_attaches == 0 {
        0
    } else {
        1
    }
}

/// The exit code of a spike that ran all its cycles.
pub fn spike_exit_code(stale_attaches: u64) -> (code: i32)
    ensures
        code == exit_code_of(stale_attaches),
{
    if stale_attaches == 0 {
        0
    } else {
        1
    }
}

/// What the spike does next.
#[derive(Debug, Clone, Copy, PartialEq, Eq, Structural)]
pub enum SpikeAction {
    Wait { ms: u64 },
    /// Begin a shift on the batch of this cycle.
    Apply { cycle: u32 },
    /// Reload the document.
    Reload,
    /// Ask the core how many documents were stale.
    ReadState,
    Exit { code: i32 },
}

/// How that went.
#[derive(Debug, Clone, Copy, PartialEq, Eq, Structural)]
pub enum SpikeEvent {
    Done,
    Failed,
    /// The core's answer to `ReadState`.
    State { stale_attaches: u64 },
}

#[derive(Debug, Clone, Copy, PartialEq, Eq, Structural)]
pub enum SpikeStage {
    /// The page comes up.
    Settling,
    /// A shift is begun.
    Applying,
    /// The change reaches the page.
    Showing,
    /// The document is reloaded.
    Reloading,
    /// The fresh document boots.
    Loading,
    /// The core is asked.
    Reading,
    Over { code: i32 },
}

#[derive(Debug, Clone, Copy, PartialEq, Eq, Structural)]
pub struct Spike {
    pub cycles: u32,
    /// The cycles whose document has been reloaded.
    pub cycle: u32,
    pub stage: SpikeStage,
}

impl Spike {
    pub open spec fn fresh(cycles: u32) -> Spike {
        Spike { cycles, cycle: 0, stage: SpikeStage::Settling }
    }

    /// No cycle is begun beyond the last.
    pub open spec fn wf(self) -> bool {
        &&& self.cycle <= self.cycles
        &&& self.stage is Applying || self.stage is Showing || self.stage is Reloading
            ==> self.cycle < self.cycles
    }

    /// What a stage is there to do.
    pub open spec fn due_action(self) -> SpikeAction {
        match self.stage {
            SpikeStage::Settling => SpikeAction::Wait { ms: SETTLE_MS },
            SpikeStage::Applying => SpikeAction::Apply { cycle: self.cycle },
            SpikeStage::Showing => SpikeAction::Wait { ms: SHOW_MS },
            SpikeStage::Reloading => SpikeAction::Reload,
            SpikeStage::Loading => SpikeAction::Wait { ms: LOAD_MS },
            SpikeStage::Reading => SpikeAction::ReadState,
            SpikeStage::Over { code } => SpikeAction::Exit { code },
        }
    }

    pub open spec fn at(self, stage: SpikeStage) -> Spike {
        Spike { stage, ..self }
    }

    /// The next cycle, or the last question if there is none.
    pub open spec fn onwards(self) -> Spike {
        if self.cycle < self.cycles {
            self.at(SpikeStage::Applying)
        } else {
            self.at(SpikeStage::Reading)
        }
    }

    /// The spike after the due action went as `event` says. Whatever fails, and
    /// any answer that was not asked for, ends it with 1.
    pub open spec fn after(self, event: SpikeEvent) -> Spike {
        match (self.stage, event) {
            (SpikeStage::Over { .. }, _) => self,
            (SpikeStage::Reading, SpikeEvent::State { stale_attaches }) => self.at(
                SpikeStage::Over { code: exit_code_of(stale_attaches) },
            ),
            (SpikeStage::Settling, SpikeEvent::Done) => self.onwards(),
            (SpikeStage::Applying, SpikeEvent::Done) => self.at(SpikeStage::Showing),
            (SpikeStage::Showing, SpikeEvent::Done) => self.at(SpikeStage::Reloading),
            (SpikeStage::Reloading, SpikeEvent::Done) => Spike {
                cycle: (self.cycle + 1) as u32,
                stage: SpikeStage::Loading,
                ..self
            },
            (SpikeStage::Loading, SpikeEvent::Done) => self.onwards(),
            _ => self.at(SpikeStage::Over { code: 1 }),
        }
    }

    /// What is done after `event`.
    pub open spec fn action(self, event: SpikeEvent) -> SpikeAction {
        self.after(event).due_action()
    }

    pub fn new(cycles: u32) -> (spike: Spike)
        ensures
            spike == Spike::fresh(cycles),
            spike.wf(),
    {
        Spike { cycles, cycle: 0, stage: SpikeStage::Settling }
    }

    /// What to do now.
    pub fn due(&self) -> (action: SpikeAction)
        ensures
            action == self.due_action(),
    {
        match self.stage {
            SpikeStage::Settling => SpikeAction::Wait { ms: SETTLE_MS },
            SpikeStage::Applying => SpikeAction::Apply { cycle: self.cycle },
            SpikeStage::Showing => SpikeAction::Wait { ms: SHOW_MS },
            SpikeStage::Reloading => SpikeAction::Reload,
            SpikeStage::Loading => SpikeAction::Wait { ms: LOAD_MS },
            SpikeStage::Reading => SpikeAction::ReadState,
            SpikeStage::Over { code } => SpikeAction::Exit { code },
        }
    }

    /// Takes how the due action went, and answers what to do next.
    pub fn next(&mut self, event: SpikeEvent) -> (action: SpikeAction)
        requires
            old(self).wf(),
        ensures
            *final(self) == old(self).after(event),
            action == old(self).action(event),
            final(self).wf(),
    {
        match (self.stage, event) {
            (SpikeStage::Over { .. }, _) => {},
            (SpikeStage::Reading, SpikeEvent::State { stale_attaches }) => {
                self.stage = SpikeStage::Over { code: spike_exit_code(stale_attaches) };
            },
            (SpikeStage::Settling, SpikeEvent::Done) | (SpikeStage::Loading, SpikeEvent::Done) => {
                self.stage = if self.cycle < self.cycles {
                    SpikeStage::Applying
                } else {
                    SpikeStage::Reading
                };
            },
            (SpikeStage::Applying, SpikeEvent::Done) => {
                self.stage = SpikeStage::Showing;
            },
            (SpikeStage::Showing, SpikeEvent::Done) => {
                self.stage = SpikeStage::Reloading;
            },
            (SpikeStage::Reloading, SpikeEvent::Done) => {
                self.cycle = self.cycle + 1;
                self.stage = SpikeStage::Loading;
            },
            _ => {
                self.stage = SpikeStage::Over { code: 1 };
            },
        }
        self.due()
    }

    /// The spike after its first `n` actions, all of which succeeded.
    pub open spec fn after_done(self, n: nat) -> Spike
        decreases n,
    {
        if n == 0 {
            self
        } else {
            self.after_done((n - 1) as nat).after(SpikeEvent::Done)
        }
    }
}

/// The schedule of a spike in which nothing fails: the page comes up, then
/// each cycle begins a shift, waits, reloads and waits, one after the other and
/// each exactly once, and behind the last of them the core is asked.
pub proof fn law_the_spike_runs_every_cycle(cycles: u32, cycle: u32)
    requires
        cycle <= cycles,
    ensures
        ({
            let spike = Spike::fresh(cycles);
            let at = 4 * cycle as nat;
            &&& spike.after_done(0).due_action() == SpikeAction::Wait { ms: SETTLE_MS }
            &&& cycle < cycles ==> {
                &&& spike.after_done(at + 1).due_action() == SpikeAction::Apply { cycle }
                &&& spike.after_done(at + 2).due_action() == SpikeAction::Wait { ms: SHOW_MS }
                &&& spike.after_done(at + 3).due_action() == SpikeAction::Reload
                &&& spike.after_done(at + 4).due_action() == SpikeAction::Wait { ms: LOAD_MS }
            }
            &&& cycle == cycles ==> spike.after_done(at + 1).due_action() == SpikeAction::ReadState
        }),
{
    let spike = Spike::fresh(cycles);
    let at = 4 * cycle as nat;
    lemma_a_cycle_starts(cycles, cycle);
    assert(spike.after_done(at + 1) == spike.after_done(at).after(SpikeEvent::Done));
    assert(spike.after_done(at + 2) == spike.after_done(at + 1).after(SpikeEvent::Done));
    assert(spike.after_done(at + 3) == spike.after_done(at + 2).after(SpikeEvent::Done));
    assert(spike.after_done(at + 4) == spike.after_done(at + 3).after(SpikeEvent::Done));
}

proof fn lemma_a_cycle_starts(cycles: u32, cycle: u32)
    requires
        cycle <= cycles,
    ensures
        ({
            let start = Spike::fresh(cycles).after_done(4 * cycle as nat);
            &&& start.cycles == cycles
            &&& start.cycle == cycle
            &&& start.stage is Settling || start.stage is Loading
        }),
    decreases cycle,
{
    let spike = Spike::fresh(cycles);
    if cycle > 0 {
        let earlier = (cycle - 1) as u32;
        let at = 4 * earlier as nat;
        lemma_a_cycle_starts(cycles, earlier);
        assert(spike.after_done(at + 1) == spike.after_done(at).after(SpikeEvent::Done));
        assert(spike.after_done(at + 2) == spike.after_done(at + 1).after(SpikeEvent::Done));
        assert(spike.after_done(at + 3) == spike.after_done(at + 2).after(SpikeEvent::Done));
        assert(spike.after_done(at + 4) == spike.after_done(at + 3).after(SpikeEvent::Done));
        assert(at + 4 == 4 * cycle as nat);
    }
}

/// A spike ends with 0 only if the core said that no document was stale. A
/// failure anywhere ends it with 1, and once it is over it stays so.
pub proof fn law_a_spike_passes_only_on_the_cores_word(spike: Spike, event: SpikeEvent)
    requires
        spike.wf(),
    ensures
        !(spike.stage is Over) && spike.action(event) == (SpikeAction::Exit { code: 0 }) ==> {
            &&& spike.stage is Reading
            &&& event == SpikeEvent::State { stale_attaches: 0 }
        },
        !(spike.stage is Over) && event is Failed ==> spike.action(event) == (
        SpikeAction::Exit { code: 1 }),
        !(spike.stage is Over) && !(spike.stage is Reading) && event is State ==> spike.action(
            event,
        ) == (SpikeAction::Exit { code: 1 }),
        spike.stage is Reading && event is Done ==> spike.action(event) == (SpikeAction::Exit {
            code: 1,
        }),
        spike.stage is Over ==> spike.after(event) == spike,
{
}

/// The spike waits two and a half seconds first, four tenths before a reload
/// and nine tenths behind it; its cycles take turns between two batches; and
/// what the core says of stale documents is its exit code.
pub proof fn law_every_cycle_changes_the_state(
    cycle: u32,
    id: &'static str,
    next: &'static str,
    spike: Spike,
    stale_attaches: u64,
)
    requires
        cycle < u32::MAX,
        call_ensures(spike_batch, (cycle,), id),
        call_ensures(spike_batch, ((cycle + 1) as u32,), next),
        spike.stage is Reading,
    ensures
        id@ != next@,
        SETTLE_MS == 2500 && SHOW_MS == 400 && LOAD_MS == 900,
        spike.action(SpikeEvent::State { stale_attaches }) == (SpikeAction::Exit {
            code: if stale_attaches == 0 {
                0
            } else {
                1
            },
        }),
{
    reveal_strlit("b-tee-navy");
    reveal_strlit("b-hoodie");
    assert("b-tee-navy"@.len() != "b-hoodie"@.len());
}

}
