//! Guided verification of the detection path against a real reader.
//!
//! The judge scores four cases: an idle reader reports no presentation, a card
//! fires exactly once, its removal is clean and lets the next one fire, and an
//! unplugged reader is reported and recovers. It decides what to print, how
//! long to watch and how to exit; what it watches is the same monitor that a
//! station runs on. Only the length of card-type data is ever printed.

use crate::text::decimal;
use vstd::prelude::*;

verus! {

/// What came out of the monitor within the time allowed.
#[derive(Debug, Clone, Copy, PartialEq, Eq, Structural)]
pub enum Seen {
    Presence { present: bool },
    /// A presentation, with the length of its card-type data.
    Presentation { atr_len: usize },
    /// Nothing, or the monitor is gone.
    Timeout,
}

/// Where the judge stands.
#[derive(Debug, Clone, Copy, PartialEq, Eq, Structural)]
pub enum Phase {
    /// Waits for the reader to be seen.
    Idle,
    /// Watches the empty reader.
    IdleWatch,
    /// Waits for a card.
    Card,
    /// Watches the card that lies there.
    CardWatch,
    /// Watches the removal.
    Removal,
    /// Waits for the card to come back.
    Return,
    /// Watches the card that came back.
    ReturnWatch,
    /// Waits for the reader to be unplugged.
    Unplug,
    /// Waits for it to come back.
    Replug,
    Over,
}

/// One line of the report.
#[derive(Debug, PartialEq, Eq)]
pub enum ProbeLine {
    Note { text: String },
    Ruling { pass: bool, label: &'static str, detail: &'static str },
}

#[verifier::ext_equal]
pub ghost enum LineView {
    Note { text: Seq<char> },
    Ruling { pass: bool, label: Seq<char>, detail: Seq<char> },
}

impl View for ProbeLine {
    type V = LineView;

    open spec fn view(&self) -> LineView {
        match *self {
            ProbeLine::Note { text } => LineView::Note { text: text@ },
            ProbeLine::Ruling { pass, label, detail } => LineView::Ruling {
                pass,
                label: label@,
                detail: detail@,
            },
        }
    }
}

impl DeepView for ProbeLine {
    type V = LineView;

    open spec fn deep_view(&self) -> LineView {
        self@
    }
}

impl LineView {
    /// What is printed.
    pub open spec fn text(self) -> Seq<char> {
        match self {
            LineView::Note { text } => text,
            LineView::Ruling { pass, label, detail } => "  "@ + (if pass {
                "PASS"@
            } else {
                "FAIL"@
            }) + "  "@ + label + " — "@ + detail,
        }
    }
}

impl ProbeLine {
    /// What is printed.
    pub fn text(&self) -> (text: String)
        ensures
            text@ == self@.text(),
    {
        match self {
            ProbeLine::Note { text } => text.clone(),
            ProbeLine::Ruling { pass, label, detail } => "  ".to_owned().concat(
                if *pass {
                    "PASS"
                } else {
                    "FAIL"
                },
            ).concat("  ").concat(*label).concat(" — ").concat(*detail),
        }
    }
}

/// What the judge wants next.
#[derive(Debug, Clone, Copy, PartialEq, Eq, Structural)]
pub enum ProbeNext {
    /// Watch for this long, from now on.
    Watch { ms: u64 },
    /// Watch on for what is left of the time.
    WatchOn,
    Exit { code: i32 },
}

#[derive(Debug)]
pub struct ProbeStep {
    pub lines: Vec<ProbeLine>,
    pub next: ProbeNext,
}

#[verifier::ext_equal]
pub ghost struct ProbeStepView {
    pub lines: Seq<LineView>,
    pub next: ProbeNext,
}

impl View for ProbeStep {
    type V = ProbeStepView;

    open spec fn view(&self) -> ProbeStepView {
        ProbeStepView { lines: self.lines.deep_view(), next: self.next }
    }
}

/// The judge: the phase, the failures so far, and what was seen in the watch
/// that is on.
#[derive(Debug, Clone, Copy, PartialEq, Eq, Structural)]
pub struct Probe {
    pub phase: Phase,
    pub failures: u32,
    /// A presentation was seen in this watch.
    pub fired: bool,
    /// The last presence that was seen in this watch.
    pub presence: Option<bool>,
}

/// What an observation leads to.
#[verifier::ext_equal]
pub ghost struct ProbeMove {
    pub after: Probe,
    pub lines: Seq<LineView>,
    pub next: ProbeNext,
}

pub open spec fn note(text: Seq<char>) -> LineView {
    LineView::Note { text }
}

/// The line that asks for the card, and the time allowed for it.
pub open spec fn card_prompt() -> LineView {
    note("[2/4] PRESENT a card now and LEAVE it on the reader (30s)…"@)
}

pub open spec fn removal_prompt() -> LineView {
    note("[3/4] REMOVE the card now; probe watches 8s for a clean transition…"@)
}

pub open spec fn return_prompt() -> LineView {
    note("       now PRESENT the card once more, briefly (30s)…"@)
}

pub open spec fn unplug_prompt() -> LineView {
    note("[4/4] UNPLUG the reader now (30s)…"@)
}

pub open spec fn replug_prompt() -> LineView {
    note("       REPLUG it (60s)…"@)
}

/// The line that says how many bytes of card-type data there were.
pub open spec fn card_note(atr_len: nat) -> LineView {
    note(
        "       presentation observed (atr "@ + crate::text::decimal_of(atr_len)
            + " bytes — length only, bytes stay internal)"@,
    )
}

/// The last line.
pub open spec fn summary(failures: u32) -> LineView {
    note(
        "\nPROBE: "@ + (if failures == 0 {
            "PASS"@
        } else {
            "FAIL"@
        }) + " ("@ + crate::text::decimal_of(failures as nat) + " failure"@ + (if failures == 1 {
            ""@
        } else {
            "s"@
        }) + ")"@,
    )
}

impl Probe {
    /// In a new phase, with nothing seen in its watch yet.
    pub open spec fn entering(self, phase: Phase) -> Probe {
        Probe { phase, fired: false, presence: None, ..self }
    }

    pub open spec fn scored(self, pass: bool) -> Probe {
        Probe {
            failures: if pass {
                self.failures
            } else {
                (self.failures + 1) as u32
            },
            ..self
        }
    }

    /// An observation within a watch: it is taken note of, and the watch goes
    /// on.
    pub open spec fn noting(self, seen: Seen) -> ProbeMove {
        ProbeMove {
            after: match seen {
                Seen::Presence { present } => Probe { presence: Some(present), ..self },
                Seen::Presentation { .. } => Probe { fired: true, ..self },
                Seen::Timeout => self,
            },
            lines: Seq::empty(),
            next: ProbeNext::WatchOn,
        }
    }

    /// Into a new phase without a line.
    pub open spec fn watching(self, phase: Phase, ms: u64) -> ProbeMove {
        ProbeMove {
            after: self.entering(phase),
            lines: Seq::empty(),
            next: ProbeNext::Watch { ms },
        }
    }

    /// A ruling, and with it into the next phase.
    pub open spec fn ruling(
        self,
        pass: bool,
        label: Seq<char>,
        detail: Seq<char>,
        prompt: LineView,
        phase: Phase,
        ms: u64,
    ) -> ProbeMove {
        ProbeMove {
            after: self.scored(pass).entering(phase),
            lines: seq![LineView::Ruling { pass, label, detail }, prompt],
            next: ProbeNext::Watch { ms },
        }
    }

    /// A ruling that ends the probe: the exit code is zero only without any
    /// failure.
    pub open spec fn closing(self, pass: bool, label: Seq<char>, detail: Seq<char>) -> ProbeMove {
        let after = self.scored(pass).entering(Phase::Over);
        ProbeMove {
            after,
            lines: seq![LineView::Ruling { pass, label, detail }, summary(after.failures)],
            next: ProbeNext::Exit {
                code: if after.failures == 0 {
                    0
                } else {
                    1
                },
            },
        }
    }

    /// The move that an observation leads to.
    pub open spec fn observed(self, seen: Seen) -> ProbeMove {
        match self.phase {
            Phase::Idle => match seen {
                Seen::Presence { present: true } => self.watching(Phase::IdleWatch, 5000),
                Seen::Presentation { .. } => self.ruling(
                    false,
                    "no card → idle"@,
                    "presentation before presence — remove the card and rerun"@,
                    card_prompt(),
                    Phase::Card,
                    30_000,
                ),
                _ => ProbeMove {
                    after: self.scored(false).entering(Phase::Over),
                    lines: seq![
                        LineView::Ruling {
                            pass: false,
                            label: "no card → idle"@,
                            detail: "reader not visible — plug it in and rerun"@,
                        },
                        note("\nPROBE: FAIL (1 case, 3 not attempted)"@),
                    ],
                    next: ProbeNext::Exit { code: 1 },
                },
            },
            Phase::IdleWatch => match seen {
                Seen::Timeout => self.ruling(
                    !self.fired,
                    "no card → idle"@,
                    if self.fired {
                        "phantom presentation with no card (is a card resting on the reader?)"@
                    } else {
                        "reader visible, no phantom presentations in 5s"@
                    },
                    card_prompt(),
                    Phase::Card,
                    30_000,
                ),
                _ => self.noting(seen),
            },
            Phase::Card => match seen {
                Seen::Presentation { atr_len } => ProbeMove {
                    lines: seq![card_note(atr_len as nat)],
                    ..self.watching(Phase::CardWatch, 5000)
                },
                _ => self.ruling(
                    false,
                    "card presented → fires once"@,
                    "no presentation within 30s"@,
                    removal_prompt(),
                    Phase::Removal,
                    8000,
                ),
            },
            Phase::CardWatch => match seen {
                Seen::Timeout => self.ruling(
                    !self.fired,
                    "card presented → fires once"@,
                    if self.fired {
                        "re-fired while held"@
                    } else {
                        "no re-fire while the card sat on the reader for 5s"@
                    },
                    removal_prompt(),
                    Phase::Removal,
                    8000,
                ),
                _ => self.noting(seen),
            },
            Phase::Removal => match seen {
                Seen::Timeout => self.ruling(
                    !self.fired && self.presence != Some(false),
                    "card removed → clean idle"@,
                    "no events, no presence flap on removal"@,
                    return_prompt(),
                    Phase::Return,
                    30_000,
                ),
                _ => self.noting(seen),
            },
            Phase::Return => match seen {
                Seen::Presentation { .. } => self.watching(Phase::ReturnWatch, 4000),
                _ => self.ruling(
                    false,
                    "edge re-arms after removal"@,
                    "no presentation within 30s"@,
                    unplug_prompt(),
                    Phase::Unplug,
                    30_000,
                ),
            },
            Phase::ReturnWatch => match seen {
                Seen::Timeout => self.ruling(
                    !self.fired,
                    "edge re-arms after removal"@,
                    "exactly one new presentation"@,
                    unplug_prompt(),
                    Phase::Unplug,
                    30_000,
                ),
                _ => self.noting(seen),
            },
            Phase::Unplug => match seen {
                Seen::Presence { present: false } => self.ruling(
                    true,
                    "unplug → graceful degrade"@,
                    "reader-absent reported; monitor alive, no crash"@,
                    replug_prompt(),
                    Phase::Replug,
                    60_000,
                ),
                Seen::Timeout => self.closing(
                    false,
                    "unplug → graceful degrade"@,
                    "no reader-absent signal within 30s"@,
                ),
                _ => self.noting(seen),
            },
            Phase::Replug => match seen {
                Seen::Presence { present: true } => self.closing(
                    true,
                    "replug → recovers"@,
                    "reader-present restored without restart"@,
                ),
                Seen::Timeout => self.closing(
                    false,
                    "replug → recovers"@,
                    "no recovery within 60s"@,
                ),
                _ => self.noting(seen),
            },
            Phase::Over => ProbeMove {
                after: self,
                lines: Seq::empty(),
                next: ProbeNext::Exit {
                    code: if self.failures == 0 {
                        0
                    } else {
                        1
                    },
                },
            },
        }
    }

    /// The rulings that a judge in a phase has given at most.
    pub open spec fn rulings_before(phase: Phase) -> nat {
        match phase {
            Phase::Idle | Phase::IdleWatch => 0,
            Phase::Card | Phase::CardWatch => 1,
            Phase::Removal => 2,
            Phase::Return | Phase::ReturnWatch => 3,
            Phase::Unplug => 4,
            Phase::Replug => 5,
            Phase::Over => 6,
        }
    }

    pub open spec fn wf(self) -> bool {
        self.failures <= Self::rulings_before(self.phase)
    }

    pub open spec fn initial() -> Probe {
        Probe { phase: Phase::Idle, failures: 0, fired: false, presence: None }
    }
}

fn line(text: &str) -> (made: ProbeLine)
    ensures
        made@ == note(text@),
{
    ProbeLine::Note { text: text.to_owned() }
}

fn summary_line(failures: u32) -> (made: ProbeLine)
    ensures
        made@ == summary(failures),
{
    let number = decimal(failures as u64);
    let text = "\nPROBE: ".to_owned().concat(
        if failures == 0 {
            "PASS"
        } else {
            "FAIL"
        },
    ).concat(" (").concat(number.as_str()).concat(" failure").concat(
        if failures == 1 {
            ""
        } else {
            "s"
        },
    ).concat(")");
    ProbeLine::Note { text }
}

fn card_line(atr_len: usize) -> (made: ProbeLine)
    ensures
        made@ == card_note(atr_len as nat),
{
    let number = decimal(atr_len as u64);
    let text = "       presentation observed (atr ".to_owned().concat(number.as_str()).concat(
        " bytes — length only, bytes stay internal)",
    );
    ProbeLine::Note { text }
}

impl Probe {
    /// The judge at its start, with what it says first.
    pub fn new() -> (started: (Probe, ProbeStep))
        ensures
            started.0 == Probe::initial(),
            started.0.wf(),
            started.1@ == (ProbeStepView {
                lines: seq![
                    note("\nreader probe — detection path vs real hardware (zero transmits)"@),
                    note("Start with the reader plugged in and NO card on it.\n"@),
                    note("[1/4] idle check…"@),
                ],
                next: ProbeNext::Watch { ms: 8000 },
            }),
    {
        let lines = vec![
            line("\nreader probe — detection path vs real hardware (zero transmits)"),
            line("Start with the reader plugged in and NO card on it.\n"),
            line("[1/4] idle check…"),
        ];
        assert(lines.deep_view() =~= seq![
            note("\nreader probe — detection path vs real hardware (zero transmits)"@),
            note("Start with the reader plugged in and NO card on it.\n"@),
            note("[1/4] idle check…"@),
        ]);
        (
            Probe { phase: Phase::Idle, failures: 0, fired: false, presence: None },
            ProbeStep { lines, next: ProbeNext::Watch { ms: 8000 } },
        )
    }

    fn enter(&mut self, phase: Phase)
        ensures
            *final(self) == old(self).entering(phase),
    {
        self.phase = phase;
        self.fired = false;
        self.presence = None;
    }

    fn note_seen(&mut self, seen: Seen) -> (step: ProbeStep)
        ensures
            *final(self) == old(self).noting(seen).after,
            step@ == (ProbeStepView { lines: Seq::empty(), next: ProbeNext::WatchOn }),
    {
        match seen {
            Seen::Presence { present } => {
                self.presence = Some(present);
            },
            Seen::Presentation { .. } => {
                self.fired = true;
            },
            Seen::Timeout => {},
        }
        ProbeStep { lines: Vec::new(), next: ProbeNext::WatchOn }
    }

    fn watch(&mut self, phase: Phase, ms: u64) -> (step: ProbeStep)
        ensures
            *final(self) == old(self).entering(phase),
            step@ == (ProbeStepView { lines: Seq::empty(), next: ProbeNext::Watch { ms } }),
    {
        self.enter(phase);
        ProbeStep { lines: Vec::new(), next: ProbeNext::Watch { ms } }
    }

    fn rule(
        &mut self,
        pass: bool,
        label: &'static str,
        detail: &'static str,
        prompt: ProbeLine,
        phase: Phase,
        ms: u64,
    ) -> (step: ProbeStep)
        requires
            old(self).failures < u32::MAX,
        ensures
            *final(self) == old(self).ruling(pass, label@, detail@, prompt@, phase, ms).after,
            step@ == (ProbeStepView {
                lines: old(self).ruling(pass, label@, detail@, prompt@, phase, ms).lines,
                next: ProbeNext::Watch { ms },
            }),
    {
        if !pass {
            self.failures = self.failures + 1;
        }
        self.enter(phase);
        let lines = vec![ProbeLine::Ruling { pass, label, detail }, prompt];
        assert(lines.deep_view() =~= seq![
            LineView::Ruling { pass, label: label@, detail: detail@ },
            prompt@,
        ]);
        ProbeStep { lines, next: ProbeNext::Watch { ms } }
    }

    fn close(&mut self, pass: bool, label: &'static str, detail: &'static str) -> (step: ProbeStep)
        requires
            old(self).failures < u32::MAX,
        ensures
            *final(self) == old(self).closing(pass, label@, detail@).after,
            step@ == (ProbeStepView {
                lines: old(self).closing(pass, label@, detail@).lines,
                next: old(self).closing(pass, label@, detail@).next,
            }),
    {
        if !pass {
            self.failures = self.failures + 1;
        }
        self.enter(Phase::Over);
        let lines = vec![ProbeLine::Ruling { pass, label, detail }, summary_line(self.failures)];
        assert(lines.deep_view() =~= seq![
            LineView::Ruling { pass, label: label@, detail: detail@ },
            summary(self.failures),
        ]);
        let code = if self.failures == 0 {
            0i32
        } else {
            1i32
        };
        ProbeStep { lines, next: ProbeNext::Exit { code } }
    }

    /// Takes an observation.
    pub fn judge(&mut self, seen: Seen) -> (step: ProbeStep)
        requires
            old(self).wf(),
        ensures
            *final(self) == old(self).observed(seen).after,
            step@ == (ProbeStepView {
                lines: old(self).observed(seen).lines,
                next: old(self).observed(seen).next,
            }),
            final(self).wf(),
    {
        match self.phase {
            Phase::Idle => match seen {
                Seen::Presence { present: true } => self.watch(Phase::IdleWatch, 5000),
                Seen::Presentation { .. } => self.rule(
                    false,
                    "no card → idle",
                    "presentation before presence — remove the card and rerun",
                    line("[2/4] PRESENT a card now and LEAVE it on the reader (30s)…"),
                    Phase::Card,
                    30_000,
                ),
                _ => self.give_up(),
            },
            Phase::IdleWatch => match seen {
                Seen::Timeout => self.rule(
                    !self.fired,
                    "no card → idle",
                    if self.fired {
                        "phantom presentation with no card (is a card resting on the reader?)"
                    } else {
                        "reader visible, no phantom presentations in 5s"
                    },
                    line("[2/4] PRESENT a card now and LEAVE it on the reader (30s)…"),
                    Phase::Card,
                    30_000,
                ),
                _ => self.note_seen(seen),
            },
            Phase::Card => match seen {
                Seen::Presentation { atr_len } => {
                    self.enter(Phase::CardWatch);
                    let lines = vec![card_line(atr_len)];
                    assert(lines.deep_view() =~= seq![card_note(atr_len as nat)]);
                    ProbeStep { lines, next: ProbeNext::Watch { ms: 5000 } }
                },
                _ => self.rule(
                    false,
                    "card presented → fires once",
                    "no presentation within 30s",
                    line("[3/4] REMOVE the card now; probe watches 8s for a clean transition…"),
                    Phase::Removal,
                    8000,
                ),
            },
            Phase::CardWatch => match seen {
                Seen::Timeout => self.rule(
                    !self.fired,
                    "card presented → fires once",
                    if self.fired {
                        "re-fired while held"
                    } else {
                        "no re-fire while the card sat on the reader for 5s"
                    },
                    line("[3/4] REMOVE the card now; probe watches 8s for a clean transition…"),
                    Phase::Removal,
                    8000,
                ),
                _ => self.note_seen(seen),
            },
            Phase::Removal => match seen {
                Seen::Timeout => self.rule(
                    !self.fired && self.presence != Some(false),
                    "card removed → clean idle",
                    "no events, no presence flap on removal",
                    line("       now PRESENT the card once more, briefly (30s)…"),
                    Phase::Return,
                    30_000,
                ),
                _ => self.note_seen(seen),
            },
            Phase::Return => match seen {
                Seen::Presentation { .. } => self.watch(Phase::ReturnWatch, 4000),
                _ => self.rule(
                    false,
                    "edge re-arms after removal",
                    "no presentation within 30s",
                    line("[4/4] UNPLUG the reader now (30s)…"),
                    Phase::Unplug,
                    30_000,
                ),
            },
            Phase::ReturnWatch => match seen {
                Seen::Timeout => self.rule(
                    !self.fired,
                    "edge re-arms after removal",
                    "exactly one new presentation",
                    line("[4/4] UNPLUG the reader now (30s)…"),
                    Phase::Unplug,
                    30_000,
                ),
                _ => self.note_seen(seen),
            },
            Phase::Unplug => match seen {
                Seen::Presence { present: false } => self.rule(
                    true,
                    "unplug → graceful degrade",
                    "reader-absent reported; monitor alive, no crash",
                    line("       REPLUG it (60s)…"),
                    Phase::Replug,
                    60_000,
                ),
                Seen::Timeout => self.close(
                    false,
                    "unplug → graceful degrade",
                    "no reader-absent signal within 30s",
                ),
                _ => self.note_seen(seen),
            },
            Phase::Replug => match seen {
                Seen::Presence { present: true } => self.close(
                    true,
                    "replug → recovers",
                    "reader-present restored without restart",
                ),
                Seen::Timeout => self.close(false, "replug → recovers", "no recovery within 60s"),
                _ => self.note_seen(seen),
            },
            Phase::Over => {
                let code = if self.failures == 0 {
                    0i32
                } else {
                    1i32
                };
                ProbeStep { lines: Vec::new(), next: ProbeNext::Exit { code } }
            },
        }
    }

    /// No reader to be seen: the other cases make no sense.
    fn give_up(&mut self) -> (step: ProbeStep)
        requires
            old(self).wf(),
            old(self).phase == Phase::Idle,
        ensures
            *final(self) == old(self).observed(Seen::Timeout).after,
            step@ == (ProbeStepView {
                lines: old(self).observed(Seen::Timeout).lines,
                next: old(self).observed(Seen::Timeout).next,
            }),
    {
        self.failures = self.failures + 1;
        self.enter(Phase::Over);
        let lines = vec![
            ProbeLine::Ruling {
                pass: false,
                label: "no card → idle",
                detail: "reader not visible — plug it in and rerun",
            },
            line("\nPROBE: FAIL (1 case, 3 not attempted)"),
        ];
        assert(lines.deep_view() =~= seq![
            LineView::Ruling {
                pass: false,
                label: "no card → idle"@,
                detail: "reader not visible — plug it in and rerun"@,
            },
            note("\nPROBE: FAIL (1 case, 3 not attempted)"@),
        ]);
        ProbeStep { lines, next: ProbeNext::Exit { code: 1 } }
    }
}

impl Probe {
    /// The judge after a run of observations.
    pub open spec fn after_all(self, run: Seq<Seen>) -> Probe
        decreases run.len(),
    {
        if run.len() == 0 {
            self
        } else {
            self.after_all(run.drop_last()).observed(run.last()).after
        }
    }

    /// Everything that the judge says along a run.
    pub open spec fn report(self, run: Seq<Seen>) -> Seq<LineView>
        decreases run.len(),
    {
        if run.len() == 0 {
            Seq::empty()
        } else {
            self.report(run.drop_last()) + self.after_all(run.drop_last()).observed(
                run.last(),
            ).lines
        }
    }
}

/// How many rulings of one kind are in a report.
pub open spec fn rulings(lines: Seq<LineView>, passed: bool) -> nat
    decreases lines.len(),
{
    if lines.len() == 0 {
        0
    } else {
        rulings(lines.drop_last(), passed) + (match lines.last() {
            LineView::Ruling { pass, .. } => if pass == passed {
                1nat
            } else {
                0nat
            },
            LineView::Note { .. } => 0nat,
        })
    }
}

proof fn lemma_rulings_joined(a: Seq<LineView>, b: Seq<LineView>, passed: bool)
    ensures
        rulings(a + b, passed) == rulings(a, passed) + rulings(b, passed),
    decreases b.len(),
{
    if b.len() == 0 {
        assert(a + b =~= a);
    } else {
        lemma_rulings_joined(a, b.drop_last(), passed);
        assert((a + b).drop_last() =~= a + b.drop_last());
    }
}

proof fn lemma_move_is_scored(judge: Probe, seen: Seen)
    requires
        judge.wf(),
        judge.phase != Phase::Over,
    ensures
        ({
            let m = judge.observed(seen);
            let failed = rulings(m.lines, false);
            let passed = rulings(m.lines, true);
            &&& m.after.failures == judge.failures + failed
            &&& m.after.phase != Phase::Over ==> failed + passed == Probe::rulings_before(
                m.after.phase,
            ) - Probe::rulings_before(judge.phase)
            &&& m.after.phase == Phase::Over && m.after.failures == 0 ==> passed == 1
                && judge.phase == Phase::Replug
            &&& m.next is Exit <==> m.after.phase == Phase::Over
            &&& m.after.wf()
        }),
{
    reveal_with_fuel(rulings, 3);
    let m = judge.observed(seen);
    assert(m.lines.len() <= 2);
    if m.lines.len() > 0 {
        assert(m.lines.drop_last().len() == m.lines.len() - 1);
        if m.lines.len() == 2 {
            assert(m.lines.drop_last().last() == m.lines[0]);
        }
    }
}

proof fn lemma_run_is_scored(run: Seq<Seen>)
    ensures
        ({
            let judge = Probe::initial().after_all(run);
            let report = Probe::initial().report(run);
            &&& judge.wf()
            &&& judge.failures == rulings(report, false)
            &&& judge.phase != Phase::Over ==> rulings(report, false) + rulings(report, true)
                == Probe::rulings_before(judge.phase)
            &&& judge.phase == Phase::Over && judge.failures == 0 ==> rulings(report, true) == 6
        }),
    decreases run.len(),
{
    if run.len() > 0 {
        let before = Probe::initial().after_all(run.drop_last());
        let said = Probe::initial().report(run.drop_last());
        let m = before.observed(run.last());
        lemma_run_is_scored(run.drop_last());
        lemma_rulings_joined(said, m.lines, true);
        lemma_rulings_joined(said, m.lines, false);
        if before.phase != Phase::Over {
            lemma_move_is_scored(before, run.last());
        }
    }
}

/// The exit code is the verdict on the report: a probe exits with zero exactly
/// when all six rulings were given and every one of them passed.
pub proof fn law_a_probe_passes_only_whole(run: Seq<Seen>, seen: Seen)
    requires
        Probe::initial().after_all(run).phase != Phase::Over,
        Probe::initial().after_all(run).observed(seen).next is Exit,
    ensures
        ({
            let report = Probe::initial().report(run.push(seen));
            let code = Probe::initial().after_all(run).observed(seen).next->code;
            &&& code == 0 <==> rulings(report, false) == 0
            &&& code == 0 ==> rulings(report, true) == 6
            &&& code == 0 || code == 1
        }),
{
    assert(run.push(seen).drop_last() =~= run);
    lemma_run_is_scored(run);
    lemma_run_is_scored(run.push(seen));
    lemma_move_is_scored(Probe::initial().after_all(run), seen);
}

/// What a watch has seen is kept to its end: a presentation stays seen, and of
/// the presence the last word counts. Nothing is printed and nothing ruled
/// meanwhile.
pub proof fn law_a_watch_keeps_what_it_sees(judge: Probe, seen: Seen)
    requires
        judge.phase == Phase::IdleWatch || judge.phase == Phase::CardWatch || judge.phase
            == Phase::Removal || judge.phase == Phase::ReturnWatch,
        !(seen is Timeout),
    ensures
        ({
            let m = judge.observed(seen);
            &&& m.after.phase == judge.phase
            &&& m.after.failures == judge.failures
            &&& m.after.fired == (judge.fired || seen is Presentation)
            &&& seen matches Seen::Presence { present } ==> m.after.presence == Some(present)
            &&& seen is Presentation ==> m.after.presence == judge.presence
            &&& m.lines.len() == 0
            &&& m.next == ProbeNext::WatchOn
        }),
{
}

/// The ruling of a watch that is over. The first passes if nothing was
/// presented to the empty reader, the second and fourth if the card that lay
/// there was not presented again, and the third if its removal showed neither a
/// presentation nor a reader that is gone. A ruling that does not pass is a
/// failure, and each watch leads to the next case with nothing seen.
pub proof fn law_a_watch_is_ruled_on_by_what_it_saw(judge: Probe)
    requires
        judge.wf(),
        judge.phase == Phase::IdleWatch || judge.phase == Phase::CardWatch || judge.phase
            == Phase::Removal || judge.phase == Phase::ReturnWatch,
    ensures
        ({
            let m = judge.observed(Seen::Timeout);
            let clean = !judge.fired && !(judge.phase == Phase::Removal && judge.presence == Some(
                false,
            ));
            &&& m.lines.len() == 2
            &&& m.lines[0] matches LineView::Ruling { pass, .. } && pass == clean
            &&& m.lines[1] is Note
            &&& m.after.failures == judge.failures + (if clean {
                0int
            } else {
                1
            })
            &&& !m.after.fired && m.after.presence is None
            &&& judge.phase == Phase::IdleWatch ==> m.after.phase == Phase::Card && m.next
                == (ProbeNext::Watch { ms: 30_000 })
            &&& judge.phase == Phase::CardWatch ==> m.after.phase == Phase::Removal && m.next
                == (ProbeNext::Watch { ms: 8_000 })
            &&& judge.phase == Phase::Removal ==> m.after.phase == Phase::Return && m.next
                == (ProbeNext::Watch { ms: 30_000 })
            &&& judge.phase == Phase::ReturnWatch ==> m.after.phase == Phase::Unplug && m.next
                == (ProbeNext::Watch { ms: 30_000 })
        }),
{
}

/// Where the judge waits for a card, a presentation and only that leads to the
/// watch of it, unruled; anything else is a failure of the case, and the next
/// one follows.
pub proof fn law_a_card_that_does_not_come_is_a_failure(judge: Probe, seen: Seen)
    requires
        judge.wf(),
        judge.phase == Phase::Card || judge.phase == Phase::Return,
    ensures
        ({
            let m = judge.observed(seen);
            &&& !m.after.fired && m.after.presence is None
            &&& seen is Presentation ==> {
                &&& m.after.failures == judge.failures
                &&& judge.phase == Phase::Card ==> m.after.phase == Phase::CardWatch && m.next
                    == (ProbeNext::Watch { ms: 5_000 })
                &&& judge.phase == Phase::Return ==> m.after.phase == Phase::ReturnWatch && m.next
                    == (ProbeNext::Watch { ms: 4_000 })
                &&& forall|i: int| 0 <= i < m.lines.len() ==> #[trigger] m.lines[i] is Note
            }
            &&& !(seen is Presentation) ==> {
                &&& m.after.failures == judge.failures + 1
                &&& m.lines[0] matches LineView::Ruling { pass, .. } && !pass
                &&& judge.phase == Phase::Card ==> m.after.phase == Phase::Removal && m.next
                    == (ProbeNext::Watch { ms: 8_000 })
                &&& judge.phase == Phase::Return ==> m.after.phase == Phase::Unplug && m.next
                    == (ProbeNext::Watch { ms: 30_000 })
            }
        }),
{
}

/// Of a card's data the length is all that is ever printed.
pub proof fn law_only_the_length_is_printed(judge: Probe, atr_len: usize)
    requires
        judge.phase == Phase::Card,
    ensures
        judge.observed(Seen::Presentation { atr_len }).lines == seq![
            LineView::Note {
                text: "       presentation observed (atr "@ + crate::text::decimal_of(
                    atr_len as nat,
                ) + " bytes — length only, bytes stay internal)"@,
            },
        ],
{
}

/// The first case starts with a reader that is there, and is then watched for
/// five seconds. A presentation before that is a failure. A reader that is not
/// there, or not in time, ends the probe with 1 at once.
pub proof fn law_the_reader_has_to_be_seen_first(judge: Probe, seen: Seen)
    requires
        judge.wf(),
        judge.phase == Phase::Idle,
    ensures
        ({
            let m = judge.observed(seen);
            let visible = seen == (Seen::Presence { present: true });
            &&& visible ==> m.after.phase == Phase::IdleWatch && m.after.failures
                == judge.failures && m.next == (ProbeNext::Watch { ms: 5_000 }) && m.lines.len()
                == 0
            &&& seen is Presentation ==> m.after.phase == Phase::Card && m.after.failures
                == judge.failures + 1 && m.next == (ProbeNext::Watch { ms: 30_000 })
            &&& !visible && !(seen is Presentation) ==> m.after.phase == Phase::Over
                && m.after.failures == judge.failures + 1 && m.next == (ProbeNext::Exit { code: 1 })
        }),
{
}

/// The last case passes its first half with a reader that is reported gone, and
/// its second with one that is reported back; whatever else is seen meanwhile
/// does not matter, and time that runs out is a failure. The probe is over
/// either when the reader does not go or when it is known whether it came back,
/// and exits with 0 only if nothing has failed.
pub proof fn law_an_unplugged_reader_has_to_come_back(judge: Probe, seen: Seen)
    requires
        judge.wf(),
        judge.phase == Phase::Unplug || judge.phase == Phase::Replug,
    ensures
        ({
            let m = judge.observed(seen);
            let gone = judge.phase == Phase::Unplug && seen == (Seen::Presence { present: false });
            let back = judge.phase == Phase::Replug && seen == (Seen::Presence { present: true });
            &&& gone ==> m.after.phase == Phase::Replug && m.after.failures == judge.failures
                && m.next == (ProbeNext::Watch { ms: 60_000 }) && (
            m.lines[0] matches LineView::Ruling { pass, .. } && pass)
            &&& back ==> m.after.phase == Phase::Over && m.after.failures == judge.failures && (
            m.lines[0] matches LineView::Ruling { pass, .. } && pass)
            &&& seen is Timeout ==> m.after.phase == Phase::Over && m.after.failures
                == judge.failures + 1 && (m.lines[0] matches LineView::Ruling { pass, .. }
                && !pass)
            &&& !gone && !back && !(seen is Timeout) ==> m.after.phase == judge.phase
                && m.after.failures == judge.failures && m.next == ProbeNext::WatchOn
                && m.lines.len() == 0
            &&& m.after.phase == Phase::Over ==> m.next == (ProbeNext::Exit {
                code: if m.after.failures == 0 {
                    0
                } else {
                    1
                },
            })
        }),
{
}

/// A ruling is printed with how it went, what it is about, and why; the last
/// line says how the probe went and how many cases failed.
pub proof fn law_a_ruling_is_printed_as_it_went(
    pass: bool,
    label: Seq<char>,
    detail: Seq<char>,
    failures: u32,
)
    ensures
        (LineView::Ruling { pass: true, label, detail }).text() == "  PASS  "@ + label + " — "@
            + detail,
        (LineView::Ruling { pass: false, label, detail }).text() == "  FAIL  "@ + label + " — "@
            + detail,
        summary(0).text() == "\nPROBE: PASS (0 failures)"@,
        summary(1).text() == "\nPROBE: FAIL (1 failure)"@,
        failures > 1 ==> summary(failures).text() == "\nPROBE: FAIL ("@
            + crate::text::decimal_of(failures as nat) + " failures)"@,
{
    reveal_strlit("  ");
    reveal_strlit("PASS");
    reveal_strlit("FAIL");
    reveal_strlit("  PASS  ");
    reveal_strlit("  FAIL  ");
    reveal_strlit("");
    reveal_strlit("s");
    reveal_strlit(")");
    reveal_strlit(" (");
    reveal_strlit(" failure");
    reveal_strlit(" failures)");
    reveal_strlit("\nPROBE: ");
    reveal_strlit("\nPROBE: FAIL (");
    reveal_strlit("\nPROBE: PASS (0 failures)");
    reveal_strlit("\nPROBE: FAIL (1 failure)");
    crate::text::law_digits_have_their_values(0);
    crate::text::law_digits_have_their_values(1);
    let good = LineView::Ruling { pass: true, label, detail };
    let bad = LineView::Ruling { pass: false, label, detail };
    assert(good.text() =~= "  PASS  "@ + label + " — "@ + detail);
    assert(bad.text() =~= "  FAIL  "@ + label + " — "@ + detail);
    assert(crate::text::decimal_of(0) =~= seq!['0']);
    assert(crate::text::decimal_of(1) =~= seq!['1']);
    assert(summary(0).text() =~= "\nPROBE: PASS (0 failures)"@);
    assert(summary(1).text() =~= "\nPROBE: FAIL (1 failure)"@);
    if failures > 1 {
        assert(summary(failures).text() =~= "\nPROBE: FAIL ("@ + crate::text::decimal_of(
            failures as nat,
        ) + " failures)"@);
    }
}

/// The label of the case that a phase is about.
pub open spec fn label_of(phase: Phase) -> Seq<char> {
    match phase {
        Phase::Idle | Phase::IdleWatch => "no card → idle"@,
        Phase::Card | Phase::CardWatch => "card presented → fires once"@,
        Phase::Removal => "card removed → clean idle"@,
        Phase::Return | Phase::ReturnWatch => "edge re-arms after removal"@,
        Phase::Unplug => "unplug → graceful degrade"@,
        Phase::Replug | Phase::Over => "replug → recovers"@,
    }
}

/// Every ruling is about the case that the judge is at; there is at most one in
/// a step, and it comes first. The judge starts at the first case with eight
/// seconds for the reader to be seen.
pub proof fn law_a_ruling_names_its_case(judge: Probe, seen: Seen, started: (Probe, ProbeStep))
    requires
        judge.wf(),
        call_ensures(Probe::new, (), started),
    ensures
        ({
            let lines = judge.observed(seen).lines;
            &&& forall|i: int| 0 < i < lines.len() ==> #[trigger] lines[i] is Note
            &&& lines.len() > 0 ==> match lines[0] {
                LineView::Ruling { label, .. } => label == label_of(judge.phase),
                LineView::Note { .. } => judge.phase == Phase::Card,
            }
        }),
        started.0.phase == Phase::Idle && started.0.failures == 0 && !started.0.fired
            && started.0.presence is None,
        started.1.next == (ProbeNext::Watch { ms: 8_000 }),
{
}

/// The view of a report line shows it as it is.
pub proof fn law_lines_are_shown_as_they_are(line: ProbeLine)
    ensures
        match line {
            ProbeLine::Note { text } => line@ == (LineView::Note { text: text@ }),
            ProbeLine::Ruling { pass, label, detail } => line@ == (LineView::Ruling {
                pass,
                label: label@,
                detail: detail@,
            }),
        },
{
}

}
