//! The keying seam, and its simulated side.
//!
//! The keying layer itself lives elsewhere: the station hands it a chip
//! presentation and gets a `KeyingOutcome` back. `SimKeying` stands in for it
//! and draws outcomes from an armed policy.

use crate::contract::TapVerdict;
use crate::outside::{random_below, sha256};
use crate::text::push_hex;
use vstd::bytes::u128_to_le_bytes;
use vstd::prelude::*;

verus! {

/// Nanoseconds after the Unix epoch on the wall clock; `None` on a clock that
/// is set before it.
pub type WallClock = Option<u128>;

/// A chip presentation as the detection-only reader monitor saw it. It holds
/// no chip identity: that comes back from the keying layer. `atr` is card-type
/// data, empty for simulated presentations.
#[derive(Debug)]
pub struct ChipPresentation {
    pub reader_id: String,
    pub at: WallClock,
    pub atr: Vec<u8>,
}

#[verifier::ext_equal]
pub ghost struct PresentationView {
    pub reader_id: Seq<char>,
    pub at: WallClock,
    pub atr: Seq<u8>,
}

impl View for ChipPresentation {
    type V = PresentationView;

    open spec fn view(&self) -> PresentationView {
        PresentationView { reader_id: self.reader_id@, at: self.at, atr: self.atr@ }
    }
}

/// Opaque per-chip identity token, minted by the keying layer. It correlates
/// retries within a session and stands in failure records; operators never see
/// it.
#[derive(Debug, PartialEq, Eq)]
pub struct ChipRef(pub String);

impl View for ChipRef {
    type V = Seq<char>;

    open spec fn view(&self) -> Seq<char> {
        self.0@
    }
}

/// Outcome of one keying attempt.
#[derive(Debug)]
pub enum KeyingOutcome {
    /// The chip is keyed and verified end to end.
    Keyed { chip_ref: ChipRef },
    /// The attempt failed, but the chip can be tried again. `class` is an
    /// opaque short code, never shown to operators.
    Recoverable { class: String, chip_ref: ChipRef },
    /// The chip is unusable.
    Permanent { class: String, chip_ref: ChipRef },
    /// The keying layer cannot process any chip right now. No tap is ruled on.
    NotReady,
}

pub ghost enum KeyingView {
    Keyed { chip: Seq<char> },
    Recoverable { class: Seq<char>, chip: Seq<char> },
    Permanent { class: Seq<char>, chip: Seq<char> },
    NotReady,
}

impl View for KeyingOutcome {
    type V = KeyingView;

    open spec fn view(&self) -> KeyingView {
        match *self {
            KeyingOutcome::Keyed { chip_ref } => KeyingView::Keyed { chip: chip_ref@ },
            KeyingOutcome::Recoverable { class, chip_ref } => KeyingView::Recoverable {
                class: class@,
                chip: chip_ref@,
            },
            KeyingOutcome::Permanent { class, chip_ref } => KeyingView::Permanent {
                class: class@,
                chip: chip_ref@,
            },
            KeyingOutcome::NotReady => KeyingView::NotReady,
        }
    }
}

/// What the sim console can arm for the next presentation.
#[derive(Debug, Clone, Copy, PartialEq, Eq, Structural)]
pub enum ForcedOutcome {
    Keyed,
    Recoverable,
    Permanent,
    Notready,
}

impl ForcedOutcome {
    pub open spec fn name_of(self) -> Seq<char> {
        match self {
            ForcedOutcome::Keyed => "keyed"@,
            ForcedOutcome::Recoverable => "recoverable"@,
            ForcedOutcome::Permanent => "permanent"@,
            ForcedOutcome::Notready => "notready"@,
        }
    }

    /// The lower-case name that the sim console shows.
    pub fn name(self) -> (name: &'static str)
        ensures
            name@ == self.name_of(),
    {
        match self {
            ForcedOutcome::Keyed => "keyed",
            ForcedOutcome::Recoverable => "recoverable",
            ForcedOutcome::Permanent => "permanent",
            ForcedOutcome::Notready => "notready",
        }
    }
}

#[derive(Debug)]
pub struct SimPolicy {
    /// Consumed by the next presentation, then cleared.
    pub forced_next: Option<ForcedOutcome>,
    /// Weights of the outcomes of unforced taps.
    pub weight_keyed: u32,
    pub weight_recoverable: u32,
    pub weight_permanent: u32,
    pub latency_ms: u64,
    /// When set, every simulated presentation reports this chip.
    pub sticky_chip: Option<String>,
    pub ready: bool,
}

impl Clone for SimPolicy {
    fn clone(&self) -> (copy: SimPolicy)
        ensures
            copy == *self,
    {
        SimPolicy {
            forced_next: self.forced_next,
            weight_keyed: self.weight_keyed,
            weight_recoverable: self.weight_recoverable,
            weight_permanent: self.weight_permanent,
            latency_ms: self.latency_ms,
            sticky_chip: self.sticky_chip.clone(),
            ready: self.ready,
        }
    }
}

impl Default for SimPolicy {
    fn default() -> (policy: SimPolicy)
        ensures
            policy == SimPolicy::initial(),
    {
        SimPolicy {
            forced_next: None,
            weight_keyed: 85,
            weight_recoverable: 12,
            weight_permanent: 3,
            latency_ms: 250,
            sticky_chip: None,
            ready: true,
        }
    }
}

/// A change that the sim console asks for: what is `None` stays.
#[derive(Debug)]
pub struct PolicyPatch {
    pub forced_next: Option<ForcedOutcome>,
    pub weight_keyed: Option<u32>,
    pub weight_recoverable: Option<u32>,
    pub weight_permanent: Option<u32>,
    pub latency_ms: Option<u64>,
    /// The empty text clears the sticky chip; any other sets it.
    pub sticky_chip: Option<String>,
}

/// The longest simulated latency that the console can ask for.
pub const MAX_LATENCY_MS: u64 = 10_000;

impl SimPolicy {
    pub open spec fn initial() -> SimPolicy {
        SimPolicy {
            forced_next: None,
            weight_keyed: 85,
            weight_recoverable: 12,
            weight_permanent: 3,
            latency_ms: 250,
            sticky_chip: None,
            ready: true,
        }
    }

    pub open spec fn total_weight(self) -> nat {
        (self.weight_keyed + self.weight_recoverable + self.weight_permanent) as nat
    }

    /// The rolls that a draw can come up with: below the total weight, and
    /// zero where there is no weight at all.
    pub open spec fn can_roll(self, roll: u32) -> bool {
        roll < self.total_weight() || (self.total_weight() == 0 && roll == 0)
    }

    /// The outcome of a roll: the weights stand one behind the other.
    pub open spec fn outcome_of(self, roll: u32) -> ForcedOutcome {
        if roll < self.weight_keyed {
            ForcedOutcome::Keyed
        } else if roll < self.weight_keyed + self.weight_recoverable {
            ForcedOutcome::Recoverable
        } else {
            ForcedOutcome::Permanent
        }
    }

    /// This policy with a patch applied to it.
    pub open spec fn patched(self, patch: PolicyPatch) -> SimPolicy {
        SimPolicy {
            forced_next: match patch.forced_next {
                Some(f) => Some(f),
                None => self.forced_next,
            },
            weight_keyed: match patch.weight_keyed {
                Some(w) => w,
                None => self.weight_keyed,
            },
            weight_recoverable: match patch.weight_recoverable {
                Some(w) => w,
                None => self.weight_recoverable,
            },
            weight_permanent: match patch.weight_permanent {
                Some(w) => w,
                None => self.weight_permanent,
            },
            latency_ms: match patch.latency_ms {
                Some(l) => if l < MAX_LATENCY_MS {
                    l
                } else {
                    MAX_LATENCY_MS
                },
                None => self.latency_ms,
            },
            sticky_chip: match patch.sticky_chip {
                Some(s) => if s@.len() == 0 {
                    None
                } else {
                    Some(s)
                },
                None => self.sticky_chip,
            },
            ready: self.ready,
        }
    }

    /// The outcome of a roll.
    pub fn outcome_for_roll(&self, roll: u32) -> (outcome: ForcedOutcome)
        requires
            self.total_weight() <= u32::MAX,
        ensures
            outcome == self.outcome_of(roll),
    {
        if roll < self.weight_keyed {
            ForcedOutcome::Keyed
        } else if roll < self.weight_keyed + self.weight_recoverable {
            ForcedOutcome::Recoverable
        } else {
            ForcedOutcome::Permanent
        }
    }

    /// Whether the total weight is a number that the draw can work with.
    pub fn weights_fit(&self) -> (fit: bool)
        ensures
            fit == (self.total_weight() <= u32::MAX),
    {
        match self.weight_keyed.checked_add(self.weight_recoverable) {
            Some(sum) => sum.checked_add(self.weight_permanent).is_some(),
            None => false,
        }
    }

    /// Applies a patch.
    pub fn apply(&mut self, patch: PolicyPatch)
        ensures
            *final(self) == old(self).patched(patch),
    {
        if let Some(f) = patch.forced_next {
            self.forced_next = Some(f);
        }
        if let Some(w) = patch.weight_keyed {
            self.weight_keyed = w;
        }
        if let Some(w) = patch.weight_recoverable {
            self.weight_recoverable = w;
        }
        if let Some(w) = patch.weight_permanent {
            self.weight_permanent = w;
        }
        if let Some(l) = patch.latency_ms {
            self.latency_ms = if l < MAX_LATENCY_MS {
                l
            } else {
                MAX_LATENCY_MS
            };
        }
        if let Some(s) = patch.sticky_chip {
            self.sticky_chip = if s.as_str().is_empty() {
                None
            } else {
                Some(s)
            };
        }
    }
}

/// What the station core asks of the simulated keying layer.
#[derive(Debug, Clone, Copy, PartialEq, Eq, Structural)]
pub enum SimArming {
    /// The next presentation has this outcome.
    Force { outcome: ForcedOutcome },
    Ready { ready: bool },
    /// A clean slate: nothing forced, no sticky chip, ready, no latency.
    Reset,
}

impl SimPolicy {
    pub open spec fn armed(self, arming: SimArming) -> SimPolicy {
        match arming {
            SimArming::Force { outcome } => SimPolicy { forced_next: Some(outcome), ..self },
            SimArming::Ready { ready } => SimPolicy { ready, ..self },
            SimArming::Reset => SimPolicy {
                forced_next: None,
                sticky_chip: None,
                ready: true,
                latency_ms: 0,
                ..self
            },
        }
    }

    pub fn take_arming(&mut self, arming: SimArming)
        ensures
            *final(self) == old(self).armed(arming),
    {
        match arming {
            SimArming::Force { outcome } => {
                self.forced_next = Some(outcome);
            },
            SimArming::Ready { ready } => {
                self.ready = ready;
            },
            SimArming::Reset => {
                self.forced_next = None;
                self.sticky_chip = None;
                self.ready = true;
                self.latency_ms = 0;
            },
        }
    }
}

/// The nanoseconds that go into a fabricated chip identity.
pub open spec fn epoch_nanos(at: WallClock) -> u128 {
    match at {
        Some(n) => n,
        None => 0,
    }
}

/// The fabricated identity of a presentation: `sim-` and the first twelve
/// bytes of the digest over the card-type bytes and the timestamp, as hex.
pub open spec fn chip_ref_of(atr: Seq<u8>, at: WallClock) -> Seq<char> {
    "sim-"@ + crate::text::hex_of(crate::outside::sha256_of(atr + vstd::bytes::spec_u128_to_le_bytes(epoch_nanos(at))).take(12))
}

/// The shape of every fabricated identity: `sim-` and twenty-four lower-case
/// hex digits.
pub open spec fn is_sim_ref(s: Seq<char>) -> bool {
    &&& s.len() == 28
    &&& s.take(4) == "sim-"@
    &&& forall|i: int| 4 <= i < 28 ==> crate::outside::is_lower_hex(#[trigger] s[i])
}

/// Fabricates the chip identity of a presentation. Nothing chip-unique goes
/// in: chips of one model share the card-type bytes and the timestamp belongs
/// to the tap, so these identities are per presentation.
pub fn fabricate_chip_ref(atr: &[u8], at: WallClock) -> (chip_ref: String)
    ensures
        chip_ref@ == chip_ref_of(atr@, at),
        is_sim_ref(chip_ref@),
{
    let nanos: u128 = match at {
        Some(n) => n,
        None => 0,
    };
    let mut data: Vec<u8> = vstd::slice::slice_to_vec(atr);
    let mut stamp: Vec<u8> = u128_to_le_bytes(nanos);
    data.append(&mut stamp);
    chip_ref_from_digest(sha256(data.as_slice()).as_slice())
}

/// The chip identity that a digest stands for.
pub fn chip_ref_from_digest(digest: &[u8]) -> (chip_ref: String)
    requires
        digest@.len() >= 12,
    ensures
        chip_ref@ == "sim-"@ + crate::text::hex_of(digest@.take(12)),
        is_sim_ref(chip_ref@),
{
    let mut text = "sim-".to_owned();
    push_hex(&mut text, digest, 12);
    proof {
        reveal_strlit("sim-");
        reveal_strlit("0123456789abcdef");
        assert(text@.take(4) =~= "sim-"@);
    }
    text
}

/// What the simulated layer answers for a drawn outcome.
pub open spec fn sim_answer(drawn: ForcedOutcome, chip: Seq<char>) -> KeyingView {
    match drawn {
        ForcedOutcome::Keyed => KeyingView::Keyed { chip },
        ForcedOutcome::Recoverable => KeyingView::Recoverable { class: "S1"@, chip },
        ForcedOutcome::Permanent => KeyingView::Permanent { class: "S2"@, chip },
        ForcedOutcome::Notready => KeyingView::NotReady,
    }
}

/// The chip that the simulated layer reports: the sticky one, or else the
/// fabricated one.
pub open spec fn sim_chip(sticky: Option<String>, presentation: PresentationView) -> Seq<char> {
    match sticky {
        Some(chip) => chip@,
        None => chip_ref_of(presentation.atr, presentation.at),
    }
}

/// Simulated keying: draws outcomes from the armed policy.
#[derive(Debug)]
pub struct SimKeying {
    policy: SimPolicy,
}

impl View for SimKeying {
    type V = SimPolicy;

    closed spec fn view(&self) -> SimPolicy {
        self.policy
    }
}

impl SimKeying {
    pub fn new(policy: SimPolicy) -> (keying: SimKeying)
        ensures
            keying@ == policy,
    {
        SimKeying { policy }
    }

    /// Changes the policy as `update` does.
    pub fn arm(&mut self, update: impl FnOnce(&mut SimPolicy))
        requires
            forall|p: &mut SimPolicy| *p == old(self)@ ==> #[trigger] call_requires(update, (p,)),
        ensures
            exists|p: &mut SimPolicy|
                *p == old(self)@ && *final(p) == final(self)@ && #[trigger] call_ensures(
                    update,
                    (p,),
                    (),
                ),
    {
        let policy = &mut self.policy;
        update(policy);
    }

    pub fn policy(&self) -> (policy: SimPolicy)
        ensures
            policy == self@,
    {
        self.policy.clone()
    }

    pub fn ready(&self) -> (ready: bool)
        ensures
            ready == self@.ready,
    {
        self.policy.ready
    }

    /// Whether a drawn outcome is one that `policy` can come up with: what is
    /// forced comes, an unready layer says so, and otherwise the weights
    /// decide.
    pub open spec fn can_draw(policy: SimPolicy, drawn: ForcedOutcome) -> bool {
        match policy.forced_next {
            Some(forced) => drawn == forced,
            None => if !policy.ready {
                drawn == ForcedOutcome::Notready
            } else {
                exists|roll: u32|
                    #[trigger] policy.can_roll(roll) && drawn == policy.outcome_of(roll)
            },
        }
    }

    /// Draws an outcome and consumes what was forced. Which of the weighted
    /// outcomes comes is left to chance.
    fn draw(&mut self) -> (drawn: (ForcedOutcome, u64, Option<String>))
        requires
            old(self)@.forced_next is None && old(self)@.ready ==> old(self)@.total_weight()
                <= u32::MAX,
        ensures
            final(self)@ == (SimPolicy { forced_next: None, ..old(self)@ }),
            Self::can_draw(old(self)@, drawn.0),
            drawn.1 == old(self)@.latency_ms,
            drawn.2 == old(self)@.sticky_chip,
    {
        let outcome = match self.policy.forced_next.take() {
            Some(forced) => forced,
            None => {
                if !self.policy.ready {
                    ForcedOutcome::Notready
                } else {
                    let total: u32 = self.policy.weight_keyed + self.policy.weight_recoverable
                        + self.policy.weight_permanent;
                    let roll: u32 = if total == 0 {
                        0
                    } else {
                        random_below(total)
                    };
                    assert(old(self)@.can_roll(roll));
                    self.policy.outcome_for_roll(roll)
                }
            },
        };
        (outcome, self.policy.latency_ms, self.policy.sticky_chip.clone())
    }

    /// One simulated keying attempt: the answer, and the milliseconds to let
    /// pass before it is given.
    pub fn key_chip(&mut self, presentation: &ChipPresentation) -> (answer: (KeyingOutcome, u64))
        requires
            old(self)@.forced_next is None && old(self)@.ready ==> old(self)@.total_weight()
                <= u32::MAX,
        ensures
            final(self)@ == (SimPolicy { forced_next: None, ..old(self)@ }),
            exists|drawn: ForcedOutcome|
                #[trigger] Self::can_draw(old(self)@, drawn) && answer.0@ == sim_answer(
                    drawn,
                    sim_chip(old(self)@.sticky_chip, presentation@),
                ),
            answer.1 == old(self)@.latency_ms,
    {
        let (outcome, latency_ms, sticky) = self.draw();
        (answer_for(outcome, sticky, presentation), latency_ms)
    }
}

/// The answer of the simulated layer once the outcome is drawn.
pub fn answer_for(
    drawn: ForcedOutcome,
    sticky: Option<String>,
    presentation: &ChipPresentation,
) -> (answer: KeyingOutcome)
    ensures
        answer@ == sim_answer(drawn, sim_chip(sticky, presentation@)),
{
    let chip_ref = ChipRef(
        match sticky {
            Some(chip) => chip,
            None => fabricate_chip_ref(presentation.atr.as_slice(), presentation.at),
        },
    );
    match drawn {
        ForcedOutcome::Keyed => KeyingOutcome::Keyed { chip_ref },
        ForcedOutcome::Recoverable => KeyingOutcome::Recoverable {
            class: "S1".to_owned(),
            chip_ref,
        },
        ForcedOutcome::Permanent => KeyingOutcome::Permanent { class: "S2".to_owned(), chip_ref },
        ForcedOutcome::Notready => KeyingOutcome::NotReady,
    }
}

/// The sim outcome that makes the real pipeline rule `verdict` on a fresh
/// chip.
pub open spec fn forcing(verdict: TapVerdict) -> ForcedOutcome {
    match verdict {
        TapVerdict::Success => ForcedOutcome::Keyed,
        TapVerdict::Retry => ForcedOutcome::Recoverable,
        TapVerdict::Dead => ForcedOutcome::Permanent,
    }
}

pub fn force_for_verdict(verdict: TapVerdict) -> (forced: ForcedOutcome)
    ensures
        forced == forcing(verdict),
{
    match verdict {
        TapVerdict::Success => ForcedOutcome::Keyed,
        TapVerdict::Retry => ForcedOutcome::Recoverable,
        TapVerdict::Dead => ForcedOutcome::Permanent,
    }
}

/// A policy without any weight keys nothing: an unforced tap of a ready layer
/// is then permanent. With all the weight on one outcome, that one comes.
pub proof fn law_the_weights_decide(policy: SimPolicy, drawn: ForcedOutcome)
    requires
        policy.forced_next is None,
        policy.ready,
        SimKeying::can_draw(policy, drawn),
    ensures
        policy.total_weight() == 0 ==> drawn == ForcedOutcome::Permanent,
        drawn == ForcedOutcome::Keyed ==> policy.weight_keyed > 0,
        drawn == ForcedOutcome::Recoverable ==> policy.weight_recoverable > 0,
        drawn == ForcedOutcome::Permanent ==> policy.weight_permanent > 0 || policy.total_weight()
            == 0,
        drawn != ForcedOutcome::Notready,
{
}

/// A roll of a policy with weight draws each outcome on as many rolls as it
/// has weight: the keyed ones first, then the recoverable, then the permanent.
pub proof fn law_each_outcome_has_its_rolls(policy: SimPolicy, roll: u32)
    requires
        roll < policy.weight_keyed + policy.weight_recoverable + policy.weight_permanent,
    ensures
        policy.can_roll(roll),
        policy.outcome_of(roll) == ForcedOutcome::Keyed <==> roll < policy.weight_keyed,
        policy.outcome_of(roll) == ForcedOutcome::Recoverable <==> policy.weight_keyed <= roll
            < policy.weight_keyed + policy.weight_recoverable,
        policy.outcome_of(roll) == ForcedOutcome::Permanent <==> policy.weight_keyed
            + policy.weight_recoverable <= roll,
{
}

/// What is forced is drawn, ready or not, and whatever the weights are; an
/// unready layer draws nothing else than that it is not; and a ready one never
/// says that it is not.
pub proof fn law_a_forced_outcome_is_drawn(policy: SimPolicy, drawn: ForcedOutcome)
    ensures
        policy.forced_next is Some ==> (SimKeying::can_draw(policy, drawn) <==> policy.forced_next
            == Some(drawn)),
        policy.forced_next is None && !policy.ready ==> (SimKeying::can_draw(policy, drawn) <==>
            drawn == ForcedOutcome::Notready),
        policy.forced_next is None && policy.ready && SimKeying::can_draw(policy, drawn) ==> drawn
            != ForcedOutcome::Notready,
{
}

/// What an attempt leaves of a policy and answers: what was forced is consumed,
/// and comes; an unready layer says so; the chip that sticks is the one that is
/// reported; and the answer takes as long as the policy says.
pub open spec fn consumes_what_was_forced(
    before: SimPolicy,
    after: SimPolicy,
    answer: (KeyingOutcome, u64),
) -> bool {
    &&& after == SimPolicy { forced_next: None, ..before }
    &&& answer.1 == before.latency_ms
    &&& before.forced_next == Some(ForcedOutcome::Keyed) ==> answer.0 is Keyed
    &&& before.forced_next == Some(ForcedOutcome::Recoverable) ==> answer.0 is Recoverable
    &&& before.forced_next == Some(ForcedOutcome::Permanent) ==> answer.0 is Permanent
    &&& before.forced_next == Some(ForcedOutcome::Notready) ==> answer.0 is NotReady
    &&& before.forced_next is None && !before.ready ==> answer.0 is NotReady
    &&& before.forced_next is None && before.ready ==> !(answer.0 is NotReady)
    &&& before.sticky_chip matches Some(chip) ==> match answer.0 {
        KeyingOutcome::Keyed { chip_ref } => chip_ref@ == chip@,
        KeyingOutcome::Recoverable { chip_ref, .. } => chip_ref@ == chip@,
        KeyingOutcome::Permanent { chip_ref, .. } => chip_ref@ == chip@,
        KeyingOutcome::NotReady => true,
    }
}

/// An attempt consumes what was forced and changes nothing else of the policy:
/// the next one is drawn by the weights again.
pub proof fn law_an_attempt_consumes_what_was_forced(presentation: &ChipPresentation)
    ensures
        forall|keying: &mut SimKeying, answer: (KeyingOutcome, u64)| #[trigger]
            call_ensures(SimKeying::key_chip, (keying, presentation), answer)
                ==> consumes_what_was_forced((*keying)@, (*final(keying))@, answer),
{
    assert forall|keying: &mut SimKeying, answer: (KeyingOutcome, u64)| #[trigger]
        call_ensures(
            SimKeying::key_chip,
            (keying, presentation),
            answer,
        ) implies consumes_what_was_forced((*keying)@, (*final(keying))@, answer) by {
        let before = (*keying)@;
        let drawn = choose|drawn: ForcedOutcome| #[trigger]
            SimKeying::can_draw(before, drawn) && answer.0@ == sim_answer(
                drawn,
                sim_chip(before.sticky_chip, presentation@),
            );
        law_a_forced_outcome_is_drawn(before, drawn);
    }
}

/// A patch sets what it names and leaves the rest: the latency is held to ten
/// seconds, the empty text takes the sticky chip away, and whether the layer is
/// ready is not the console's to say.
pub proof fn law_a_patch_sets_what_it_names(policy: SimPolicy, patch: PolicyPatch)
    ensures
        ({
            let after = policy.patched(patch);
            &&& after.ready == policy.ready
            &&& after.forced_next == (if patch.forced_next is Some {
                patch.forced_next
            } else {
                policy.forced_next
            })
            &&& patch.weight_keyed matches Some(w) ==> after.weight_keyed == w
            &&& patch.weight_keyed is None ==> after.weight_keyed == policy.weight_keyed
            &&& patch.weight_recoverable matches Some(w) ==> after.weight_recoverable == w
            &&& patch.weight_recoverable is None ==> after.weight_recoverable
                == policy.weight_recoverable
            &&& patch.weight_permanent matches Some(w) ==> after.weight_permanent == w
            &&& patch.weight_permanent is None ==> after.weight_permanent
                == policy.weight_permanent
            &&& patch.latency_ms matches Some(l) ==> {
                &&& l <= 10_000 ==> after.latency_ms == l
                &&& l > 10_000 ==> after.latency_ms == 10_000
            }
            &&& patch.latency_ms is None ==> after.latency_ms == policy.latency_ms
            &&& patch.sticky_chip matches Some(chip) ==> {
                &&& chip@.len() == 0 ==> after.sticky_chip is None
                &&& chip@.len() > 0 ==> after.sticky_chip == Some(chip)
            }
            &&& patch.sticky_chip is None ==> after.sticky_chip == policy.sticky_chip
        }),
{
}

/// Arming forces, or sets readiness, or wipes the slate; the weights stay in
/// any case, and what an arming is not about stays too.
pub proof fn law_arming_sets_what_it_is_about(
    policy: SimPolicy,
    outcome: ForcedOutcome,
    ready: bool,
)
    ensures
        ({
            let forced = policy.armed(SimArming::Force { outcome });
            let told = policy.armed(SimArming::Ready { ready });
            let wiped = policy.armed(SimArming::Reset);
            &&& forced == (SimPolicy { forced_next: Some(outcome), ..policy })
            &&& told == (SimPolicy { ready, ..policy })
            &&& wiped.forced_next is None && wiped.sticky_chip is None && wiped.ready
                && wiped.latency_ms == 0
            &&& wiped.weight_keyed == policy.weight_keyed
            &&& wiped.weight_recoverable == policy.weight_recoverable
            &&& wiped.weight_permanent == policy.weight_permanent
        }),
{
}

/// The simulated layer answers what was drawn, about the chip it was drawn for:
/// class `S1` for what can be tried again and `S2` for what cannot.
pub proof fn law_the_answer_is_the_drawn_outcome(chip: Seq<char>)
    ensures
        sim_answer(ForcedOutcome::Keyed, chip) == (KeyingView::Keyed { chip }),
        sim_answer(ForcedOutcome::Recoverable, chip) == (KeyingView::Recoverable {
            class: "S1"@,
            chip,
        }),
        sim_answer(ForcedOutcome::Permanent, chip) == (KeyingView::Permanent {
            class: "S2"@,
            chip,
        }),
        sim_answer(ForcedOutcome::Notready, chip) == KeyingView::NotReady,
{
}

/// Two presentations have the same fabricated identity exactly when the first
/// twelve bytes of their digests agree, each digest being over all the
/// card-type bytes and then all sixteen bytes of the time. A chip that sticks
/// has its own, whatever is presented.
pub proof fn law_an_identity_is_of_one_presentation(
    a: PresentationView,
    b: PresentationView,
    sticky: Option<String>,
)
    ensures
        ({
            let time_a: u128 = if a.at is Some {
                a.at->0
            } else {
                0
            };
            let time_b: u128 = if b.at is Some {
                b.at->0
            } else {
                0
            };
            let digest_a = crate::outside::sha256_of(
                a.atr + vstd::bytes::spec_u128_to_le_bytes(time_a),
            );
            let digest_b = crate::outside::sha256_of(
                b.atr + vstd::bytes::spec_u128_to_le_bytes(time_b),
            );
            &&& chip_ref_of(a.atr, a.at) == chip_ref_of(b.atr, b.at) <==> digest_a.take(12)
                == digest_b.take(12)
            &&& sticky matches Some(chip) ==> sim_chip(sticky, a) == chip@
            &&& sticky is None ==> sim_chip(sticky, a) == chip_ref_of(a.atr, a.at)
        }),
{
    let head_a = crate::outside::sha256_of(
        a.atr + vstd::bytes::spec_u128_to_le_bytes(epoch_nanos(a.at)),
    ).take(12);
    let head_b = crate::outside::sha256_of(
        b.atr + vstd::bytes::spec_u128_to_le_bytes(epoch_nanos(b.at)),
    ).take(12);
    crate::text::law_hex_text_is_the_bytes(head_a, head_b);
    if chip_ref_of(a.atr, a.at) == chip_ref_of(b.atr, b.at) {
        let n = "sim-"@.len() as int;
        assert(chip_ref_of(a.atr, a.at).skip(n) =~= crate::text::hex_of(head_a));
        assert(chip_ref_of(b.atr, b.at).skip(n) =~= crate::text::hex_of(head_b));
    }
}

/// The outcome that is forced for a verdict is the one that the verdict is
/// about.
pub proof fn law_a_verdict_is_forced_by_its_outcome(verdict: TapVerdict)
    ensures
        verdict == TapVerdict::Success <==> forcing(verdict) == ForcedOutcome::Keyed,
        verdict == TapVerdict::Retry <==> forcing(verdict) == ForcedOutcome::Recoverable,
        verdict == TapVerdict::Dead <==> forcing(verdict) == ForcedOutcome::Permanent,
{
}

/// Each outcome is shown under its own name.
pub proof fn law_each_outcome_has_its_name(outcome: ForcedOutcome, name: &'static str)
    requires
        call_ensures(ForcedOutcome::name, (outcome,), name),
    ensures
        outcome == ForcedOutcome::Keyed <==> name@ == "keyed"@,
        outcome == ForcedOutcome::Recoverable <==> name@ == "recoverable"@,
        outcome == ForcedOutcome::Permanent <==> name@ == "permanent"@,
        outcome == ForcedOutcome::Notready <==> name@ == "notready"@,
{
    reveal_strlit("keyed");
    reveal_strlit("recoverable");
    reveal_strlit("permanent");
    reveal_strlit("notready");
    assert("keyed"@.len() == 5 && "notready"@.len() == 8 && "permanent"@.len() == 9
        && "recoverable"@.len() == 11);
}

/// The policy that nobody has touched: mostly successes, a quarter of a second
/// each, ready, with nothing forced and no chip that sticks.
pub proof fn law_the_usual_policy_keys_chips(policy: SimPolicy)
    requires
        call_ensures(SimPolicy::default, (), policy),
    ensures
        policy.weight_keyed == 85 && policy.weight_recoverable == 12 && policy.weight_permanent
            == 3,
        policy.latency_ms == 250,
        policy.ready && policy.forced_next is None && policy.sticky_chip is None,
{
}

/// The weights fit exactly if their sum is a number that a draw can be made
/// below.
pub proof fn law_weights_fit_if_their_sum_does(policy: SimPolicy, fit: bool)
    requires
        call_ensures(SimPolicy::weights_fit, (&policy,), fit),
    ensures
        fit <==> policy.weight_keyed + policy.weight_recoverable + policy.weight_permanent
            <= 0xffff_ffff,
{
}

/// The views of presentations and outcomes show every field as it is.
pub proof fn law_presentations_are_shown_as_they_are(
    presentation: ChipPresentation,
    chip: ChipRef,
    outcome: KeyingOutcome,
)
    ensures
        presentation@.reader_id == presentation.reader_id@ && presentation@.at == presentation.at
            && presentation@.atr == presentation.atr@,
        chip@ == chip.0@,
        match outcome {
            KeyingOutcome::Keyed { chip_ref } => outcome@ == (KeyingView::Keyed {
                chip: chip_ref.0@,
            }),
            KeyingOutcome::Recoverable { class, chip_ref } => outcome@
                == (KeyingView::Recoverable { class: class@, chip: chip_ref.0@ }),
            KeyingOutcome::Permanent { class, chip_ref } => outcome@ == (KeyingView::Permanent {
                class: class@,
                chip: chip_ref.0@,
            }),
            KeyingOutcome::NotReady => outcome@ is NotReady,
        },
{
}

}
