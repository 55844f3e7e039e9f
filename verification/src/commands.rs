//! Which commands a page may call, and what they are held to.

use crate::text::same_text;
use vstd::prelude::*;

verus! {

/// Which optional command families this launch enabled. They are gated by
/// window too: the operator's page can never call a sim command.
#[derive(Debug, Clone, Copy, PartialEq, Eq, Structural)]
pub struct Modes {
    pub sim: bool,
    pub conformance: bool,
}

/// The shortest and the longest blip that the sim console can ask for.
pub const BLIP_MIN_MS: u64 = 100;

pub const BLIP_MAX_MS: u64 = 60_000;

impl Modes {
    /// Sim commands are there under `--sim`, from the sim console.
    pub open spec fn allows_sim(self, label: Seq<char>) -> bool {
        self.sim && label == "sim"@
    }

    /// Conformance commands are there under `--conformance`, from the main
    /// window, in which the harness loads.
    pub open spec fn allows_conformance(self, label: Seq<char>) -> bool {
        self.conformance && label == "main"@
    }
}

/// What a page gets to hear of a command that it may call or not.
pub open spec fn answers(result: Result<(), String>, allowed: bool) -> bool {
    match result {
        Ok(_) => allowed,
        Err(message) => !allowed && message@ == "not available"@,
    }
}

fn answer(allowed: bool) -> (result: Result<(), String>)
    ensures
        answers(result, allowed),
{
    if allowed {
        Ok(())
    } else {
        Err("not available".to_owned())
    }
}

/// Lets sim commands through from the window labelled `label`.
pub fn ensure_sim(label: &str, modes: &Modes) -> (result: Result<(), String>)
    ensures
        answers(result, modes.allows_sim(label@)),
{
    answer(modes.sim && same_text(label, "sim"))
}

/// Lets conformance commands through from the window labelled `label`.
pub fn ensure_conformance(label: &str, modes: &Modes) -> (result: Result<(), String>)
    ensures
        answers(result, modes.allows_conformance(label@)),
{
    answer(modes.conformance && same_text(label, "main"))
}

/// Lets the shell-initiated shift begin through, which harness and sim console
/// share.
pub fn ensure_apply_batch(label: &str, modes: &Modes) -> (result: Result<(), String>)
    ensures
        answers(result, modes.allows_conformance(label@) || modes.allows_sim(label@)),
{
    answer(
        (modes.conformance && same_text(label, "main")) || (modes.sim && same_text(label, "sim")),
    )
}

/// A blip's length, held to its bounds.
pub fn blip_ms(asked: u64) -> (ms: u64)
    ensures
        BLIP_MIN_MS <= ms <= BLIP_MAX_MS,
        BLIP_MIN_MS <= asked <= BLIP_MAX_MS ==> ms == asked,
        asked < BLIP_MIN_MS ==> ms == BLIP_MIN_MS,
        asked > BLIP_MAX_MS ==> ms == BLIP_MAX_MS,
{
    if asked < BLIP_MIN_MS {
        BLIP_MIN_MS
    } else if asked > BLIP_MAX_MS {
        BLIP_MAX_MS
    } else {
        asked
    }
}

/// The operator's page can call no sim command under any launch, and no window
/// can call both families.
pub proof fn law_the_kiosk_page_has_no_sim_commands(modes: Modes, label: Seq<char>)
    ensures
        !modes.allows_sim("main"@),
        !(modes.allows_sim(label) && modes.allows_conformance(label)),
        !modes.sim && !modes.conformance ==> !modes.allows_sim(label) && !modes.allows_conformance(
            label,
        ),
{
    reveal_strlit("main");
    reveal_strlit("sim");
    assert("main"@.len() != "sim"@.len());
}

/// Each family of commands answers one window, under the flag that asks for it,
/// and is not available to any other; the shift begin that both share answers
/// both.
pub proof fn law_commands_answer_their_own_window(
    label: &str,
    modes: Modes,
    sim: Result<(), String>,
    conformance: Result<(), String>,
    apply: Result<(), String>,
)
    requires
        call_ensures(ensure_sim, (label, &modes), sim),
        call_ensures(ensure_conformance, (label, &modes), conformance),
        call_ensures(ensure_apply_batch, (label, &modes), apply),
    ensures
        sim is Ok <==> modes.sim && label@ == "sim"@,
        conformance is Ok <==> modes.conformance && label@ == "main"@,
        apply is Ok <==> sim is Ok || conformance is Ok,
        sim matches Err(message) ==> message@ == "not available"@,
        conformance matches Err(message) ==> message@ == "not available"@,
        apply matches Err(message) ==> message@ == "not available"@,
{
}

/// A blip lasts as long as asked, but no less than a tenth of a second and no
/// more than a minute.
pub proof fn law_a_blip_is_held_to_its_bounds(asked: u64, ms: u64)
    requires
        call_ensures(blip_ms, (asked,), ms),
    ensures
        100 <= ms <= 60_000,
        100 <= asked <= 60_000 ==> ms == asked,
        asked < 100 ==> ms == 100,
        asked > 60_000 ==> ms == 60_000,
{
}

}
