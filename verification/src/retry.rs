//! Per-chip retry ledger: the third consecutive recoverable failure of a chip
//! makes it dead.
//!
//! Scoped to the session by design: it lives in memory, starts empty after a
//! crash and at every shift begin, and is never persisted.

use vstd::hash_map::StringHashMap;
use vstd::prelude::*;

verus! {

pub const ESCALATION_THRESHOLD: u8 = 3;

/// The failures that a ledger holds of `chip`.
pub open spec fn attempts_of(ledger: Map<Seq<char>, u8>, chip: Seq<char>) -> u8 {
    if ledger.contains_key(chip) {
        ledger[chip]
    } else {
        0
    }
}

/// One failure more, stopping at the largest number the ledger can hold.
pub open spec fn next_attempt(n: u8) -> u8 {
    if n < u8::MAX {
        (n + 1) as u8
    } else {
        u8::MAX
    }
}

/// The ledger after a failure of `chip`.
pub open spec fn after_failure(ledger: Map<Seq<char>, u8>, chip: Seq<char>) -> Map<Seq<char>, u8> {
    ledger.insert(chip, next_attempt(attempts_of(ledger, chip)))
}

pub struct RetryLedger {
    counts: StringHashMap<u8>,
}

impl View for RetryLedger {
    type V = Map<Seq<char>, u8>;

    closed spec fn view(&self) -> Map<Seq<char>, u8> {
        self.counts@
    }
}

impl Default for RetryLedger {
    fn default() -> (ledger: RetryLedger)
        ensures
            ledger@ == Map::<Seq<char>, u8>::empty(),
    {
        RetryLedger { counts: StringHashMap::new() }
    }
}

impl RetryLedger {
    /// Records a failure of a chip and returns the attempt number, from 1.
    /// The caller escalates to `dead` at `ESCALATION_THRESHOLD`.
    pub fn record_failure(&mut self, chip_ref: &str) -> (attempt: u8)
        ensures
            final(self)@ == after_failure(old(self)@, chip_ref@),
            attempt == next_attempt(attempts_of(old(self)@, chip_ref@)),
    {
        let n: u8 = self.attempts(chip_ref).saturating_add(1);
        self.counts.insert(chip_ref.to_owned(), n);
        n
    }

    /// A successful keying, or an escalation to dead, closes the chip's entry.
    pub fn clear_chip(&mut self, chip_ref: &str)
        ensures
            final(self)@ == old(self)@.remove(chip_ref@),
    {
        self.counts.remove(chip_ref);
    }

    /// A shift begin starts a fresh session.
    pub fn clear_all(&mut self)
        ensures
            final(self)@ == Map::<Seq<char>, u8>::empty(),
    {
        self.counts.clear();
    }

    pub fn attempts(&self, chip_ref: &str) -> (n: u8)
        ensures
            n == attempts_of(self@, chip_ref@),
    {
        match self.counts.get(chip_ref) {
            Some(n) => *n,
            None => 0,
        }
    }
}

/// From a chip that the ledger does not hold, the third failure in a row, and
/// none before it, reaches the escalation threshold.
pub proof fn law_third_consecutive_failure_escalates(ledger: Map<Seq<char>, u8>, chip: Seq<char>)
    requires
        !ledger.contains_key(chip),
    ensures
        ({
            let one = after_failure(ledger, chip);
            let two = after_failure(one, chip);
            let three = after_failure(two, chip);
            &&& attempts_of(one, chip) == 1
            &&& attempts_of(one, chip) < ESCALATION_THRESHOLD
            &&& attempts_of(two, chip) == 2
            &&& attempts_of(two, chip) < ESCALATION_THRESHOLD
            &&& attempts_of(three, chip) == ESCALATION_THRESHOLD
        }),
{
}

/// Chips are counted independently: a failure of one, or the closing of its
/// entry, leaves every other chip's count as it was.
pub proof fn law_chips_are_counted_independently(
    ledger: Map<Seq<char>, u8>,
    chip: Seq<char>,
    other: Seq<char>,
)
    requires
        chip != other,
    ensures
        attempts_of(after_failure(ledger, chip), other) == attempts_of(ledger, other),
        attempts_of(ledger.remove(chip), other) == attempts_of(ledger, other),
        attempts_of(ledger.remove(chip), chip) == 0,
{
}

/// A failure counts one more than the ledger held of the chip, and is the
/// number that the ledger holds from then on; a number that cannot grow stays.
pub proof fn law_a_failure_counts_one_more(ledger: Map<Seq<char>, u8>, chip: Seq<char>)
    ensures
        ({
            let before = if ledger.contains_key(chip) {
                ledger[chip] as int
            } else {
                0
            };
            let after = after_failure(ledger, chip);
            &&& after.contains_key(chip)
            &&& before < 255 ==> after[chip] == before + 1
            &&& before == 255 ==> after[chip] == 255
            &&& next_attempt(attempts_of(ledger, chip)) == after[chip]
            &&& after.remove(chip) == ledger.remove(chip)
        }),
{
    assert(after_failure(ledger, chip).remove(chip) =~= ledger.remove(chip));
}

/// The ledger as its methods keep it: a failure is counted for its chip and
/// answered, a closed entry is gone and so is every entry when all are cleared,
/// and a chip that it does not hold has not failed.
pub proof fn law_the_ledger_keeps_count(chip_ref: &str, fresh: RetryLedger)
    requires
        call_ensures(RetryLedger::default, (), fresh),
    ensures
        forall|chip: Seq<char>| !(#[trigger] fresh@.contains_key(chip)),
        forall|ledger: &mut RetryLedger, attempt: u8| #[trigger]
            call_ensures(RetryLedger::record_failure, (ledger, chip_ref), attempt) ==> {
                let before = if (*ledger)@.contains_key(chip_ref@) {
                    (*ledger)@[chip_ref@] as int
                } else {
                    0
                };
                &&& before < 255 ==> attempt == before + 1
                &&& before == 255 ==> attempt == 255
                &&& (*final(ledger))@ == (*ledger)@.insert(chip_ref@, attempt)
            },
        forall|ledger: &mut RetryLedger| #[trigger]
            call_ensures(RetryLedger::clear_chip, (ledger, chip_ref), ()) ==> (*final(ledger))@
                == (*ledger)@.remove(chip_ref@),
        forall|ledger: &mut RetryLedger, chip: Seq<char>| #[trigger]
            call_ensures(RetryLedger::clear_all, (ledger,), ()) ==> !(
            #[trigger] (*final(ledger))@.contains_key(chip)),
        forall|ledger: RetryLedger, n: u8| #[trigger]
            call_ensures(RetryLedger::attempts, (&ledger, chip_ref), n) ==> n == (
            if ledger@.contains_key(chip_ref@) {
                ledger@[chip_ref@] as int
            } else {
                0
            }),
{
}

}
