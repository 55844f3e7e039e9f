//! Records for the supervisor feed, one line of a log each.
//!
//! They are not the retry counter, which is scoped to the session. Chip
//! identities and failure classes stand in these logs alone and never reach an
//! operator surface.

use vstd::prelude::*;

verus! {

#[derive(Debug, PartialEq, Eq)]
pub struct FailureRecord {
    pub ts: u64,
    pub chip_ref: String,
    pub class: String,
    pub verdict: &'static str,
    /// Attempt number of this chip within the session, from 1.
    pub attempt: u8,
    /// Whether this failure is the third in a row, which makes the chip dead.
    pub escalated: bool,
    pub reader_id: String,
    pub batch_id: String,
    pub shift_id: String,
}

#[verifier::ext_equal]
pub ghost struct FailureView {
    pub ts: u64,
    pub chip_ref: Seq<char>,
    pub class: Seq<char>,
    pub verdict: Seq<char>,
    pub attempt: u8,
    pub escalated: bool,
    pub reader_id: Seq<char>,
    pub batch_id: Seq<char>,
    pub shift_id: Seq<char>,
}

impl View for FailureRecord {
    type V = FailureView;

    open spec fn view(&self) -> FailureView {
        FailureView {
            ts: self.ts,
            chip_ref: self.chip_ref@,
            class: self.class@,
            verdict: self.verdict@,
            attempt: self.attempt,
            escalated: self.escalated,
            reader_id: self.reader_id@,
            batch_id: self.batch_id@,
            shift_id: self.shift_id@,
        }
    }
}

/// A success on a batch that was already at or past its total.
#[derive(Debug, PartialEq, Eq)]
pub struct OverrunRecord {
    pub ts: u64,
    pub chip_ref: String,
    pub reader_id: String,
    pub batch_id: String,
    pub shift_id: String,
    pub total: u32,
    /// What the batch had completed when the chip was presented.
    pub completed: u32,
}

#[verifier::ext_equal]
pub ghost struct OverrunView {
    pub ts: u64,
    pub chip_ref: Seq<char>,
    pub reader_id: Seq<char>,
    pub batch_id: Seq<char>,
    pub shift_id: Seq<char>,
    pub total: nat,
    pub completed: nat,
}

impl View for OverrunRecord {
    type V = OverrunView;

    open spec fn view(&self) -> OverrunView {
        OverrunView {
            ts: self.ts,
            chip_ref: self.chip_ref@,
            reader_id: self.reader_id@,
            batch_id: self.batch_id@,
            shift_id: self.shift_id@,
            total: self.total as nat,
            completed: self.completed as nat,
        }
    }
}

/// The views of the records show every field as it is.
pub proof fn law_records_are_shown_as_they_are(failure: FailureRecord, overrun: OverrunRecord)
    ensures
        failure@.ts == failure.ts && failure@.chip_ref == failure.chip_ref@,
        failure@.class == failure.class@ && failure@.verdict == failure.verdict@,
        failure@.attempt == failure.attempt && failure@.escalated == failure.escalated,
        failure@.reader_id == failure.reader_id@ && failure@.batch_id == failure.batch_id@,
        failure@.shift_id == failure.shift_id@,
        overrun@.ts == overrun.ts && overrun@.chip_ref == overrun.chip_ref@,
        overrun@.reader_id == overrun.reader_id@ && overrun@.batch_id == overrun.batch_id@,
        overrun@.shift_id == overrun.shift_id@,
        overrun@.total == overrun.total && overrun@.completed == overrun.completed,
{
}

}
