//! The batch seam's simulated side: fixed batches plus recorded progress.
//!
//! The guarded write of outcomes lives elsewhere. `SimBatchSource` answers
//! with fixture batches on which the progress recorded so far is added up.

use crate::contract::{BatchInfo, BatchView, TapVerdict};
use vstd::prelude::*;

verus! {

/// What has been recorded of one batch on top of its fixture.
#[derive(Debug, Clone, Copy, PartialEq, Eq, Structural)]
pub struct Progress {
    pub completed: u32,
    pub failed: u32,
}

/// The progress of a batch of which nothing has been recorded.
pub open spec fn no_progress() -> Progress {
    Progress { completed: 0, failed: 0 }
}

/// The progress that a list of entries records, a later entry of a batch
/// standing in place of an earlier one.
pub open spec fn recorded_in(entries: Seq<(String, Progress)>) -> Map<Seq<char>, Progress>
    decreases entries.len(),
{
    if entries.len() == 0 {
        Map::empty()
    } else {
        recorded_in(entries.drop_last()).insert(entries.last().0@, entries.last().1)
    }
}

/// No batch has two entries.
pub open spec fn distinct_ids(entries: Seq<(String, Progress)>) -> bool {
    forall|i: int, j: int|
        0 <= i < j < entries.len() ==> (#[trigger] entries[i]).0@ != (#[trigger] entries[j]).0@
}

proof fn lemma_recorded_domain(entries: Seq<(String, Progress)>, id: Seq<char>)
    ensures
        recorded_in(entries).contains_key(id) <==> exists|i: int|
            0 <= i < entries.len() && (#[trigger] entries[i]).0@ == id,
    decreases entries.len(),
{
    if entries.len() > 0 {
        let rest = entries.drop_last();
        lemma_recorded_domain(rest, id);
        if recorded_in(entries).contains_key(id) {
            if entries.last().0@ == id {
                assert(entries[entries.len() - 1].0@ == id);
            } else {
                let i = choose|i: int| 0 <= i < rest.len() && (#[trigger] rest[i]).0@ == id;
                assert(entries[i].0@ == id);
            }
        }
        if exists|i: int| 0 <= i < entries.len() && (#[trigger] entries[i]).0@ == id {
            let i = choose|i: int| 0 <= i < entries.len() && (#[trigger] entries[i]).0@ == id;
            if i < rest.len() {
                assert(rest[i].0@ == id);
            }
        }
    }
}

proof fn lemma_recorded_at(entries: Seq<(String, Progress)>, i: int)
    requires
        distinct_ids(entries),
        0 <= i < entries.len(),
    ensures
        recorded_in(entries).contains_key(entries[i].0@),
        recorded_in(entries)[entries[i].0@] == entries[i].1,
    decreases entries.len(),
{
    if i < entries.len() - 1 {
        lemma_recorded_at(entries.drop_last(), i);
        assert(entries[i].0@ != entries[entries.len() - 1].0@);
    }
}

proof fn lemma_recorded_update(entries: Seq<(String, Progress)>, i: int, p: Progress)
    requires
        distinct_ids(entries),
        0 <= i < entries.len(),
    ensures
        recorded_in(entries.update(i, (entries[i].0, p))) == recorded_in(entries).insert(
            entries[i].0@,
            p,
        ),
    decreases entries.len(),
{
    let updated = entries.update(i, (entries[i].0, p));
    if i < entries.len() - 1 {
        lemma_recorded_update(entries.drop_last(), i, p);
        assert(updated.drop_last() =~= entries.drop_last().update(i, (entries[i].0, p)));
        assert(entries[i].0@ != entries[entries.len() - 1].0@);
    } else {
        assert(updated.drop_last() =~= entries.drop_last());
    }
    assert(recorded_in(updated) =~= recorded_in(entries).insert(entries[i].0@, p));
}

/// What the simulated source knows: the fixtures in order, and the progress
/// recorded by batch id.
#[verifier::ext_equal]
pub ghost struct SourceView {
    pub fixtures: Seq<BatchView>,
    pub overlay: Map<Seq<char>, Progress>,
}

impl SourceView {
    pub open spec fn progress(self, id: Seq<char>) -> Progress {
        if self.overlay.contains_key(id) {
            self.overlay[id]
        } else {
            no_progress()
        }
    }

    /// A fixture with its recorded progress added, unclamped.
    pub open spec fn merged(self, fixture: BatchView) -> BatchView {
        BatchView {
            completed: fixture.completed + self.progress(fixture.id).completed as nat,
            failed: fixture.failed + self.progress(fixture.id).failed as nat,
            ..fixture
        }
    }

    pub open spec fn listed(self) -> Seq<BatchView> {
        self.fixtures.map_values(|f: BatchView| self.merged(f))
    }

    /// The batch of that id: the first one, if there are several.
    pub open spec fn found(self, id: Seq<char>) -> Option<BatchView> {
        match first_with_id(self.fixtures, id) {
            Some(f) => Some(self.merged(f)),
            None => None,
        }
    }

    /// The source after one more outcome: a success completes, a dead chip
    /// fails, a retry records nothing.
    pub open spec fn recorded(self, id: Seq<char>, verdict: TapVerdict) -> SourceView {
        let p = self.progress(id);
        SourceView {
            overlay: self.overlay.insert(
                id,
                match verdict {
                    TapVerdict::Success => Progress { completed: (p.completed + 1) as u32, ..p },
                    TapVerdict::Dead => Progress { failed: (p.failed + 1) as u32, ..p },
                    TapVerdict::Retry => p,
                },
            ),
            ..self
        }
    }
}

pub open spec fn first_with_id(fixtures: Seq<BatchView>, id: Seq<char>) -> Option<BatchView>
    decreases fixtures.len(),
{
    if fixtures.len() == 0 {
        None
    } else if fixtures[0].id == id {
        Some(fixtures[0])
    } else {
        first_with_id(fixtures.skip(1), id)
    }
}

/// The numbers of a batch are ones that its type can hold.
pub open spec fn holds(b: BatchView) -> bool {
    b.completed <= u32::MAX && b.failed <= u32::MAX
}

/// They still are once the outcome is added.
pub open spec fn has_room_for(b: BatchView, verdict: TapVerdict) -> bool {
    &&& holds(b)
    &&& verdict == TapVerdict::Success ==> b.completed < u32::MAX
    &&& verdict == TapVerdict::Dead ==> b.failed < u32::MAX
}

/// An outcome was recorded against a batch that the source does not know.
#[derive(Debug, PartialEq, Eq)]
pub struct UnknownBatch {
    pub id: String,
}

impl UnknownBatch {
    pub fn message(&self) -> (text: String)
        ensures
            text@ == "unknown batch: "@ + self.id@,
    {
        "unknown batch: ".to_owned().concat(self.id.as_str())
    }
}

pub struct SimBatchSource {
    fixtures: Vec<BatchInfo>,
    overlay: Vec<(String, Progress)>,
}

impl View for SimBatchSource {
    type V = SourceView;

    closed spec fn view(&self) -> SourceView {
        SourceView {
            fixtures: self.fixtures.deep_view(),
            overlay: recorded_in(self.overlay@),
        }
    }
}

impl SimBatchSource {
    /// Each batch has at most one progress entry.
    pub closed spec fn wf(self) -> bool {
        distinct_ids(self.overlay@)
    }

    /// A source of these batches, with the progress that `progress` records.
    pub fn new(fixtures: Vec<BatchInfo>, progress: Vec<(String, Progress)>) -> (source:
        SimBatchSource)
        ensures
            source.wf(),
            source@ == (SourceView {
                fixtures: fixtures.deep_view(),
                overlay: recorded_in(progress@),
            }),
    {
        let mut source = SimBatchSource { fixtures, overlay: Vec::new() };
        let mut i: usize = 0;
        while i < progress.len()
            invariant
                source.wf(),
                i <= progress.len(),
                source@ == (SourceView {
                    fixtures: fixtures.deep_view(),
                    overlay: recorded_in(progress@.take(i as int)),
                }),
            decreases progress.len() - i,
        {
            assert(progress@.take(i + 1).drop_last() =~= progress@.take(i as int));
            source.set_progress(progress[i].0.as_str(), progress[i].1);
            i = i + 1;
        }
        assert(progress@.take(progress.len() as int) =~= progress@);
        source
    }

    /// Drops all recorded progress.
    pub fn reset(&mut self)
        ensures
            final(self).wf(),
            final(self)@ == (SourceView { overlay: Map::empty(), ..old(self)@ }),
    {
        self.overlay = Vec::new();
    }

    fn entry_of(&self, id: &str) -> (at: Option<usize>)
        requires
            self.wf(),
        ensures
            match at {
                Some(i) => i < self.overlay.len() && self.overlay[i as int].0@ == id@,
                None => !self@.overlay.contains_key(id@),
            },
    {
        let wanted = id.to_owned();
        let mut i: usize = 0;
        while i < self.overlay.len()
            invariant
                wanted@ == id@,
                i <= self.overlay.len(),
                forall|j: int| 0 <= j < i ==> (#[trigger] self.overlay[j]).0@ != id@,
            decreases self.overlay.len() - i,
        {
            if self.overlay[i].0 == wanted {
                return Some(i);
            }
            i = i + 1;
        }
        proof {
            lemma_recorded_domain(self.overlay@, id@);
        }
        None
    }

    fn progress_of(&self, id: &str) -> (p: Progress)
        requires
            self.wf(),
        ensures
            p == self@.progress(id@),
    {
        match self.entry_of(id) {
            Some(i) => {
                proof {
                    lemma_recorded_at(self.overlay@, i as int);
                }
                self.overlay[i].1
            },
            None => Progress { completed: 0, failed: 0 },
        }
    }

    fn set_progress(&mut self, id: &str, p: Progress)
        requires
            old(self).wf(),
        ensures
            final(self).wf(),
            final(self)@ == (SourceView {
                overlay: old(self)@.overlay.insert(id@, p),
                ..old(self)@
            }),
            final(self).fixtures == old(self).fixtures,
    {
        match self.entry_of(id) {
            Some(i) => {
                proof {
                    lemma_recorded_update(self.overlay@, i as int, p);
                }
                let key = self.overlay[i].0.clone();
                self.overlay.set(i, (key, p));
            },
            None => {
                proof {
                    lemma_recorded_domain(self.overlay@, id@);
                }
                let ghost before = self.overlay@;
                self.overlay.push((id.to_owned(), p));
                assert(self.overlay@.drop_last() =~= before);
            },
        }
    }

    /// The recorded progress, one entry for each batch, for the progress file.
    pub fn entries(&self) -> (entries: &Vec<(String, Progress)>)
        requires
            self.wf(),
        ensures
            distinct_ids(entries@),
            recorded_in(entries@) == self@.overlay,
    {
        &self.overlay
    }

    /// A fixture with its recorded progress added.
    pub fn merged(&self, fixture: &BatchInfo) -> (batch: BatchInfo)
        requires
            self.wf(),
            holds(self@.merged(fixture@)),
        ensures
            batch@ == self@.merged(fixture@),
    {
        let p = self.progress_of(fixture.id.as_str());
        BatchInfo {
            completed: fixture.completed + p.completed,
            failed: fixture.failed + p.failed,
            ..fixture.clone()
        }
    }

    /// Whether the numbers of a fixture and one more outcome fit their type.
    fn takes(&self, fixture: &BatchInfo, verdict: TapVerdict) -> (fits: bool)
        requires
            self.wf(),
        ensures
            fits == has_room_for(self@.merged(fixture@), verdict),
    {
        let p = self.progress_of(fixture.id.as_str());
        let completed_left: u32 = u32::MAX - p.completed;
        let failed_left: u32 = u32::MAX - p.failed;
        fixture.completed <= completed_left && fixture.failed <= failed_left && match verdict {
            TapVerdict::Success => fixture.completed < completed_left,
            TapVerdict::Dead => fixture.failed < failed_left,
            TapVerdict::Retry => true,
        }
    }

    /// Whether the numbers of every batch fit their type, so that the batches
    /// can be listed.
    pub fn fits(&self) -> (fits: bool)
        requires
            self.wf(),
        ensures
            fits == forall|i: int|
                0 <= i < self@.fixtures.len() ==> holds(#[trigger] self@.listed()[i]),
    {
        let mut i: usize = 0;
        while i < self.fixtures.len()
            invariant
                self.wf(),
                i <= self.fixtures.len(),
                forall|j: int| 0 <= j < i ==> holds(#[trigger] self@.listed()[j]),
            decreases self.fixtures.len() - i,
        {
            assert(self@.listed()[i as int] == self@.merged(self.fixtures[i as int]@));
            if !self.takes(&self.fixtures[i], TapVerdict::Retry) {
                return false;
            }
            i = i + 1;
        }
        true
    }

    fn position(&self, id: &str) -> (at: Option<usize>)
        ensures
            match at {
                Some(i) => i < self.fixtures.len() && first_with_id(self@.fixtures, id@) == Some(
                    self.fixtures[i as int]@,
                ),
                None => first_with_id(self@.fixtures, id@) is None,
            },
    {
        let wanted = id.to_owned();
        let ghost all = self@.fixtures;
        let mut i: usize = 0;
        assert(all.skip(0) =~= all);
        while i < self.fixtures.len()
            invariant
                wanted@ == id@,
                i <= self.fixtures.len(),
                all == self@.fixtures,
                first_with_id(all, id@) == first_with_id(all.skip(i as int), id@),
            decreases self.fixtures.len() - i,
        {
            assert(all.skip(i as int)[0] == self.fixtures[i as int]@);
            if self.fixtures[i].id == wanted {
                return Some(i);
            }
            assert(all.skip(i as int).skip(1) =~= all.skip(i + 1));
            i = i + 1;
        }
        None
    }

    /// Whether the batch of that id, if there is one, can take the outcome
    /// without its numbers leaving their type. A retry adds nothing: with it the
    /// answer is whether the batch can be had at all.
    pub fn has_room(&self, id: &str, verdict: TapVerdict) -> (room: bool)
        requires
            self.wf(),
        ensures
            room == (self@.found(id@) matches Some(b) ==> has_room_for(b, verdict)),
    {
        match self.position(id) {
            Some(i) => self.takes(&self.fixtures[i], verdict),
            None => true,
        }
    }

    /// The selectable batches, fresh copies each time.
    pub fn list(&self) -> (batches: Vec<BatchInfo>)
        requires
            self.wf(),
            forall|i: int| 0 <= i < self@.fixtures.len() ==> holds(#[trigger] self@.listed()[i]),
        ensures
            batches.deep_view() == self@.listed(),
    {
        let mut batches: Vec<BatchInfo> = Vec::new();
        let mut i: usize = 0;
        while i < self.fixtures.len()
            invariant
                self.wf(),
                i <= self.fixtures.len(),
                forall|j: int|
                    0 <= j < self@.fixtures.len() ==> holds(#[trigger] self@.listed()[j]),
                batches.deep_view() == self@.listed().take(i as int),
            decreases self.fixtures.len() - i,
        {
            assert(self@.listed()[i as int] == self@.merged(self.fixtures[i as int]@));
            let ghost before = batches.deep_view();
            batches.push(self.merged(&self.fixtures[i]));
            assert(batches.deep_view() =~= before.push(self@.listed()[i as int]));
            assert(self@.listed().take(i + 1) =~= self@.listed().take(i as int).push(
                self@.listed()[i as int],
            ));
            i = i + 1;
        }
        assert(self@.listed().take(i as int) =~= self@.listed());
        batches
    }

    /// The batch of that id; `None` for an id the source does not know.
    pub fn get(&self, id: &str) -> (batch: Option<BatchInfo>)
        requires
            self.wf(),
            self@.found(id@) matches Some(b) ==> holds(b),
        ensures
            batch.deep_view() == self@.found(id@),
    {
        match self.position(id) {
            Some(i) => Some(self.merged(&self.fixtures[i])),
            None => None,
        }
    }

    /// Records one outcome against a batch and answers the updated batch. The
    /// numbers are not clamped at the batch's total.
    pub fn record_outcome(&mut self, batch_id: &str, verdict: TapVerdict) -> (updated: Result<
        BatchInfo,
        UnknownBatch,
    >)
        requires
            old(self).wf(),
            old(self)@.found(batch_id@) matches Some(b) ==> has_room_for(b, verdict),
        ensures
            final(self).wf(),
            match first_with_id(old(self)@.fixtures, batch_id@) {
                Some(fixture) => {
                    &&& final(self)@ == old(self)@.recorded(batch_id@, verdict)
                    &&& updated matches Ok(b) && b@ == final(self)@.merged(fixture)
                },
                None => {
                    &&& final(self)@ == old(self)@
                    &&& updated matches Err(e) && e.id@ == batch_id@
                },
            },
    {
        match self.position(batch_id) {
            None => Err(UnknownBatch { id: batch_id.to_owned() }),
            Some(i) => {
                proof {
                    lemma_first_has_id(self@.fixtures, batch_id@);
                }
                let p = self.progress_of(batch_id);
                let next = match verdict {
                    TapVerdict::Success => Progress { completed: p.completed + 1, ..p },
                    TapVerdict::Dead => Progress { failed: p.failed + 1, ..p },
                    TapVerdict::Retry => p,
                };
                self.set_progress(batch_id, next);
                Ok(self.merged(&self.fixtures[i]))
            },
        }
    }
}

proof fn lemma_first_has_id(fixtures: Seq<BatchView>, id: Seq<char>)
    ensures
        first_with_id(fixtures, id) matches Some(f) ==> f.id == id,
    decreases fixtures.len(),
{
    if fixtures.len() > 0 && fixtures[0].id != id {
        lemma_first_has_id(fixtures.skip(1), id);
    }
}

/// Recording an outcome moves the number it is about by one and no other
/// number of any batch: not the other number of this batch, and nothing of a
/// batch with another id.
pub proof fn law_an_outcome_moves_one_number(
    source: SourceView,
    id: Seq<char>,
    verdict: TapVerdict,
    other: Seq<char>,
)
    requires
        source.found(id) matches Some(b) && b.completed < u32::MAX && b.failed < u32::MAX,
        other != id,
    ensures
        ({
            let before = source.found(id)->0;
            let after = source.recorded(id, verdict).found(id)->0;
            &&& source.recorded(id, verdict).found(id) is Some
            &&& after.completed == before.completed + (if verdict == TapVerdict::Success {
                1nat
            } else {
                0
            })
            &&& after.failed == before.failed + (if verdict == TapVerdict::Dead {
                1nat
            } else {
                0
            })
            &&& after.total == before.total
            &&& after.name == before.name
            &&& source.recorded(id, verdict).found(other) == source.found(other)
        }),
{
    lemma_first_has_id(source.fixtures, id);
    lemma_first_has_id(source.fixtures, other);
}

/// The list has every fixture, in its place and under its id, name and total,
/// with what was recorded under that id added to its numbers.
pub proof fn law_the_list_is_the_fixtures_with_their_progress(source: SourceView, i: int)
    requires
        0 <= i < source.fixtures.len(),
    ensures
        source.listed().len() == source.fixtures.len(),
        ({
            let fixture = source.fixtures[i];
            let shown = source.listed()[i];
            &&& shown.id == fixture.id
            &&& shown.name == fixture.name
            &&& shown.total == fixture.total
            &&& source.overlay.contains_key(fixture.id) ==> {
                &&& shown.completed == fixture.completed + source.overlay[fixture.id].completed
                &&& shown.failed == fixture.failed + source.overlay[fixture.id].failed
            }
            &&& !source.overlay.contains_key(fixture.id) ==> {
                &&& shown.completed == fixture.completed
                &&& shown.failed == fixture.failed
            }
        }),
{
}

/// A batch is found under its id as the list shows it, the first one if the id
/// stands there twice; an id that no fixture has is not found.
pub proof fn law_a_batch_is_found_as_it_is_listed(source: SourceView, id: Seq<char>, i: int)
    requires
        0 <= i <= source.fixtures.len(),
        forall|j: int| 0 <= j < i ==> (#[trigger] source.fixtures[j]).id != id,
        i < source.fixtures.len() ==> source.fixtures[i].id == id,
    ensures
        i < source.fixtures.len() ==> source.found(id) == Some(source.listed()[i]),
        i == source.fixtures.len() ==> source.found(id) is None,
{
    lemma_first_at(source.fixtures, id, i);
}

proof fn lemma_first_at(fixtures: Seq<BatchView>, id: Seq<char>, i: int)
    requires
        0 <= i <= fixtures.len(),
        forall|j: int| 0 <= j < i ==> (#[trigger] fixtures[j]).id != id,
        i < fixtures.len() ==> fixtures[i].id == id,
    ensures
        first_with_id(fixtures, id) == (if i < fixtures.len() {
            Some(fixtures[i])
        } else {
            None
        }),
    decreases fixtures.len(),
{
    if fixtures.len() > 0 && i > 0 {
        let rest = fixtures.skip(1);
        assert(fixtures[0].id != id);
        assert forall|j: int| 0 <= j < i - 1 implies (#[trigger] rest[j]).id != id by {
            assert(rest[j] == fixtures[j + 1]);
        }
        lemma_first_at(rest, id, i - 1);
    }
}

/// An outcome is recorded under its batch's id alone, on top of what is there:
/// one more completed, one more failed, or nothing more. The fixtures stay as
/// they are.
pub proof fn law_an_outcome_is_recorded_under_its_id(
    source: SourceView,
    id: Seq<char>,
    verdict: TapVerdict,
    other: Seq<char>,
)
    requires
        source.overlay.contains_key(id) ==> source.overlay[id].completed < u32::MAX
            && source.overlay[id].failed < u32::MAX,
        other != id,
    ensures
        ({
            let after = source.recorded(id, verdict);
            let completed = if source.overlay.contains_key(id) {
                source.overlay[id].completed as int
            } else {
                0
            };
            let failed = if source.overlay.contains_key(id) {
                source.overlay[id].failed as int
            } else {
                0
            };
            &&& after.fixtures == source.fixtures
            &&& after.overlay.contains_key(id)
            &&& after.overlay[id].completed == completed + (if verdict == TapVerdict::Success {
                1int
            } else {
                0
            })
            &&& after.overlay[id].failed == failed + (if verdict == TapVerdict::Dead {
                1int
            } else {
                0
            })
            &&& after.overlay.contains_key(other) <==> source.overlay.contains_key(other)
            &&& source.overlay.contains_key(other) ==> after.overlay[other]
                == source.overlay[other]
        }),
{
}

/// Against a known batch an outcome is recorded and the batch answered as it
/// is listed from then on; against an unknown one nothing is recorded, and the
/// id comes back.
pub proof fn law_an_outcome_answers_the_batch_as_listed(batch_id: &str, verdict: TapVerdict)
    ensures
        forall|source: &mut SimBatchSource, updated: Result<BatchInfo, UnknownBatch>| #[trigger]
            call_ensures(
                SimBatchSource::record_outcome,
                (source, batch_id, verdict),
                updated,
            ) ==> {
                let before = (*source)@;
                let after = (*final(source))@;
                match before.found(batch_id@) {
                    Some(_) => {
                        &&& after == before.recorded(batch_id@, verdict)
                        &&& updated matches Ok(batch) && after.found(batch_id@) == Some(batch@)
                    },
                    None => {
                        &&& after == before
                        &&& updated matches Err(unknown) && unknown.id@ == batch_id@
                    },
                }
            },
{
}

/// Of a batch's entries the last one counts, and a batch without one has no
/// progress.
pub proof fn law_the_last_entry_counts(
    entries: Seq<(String, Progress)>,
    id: Seq<char>,
    i: int,
    fixtures: Seq<BatchView>,
)
    requires
        -1 <= i < entries.len(),
        i >= 0 ==> entries[i].0@ == id,
        forall|j: int| i < j < entries.len() ==> (#[trigger] entries[j]).0@ != id,
    ensures
        ({
            let source = SourceView { fixtures, overlay: recorded_in(entries) };
            &&& i >= 0 ==> source.progress(id) == entries[i].1
            &&& i < 0 ==> source.progress(id) == (Progress { completed: 0, failed: 0 })
        }),
        i >= 0 <==> recorded_in(entries).contains_key(id),
    decreases entries.len(),
{
    if entries.len() > 0 {
        let rest = entries.drop_last();
        if i < entries.len() - 1 {
            assert(entries[entries.len() - 1].0@ != id);
            assert forall|j: int| i < j < rest.len() implies (#[trigger] rest[j]).0@ != id by {
                assert(rest[j] == entries[j]);
            }
            law_the_last_entry_counts(rest, id, i, fixtures);
        }
    }
}

/// A source starts with what it is given, and a reset takes the progress away
/// and leaves the batches.
pub proof fn law_a_reset_leaves_the_fixtures(
    fixtures: Vec<BatchInfo>,
    progress: Vec<(String, Progress)>,
    source: SimBatchSource,
)
    requires
        call_ensures(SimBatchSource::new, (fixtures, progress), source),
    ensures
        source@.fixtures == fixtures.deep_view(),
        source@.overlay == recorded_in(progress@),
        forall|s: &mut SimBatchSource| #[trigger]
            call_ensures(SimBatchSource::reset, (s,), ()) ==> {
                &&& (*final(s))@.fixtures == (*s)@.fixtures
                &&& forall|id: Seq<char>| !(#[trigger] (*final(s))@.overlay.contains_key(id))
            },
{
}

/// A batch that is asked for comes as it is listed, and an unknown id brings
/// none. There is room for an outcome exactly if the number that it moves can
/// still grow.
pub proof fn law_a_batch_is_got_as_it_is_listed(
    source: &SimBatchSource,
    id: &str,
    verdict: TapVerdict,
    batch: Option<BatchInfo>,
    batches: Vec<BatchInfo>,
    room: bool,
)
    requires
        call_ensures(SimBatchSource::get, (source, id), batch),
        call_ensures(SimBatchSource::list, (source,), batches),
        call_ensures(SimBatchSource::has_room, (source, id, verdict), room),
    ensures
        batches.deep_view() == source@.listed(),
        batch is Some <==> source@.found(id@) is Some,
        batch matches Some(b) ==> Some(b@) == source@.found(id@),
        batch is None ==> room,
        batch matches Some(b) ==> (room <==> !(verdict == TapVerdict::Success && b.completed
            == 0xffff_ffff) && !(verdict == TapVerdict::Dead && b.failed == 0xffff_ffff)),
{
}

/// A batch that is not known is named in the refusal.
pub proof fn law_an_unknown_batch_is_named(error: UnknownBatch, text: String)
    requires
        call_ensures(UnknownBatch::message, (&error,), text),
    ensures
        text@ == "unknown batch: "@ + error.id@,
{
}

}
