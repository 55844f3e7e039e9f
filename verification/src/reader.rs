//! Reader monitor: detection only.
//!
//! The monitor never connects to a card and never transmits. It gets the
//! readers and their card states, and decides what the station is told. Taps
//! are edges: a reader that was empty and now has a card fires one
//! presentation, and must be empty again before the next. What is seen of a
//! reader first never fires, so a card that already lies there keys nothing.

use crate::messages::CoreMsg;
use crate::text::contains;
use vstd::prelude::*;

verus! {

/// How long the monitor waits where the card-reader service is not there.
pub const SERVICE_RETRY_MS: u64 = 2000;

/// How long it waits after an error before it starts over.
pub const RESTART_MS: u64 = 1000;

/// How long it waits where no reader matches before it lists them again.
pub const LIST_AGAIN_MS: u64 = 1200;

/// The longest wait for a card to come or go. The readers are listed again
/// after it, so a reader that is plugged in or out shows within this time.
pub const STATUS_WAIT_MS: u64 = 1500;

/// A reader as it is listed: its name, byte for byte, and as text.
#[derive(Debug)]
pub struct ReaderName {
    pub raw: Vec<u8>,
    pub text: String,
}

#[verifier::ext_equal]
pub ghost struct NameView {
    pub raw: Seq<u8>,
    pub text: Seq<char>,
}

impl View for ReaderName {
    type V = NameView;

    open spec fn view(&self) -> NameView {
        NameView { raw: self.raw@, text: self.text@ }
    }
}

impl DeepView for ReaderName {
    type V = NameView;

    open spec fn deep_view(&self) -> NameView {
        self@
    }
}

/// The card state of one watched reader, with the card-type data that came
/// along.
#[derive(Debug)]
pub struct CardState {
    pub reader: ReaderName,
    pub present: bool,
    pub atr: Vec<u8>,
}

#[verifier::ext_equal]
pub ghost struct CardView {
    pub reader: NameView,
    pub present: bool,
    pub atr: Seq<u8>,
}

impl View for CardState {
    type V = CardView;

    open spec fn view(&self) -> CardView {
        CardView { reader: self.reader@, present: self.present, atr: self.atr@ }
    }
}

impl DeepView for CardState {
    type V = CardView;

    open spec fn deep_view(&self) -> CardView {
        self@
    }
}

/// One presentation.
#[verifier::ext_equal]
pub ghost struct TapView {
    pub reader_id: Seq<char>,
    pub atr: Seq<u8>,
}

/// The presentation that a message reports, unforced.
pub open spec fn reports(msg: CoreMsg, tap: TapView) -> bool {
    msg matches CoreMsg::CardPresented { reader_id, atr, forced } && reader_id@ == tap.reader_id
        && atr@ == tap.atr && forced is None
}

/// The messages report these presentations, one for one and in order.
pub open spec fn report_all(msgs: Seq<CoreMsg>, taps: Seq<TapView>) -> bool {
    &&& msgs.len() == taps.len()
    &&& forall|i: int| 0 <= i < msgs.len() ==> reports(#[trigger] msgs[i], taps[i])
}

/// The readers whose text holds the station's filter, in order.
pub open spec fn matching(readers: Seq<NameView>, filter: Seq<char>) -> Seq<NameView>
    decreases readers.len(),
{
    if readers.len() == 0 {
        Seq::empty()
    } else {
        let rest = matching(readers.drop_last(), filter);
        if crate::text::contains_text(readers.last().text, filter) {
            rest.push(readers.last())
        } else {
            rest
        }
    }
}

/// The raw names of readers.
pub open spec fn raw_names(readers: Seq<NameView>) -> Seq<Seq<u8>> {
    readers.map_values(|r: NameView| r.raw)
}

/// What is known of the readers' cards: `true` where one lies on the reader.
/// A reader that is not in here has not been looked at yet.
pub type Cards = Map<Seq<u8>, bool>;

/// A card state fires when the reader was known to be empty.
pub open spec fn fires(cards: Cards, state: CardView) -> bool {
    state.present && cards.contains_key(state.reader.raw) && !cards[state.reader.raw]
}

/// What is known of the cards after a look at the readers.
pub open spec fn cards_after(cards: Cards, states: Seq<CardView>) -> Cards
    decreases states.len(),
{
    if states.len() == 0 {
        cards
    } else {
        cards_after(cards, states.drop_last()).insert(states.last().reader.raw, states.last().present)
    }
}

/// The presentations that a look at the readers shows.
pub open spec fn taps_of(cards: Cards, states: Seq<CardView>) -> Seq<TapView>
    decreases states.len(),
{
    if states.len() == 0 {
        Seq::empty()
    } else {
        let before = taps_of(cards, states.drop_last());
        if fires(cards_after(cards, states.drop_last()), states.last()) {
            before.push(
                TapView { reader_id: states.last().reader.text, atr: states.last().atr },
            )
        } else {
            before
        }
    }
}

/// The knowledge that a list of entries holds.
pub open spec fn known(entries: Seq<(Vec<u8>, bool)>) -> Cards
    decreases entries.len(),
{
    if entries.len() == 0 {
        Map::empty()
    } else {
        known(entries.drop_last()).insert(entries.last().0@, entries.last().1)
    }
}

/// No reader has two entries.
pub open spec fn single(entries: Seq<(Vec<u8>, bool)>) -> bool {
    forall|i: int, j: int|
        0 <= i < j < entries.len() ==> (#[trigger] entries[i]).0@ != (#[trigger] entries[j]).0@
}

proof fn lemma_known_at(entries: Seq<(Vec<u8>, bool)>, i: int)
    requires
        single(entries),
        0 <= i < entries.len(),
    ensures
        known(entries).contains_key(entries[i].0@),
        known(entries)[entries[i].0@] == entries[i].1,
    decreases entries.len(),
{
    if i < entries.len() - 1 {
        lemma_known_at(entries.drop_last(), i);
        assert(entries[i].0@ != entries[entries.len() - 1].0@);
    }
}

proof fn lemma_known_nowhere(entries: Seq<(Vec<u8>, bool)>, name: Seq<u8>)
    requires
        forall|i: int| 0 <= i < entries.len() ==> (#[trigger] entries[i]).0@ != name,
    ensures
        !known(entries).contains_key(name),
    decreases entries.len(),
{
    if entries.len() > 0 {
        assert(entries[entries.len() - 1].0@ != name);
        assert forall|i: int| 0 <= i < entries.drop_last().len() implies (
        #[trigger] entries.drop_last()[i]).0@ != name by {
            assert(entries[i] == entries.drop_last()[i]);
        }
        lemma_known_nowhere(entries.drop_last(), name);
    }
}

proof fn lemma_known_update(entries: Seq<(Vec<u8>, bool)>, i: int, key: Vec<u8>, present: bool)
    requires
        single(entries),
        0 <= i < entries.len(),
        key@ == entries[i].0@,
    ensures
        known(entries.update(i, (key, present))) == known(entries).insert(key@, present),
        single(entries.update(i, (key, present))),
    decreases entries.len(),
{
    let updated = entries.update(i, (key, present));
    if i < entries.len() - 1 {
        lemma_known_update(entries.drop_last(), i, key, present);
        assert(updated.drop_last() =~= entries.drop_last().update(i, (key, present)));
        assert(entries[i].0@ != entries[entries.len() - 1].0@);
    } else {
        assert(updated.drop_last() =~= entries.drop_last());
    }
    assert(known(updated) =~= known(entries).insert(key@, present));
}

/// What the station is told, and what is to be watched, after the readers
/// were listed.
#[derive(Debug)]
pub struct Listing {
    /// The presence to report, where it changed.
    pub presence: Option<bool>,
    /// More than one reader matches, for the first time: taps from all of them
    /// will drive the line.
    pub crowded: Option<usize>,
    /// The watched readers are others than before.
    pub rewatch: bool,
}

/// What the monitor knows.
#[verifier::ext_equal]
pub ghost struct MonitorView {
    pub filter: Seq<char>,
    pub reported: Option<bool>,
    pub watched: Seq<NameView>,
    pub cards: Cards,
}

impl MonitorView {
    /// Telling the station of a presence that it was not told of before.
    pub open spec fn presence_due(self, present: bool) -> Option<bool> {
        if self.reported == Some(present) {
            None
        } else {
            Some(present)
        }
    }

    pub open spec fn reporting(self, present: bool) -> MonitorView {
        MonitorView { reported: Some(present), ..self }
    }

    /// The watched readers are the ones listed that match; of the others the
    /// card state is forgotten.
    pub open spec fn listed(self, readers: Seq<NameView>) -> MonitorView {
        let matched = matching(readers, self.filter);
        MonitorView {
            reported: Some(matched.len() > 0),
            watched: matched,
            cards: if raw_names(matched) == raw_names(self.watched) {
                self.cards
            } else {
                self.cards.restrict(raw_names(matched).to_set())
            },
            ..self
        }
    }

    /// A fresh start of the watch: nothing is watched or known.
    pub open spec fn restarted(self) -> MonitorView {
        MonitorView { watched: Seq::empty(), cards: Map::empty(), ..self }
    }
}

pub struct ReaderMonitor {
    filter: String,
    reported: Option<bool>,
    watched: Vec<ReaderName>,
    cards: Vec<(Vec<u8>, bool)>,
}

impl View for ReaderMonitor {
    type V = MonitorView;

    closed spec fn view(&self) -> MonitorView {
        MonitorView {
            filter: self.filter@,
            reported: self.reported,
            watched: self.watched.deep_view(),
            cards: known(self.cards@),
        }
    }
}

fn same_bytes(a: &Vec<u8>, b: &Vec<u8>) -> (same: bool)
    ensures
        same == (a@ == b@),
{
    if a.len() != b.len() {
        return false;
    }
    let mut i: usize = 0;
    while i < a.len()
        invariant
            i <= a.len(),
            a.len() == b.len(),
            forall|j: int| 0 <= j < i ==> a[j] == b[j],
        decreases a.len() - i,
    {
        if a[i] != b[i] {
            return false;
        }
        i = i + 1;
    }
    assert(a@ =~= b@);
    true
}

fn copy_bytes(a: &Vec<u8>) -> (copy: Vec<u8>)
    ensures
        copy@ == a@,
{
    vstd::slice::slice_to_vec(a.as_slice())
}

fn same_names(a: &Vec<ReaderName>, b: &Vec<ReaderName>) -> (same: bool)
    ensures
        same == (raw_names(a.deep_view()) == raw_names(b.deep_view())),
{
    let ghost ra = raw_names(a.deep_view());
    let ghost rb = raw_names(b.deep_view());
    if a.len() != b.len() {
        assert(ra.len() != rb.len());
        return false;
    }
    let mut i: usize = 0;
    while i < a.len()
        invariant
            i <= a.len(),
            a.len() == b.len(),
            ra == raw_names(a.deep_view()),
            rb == raw_names(b.deep_view()),
            forall|j: int| 0 <= j < i ==> ra[j] == rb[j],
        decreases a.len() - i,
    {
        assert(ra[i as int] == a[i as int].raw@);
        assert(rb[i as int] == b[i as int].raw@);
        if !same_bytes(&a[i].raw, &b[i].raw) {
            return false;
        }
        i = i + 1;
    }
    assert(ra =~= rb);
    true
}

fn holds_name(readers: &Vec<ReaderName>, name: &Vec<u8>) -> (found: bool)
    ensures
        found == raw_names(readers.deep_view()).contains(name@),
{
    let ghost names = raw_names(readers.deep_view());
    let mut i: usize = 0;
    while i < readers.len()
        invariant
            i <= readers.len(),
            names == raw_names(readers.deep_view()),
            forall|j: int| 0 <= j < i ==> names[j] != name@,
        decreases readers.len() - i,
    {
        assert(names[i as int] == readers[i as int].raw@);
        if same_bytes(&readers[i].raw, name) {
            return true;
        }
        i = i + 1;
    }
    false
}

impl ReaderMonitor {
    /// Each reader has at most one card state.
    pub closed spec fn wf(self) -> bool {
        single(self.cards@)
    }

    /// A monitor of the readers that match `filter`, before its first look.
    pub fn new(filter: String) -> (monitor: ReaderMonitor)
        ensures
            monitor.wf(),
            monitor@ == (MonitorView {
                filter: filter@,
                reported: None,
                watched: Seq::empty(),
                cards: Map::empty(),
            }),
    {
        let monitor = ReaderMonitor {
            filter,
            reported: None,
            watched: Vec::new(),
            cards: Vec::new(),
        };
        assert(monitor@.watched =~= Seq::empty());
        monitor
    }

    /// The presence to tell the station of, where it was not told before.
    pub fn report_presence(&mut self, present: bool) -> (presence: Option<bool>)
        requires
            old(self).wf(),
        ensures
            final(self).wf(),
            final(self)@ == old(self)@.reporting(present),
            presence == old(self)@.presence_due(present),
    {
        if self.reported != Some(present) {
            self.reported = Some(present);
            Some(present)
        } else {
            None
        }
    }

    /// The watch starts anew, as it does with every fresh connection to the
    /// reader service.
    pub fn restart(&mut self)
        requires
            old(self).wf(),
        ensures
            final(self).wf(),
            final(self)@ == old(self)@.restarted(),
    {
        self.watched = Vec::new();
        self.cards = Vec::new();
        assert(self@.watched =~= Seq::empty());
    }

    /// The readers that the station watches, in order.
    pub fn watched(&self) -> (readers: &Vec<ReaderName>)
        ensures
            readers.deep_view() == self@.watched,
    {
        &self.watched
    }

    fn matched(&self, readers: &Vec<ReaderName>) -> (matched: Vec<ReaderName>)
        ensures
            matched.deep_view() == matching(readers.deep_view(), self@.filter),
    {
        let ghost all = readers.deep_view();
        let mut matched: Vec<ReaderName> = Vec::new();
        let mut i: usize = 0;
        assert(matched.deep_view() =~= Seq::empty());
        while i < readers.len()
            invariant
                i <= readers.len(),
                all == readers.deep_view(),
                matched.deep_view() == matching(all.take(i as int), self@.filter),
            decreases readers.len() - i,
        {
            assert(all.take(i + 1).drop_last() =~= all.take(i as int));
            assert(all[i as int] == readers[i as int]@);
            let ghost so_far = matched.deep_view();
            if contains(readers[i].text.as_str(), self.filter.as_str()) {
                let name = ReaderName {
                    raw: copy_bytes(&readers[i].raw),
                    text: readers[i].text.clone(),
                };
                matched.push(name);
                assert(matched.deep_view() =~= so_far.push(all[i as int]));
            }
            i = i + 1;
        }
        assert(all.take(i as int) =~= all);
        matched
    }

    /// The readers were listed.
    pub fn list(&mut self, readers: Vec<ReaderName>) -> (listing: Listing)
        requires
            old(self).wf(),
        ensures
            final(self).wf(),
            final(self)@ == old(self)@.listed(readers.deep_view()),
            listing.presence == old(self)@.presence_due(final(self)@.watched.len() > 0),
            listing.crowded == (if final(self)@.watched.len() > 1 && old(self)@.watched.len() <= 1 {
                Some(final(self)@.watched.len() as usize)
            } else {
                None
            }),
            listing.rewatch == (raw_names(final(self)@.watched) != raw_names(old(self)@.watched)),
    {
        let matched = self.matched(&readers);
        assert(matched.deep_view().len() == matched.len());
        assert(self.watched.deep_view().len() == self.watched.len());
        let presence = self.report_presence(matched.len() > 0);
        let crowded = if matched.len() > 1 && self.watched.len() <= 1 {
            Some(matched.len())
        } else {
            None
        };
        let rewatch = !same_names(&matched, &self.watched);
        if rewatch {
            self.retain(&matched);
        }
        self.watched = matched;
        Listing { presence, crowded, rewatch }
    }

    /// Forgets the card states of readers that are not in the list.
    fn retain(&mut self, readers: &Vec<ReaderName>)
        requires
            old(self).wf(),
        ensures
            final(self).wf(),
            final(self)@ == (MonitorView {
                cards: old(self)@.cards.restrict(raw_names(readers.deep_view()).to_set()),
                ..old(self)@
            }),
    {
        let ghost names = raw_names(readers.deep_view()).to_set();
        let ghost all = self.cards@;
        let mut kept: Vec<(Vec<u8>, bool)> = Vec::new();
        let mut i: usize = 0;
        assert(known(all.take(0)).restrict(names) =~= Map::empty());
        while i < self.cards.len()
            invariant
                i <= self.cards.len(),
                self.cards@ == all,
                single(all),
                self@ == old(self)@,
                names == raw_names(readers.deep_view()).to_set(),
                known(kept@) == known(all.take(i as int)).restrict(names),
                single(kept@),
                forall|k: int|
                    0 <= k < kept.len() ==> exists|j: int|
                        0 <= j < i && (#[trigger] kept[k]).0@ == (#[trigger] all[j]).0@,
            decreases self.cards.len() - i,
        {
            let ghost entry = all[i as int];
            let ghost so_far = kept@;
            assert(all.take(i + 1).drop_last() =~= all.take(i as int));
            assert(known(all.take(i + 1)) == known(all.take(i as int)).insert(entry.0@, entry.1));
            if holds_name(readers, &self.cards[i].0) {
                kept.push((copy_bytes(&self.cards[i].0), self.cards[i].1));
                assert(kept@.drop_last() =~= so_far);
                assert(known(kept@) =~= known(all.take(i + 1)).restrict(names));
                assert forall|a: int, b: int| 0 <= a < b < kept@.len() implies (
                #[trigger] kept@[a]).0@ != (#[trigger] kept@[b]).0@ by {
                    if b == so_far.len() {
                        assert(kept@[a] == so_far[a]);
                        let j = choose|j: int|
                            0 <= j < i && so_far[a].0@ == (#[trigger] all[j]).0@;
                        assert(all[j].0@ != all[i as int].0@);
                    }
                }
                assert forall|k: int| 0 <= k < kept@.len() implies exists|j: int|
                    0 <= j < i + 1 && (#[trigger] kept@[k]).0@ == (#[trigger] all[j]).0@ by {
                    if k < so_far.len() {
                        assert(kept@[k] == so_far[k]);
                        let j = choose|j: int|
                            0 <= j < i && so_far[k].0@ == (#[trigger] all[j]).0@;
                        assert(kept@[k].0@ == all[j].0@);
                    } else {
                        assert(kept@[k].0@ == all[i as int].0@);
                    }
                }
            } else {
                assert(known(kept@) =~= known(all.take(i + 1)).restrict(names)) by {
                    assert(!names.contains(entry.0@));
                }
            }
            i = i + 1;
        }
        assert(all.take(i as int) =~= all);
        self.cards = kept;
    }

    fn entry_of(&self, name: &Vec<u8>) -> (at: Option<usize>)
        requires
            self.wf(),
        ensures
            match at {
                Some(i) => i < self.cards.len() && self.cards[i as int].0@ == name@
                    && self@.cards.contains_key(name@) && self@.cards[name@]
                    == self.cards[i as int].1,
                None => !self@.cards.contains_key(name@),
            },
    {
        let mut i: usize = 0;
        while i < self.cards.len()
            invariant
                self.wf(),
                i <= self.cards.len(),
                forall|j: int| 0 <= j < i ==> (#[trigger] self.cards[j]).0@ != name@,
            decreases self.cards.len() - i,
        {
            if same_bytes(&self.cards[i].0, name) {
                proof {
                    lemma_known_at(self.cards@, i as int);
                }
                return Some(i);
            }
            i = i + 1;
        }
        proof {
            lemma_known_nowhere(self.cards@, name@);
        }
        None
    }

    /// One card state: whether it fires, and what is known from now on.
    fn note_card(&mut self, state: &CardState) -> (fired: bool)
        requires
            old(self).wf(),
        ensures
            final(self).wf(),
            final(self)@ == (MonitorView {
                cards: old(self)@.cards.insert(state.reader.raw@, state.present),
                ..old(self)@
            }),
            fired == fires(old(self)@.cards, state@),
    {
        match self.entry_of(&state.reader.raw) {
            Some(i) => {
                let was = self.cards[i].1;
                let key = copy_bytes(&state.reader.raw);
                proof {
                    lemma_known_update(self.cards@, i as int, key, state.present);
                }
                self.cards.set(i, (key, state.present));
                !was && state.present
            },
            None => {
                let ghost before = self.cards@;
                proof {
                    assert forall|j: int| 0 <= j < before.len() implies (
                    #[trigger] before[j]).0@ != state.reader.raw@ by {
                        lemma_known_at(before, j);
                    }
                }
                self.cards.push((copy_bytes(&state.reader.raw), state.present));
                assert(self.cards@.drop_last() =~= before);
                false
            },
        }
    }

    /// The watched readers were looked at.
    pub fn observe(&mut self, states: Vec<CardState>) -> (taps: Vec<CoreMsg>)
        requires
            old(self).wf(),
        ensures
            final(self).wf(),
            final(self)@ == (MonitorView {
                cards: cards_after(old(self)@.cards, states.deep_view()),
                ..old(self)@
            }),
            report_all(taps@, taps_of(old(self)@.cards, states.deep_view())),
    {
        let ghost all = states.deep_view();
        let ghost cards = self@.cards;
        let mut taps: Vec<CoreMsg> = Vec::new();
        let mut i: usize = 0;
        while i < states.len()
            invariant
                i <= states.len(),
                all == states.deep_view(),
                cards == old(self)@.cards,
                self.wf(),
                self@ == (MonitorView {
                    cards: cards_after(cards, all.take(i as int)),
                    ..old(self)@
                }),
                report_all(taps@, taps_of(cards, all.take(i as int))),
            decreases states.len() - i,
        {
            assert(all.take(i + 1).drop_last() =~= all.take(i as int));
            assert(all[i as int] == states[i as int]@);
            if self.note_card(&states[i]) {
                let tap = CoreMsg::CardPresented {
                    reader_id: states[i].reader.text.clone(),
                    atr: copy_bytes(&states[i].atr),
                    forced: None,
                };
                taps.push(tap);
            }
            i = i + 1;
        }
        assert(all.take(i as int) =~= all);
        taps
    }
}

/// A card that already lies on a reader keys nothing: what is seen of a reader
/// first never fires, and neither does what follows until it was seen empty.
pub proof fn law_a_resting_card_never_fires(cards: Cards, states: Seq<CardView>, raw: Seq<u8>)
    requires
        !cards.contains_key(raw) || cards[raw],
        forall|i: int|
            0 <= i < states.len() && (#[trigger] states[i]).reader.raw == raw ==> states[i].present,
    ensures
        forall|i: int|
            0 <= i < states.len() && (#[trigger] states[i]).reader.raw == raw ==> !fires(
                cards_after(cards, states.take(i)),
                states[i],
            ),
        ({
            let after = cards_after(cards, states);
            !after.contains_key(raw) || after[raw]
        }),
    decreases states.len(),
{
    if states.len() > 0 {
        let rest = states.drop_last();
        assert forall|i: int|
            0 <= i < rest.len() && (#[trigger] rest[i]).reader.raw == raw implies rest[i].present by {
            assert(states[i] == rest[i]);
        }
        law_a_resting_card_never_fires(cards, rest, raw);
        assert forall|i: int|
            0 <= i < states.len() && (#[trigger] states[i]).reader.raw == raw implies !fires(
            cards_after(cards, states.take(i)),
            states[i],
        ) by {
            if i < rest.len() {
                assert(rest[i] == states[i]);
                assert(rest.take(i) =~= states.take(i));
            } else {
                assert(states.take(i) =~= rest);
            }
        }
    }
}

/// Taps are edges: a reader that was seen empty last fires with the next card,
/// exactly once, and then only after it was seen empty again.
pub proof fn law_a_card_fires_once(cards: Cards, state: CardView, later: Seq<CardView>)
    requires
        cards.contains_key(state.reader.raw),
        !cards[state.reader.raw],
        state.present,
        forall|i: int|
            0 <= i < later.len() && (#[trigger] later[i]).reader.raw == state.reader.raw
                ==> later[i].present,
    ensures
        fires(cards, state),
        forall|i: int|
            0 <= i < later.len() && (#[trigger] later[i]).reader.raw == state.reader.raw ==> !fires(
                cards_after(cards.insert(state.reader.raw, true), later.take(i)),
                later[i],
            ),
{
    law_a_resting_card_never_fires(
        cards.insert(state.reader.raw, true),
        later,
        state.reader.raw,
    );
}

/// What happens on one reader is nothing to another.
pub proof fn law_readers_are_independent(cards: Cards, state: CardView, other: CardView)
    requires
        other.reader.raw != state.reader.raw,
    ensures
        fires(cards_after(cards, seq![other]), state) == fires(cards, state),
{
    reveal_with_fuel(cards_after, 2);
    assert(seq![other].drop_last() =~= Seq::empty());
}

/// A reader that is gone from the list is forgotten: back again, it is seen
/// for the first time.
pub proof fn law_a_replugged_reader_starts_silent(
    monitor: MonitorView,
    readers: Seq<NameView>,
    state: CardView,
)
    requires
        raw_names(monitor.watched).contains(state.reader.raw),
        !raw_names(matching(readers, monitor.filter)).contains(state.reader.raw),
    ensures
        !fires(monitor.listed(readers).cards, state),
        !monitor.listed(readers).cards.contains_key(state.reader.raw),
{
}

/// A presence is reported when it changes and never twice in a row.
pub proof fn law_presence_is_reported_on_change(monitor: MonitorView, present: bool)
    ensures
        monitor.reporting(present).presence_due(present) is None,
        monitor.reporting(present).presence_due(!present) == Some(!present),
        monitor.reported is None ==> monitor.presence_due(present) == Some(present),
{
}

/// The watched readers are exactly the listed ones whose text holds the
/// station's filter, in the order in which they are listed.
pub proof fn law_a_reader_is_watched_if_its_text_matches(readers: Seq<NameView>, filter: Seq<char>)
    ensures
        matching(readers, filter) == readers.filter(
            |r: NameView| exists|i: int| crate::text::occurs_at(r.text, filter, i),
        ),
    decreases readers.len(),
{
    reveal(Seq::filter);
    if readers.len() > 0 {
        law_a_reader_is_watched_if_its_text_matches(readers.drop_last(), filter);
    }
}

/// What is known of a reader's card is what was seen of it last, and a reader
/// that was not looked at is known as before.
pub proof fn law_the_last_look_counts(cards: Cards, states: Seq<CardView>, raw: Seq<u8>, i: int)
    requires
        -1 <= i < states.len(),
        i >= 0 ==> states[i].reader.raw == raw,
        forall|j: int| i < j < states.len() ==> (#[trigger] states[j]).reader.raw != raw,
    ensures
        ({
            let after = cards_after(cards, states);
            &&& i >= 0 ==> after.contains_key(raw) && after[raw] == states[i].present
            &&& i < 0 ==> (after.contains_key(raw) <==> cards.contains_key(raw))
            &&& i < 0 && cards.contains_key(raw) ==> after[raw] == cards[raw]
        }),
    decreases states.len(),
{
    if states.len() > 0 {
        let rest = states.drop_last();
        if i < states.len() - 1 {
            assert(states[states.len() - 1].reader.raw != raw);
            assert forall|j: int| i < j < rest.len() implies (#[trigger] rest[j]).reader.raw
                != raw by {
                assert(rest[j] == states[j]);
            }
            law_the_last_look_counts(cards, rest, raw, i);
        }
    }
}

/// One look at readers that are all different: each one that was seen empty
/// last and has a card now fires, with its own name and its own card-type data,
/// in the order of the look; and no other does.
pub proof fn law_each_new_card_fires_with_its_own_data(
    cards: Cards,
    states: Seq<CardView>,
    i: int,
)
    requires
        forall|j: int, k: int|
            0 <= j < k < states.len() ==> (#[trigger] states[j]).reader.raw != (
            #[trigger] states[k]).reader.raw,
        0 <= i < states.len(),
    ensures
        ({
            let raw = states[i].reader.raw;
            let before = taps_of(cards, states.take(i));
            let with = taps_of(cards, states.take(i + 1));
            if cards.contains_key(raw) && !cards[raw] && states[i].present {
                with == before.push(
                    TapView { reader_id: states[i].reader.text, atr: states[i].atr },
                )
            } else {
                with == before
            }
        }),
        taps_of(cards, states.take(0)).len() == 0,
        states.take(states.len() as int) == states,
{
    let now = states.take(i + 1);
    let earlier = states.take(i);
    assert(now.drop_last() =~= earlier);
    assert(now.last() == states[i]);
    assert forall|j: int| -1 < j < earlier.len() implies (#[trigger] earlier[j]).reader.raw
        != states[i].reader.raw by {
        assert(earlier[j] == states[j]);
    }
    law_the_last_look_counts(cards, earlier, states[i].reader.raw, -1);
    assert(states.take(states.len() as int) =~= states);
}

/// Listing the same readers again keeps all that is known of their cards.
/// Listing others keeps it of those that are watched from now on and forgets
/// the rest. The presence is that of any watched reader.
pub proof fn law_a_listing_keeps_what_is_still_watched(
    monitor: MonitorView,
    readers: Seq<NameView>,
    raw: Seq<u8>,
)
    ensures
        ({
            let after = monitor.listed(readers);
            let watched = exists|i: int|
                0 <= i < after.watched.len() && (#[trigger] after.watched[i]).raw == raw;
            &&& after.filter == monitor.filter
            &&& after.watched == matching(readers, monitor.filter)
            &&& after.reported == Some(after.watched.len() > 0)
            &&& raw_names(after.watched) == raw_names(monitor.watched) ==> after.cards
                == monitor.cards
            &&& raw_names(after.watched) != raw_names(monitor.watched) ==> (
            after.cards.contains_key(raw) <==> monitor.cards.contains_key(raw) && watched)
            &&& after.cards.contains_key(raw) ==> after.cards[raw] == monitor.cards[raw]
        }),
{
    let after = monitor.listed(readers);
    let names = raw_names(after.watched);
    if names.contains(raw) {
        let i = choose|i: int| 0 <= i < names.len() && names[i] == raw;
        assert(after.watched[i].raw == raw);
    }
    if exists|i: int| 0 <= i < after.watched.len() && (#[trigger] after.watched[i]).raw == raw {
        let i = choose|i: int|
            0 <= i < after.watched.len() && (#[trigger] after.watched[i]).raw == raw;
        assert(names[i] == raw);
    }
}

/// A fresh start knows no reader and no card, and keeps its filter and what it
/// told the station.
pub proof fn law_a_restart_forgets_the_cards(monitor: MonitorView)
    ensures
        monitor.restarted().watched.len() == 0,
        forall|raw: Seq<u8>| !(#[trigger] monitor.restarted().cards.contains_key(raw)),
        monitor.restarted().filter == monitor.filter,
        monitor.restarted().reported == monitor.reported,
{
}

/// What a listing tells: the presence where the station was not told of it
/// already, a crowd where there is more than one reader and there was none
/// before, and whether other readers are to be watched than before.
pub proof fn law_a_listing_tells_what_is_new(readers: Vec<ReaderName>)
    ensures
        forall|monitor: &mut ReaderMonitor, listing: Listing| #[trigger]
            call_ensures(ReaderMonitor::list, (monitor, readers), listing) ==> {
                let before = (*monitor)@;
                let after = (*final(monitor))@;
                let present = after.watched.len() > 0;
                &&& after == before.listed(readers.deep_view())
                &&& listing.presence == (if before.reported == Some(present) {
                    None
                } else {
                    Some(present)
                })
                &&& listing.crowded is Some <==> after.watched.len() > 1 && before.watched.len()
                    <= 1
                &&& listing.rewatch <==> raw_names(after.watched) != raw_names(before.watched)
            },
{
}

/// A look at the readers reports each tap once, unforced, with the reader's
/// text and the card-type data.
pub proof fn law_taps_are_reported_unforced(states: Vec<CardState>)
    ensures
        forall|monitor: &mut ReaderMonitor, taps: Vec<CoreMsg>| #[trigger]
            call_ensures(ReaderMonitor::observe, (monitor, states), taps) ==> {
                let seen = taps_of((*monitor)@.cards, states.deep_view());
                &&& taps.len() == seen.len()
                &&& forall|i: int|
                    0 <= i < taps.len() ==> (#[trigger] taps[i] matches CoreMsg::CardPresented {
                        reader_id,
                        atr,
                        forced,
                    } && reader_id@ == seen[i].reader_id && atr@ == seen[i].atr && forced is None)
                &&& (*final(monitor))@.cards == cards_after(
                    (*monitor)@.cards,
                    states.deep_view(),
                )
                &&& (*final(monitor))@.watched == (*monitor)@.watched
            },
{
}

/// Telling the station of a presence changes what it was told and nothing that
/// is known of the readers.
pub proof fn law_telling_changes_nothing_else(monitor: MonitorView, present: bool)
    ensures
        monitor.reporting(present) == (MonitorView { reported: Some(present), ..monitor }),
        monitor.presence_due(present) is None <==> monitor.reported == Some(present),
        monitor.presence_due(present) is Some ==> monitor.presence_due(present) == Some(present),
        SERVICE_RETRY_MS == 2000 && RESTART_MS == 1000 && LIST_AGAIN_MS == 1200 && STATUS_WAIT_MS
            == 1500,
{
}

/// The views of readers and cards show every field as it is.
pub proof fn law_readers_are_shown_as_they_are(name: ReaderName, card: CardState)
    ensures
        name@.raw == name.raw@ && name@.text == name.text@,
        card@.reader == card.reader@ && card@.present == card.present && card@.atr == card.atr@,
{
}

/// Of a reader's entries the last one counts, and a reader without one is not
/// known.
pub proof fn law_the_last_card_entry_counts(entries: Seq<(Vec<u8>, bool)>, raw: Seq<u8>, i: int)
    requires
        -1 <= i < entries.len(),
        i >= 0 ==> entries[i].0@ == raw,
        forall|j: int| i < j < entries.len() ==> (#[trigger] entries[j]).0@ != raw,
    ensures
        known(entries).contains_key(raw) <==> i >= 0,
        i >= 0 ==> known(entries)[raw] == entries[i].1,
    decreases entries.len(),
{
    if entries.len() > 0 {
        let rest = entries.drop_last();
        if i < entries.len() - 1 {
            assert(entries[entries.len() - 1].0@ != raw);
            assert forall|j: int| i < j < rest.len() implies (#[trigger] rest[j]).0@ != raw by {
                assert(rest[j] == entries[j]);
            }
            law_the_last_card_entry_counts(rest, raw, i);
        }
    }
}

}
