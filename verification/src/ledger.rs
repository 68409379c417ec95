//! What every radargram has been: its revisions, and which one is current.
//!
//! The history is kept apart from the files, because a revision's file may be
//! gone while picks that were drawn on it are not.
use vstd::prelude::*;

use crate::catalog::{Catalog, EntryView};
use crate::overrides::copy_text;
use crate::rows::{lemma_filter_none, lemma_filter_step};
use crate::text;
use crate::text_map::TextMap;

verus! {

broadcast use vstd::string::group_string_axioms;

/// One revision a radargram has been through.
#[derive(Debug, PartialEq, Eq)]
pub struct LedgerRecord {
    pub revision_id: String,
    /// When it stopped being current, if it did.
    pub superseded_at: Option<String>,
    /// What took its place, if anything did.
    pub superseded_by: Option<String>,
    /// The checksum of its axes, where they were ever read.
    pub checksum: Option<String>,
}

/// One revision, as plain values.
#[verifier::ext_equal]
pub struct LedgerRecordView {
    pub revision_id: Seq<char>,
    pub superseded_at: Option<Seq<char>>,
    pub superseded_by: Option<Seq<char>>,
    pub checksum: Option<Seq<char>>,
}

impl View for LedgerRecord {
    type V = LedgerRecordView;

    open spec fn view(&self) -> LedgerRecordView {
        LedgerRecordView {
            revision_id: self.revision_id@,
            superseded_at: self.superseded_at.deep_view(),
            superseded_by: self.superseded_by.deep_view(),
            checksum: self.checksum.deep_view(),
        }
    }
}

impl DeepView for LedgerRecord {
    type V = LedgerRecordView;

    open spec fn deep_view(&self) -> LedgerRecordView {
        self@
    }
}

impl Clone for LedgerRecord {
    fn clone(&self) -> (copy: Self)
        ensures
            copy == *self,
    {
        LedgerRecord {
            revision_id: self.revision_id.clone(),
            superseded_at: copy_text(&self.superseded_at),
            superseded_by: copy_text(&self.superseded_by),
            checksum: copy_text(&self.checksum),
        }
    }
}

/// The history of every radargram.
#[derive(Debug, PartialEq)]
pub struct Ledger {
    pub radargrams: TextMap<String, Vec<LedgerRecord>>,
}

impl View for Ledger {
    type V = Map<Seq<char>, Seq<LedgerRecordView>>;

    open spec fn view(&self) -> Map<Seq<char>, Seq<LedgerRecordView>> {
        self.radargrams.deep_view()
    }
}

impl Clone for Ledger {
    fn clone(&self) -> (copy: Self)
        ensures
            copy@ == self@,
    {
        let copy = Ledger { radargrams: self.radargrams.clone() };
        assert forall|id: Seq<char>| self@.contains_key(id) implies #[trigger] copy@[id]
            == self@[id] by {
            assert(copy.radargrams@[id].deep_view() =~= self.radargrams@[id].deep_view());
        }
        assert(copy@ =~= self@);
        copy
    }
}

/// The history of one radargram. One that was never heard of has none.
pub open spec fn history_of(
    ledger: Map<Seq<char>, Seq<LedgerRecordView>>,
    id: Seq<char>,
) -> Seq<LedgerRecordView> {
    if ledger.contains_key(id) {
        ledger[id]
    } else {
        Seq::empty()
    }
}

/// Whether a history knows a revision.
pub open spec fn knows(records: Seq<LedgerRecordView>, revision: Seq<char>) -> bool {
    exists|i: int| 0 <= i < records.len() && (#[trigger] records[i]).revision_id == revision
}

/// The current revision: the last that nothing has superseded.
pub open spec fn current_of(records: Seq<LedgerRecordView>) -> Option<Seq<char>>
    decreases records.len(),
{
    if records.len() == 0 {
        None
    } else if records.last().superseded_at is None {
        Some(records.last().revision_id)
    } else {
        current_of(records.drop_last())
    }
}

/// What is known of a revision's axes: the newest there is.
pub open spec fn known_checksum(record: LedgerRecordView, checksum: Option<Seq<char>>) -> Option<
    Seq<char>,
> {
    if checksum is Some {
        checksum
    } else {
        record.checksum
    }
}

/// A record of a revision that is there.
pub open spec fn as_noted(record: LedgerRecordView, checksum: Option<Seq<char>>) -> LedgerRecordView {
    LedgerRecordView { checksum: known_checksum(record, checksum), ..record }
}

/// A record of a revision that is current, whatever became of it before.
pub open spec fn as_renewed(record: LedgerRecordView, checksum: Option<Seq<char>>) -> LedgerRecordView {
    LedgerRecordView {
        revision_id: record.revision_id,
        superseded_at: None,
        superseded_by: None,
        checksum: known_checksum(record, checksum),
    }
}

/// A record of a revision that is no longer current.
pub open spec fn as_superseded(
    record: LedgerRecordView,
    by: Option<Seq<char>>,
    at: Seq<char>,
) -> LedgerRecordView {
    LedgerRecordView { superseded_at: Some(at), superseded_by: by, ..record }
}

/// A record of a revision nothing is known of yet.
pub open spec fn fresh_record(revision: Seq<char>) -> LedgerRecordView {
    LedgerRecordView {
        revision_id: revision,
        superseded_at: None,
        superseded_by: None,
        checksum: None,
    }
}

/// The records with one more, where the revision was not among them.
pub open spec fn with_revision(records: Seq<LedgerRecordView>, revision: Seq<char>) -> Seq<
    LedgerRecordView,
> {
    if knows(records, revision) {
        records
    } else {
        records.push(fresh_record(revision))
    }
}

/// A history after a revision was noted as being there.
pub open spec fn noted(
    records: Seq<LedgerRecordView>,
    revision: Seq<char>,
    checksum: Option<Seq<char>>,
) -> Seq<LedgerRecordView> {
    with_revision(records, revision).map_values(
        |record: LedgerRecordView|
            if record.revision_id == revision {
                as_noted(record, checksum)
            } else {
                record
            },
    )
}

/// A history after a revision became current: the others as they were, and
/// that revision in the last place.
pub open spec fn renewed(
    records: Seq<LedgerRecordView>,
    revision: Seq<char>,
    checksum: Option<Seq<char>>,
) -> Seq<LedgerRecordView> {
    let all = with_revision(records, revision);
    all.filter(|record: LedgerRecordView| record.revision_id != revision) + all.filter(
        |record: LedgerRecordView| record.revision_id == revision,
    ).map_values(|record: LedgerRecordView| as_renewed(record, checksum))
}

/// A history after a revision stopped being current.
pub open spec fn superseded(
    records: Seq<LedgerRecordView>,
    revision: Seq<char>,
    by: Option<Seq<char>>,
    at: Seq<char>,
) -> Seq<LedgerRecordView> {
    with_revision(records, revision).map_values(
        |record: LedgerRecordView|
            if record.revision_id == revision {
                as_superseded(record, by, at)
            } else {
                record
            },
    )
}

/// The histories after the first `n` entries of a catalog became current.
pub open spec fn registered(
    ledger: Map<Seq<char>, Seq<LedgerRecordView>>,
    entries: Seq<EntryView>,
    n: int,
) -> Map<Seq<char>, Seq<LedgerRecordView>>
    decreases n,
{
    if n <= 0 {
        ledger
    } else {
        let before = registered(ledger, entries, n - 1);
        let entry = entries[n - 1];
        before.insert(
            entry.radargram_id,
            renewed(history_of(before, entry.radargram_id), entry.revision_id, None),
        )
    }
}

/// What is to become of a revision's record.
enum Mark<'a> {
    Noted(&'a Option<String>),
    Renewed(&'a Option<String>),
    Superseded(&'a Option<String>, &'a str),
}

spec fn marked(record: LedgerRecordView, mark: Mark) -> LedgerRecordView {
    match mark {
        Mark::Noted(checksum) => as_noted(record, checksum.deep_view()),
        Mark::Renewed(checksum) => as_renewed(record, checksum.deep_view()),
        Mark::Superseded(by, at) => as_superseded(record, by.deep_view(), at@),
    }
}

fn newest_checksum(record: Option<String>, checksum: &Option<String>) -> (newest: Option<String>)
    ensures
        newest.deep_view() == (if checksum is Some {
            checksum.deep_view()
        } else {
            record.deep_view()
        }),
{
    match checksum {
        Some(checksum) => Some(checksum.clone()),
        None => record,
    }
}

fn write_mark(record: LedgerRecord, mark: &Mark) -> (after: LedgerRecord)
    ensures
        after@ == marked(record@, *mark),
{
    match mark {
        Mark::Noted(checksum) => LedgerRecord {
            revision_id: record.revision_id,
            superseded_at: record.superseded_at,
            superseded_by: record.superseded_by,
            checksum: newest_checksum(record.checksum, checksum),
        },
        Mark::Renewed(checksum) => LedgerRecord {
            revision_id: record.revision_id,
            superseded_at: None,
            superseded_by: None,
            checksum: newest_checksum(record.checksum, checksum),
        },
        Mark::Superseded(by, at) => LedgerRecord {
            revision_id: record.revision_id,
            superseded_at: Some((*at).to_owned()),
            superseded_by: copy_text(*by),
            checksum: record.checksum,
        },
    }
}

impl Ledger {
    /// A history of nothing.
    pub fn new() -> (ledger: Ledger)
        ensures
            ledger@ == Map::<Seq<char>, Seq<LedgerRecordView>>::empty(),
    {
        let ledger = Ledger { radargrams: TextMap::new() };
        assert(ledger@ =~= Map::empty());
        ledger
    }

    /// The history of one radargram, in the order its revisions last became
    /// current.
    pub fn history(&self, id: &str) -> (records: Vec<LedgerRecord>)
        ensures
            records.deep_view() == history_of(self@, id@),
    {
        match self.radargrams.get(id) {
            Some(records) => {
                let copy = records.clone();
                assert(copy.deep_view() =~= records.deep_view());
                copy
            },
            None => {
                let none: Vec<LedgerRecord> = Vec::new();
                assert(none.deep_view() =~= Seq::empty());
                none
            },
        }
    }

    /// The current revision of a radargram.
    pub fn current(&self, id: &str) -> (revision: Option<String>)
        ensures
            revision.deep_view() == current_of(history_of(self@, id@)),
    {
        let records = self.history(id);
        let ghost all = records.deep_view();
        let mut n: usize = records.len();
        proof {
            assert(all.take(all.len() as int) =~= all);
        }
        while n > 0
            invariant
                n <= records.len(),
                all == records.deep_view(),
                all == history_of(self@, id@),
                current_of(all) == current_of(all.take(n as int)),
            decreases n,
        {
            proof {
                assert(all.take(n as int).last() == records[n - 1]@);
                assert(all.take(n as int).drop_last() =~= all.take(n - 1));
            }
            if records[n - 1].superseded_at.is_none() {
                return Some(records[n - 1].revision_id.clone());
            }
            n = n - 1;
        }
        None
    }

    /// The history of one radargram, with a revision among it.
    fn history_with(&self, id: &str, revision: &str) -> (records: Vec<LedgerRecord>)
        ensures
            records.deep_view() == with_revision(history_of(self@, id@), revision@),
    {
        let mut records = self.history(id);
        let ghost before = records.deep_view();
        let mut i: usize = 0;
        while i < records.len()
            invariant
                i <= records.len(),
                before == records.deep_view(),
                before == history_of(self@, id@),
                forall|j: int| 0 <= j < i ==> (#[trigger] before[j]).revision_id != revision@,
            decreases records.len() - i,
        {
            assert(before[i as int] == records[i as int]@);
            if text::equal(records[i].revision_id.as_str(), revision) {
                return records;
            }
            i = i + 1;
        }
        let record = LedgerRecord {
            revision_id: revision.to_owned(),
            superseded_at: None,
            superseded_by: None,
            checksum: None,
        };
        records.push(record);
        assert(records.deep_view() =~= before.push(record@));
        records
    }

    fn mark(&mut self, id: &str, revision: &str, mark: Mark)
        ensures
            final(self)@ == old(self)@.insert(
                id@,
                with_revision(history_of(old(self)@, id@), revision@).map_values(
                    |record: LedgerRecordView|
                        if record.revision_id == revision@ {
                            marked(record, mark)
                        } else {
                            record
                        },
                ),
            ),
    {
        let records = self.history_with(id, revision);
        let ghost all = records.deep_view();
        let ghost change = |record: LedgerRecordView|
            if record.revision_id == revision@ {
                marked(record, mark)
            } else {
                record
            };
        let mut after: Vec<LedgerRecord> = Vec::new();
        let mut i: usize = 0;
        while i < records.len()
            invariant
                i <= records.len(),
                all == records.deep_view(),
                change == (|record: LedgerRecordView|
                    if record.revision_id == revision@ {
                        marked(record, mark)
                    } else {
                        record
                    }),
                after.len() == i,
                forall|j: int| 0 <= j < i ==> #[trigger] after.deep_view()[j] == change(all[j]),
            decreases records.len() - i,
        {
            assert(all[i as int] == records[i as int]@);
            let record = records[i].clone();
            let next = if text::equal(record.revision_id.as_str(), revision) {
                write_mark(record, &mark)
            } else {
                record
            };
            let ghost so_far = after.deep_view();
            after.push(next);
            assert(after.deep_view() =~= so_far.push(next@));
            i = i + 1;
        }
        assert(after.deep_view() =~= all.map_values(change));
        self.radargrams.insert(id.to_owned(), after);
        assert(self@ =~= old(self)@.insert(id@, all.map_values(change)));
    }

    /// Notes that a revision is there, without undoing that it was superseded.
    pub fn note_current(&mut self, id: &str, revision: &str, checksum: &Option<String>)
        ensures
            final(self)@ == old(self)@.insert(
                id@,
                noted(history_of(old(self)@, id@), revision@, checksum.deep_view()),
            ),
    {
        let mark = Mark::Noted(checksum);
        self.mark(id, revision, mark);
        assert(noted(history_of(old(self)@, id@), revision@, checksum.deep_view())
            =~= with_revision(history_of(old(self)@, id@), revision@).map_values(
            |record: LedgerRecordView|
                if record.revision_id == revision@ {
                    marked(record, mark)
                } else {
                    record
                },
        ));
    }

    /// Notes that a revision is current, also where it was superseded before
    /// or another came after it: the same file uploaded again, or a radargram
    /// that came back.
    pub fn note_current_again(&mut self, id: &str, revision: &str, checksum: &Option<String>)
        ensures
            final(self)@ == old(self)@.insert(
                id@,
                renewed(history_of(old(self)@, id@), revision@, checksum.deep_view()),
            ),
    {
        let records = self.history_with(id, revision);
        let ghost all = records.deep_view();
        let ghost differs = |record: LedgerRecordView| record.revision_id != revision@;
        let ghost matching = |record: LedgerRecordView| record.revision_id == revision@;
        let ghost renew = |record: LedgerRecordView| as_renewed(record, checksum.deep_view());
        let mut others: Vec<LedgerRecord> = Vec::new();
        let mut back: Vec<LedgerRecord> = Vec::new();
        let mut i: usize = 0;
        proof {
            lemma_filter_none(all, differs);
            lemma_filter_none(all, matching);
            assert(others.deep_view() =~= Seq::empty());
            assert(back.deep_view() =~= all.take(0).filter(matching).map_values(renew));
        }
        while i < records.len()
            invariant
                i <= records.len(),
                all == records.deep_view(),
                differs == (|record: LedgerRecordView| record.revision_id != revision@),
                matching == (|record: LedgerRecordView| record.revision_id == revision@),
                renew == (|record: LedgerRecordView| as_renewed(record, checksum.deep_view())),
                others.deep_view() == all.take(i as int).filter(differs),
                back.deep_view() == all.take(i as int).filter(matching).map_values(renew),
            decreases records.len() - i,
        {
            let record = records[i].clone();
            proof {
                lemma_filter_step(all, i as int, differs);
                lemma_filter_step(all, i as int, matching);
                assert(all[i as int] == record@);
            }
            if text::equal(record.revision_id.as_str(), revision) {
                let ghost so_far = back.deep_view();
                let next = write_mark(record, &Mark::Renewed(checksum));
                back.push(next);
                proof {
                    assert(back.deep_view() =~= so_far.push(next@));
                    assert(back.deep_view() =~= all.take(i + 1).filter(matching).map_values(renew));
                }
            } else {
                let ghost so_far = others.deep_view();
                others.push(record);
                assert(others.deep_view() =~= so_far.push(record@));
            }
            i = i + 1;
        }
        assert(all.take(i as int) =~= all);
        let ghost first = others.deep_view();
        let ghost second = back.deep_view();
        others.append(&mut back);
        proof {
            assert(others.deep_view() =~= first + second);
            assert(others.deep_view() == renewed(
                history_of(self@, id@),
                revision@,
                checksum.deep_view(),
            ));
        }
        self.radargrams.insert(id.to_owned(), others);
        assert(self@ =~= old(self)@.insert(
            id@,
            renewed(history_of(old(self)@, id@), revision@, checksum.deep_view()),
        ));
    }

    /// Notes as current the revision of every radargram that is served, so that
    /// one that was simply always there has a history too, and no history
    /// contradicts what is served.
    pub fn register(&mut self, catalog: &Catalog)
        ensures
            final(self)@ == registered(
                old(self)@,
                catalog@.entries,
                catalog@.entries.len() as int,
            ),
    {
        let ghost all = catalog@.entries;
        let mut i: usize = 0;
        while i < catalog.entries.len()
            invariant
                i <= catalog.entries.len(),
                all == catalog.entries.deep_view(),
                self@ == registered(old(self)@, all, i as int),
            decreases catalog.entries.len() - i,
        {
            let entry = &catalog.entries[i];
            assert(all[i as int] == entry@);
            self.note_current_again(entry.radargram_id.as_str(), entry.revision_id.as_str(), &None);
            i = i + 1;
        }
    }

    /// Notes that a revision is no longer current, and what took its place.
    pub fn supersede(&mut self, id: &str, revision: &str, by: &Option<String>, at: &str)
        ensures
            final(self)@ == old(self)@.insert(
                id@,
                superseded(history_of(old(self)@, id@), revision@, by.deep_view(), at@),
            ),
    {
        let mark = Mark::Superseded(by, at);
        self.mark(id, revision, mark);
        assert(superseded(history_of(old(self)@, id@), revision@, by.deep_view(), at@)
            =~= with_revision(history_of(old(self)@, id@), revision@).map_values(
            |record: LedgerRecordView|
                if record.revision_id == revision@ {
                    marked(record, mark)
                } else {
                    record
                },
        ));
    }
}

// ---------------------------------------------------------------------------
// What holds of every history
// ---------------------------------------------------------------------------

proof fn lemma_current_is_unsuperseded(records: Seq<LedgerRecordView>)
    ensures
        match current_of(records) {
            Some(revision) => exists|i: int|
                0 <= i < records.len() && (#[trigger] records[i]).revision_id == revision
                    && records[i].superseded_at is None,
            None => forall|i: int|
                0 <= i < records.len() ==> (#[trigger] records[i]).superseded_at is Some,
        },
    decreases records.len(),
{
    if records.len() > 0 {
        let rest = records.drop_last();
        assert(records[records.len() - 1] == records.last());
        if records.last().superseded_at is Some {
            lemma_current_is_unsuperseded(rest);
            match current_of(rest) {
                Some(revision) => {
                    let i = choose|i: int|
                        0 <= i < rest.len() && (#[trigger] rest[i]).revision_id == revision
                            && rest[i].superseded_at is None;
                    assert(records[i] == rest[i]);
                },
                None => {
                    assert forall|i: int| 0 <= i < records.len() implies (
                    #[trigger] records[i]).superseded_at is Some by {
                        if i < rest.len() {
                            assert(rest[i] == records[i]);
                        }
                    }
                },
            }
        }
    }
}

/// A revision that was superseded is not current, whatever it was before.
pub proof fn a_superseded_revision_is_not_current(
    records: Seq<LedgerRecordView>,
    revision: Seq<char>,
    by: Option<Seq<char>>,
    at: Seq<char>,
)
    ensures
        current_of(superseded(records, revision, by, at)) != Some(revision),
{
    let after = superseded(records, revision, by, at);
    lemma_current_is_unsuperseded(after);
    if current_of(after) == Some(revision) {
        let i = choose|i: int|
            0 <= i < after.len() && (#[trigger] after[i]).revision_id == revision
                && after[i].superseded_at is None;
        assert(after[i].superseded_at == Some(at));
    }
}

proof fn lemma_revision_is_known(records: Seq<LedgerRecordView>, revision: Seq<char>)
    ensures
        knows(with_revision(records, revision), revision),
{
    if !knows(records, revision) {
        assert(with_revision(records, revision)[records.len() as int].revision_id == revision);
    }
}

/// A revision that comes back is current and no longer says that it is gone,
/// whatever its history was: superseded, never heard of, or followed by others.
pub proof fn a_revision_that_comes_back_is_current(
    records: Seq<LedgerRecordView>,
    revision: Seq<char>,
    checksum: Option<Seq<char>>,
)
    ensures
        current_of(renewed(records, revision, checksum)) == Some(revision),
        forall|i: int|
            0 <= i < renewed(records, revision, checksum).len() && (#[trigger] renewed(
                records,
                revision,
                checksum,
            )[i]).revision_id == revision ==> renewed(records, revision, checksum)[i].superseded_at
                is None && renewed(records, revision, checksum)[i].superseded_by is None,
{
    let all = with_revision(records, revision);
    let differs = |record: LedgerRecordView| record.revision_id != revision;
    let matching = |record: LedgerRecordView| record.revision_id == revision;
    let others = all.filter(differs);
    let same = all.filter(matching);
    let after = renewed(records, revision, checksum);
    lemma_revision_is_known(records, revision);
    let k = choose|k: int| 0 <= k < all.len() && (#[trigger] all[k]).revision_id == revision;
    all.lemma_filter_contains(matching, k);
    assert(same.len() > 0);
    assert(after.last() == as_renewed(same.last(), checksum));
    all.lemma_filter_pred(matching, same.len() - 1);
    assert forall|i: int| 0 <= i < after.len() && (#[trigger] after[i]).revision_id
        == revision implies after[i].superseded_at is None && after[i].superseded_by is None by {
        if i < others.len() {
            all.lemma_filter_pred(differs, i);
            assert(after[i] == others[i]);
        } else {
            assert(after[i] == as_renewed(same[i - others.len()], checksum));
        }
    }
}

/// No revision that was known is forgotten, whatever is noted of another.
pub proof fn a_history_forgets_nothing(
    records: Seq<LedgerRecordView>,
    known: Seq<char>,
    revision: Seq<char>,
    checksum: Option<Seq<char>>,
    by: Option<Seq<char>>,
    at: Seq<char>,
)
    requires
        knows(records, known),
    ensures
        knows(noted(records, revision, checksum), known),
        knows(renewed(records, revision, checksum), known),
        knows(superseded(records, revision, by, at), known),
{
    let k = choose|k: int| 0 <= k < records.len() && (#[trigger] records[k]).revision_id == known;
    let all = with_revision(records, revision);
    assert(all[k] == records[k]);
    assert(noted(records, revision, checksum)[k].revision_id == known);
    assert(superseded(records, revision, by, at)[k].revision_id == known);
    if known == revision {
        a_revision_that_comes_back_is_current(records, revision, checksum);
        lemma_current_is_unsuperseded(renewed(records, revision, checksum));
    } else {
        let differs = |record: LedgerRecordView| record.revision_id != revision;
        all.lemma_filter_contains(differs, k);
        let i = choose|i: int| 0 <= i < all.filter(differs).len() && all.filter(differs)[i] == all[k];
        assert(renewed(records, revision, checksum)[i].revision_id == known);
    }
}

/// Whatever is served is current in its history once it was registered. Of
/// entries with one id, which a catalog does not have, the last counts.
pub proof fn every_served_revision_is_current(
    ledger: Map<Seq<char>, Seq<LedgerRecordView>>,
    entries: Seq<EntryView>,
    n: int,
    i: int,
)
    requires
        0 <= i < n <= entries.len(),
        forall|j: int| i < j < n ==> (#[trigger] entries[j]).radargram_id != entries[i].radargram_id,
    ensures
        current_of(history_of(registered(ledger, entries, n), entries[i].radargram_id)) == Some(
            entries[i].revision_id,
        ),
    decreases n,
{
    let before = registered(ledger, entries, n - 1);
    let entry = entries[n - 1];
    if i == n - 1 {
        a_revision_that_comes_back_is_current(
            history_of(before, entry.radargram_id),
            entry.revision_id,
            None,
        );
    } else {
        every_served_revision_is_current(ledger, entries, n - 1, i);
        assert(entry.radargram_id != entries[i].radargram_id);
    }
}

} // verus!
