//! What holds of the ledger of revisions and of what stays open.
use vstd::prelude::*;

use crate::app_state::{
    an_entry_has_its_own_service, looked_up, opened_at, services, OpenRadargram, SnapshotView,
};
use crate::catalog::{entry_with_id, has_id, EntryView};
use crate::ledger::{
    current_of, history_of, knows, noted, registered, renewed, superseded, with_revision,
    LedgerRecordView,
};

verus! {

/// The current revision is the last that was not superseded, and there is none
/// where every one was.
pub proof fn the_last_that_was_not_superseded_is_current(records: Seq<LedgerRecordView>)
    ensures
        current_of(records) is None <==> forall|i: int|
            0 <= i < records.len() ==> (#[trigger] records[i]).superseded_at is Some,
        current_of(records) is Some ==> exists|i: int|
            0 <= i < records.len() && (#[trigger] records[i]).superseded_at is None && current_of(
                records,
            ) == Some(records[i].revision_id) && (forall|j: int|
                i < j < records.len() ==> (#[trigger] records[j]).superseded_at is Some),
    decreases records.len(),
{
    if records.len() > 0 {
        let rest = records.drop_last();
        let last = records[records.len() - 1];
        assert(records.last() == last);
        if last.superseded_at is Some {
            the_last_that_was_not_superseded_is_current(rest);
            if current_of(rest) is Some {
                let i = choose|i: int|
                    0 <= i < rest.len() && (#[trigger] rest[i]).superseded_at is None && current_of(
                        rest,
                    ) == Some(rest[i].revision_id) && (forall|j: int|
                        i < j < rest.len() ==> (#[trigger] rest[j]).superseded_at is Some);
                assert(records[i] == rest[i]);
                assert forall|j: int| i < j < records.len() implies (
                #[trigger] records[j]).superseded_at is Some by {
                    if j < rest.len() {
                        assert(rest[j] == records[j]);
                    }
                }
            } else {
                assert forall|i: int| 0 <= i < records.len() implies (
                #[trigger] records[i]).superseded_at is Some by {
                    if i < rest.len() {
                        assert(rest[i] == records[i]);
                    }
                }
            }
        }
    }
}

/// Noting a revision adds a record where it was unknown, and changes nothing of
/// the records there are but the checksum of that revision, where one is given.
pub proof fn noting_changes_only_a_checksum(
    records: Seq<LedgerRecordView>,
    revision: Seq<char>,
    checksum: Option<Seq<char>>,
    i: int,
)
    requires
        0 <= i < records.len(),
    ensures
        ({
            let after = noted(records, revision, checksum);
            &&& knows(records, revision) ==> after.len() == records.len()
            &&& !knows(records, revision) ==> after.len() == records.len() + 1
                && after.last().revision_id == revision && after.last().superseded_at is None
                && after.last().superseded_by is None && after.last().checksum == checksum
            &&& after[i].revision_id == records[i].revision_id
            &&& after[i].superseded_at == records[i].superseded_at
            &&& after[i].superseded_by == records[i].superseded_by
            &&& after[i].checksum == (if records[i].revision_id == revision && checksum is Some {
                checksum
            } else {
                records[i].checksum
            })
        }),
{
    assert(with_revision(records, revision)[i] == records[i]);
}

/// Superseding a revision marks its record with the time and with what took its
/// place, adds one where it was unknown, and changes nothing else.
pub proof fn superseding_marks_only_its_revision(
    records: Seq<LedgerRecordView>,
    revision: Seq<char>,
    by: Option<Seq<char>>,
    at: Seq<char>,
    i: int,
)
    requires
        0 <= i < records.len(),
    ensures
        ({
            let after = superseded(records, revision, by, at);
            &&& knows(records, revision) ==> after.len() == records.len()
            &&& !knows(records, revision) ==> after.len() == records.len() + 1
                && after.last().revision_id == revision && after.last().superseded_at == Some(at)
                && after.last().superseded_by == by && after.last().checksum is None
            &&& records[i].revision_id != revision ==> after[i] == records[i]
            &&& records[i].revision_id == revision ==> after[i].revision_id == revision
                && after[i].superseded_at == Some(at) && after[i].superseded_by == by
                && after[i].checksum == records[i].checksum
        }),
{
    assert(with_revision(records, revision)[i] == records[i]);
}

/// A revision that comes back is put last, as if it had never been superseded,
/// with the checksum it is given or else the one it had; every record of
/// another revision stays as it was.
pub proof fn coming_back_moves_only_its_revision(
    records: Seq<LedgerRecordView>,
    revision: Seq<char>,
    checksum: Option<Seq<char>>,
    i: int,
)
    requires
        0 <= i < records.len(),
    ensures
        ({
            let after = renewed(records, revision, checksum);
            &&& after.len() == records.len() + (if knows(records, revision) {
                0int
            } else {
                1int
            })
            &&& after.len() > 0
            &&& after.last().revision_id == revision
            &&& !knows(records, revision) ==> after.last().checksum == checksum
            &&& records[i].revision_id != revision ==> after.contains(records[i])
            &&& records[i].revision_id == revision ==> exists|j: int|
                0 <= j < after.len() && (#[trigger] after[j]).revision_id == revision
                    && after[j].superseded_at is None && after[j].superseded_by is None
                    && after[j].checksum == (if checksum is Some {
                    checksum
                } else {
                    records[i].checksum
                })
        }),
{
    let all = with_revision(records, revision);
    let after = renewed(records, revision, checksum);
    let differs = |record: LedgerRecordView| record.revision_id != revision;
    let matching = |record: LedgerRecordView| record.revision_id == revision;
    let others = all.filter(differs);
    let same = all.filter(matching);
    assert(all[i] == records[i]);
    lemma_parted(all, revision);
    if knows(records, revision) {
        let k = choose|k: int|
            0 <= k < records.len() && (#[trigger] records[k]).revision_id == revision;
        assert(all[k].revision_id == revision);
        all.lemma_filter_contains(matching, k);
    } else {
        let k = records.len() as int;
        assert(all[k].revision_id == revision);
        all.lemma_filter_contains(matching, k);
        assert(same.len() > 0);
        let last = same[same.len() - 1];
        assert(same.contains(last));
        all.lemma_filter_pred(matching, same.len() - 1);
        all.lemma_filter_contains_rev(matching, last);
        let m = choose|m: int| 0 <= m < all.len() && all[m] == last;
        if m < records.len() {
            assert(records[m].revision_id == revision);
        }
    }
    assert(same.len() > 0);
    all.lemma_filter_pred(matching, same.len() - 1);
    if records[i].revision_id != revision {
        all.lemma_filter_contains(differs, i);
        let j = choose|j: int| 0 <= j < others.len() && others[j] == records[i];
        assert(after[j] == records[i]);
    } else {
        all.lemma_filter_contains(matching, i);
        let j = choose|j: int| 0 <= j < same.len() && same[j] == records[i];
        assert(after[others.len() + j].revision_id == revision);
    }
}

proof fn lemma_parted(all: Seq<LedgerRecordView>, revision: Seq<char>)
    ensures
        all.filter(|record: LedgerRecordView| record.revision_id != revision).len() + all.filter(
            |record: LedgerRecordView| record.revision_id == revision,
        ).len() == all.len(),
    decreases all.len(),
{
    reveal_with_fuel(Seq::filter, 1);
    if all.len() > 0 {
        lemma_parted(all.drop_last(), revision);
    }
}

/// Registering what is served leaves the history of everything else alone.
pub proof fn what_is_not_served_keeps_its_history(
    ledger: Map<Seq<char>, Seq<LedgerRecordView>>,
    entries: Seq<EntryView>,
    n: int,
    id: Seq<char>,
)
    requires
        0 <= n <= entries.len(),
        !has_id(entries, id),
    ensures
        history_of(registered(ledger, entries, n), id) == history_of(ledger, id),
    decreases n,
{
    if n > 0 {
        assert(entries[n - 1].radargram_id != id);
        what_is_not_served_keeps_its_history(ledger, entries, n - 1, id);
    }
}

proof fn lemma_found_first(entries: Seq<EntryView>, i: int)
    requires
        0 <= i < entries.len(),
        forall|j: int| 0 <= j < i ==> (#[trigger] entries[j]).radargram_id != entries[i].radargram_id,
    ensures
        entry_with_id(entries, entries[i].radargram_id) == Some(entries[i]),
    decreases entries.len(),
{
    let rest = entries.drop_last();
    if i < rest.len() {
        assert(rest[i] == entries[i]);
        assert forall|j: int| 0 <= j < i implies (#[trigger] rest[j]).radargram_id
            != rest[i].radargram_id by {
            assert(rest[j] == entries[j]);
        }
        lemma_found_first(rest, i);
    } else {
        let id = entries[i].radargram_id;
        crate::catalog::lemma_entry_with_id(rest, id);
        if entry_with_id(rest, id) is Some {
            let k = choose|k: int| 0 <= k < rest.len() && rest[k] == entry_with_id(rest, id)->0;
            assert(entries[k].radargram_id == id);
        }
        assert(entries.last() == entries[i]);
    }
}

/// An id leads to the entry that has it.
pub proof fn an_id_leads_to_its_entry(entries: Seq<EntryView>, i: int)
    requires
        0 <= i < entries.len(),
        forall|a: int, b: int|
            0 <= a < b < entries.len() ==> (#[trigger] entries[a]).radargram_id != (
            #[trigger] entries[b]).radargram_id,
    ensures
        entry_with_id(entries, entries[i].radargram_id) == Some(entries[i]),
{
    lemma_found_first(entries, i);
}

/// What is open stays open exactly as long as its revision does: where the
/// catalog before had the same revision and it was open, the same one goes on.
/// Where the revision is new, what was freshly opened for that very entry takes
/// its place, and an entry in no root that is served has nothing.
pub proof fn what_is_open_stays_while_its_revision_does(
    former: SnapshotView,
    entries: Seq<EntryView>,
    n_roots: nat,
    opened: Seq<Option<OpenRadargram>>,
    i: int,
    was: int,
)
    requires
        0 <= i < entries.len(),
        opened.len() == entries.len(),
        0 <= was < former.catalog.entries.len(),
        former.catalog.entries[was].radargram_id == entries[i].radargram_id,
        forall|a: int, b: int|
            0 <= a < b < entries.len() ==> (#[trigger] entries[a]).radargram_id != (
            #[trigger] entries[b]).radargram_id,
        forall|a: int, b: int|
            0 <= a < b < former.catalog.entries.len() ==> (
            #[trigger] former.catalog.entries[a]).radargram_id != (
            #[trigger] former.catalog.entries[b]).radargram_id,
    ensures
        ({
            let now = services(former, entries, n_roots, opened, entries.len() as int);
            let id = entries[i].radargram_id;
            let same = former.catalog.entries[was].revision_id == entries[i].revision_id;
            let goes_on = same && former.radargrams.contains_key(id);
            &&& goes_on ==> now.contains_key(id) && now[id] == former.radargrams[id]
            &&& !goes_on && entries[i].root < n_roots && opened[i] is Some ==> now.contains_key(id)
                && now[id] == opened[i]->0
            &&& !goes_on && (entries[i].root >= n_roots || opened[i] is None)
                ==> !now.contains_key(id)
        }),
{
    lemma_found_first(former.catalog.entries, was);
    an_entry_has_its_own_service(former, entries, n_roots, opened, entries.len() as int, i);
}

/// What was not in the catalog before is opened afresh.
pub proof fn what_is_new_is_opened_afresh(
    former: SnapshotView,
    entries: Seq<EntryView>,
    n_roots: nat,
    opened: Seq<Option<OpenRadargram>>,
    i: int,
)
    requires
        0 <= i < entries.len(),
        opened.len() == entries.len(),
        !has_id(former.catalog.entries, entries[i].radargram_id),
        entries[i].root < n_roots,
        forall|a: int, b: int|
            0 <= a < b < entries.len() ==> (#[trigger] entries[a]).radargram_id != (
            #[trigger] entries[b]).radargram_id,
    ensures
        looked_up(
            services(former, entries, n_roots, opened, entries.len() as int),
            entries[i].radargram_id,
        ) == opened[i],
{
    let id = entries[i].radargram_id;
    crate::catalog::lemma_entry_with_id(former.catalog.entries, id);
    if entry_with_id(former.catalog.entries, id) is Some {
        let entry = entry_with_id(former.catalog.entries, id)->0;
        let k = choose|k: int|
            0 <= k < former.catalog.entries.len() && former.catalog.entries[k] == entry;
        assert(former.catalog.entries[k].radargram_id == id);
    }
    an_entry_has_its_own_service(former, entries, n_roots, opened, entries.len() as int, i);
    assert(opened_at(opened, i) == opened[i]);
}

/// Registering what is served forgets no revision of anything, and leaves every
/// record alone but those of the revisions that are served.
pub proof fn registering_forgets_nothing(
    ledger: Map<Seq<char>, Seq<LedgerRecordView>>,
    entries: Seq<EntryView>,
    n: int,
    id: Seq<char>,
    k: int,
)
    requires
        0 <= n <= entries.len(),
        0 <= k < history_of(ledger, id).len(),
    ensures
        knows(history_of(registered(ledger, entries, n), id), history_of(ledger, id)[k].revision_id),
        (forall|i: int|
            0 <= i < n && (#[trigger] entries[i]).radargram_id == id ==> entries[i].revision_id
                != history_of(ledger, id)[k].revision_id) ==> history_of(
            registered(ledger, entries, n),
            id,
        ).contains(history_of(ledger, id)[k]),
    decreases n,
{
    let record = history_of(ledger, id)[k];
    if n > 0 {
        registering_forgets_nothing(ledger, entries, n - 1, id, k);
        let before = registered(ledger, entries, n - 1);
        let entry = entries[n - 1];
        if entry.radargram_id == id {
            let records = history_of(before, id);
            crate::ledger::a_history_forgets_nothing(
                records,
                record.revision_id,
                entry.revision_id,
                None,
                None,
                Seq::empty(),
            );
            if records.contains(record) && entry.revision_id != record.revision_id {
                let i = choose|i: int| 0 <= i < records.len() && records[i] == record;
                coming_back_moves_only_its_revision(records, entry.revision_id, None, i);
            }
        }
    }
}

} // verus!
