//! What holds of every catalog.
use vstd::prelude::*;

use crate::catalog::{has_id, root_writable, EntryView, RootView, WarningView};
use crate::overrides::{OverrideView, OverridesView};
use crate::resolution::{
    changes_while_ignored, concerns_nothing_ignored, described, disagreement, disagreements, leader,
    name_of_group, names_group, names_of_groups, newer, overridden, populated, resolved,
    resolved_entries, served, settled, vestigial, with_override,
};
use crate::selection::{
    catalog_from, chosen, chosen_by_id, duplicate, entries_found, file_problems, ids_of, in_layer,
    layer_duplicates, occurrences, preferred, read_failures, selected, InspectedView,
};
use crate::sorting;
use crate::sorting::{in_order, is_ranking, rank_of};
use crate::text;
use crate::text::text_less;
use crate::text_map::{
    key_order, lemma_ascending_differ, lemma_finite_listed, lemma_insert_ascending, lists,
};

verus! {

// ---------------------------------------------------------------------------
// Which file stands for an id
// ---------------------------------------------------------------------------

proof fn lemma_newer_order(a: EntryView, b: EntryView, c: EntryView)
    ensures
        !newer(a, a),
        newer(a, b) ==> !newer(b, a),
        newer(a, b) && newer(b, c) ==> newer(a, c),
        newer(a, b) && !newer(c, b) ==> newer(a, c),
{
    text::text_order_is_strict_and_total(a.processing_datetime, b.processing_datetime);
    text::text_order_is_strict_and_total(b.processing_datetime, c.processing_datetime);
    text::text_order_is_strict_and_total(c.processing_datetime, b.processing_datetime);
    text::text_order_is_strict_and_total(a.relative_path, b.relative_path);
    text::text_order_is_strict_and_total(b.relative_path, c.relative_path);
    text::text_order_is_strict_and_total(c.relative_path, b.relative_path);
    if text_less(b.processing_datetime, a.processing_datetime) && text_less(
        c.processing_datetime,
        b.processing_datetime,
    ) {
        text::text_order_is_transitive(
            c.processing_datetime,
            b.processing_datetime,
            a.processing_datetime,
        );
    }
    if text_less(a.relative_path, b.relative_path) && text_less(b.relative_path, c.relative_path) {
        text::text_order_is_transitive(a.relative_path, b.relative_path, c.relative_path);
    }
}

proof fn lemma_preferred_order(roots: Seq<RootView>, a: EntryView, b: EntryView, c: EntryView)
    ensures
        !preferred(roots, a, a),
        preferred(roots, a, b) && !preferred(roots, c, b) ==> preferred(roots, a, c),
        preferred(roots, a, b) && preferred(roots, b, c) ==> preferred(roots, a, c),
{
    lemma_newer_order(a, b, c);
}

/// Nothing found under an id is preferred to the entry that stands for it:
/// neither something in a higher layer, nor something newer in the same one.
pub proof fn nothing_is_preferred_to_the_chosen(
    entries: Seq<EntryView>,
    roots: Seq<RootView>,
    id: Seq<char>,
)
    requires
        has_id(entries, id),
    ensures
        chosen(entries, roots, id) is Some,
        entries.contains(chosen(entries, roots, id)->0),
        chosen(entries, roots, id)->0.radargram_id == id,
        forall|i: int|
            0 <= i < entries.len() && (#[trigger] entries[i]).radargram_id == id ==> !preferred(
                roots,
                entries[i],
                chosen(entries, roots, id)->0,
            ),
    decreases entries.len(),
{
    let rest = entries.drop_last();
    let last = entries.last();
    assert(entries[entries.len() - 1] == last);
    if has_id(rest, id) {
        nothing_is_preferred_to_the_chosen(rest, roots, id);
        let before = chosen(rest, roots, id)->0;
        let k = choose|k: int| 0 <= k < rest.len() && rest[k] == before;
        assert(entries[k] == before);
        let now = chosen(entries, roots, id)->0;
        assert forall|i: int|
            0 <= i < entries.len() && (#[trigger] entries[i]).radargram_id == id implies !preferred(
            roots,
            entries[i],
            now,
        ) by {
            lemma_preferred_order(roots, last, last, last);
            if i < rest.len() {
                assert(rest[i] == entries[i]);
                lemma_preferred_order(roots, entries[i], now, before);
                lemma_preferred_order(roots, entries[i], last, before);
            }
        }
    } else {
        let i = choose|i: int| 0 <= i < entries.len() && (#[trigger] entries[i]).radargram_id == id;
        if i < rest.len() {
            assert(rest[i].radargram_id == id);
        }
        lemma_no_id_none_chosen(rest, roots, id);
        lemma_preferred_order(roots, last, last, last);
        assert forall|i: int|
            0 <= i < entries.len() && (#[trigger] entries[i]).radargram_id == id implies !preferred(
            roots,
            entries[i],
            last,
        ) by {
            if i < rest.len() {
                assert(rest[i].radargram_id == id);
            }
        }
    }
}

proof fn lemma_no_id_none_chosen(entries: Seq<EntryView>, roots: Seq<RootView>, id: Seq<char>)
    requires
        !has_id(entries, id),
    ensures
        chosen(entries, roots, id) is None,
    decreases entries.len(),
{
    if entries.len() > 0 {
        assert(entries[entries.len() - 1] == entries.last());
        assert(!has_id(entries.drop_last(), id)) by {
            if has_id(entries.drop_last(), id) {
                let i = choose|i: int|
                    0 <= i < entries.drop_last().len() && (#[trigger] entries.drop_last()[i]).radargram_id == id;
                assert(entries[i].radargram_id == id);
            }
        }
        lemma_no_id_none_chosen(entries.drop_last(), roots, id);
    }
}

/// The project wins over an archive however new the archive's file is: where
/// any copy of an id lies in a writable root, the entry for it does.
pub proof fn the_project_wins_over_an_archive(
    entries: Seq<EntryView>,
    roots: Seq<RootView>,
    own: EntryView,
)
    requires
        entries.contains(own),
        root_writable(roots, own.root),
    ensures
        chosen(entries, roots, own.radargram_id) is Some,
        root_writable(roots, chosen(entries, roots, own.radargram_id)->0.root),
{
    let k = choose|k: int| 0 <= k < entries.len() && entries[k] == own;
    assert(entries[k].radargram_id == own.radargram_id);
    nothing_is_preferred_to_the_chosen(entries, roots, own.radargram_id);
}

/// Within one layer the most recently processed file stands for its id, and
/// among files processed at the same time the one whose path comes first.
pub proof fn the_newest_of_a_layer_is_chosen(
    entries: Seq<EntryView>,
    roots: Seq<RootView>,
    other: EntryView,
)
    requires
        entries.contains(other),
        chosen(entries, roots, other.radargram_id) is Some,
        root_writable(roots, other.root) == root_writable(
            roots,
            chosen(entries, roots, other.radargram_id)->0.root,
        ),
    ensures
        ({
            let stands = chosen(entries, roots, other.radargram_id)->0;
            ||| text_less(other.processing_datetime, stands.processing_datetime)
            ||| other.processing_datetime == stands.processing_datetime && !text_less(
                other.relative_path,
                stands.relative_path,
            )
        }),
{
    let k = choose|k: int| 0 <= k < entries.len() && entries[k] == other;
    assert(entries[k].radargram_id == other.radargram_id);
    nothing_is_preferred_to_the_chosen(entries, roots, other.radargram_id);
    let stands = chosen(entries, roots, other.radargram_id)->0;
    text::text_order_is_strict_and_total(other.processing_datetime, stands.processing_datetime);
}

proof fn lemma_path_order_ranks()
    ensures
        is_ranking(rank_of::<crate::catalog::CatalogEntry>()),
{
    let key = |entry: EntryView| entry.relative_path;
    sorting::lemma_text_key_ranking(key);
    assert(rank_of::<crate::catalog::CatalogEntry>() =~= |a: EntryView, b: EntryView|
        text_less(key(a), key(b)));
}

proof fn lemma_ids_listed(entries: Seq<EntryView>)
    ensures
        lists(key_order(ids_of(entries)), ids_of(entries)),
    decreases entries.len(),
{
    let row = lemma_some_listing(entries);
    assert(lists(row, ids_of(entries)));
}

/// Some row lists the ids of the entries in order.
proof fn lemma_some_listing(entries: Seq<EntryView>) -> (row: Seq<Seq<char>>)
    ensures
        lists(row, ids_of(entries)),
    decreases entries.len(),
{
    if entries.len() == 0 {
        let row = Seq::<Seq<char>>::empty();
        row
    } else {
        let before = lemma_some_listing(entries.drop_last());
        let id = entries.last().radargram_id;
        assert(entries[entries.len() - 1] == entries.last());
        assert forall|other: Seq<char>|
            #[trigger] ids_of(entries).contains(other) <==> (other == id || ids_of(
                entries.drop_last(),
            ).contains(other)) by {
            if has_id(entries, other) && other != id {
                let i = choose|i: int|
                    0 <= i < entries.len() && (#[trigger] entries[i]).radargram_id == other;
                assert(entries.drop_last()[i].radargram_id == other);
            }
            if has_id(entries.drop_last(), other) {
                let i = choose|i: int|
                    0 <= i < entries.drop_last().len() && (#[trigger] entries.drop_last()[i]).radargram_id
                        == other;
                assert(entries[i].radargram_id == other);
            }
        }
        if before.contains(id) {
            assert(ids_of(entries.drop_last()).contains(id));
            assert forall|other: Seq<char>|
                #[trigger] ids_of(entries).contains(other) <==> before.contains(other) by {
                assert(ids_of(entries.drop_last()).contains(other) <==> before.contains(other));
            }
            before
        } else {
            let row = lemma_insert_ascending(before, id);
            assert forall|other: Seq<char>|
                #[trigger] ids_of(entries).contains(other) <==> row.contains(other) by {
                assert(ids_of(entries.drop_last()).contains(other) <==> before.contains(other));
                assert(row.contains(other) <==> other == id || before.contains(other));
            }
            row
        }
    }
}

/// Every id that was found has exactly one entry, and it is the one that
/// stands for it. The entries stand in the order of their paths.
pub proof fn selection_keeps_one_entry_per_id(entries: Seq<EntryView>, roots: Seq<RootView>)
    ensures
        forall|id: Seq<char>| #[trigger] has_id(selected(entries, roots), id) <==> has_id(entries, id),
        forall|i: int|
            0 <= i < selected(entries, roots).len() ==> chosen(
                entries,
                roots,
                (#[trigger] selected(entries, roots)[i]).radargram_id,
            ) == Some(selected(entries, roots)[i]),
        forall|i: int, j: int|
            0 <= i < j < selected(entries, roots).len() ==> (#[trigger] selected(
                entries,
                roots,
            )[i]).radargram_id != (#[trigger] selected(entries, roots)[j]).radargram_id,
        in_order(selected(entries, roots), rank_of::<crate::catalog::CatalogEntry>()),
{
    broadcast use vstd::seq_lib::group_to_multiset_ensures;

    let row = chosen_by_id(entries, roots);
    let ids = key_order(ids_of(entries));
    let all = selected(entries, roots);
    let rank = rank_of::<crate::catalog::CatalogEntry>();
    lemma_ids_listed(entries);
    lemma_path_order_ranks();
    sorting::sorting_puts_in_order(row, rank);
    sorting::sorting_keeps_the_contents(row, rank);
    assert forall|i: int| 0 <= i < row.len() implies (#[trigger] row[i]).radargram_id == ids[i]
        && chosen(entries, roots, ids[i]) == Some(row[i]) by {
        assert(ids.contains(ids[i]));
        assert(ids_of(entries).contains(ids[i]));
        nothing_is_preferred_to_the_chosen(entries, roots, ids[i]);
    }
    lemma_ascending_differ(ids);
    assert(row.no_duplicates()) by {
        assert forall|i: int, j: int|
            0 <= i < row.len() && 0 <= j < row.len() && i != j implies row[i] != row[j] by {
            assert(ids[i] != ids[j]);
        }
    }
    assert forall|entry: EntryView| all.contains(entry) <==> row.contains(entry) by {
        assert(all.to_multiset().count(entry) == row.to_multiset().count(entry));
    }
    row.lemma_multiset_has_no_duplicates();
    all.lemma_multiset_has_no_duplicates_conv();
    assert forall|i: int| 0 <= i < all.len() implies chosen(
        entries,
        roots,
        (#[trigger] all[i]).radargram_id,
    ) == Some(all[i]) by {
        assert(all.contains(all[i]));
        let k = choose|k: int| 0 <= k < row.len() && row[k] == all[i];
        assert(row[k].radargram_id == ids[k]);
    }
    assert forall|i: int, j: int| 0 <= i < j < all.len() implies (#[trigger] all[i]).radargram_id
        != (#[trigger] all[j]).radargram_id by {
        assert(all[i] != all[j]);
    }
    assert forall|id: Seq<char>| #[trigger] has_id(all, id) <==> has_id(entries, id) by {
        if has_id(all, id) {
            let i = choose|i: int| 0 <= i < all.len() && (#[trigger] all[i]).radargram_id == id;
            assert(all.contains(all[i]));
            let k = choose|k: int| 0 <= k < row.len() && row[k] == all[i];
            assert(row[k].radargram_id == ids[k]);
            assert(ids.contains(ids[k]));
            assert(ids_of(entries).contains(id));
        }
        if has_id(entries, id) {
            assert(ids_of(entries).contains(id));
            let k = choose|k: int| 0 <= k < ids.len() && ids[k] == id;
            assert(row[k].radargram_id == id);
            assert(row.contains(row[k]));
            let i = choose|i: int| 0 <= i < all.len() && all[i] == row[k];
            assert(all[i].radargram_id == id);
        }
    }
}

// ---------------------------------------------------------------------------
// Problems with files
// ---------------------------------------------------------------------------

/// A candidate that is not a radargram makes no entry and hides none: the
/// entries are those that the other candidates make.
pub proof fn what_is_no_radargram_changes_no_entry(
    before: Seq<InspectedView>,
    other: InspectedView,
    after: Seq<InspectedView>,
)
    requires
        !(other.inspection is Supported),
    ensures
        entries_found(before.push(other) + after) == entries_found(before + after),
    decreases after.len(),
{
    if after.len() == 0 {
        assert(before.push(other) + after =~= before.push(other));
        assert(before + after =~= before);
        assert(before.push(other).drop_last() =~= before);
    } else {
        what_is_no_radargram_changes_no_entry(before, other, after.drop_last());
        let with = before.push(other) + after;
        let without = before + after;
        assert(with.drop_last() =~= before.push(other) + after.drop_last());
        assert(without.drop_last() =~= before + after.drop_last());
        assert(with.last() == after.last());
        assert(without.last() == after.last());
    }
}

/// A file that is not a radargram, or from before ids, is passed over in
/// silence.
pub proof fn foreign_files_are_not_reported(
    before: Seq<InspectedView>,
    other: InspectedView,
    after: Seq<InspectedView>,
)
    requires
        !(other.inspection is Unreadable),
    ensures
        read_failures(before.push(other) + after) == read_failures(before + after),
    decreases after.len(),
{
    if after.len() == 0 {
        assert(before.push(other) + after =~= before.push(other));
        assert(before + after =~= before);
        assert(before.push(other).drop_last() =~= before);
    } else {
        foreign_files_are_not_reported(before, other, after.drop_last());
        let with = before.push(other) + after;
        let without = before + after;
        assert(with.drop_last() =~= before.push(other) + after.drop_last());
        assert(without.drop_last() =~= before + after.drop_last());
        assert(with.last() == after.last());
        assert(without.last() == after.last());
    }
}

/// Two copies of an id in one layer are reported, whatever the other layer
/// holds: that the project wins hides no duplicate between archives.
pub proof fn duplicates_in_a_layer_are_reported(
    inspected: Seq<InspectedView>,
    roots: Seq<RootView>,
    i: int,
    j: int,
)
    requires
        0 <= i < j < entries_found(inspected).len(),
        entries_found(inspected)[i].radargram_id == entries_found(inspected)[j].radargram_id,
        root_writable(roots, entries_found(inspected)[i].root) == root_writable(
            roots,
            entries_found(inspected)[j].root,
        ),
    ensures
        ({
            let entries = entries_found(inspected);
            let id = entries[i].radargram_id;
            let layer = root_writable(roots, entries[i].root);
            file_problems(inspected, roots).contains(
                duplicate(id, occurrences(entries, roots, layer, id)),
            )
        }),
{
    let entries = entries_found(inspected);
    let id = entries[i].radargram_id;
    let layer = root_writable(roots, entries[i].root);
    let ids = key_order(ids_of(entries));
    let warning = duplicate(id, occurrences(entries, roots, layer, id));
    lemma_ids_listed(entries);
    assert(has_id(entries, id));
    assert(ids_of(entries).contains(id));
    let k = choose|k: int| 0 <= k < ids.len() && ids[k] == id;
    lemma_two_occurrences(entries, roots, layer, id, i, j);
    lemma_layer_duplicate_listed(ids, entries, roots, layer, k);
    let first = read_failures(inspected);
    let second = layer_duplicates(ids, entries, roots, false);
    let third = layer_duplicates(ids, entries, roots, true);
    let part = layer_duplicates(ids, entries, roots, layer);
    let m = choose|m: int| 0 <= m < part.len() && part[m] == warning;
    let all = file_problems(inspected, roots);
    if layer {
        assert(all[first.len() + second.len() + m] == warning);
    } else {
        assert(all[first.len() + m] == warning);
    }
}

proof fn lemma_two_occurrences(
    entries: Seq<EntryView>,
    roots: Seq<RootView>,
    layer: bool,
    id: Seq<char>,
    i: int,
    j: int,
)
    requires
        0 <= i < j < entries.len(),
        in_layer(entries[i], roots, layer, id),
        in_layer(entries[j], roots, layer, id),
    ensures
        occurrences(entries, roots, layer, id).len() >= 2,
{
    let keep = |entry: EntryView| in_layer(entry, roots, layer, id);
    lemma_filter_two(entries, keep, i, j);
    sorting::sorting_keeps_the_contents(
        entries.filter(keep).map_values(
            |entry: EntryView|
                crate::selection::OccurrenceView {
                    processing_datetime: entry.processing_datetime,
                    path: entry.relative_path,
                },
        ),
        |a: crate::selection::OccurrenceView, b: crate::selection::OccurrenceView|
            crate::selection::occurs_before(a, b),
    );
}

proof fn lemma_filter_two<A>(row: Seq<A>, keep: spec_fn(A) -> bool, i: int, j: int)
    requires
        0 <= i < j < row.len(),
        keep(row[i]),
        keep(row[j]),
    ensures
        row.filter(keep).len() >= 2,
    decreases row.len(),
{
    reveal_with_fuel(Seq::filter, 2);
    let rest = row.drop_last();
    if j < rest.len() {
        lemma_filter_two(rest, keep, i, j);
    } else {
        assert(rest[i] == row[i]);
        rest.lemma_filter_contains(keep, i);
        assert(row.last() == row[j]);
    }
}

proof fn lemma_layer_duplicate_listed(
    ids: Seq<Seq<char>>,
    entries: Seq<EntryView>,
    roots: Seq<RootView>,
    layer: bool,
    k: int,
)
    requires
        0 <= k < ids.len(),
        occurrences(entries, roots, layer, ids[k]).len() >= 2,
    ensures
        layer_duplicates(ids, entries, roots, layer).contains(
            duplicate(ids[k], occurrences(entries, roots, layer, ids[k])),
        ),
    decreases ids.len(),
{
    let all = layer_duplicates(ids, entries, roots, layer);
    if k == ids.len() - 1 {
        assert(all.last() == duplicate(ids[k], occurrences(entries, roots, layer, ids[k])));
        assert(all[all.len() - 1] == all.last());
    } else {
        let rest = ids.drop_last();
        lemma_layer_duplicate_listed(rest, entries, roots, layer, k);
        let before = layer_duplicates(rest, entries, roots, layer);
        let warning = duplicate(ids[k], occurrences(entries, roots, layer, ids[k]));
        let m = choose|m: int| 0 <= m < before.len() && before[m] == warning;
        assert(all[m] == warning);
    }
}

// ---------------------------------------------------------------------------
// What the project says
// ---------------------------------------------------------------------------

/// Resolving a catalog again gives what discovering it afresh would have
/// given: nothing of the overrides it was resolved with before is left.
pub proof fn resolving_again_is_discovering_afresh(
    inspected: Seq<InspectedView>,
    roots: Seq<RootView>,
    before: OverridesView,
    now: OverridesView,
)
    ensures
        ({
            let served = catalog_from(inspected, roots, before);
            resolved(served.unresolved, served.file_warnings, now) == catalog_from(
                inspected,
                roots,
                now,
            )
        }),
{
}

/// Taking every override back restores the catalog the files alone make.
pub proof fn reverting_restores_the_plain_catalog(
    inspected: Seq<InspectedView>,
    roots: Seq<RootView>,
    before: OverridesView,
)
    ensures
        ({
            let served = catalog_from(inspected, roots, before);
            resolved(served.unresolved, served.file_warnings, OverridesView::nothing())
                == catalog_from(inspected, roots, OverridesView::nothing())
        }),
{
}

/// An entry with what the project says keeps what only the file can say: its
/// id, revision, time, shape, place, and the file's own labels.
pub proof fn overrides_change_labels_only(entry: EntryView, overrides: OverridesView)
    ensures
        ({
            let shown = overridden(entry, overrides);
            &&& shown.radargram_id == entry.radargram_id
            &&& shown.revision_id == entry.revision_id
            &&& shown.processing_datetime == entry.processing_datetime
            &&& shown.shape == entry.shape
            &&& shown.relative_path == entry.relative_path
            &&& shown.root == entry.root
            &&& shown.from_file == entry.from_file
        }),
{
}

/// A radargram moved to another group does not bring its old group's name.
pub proof fn moving_leaves_the_old_name_behind(entry: EntryView, over: OverrideView)
    requires
        over.group is Some,
        over.group->0 != entry.group_id,
    ensures
        with_override(entry, over).group_name is None,
        with_override(entry, over).group_id == over.group->0,
{
}

/// The served entries and the described ones correspond one to one.
pub proof fn lemma_described(unresolved: Seq<EntryView>, overrides: OverridesView)
    ensures
        described(unresolved, overrides).len() == served(unresolved, overrides).len(),
        forall|i: int|
            0 <= i < described(unresolved, overrides).len() ==> #[trigger] described(
                unresolved,
                overrides,
            )[i] == overridden(served(unresolved, overrides)[i], overrides),
        resolved_entries(unresolved, overrides).len() == described(unresolved, overrides).len(),
        forall|i: int|
            0 <= i < resolved_entries(unresolved, overrides).len() ==> #[trigger] resolved_entries(
                unresolved,
                overrides,
            )[i] == settled(
                described(unresolved, overrides)[i],
                names_of_groups(described(unresolved, overrides), overrides),
            ),
{
}

/// The project serves exactly what was found and is not ignored: nothing
/// ignored is an entry, and everything else is.
pub proof fn exactly_the_ignored_are_left_out(
    unresolved: Seq<EntryView>,
    overrides: OverridesView,
    id: Seq<char>,
)
    ensures
        has_id(resolved_entries(unresolved, overrides), id) <==> has_id(unresolved, id)
            && !overrides.ignored.contains_key(id),
{
    let keep = |entry: EntryView| !overrides.ignored.contains_key(entry.radargram_id);
    let kept = served(unresolved, overrides);
    let entries = resolved_entries(unresolved, overrides);
    lemma_described(unresolved, overrides);
    if has_id(entries, id) {
        let i = choose|i: int| 0 <= i < entries.len() && (#[trigger] entries[i]).radargram_id == id;
        assert(entries[i] == settled(
            described(unresolved, overrides)[i],
            names_of_groups(described(unresolved, overrides), overrides),
        ));
        assert(described(unresolved, overrides)[i] == overridden(kept[i], overrides));
        assert(kept.contains(kept[i]));
        unresolved.lemma_filter_pred(keep, i);
        unresolved.lemma_filter_contains_rev(keep, kept[i]);
        let k = choose|k: int| 0 <= k < unresolved.len() && unresolved[k] == kept[i];
        assert(unresolved[k].radargram_id == id);
    }
    if has_id(unresolved, id) && !overrides.ignored.contains_key(id) {
        let k = choose|k: int|
            0 <= k < unresolved.len() && (#[trigger] unresolved[k]).radargram_id == id;
        unresolved.lemma_filter_contains(keep, k);
        assert(kept.contains(unresolved[k]));
        let i = choose|i: int| 0 <= i < kept.len() && kept[i] == unresolved[k];
        assert(described(unresolved, overrides)[i] == overridden(kept[i], overrides));
        assert(entries[i].radargram_id == id);
    }
}

/// Lifting the decision brings an ignored radargram back, without reading the
/// disk again.
pub proof fn lifting_an_ignore_brings_it_back(
    unresolved: Seq<EntryView>,
    overrides: OverridesView,
    id: Seq<char>,
)
    requires
        has_id(unresolved, id),
    ensures
        has_id(
            resolved_entries(
                unresolved,
                OverridesView { ignored: overrides.ignored.remove(id), ..overrides },
            ),
            id,
        ),
{
    exactly_the_ignored_are_left_out(
        unresolved,
        OverridesView { ignored: overrides.ignored.remove(id), ..overrides },
        id,
    );
}

/// Every member of a group carries the group's one name, so a card can never
/// disagree with the heading above it.
pub proof fn members_carry_their_groups_name(
    unresolved: Seq<EntryView>,
    file_warnings: Seq<WarningView>,
    overrides: OverridesView,
    i: int,
)
    requires
        0 <= i < resolved(unresolved, file_warnings, overrides).entries.len(),
        resolved(unresolved, file_warnings, overrides).entries[i].group_id is Some,
    ensures
        ({
            let catalog = resolved(unresolved, file_warnings, overrides);
            let group = catalog.entries[i].group_id->0;
            catalog.entries[i].group_name == (if catalog.group_names.contains_key(group) {
                Some(catalog.group_names[group])
            } else {
                None
            })
        }),
{
    lemma_described(unresolved, overrides);
    assert(resolved_entries(unresolved, overrides)[i] == settled(
        described(unresolved, overrides)[i],
        names_of_groups(described(unresolved, overrides), overrides),
    ));
}

/// Where the project names a group that anything is in, that is its name; and
/// naming a group that nothing is in conjures no heading.
pub proof fn the_projects_name_for_a_group_wins(
    entries: Seq<EntryView>,
    overrides: OverridesView,
    group: Seq<char>,
)
    requires
        overrides.named(group) is Some,
    ensures
        populated(entries, group) ==> names_of_groups(entries, overrides).contains_key(group)
            && names_of_groups(entries, overrides)[group] == overrides.named(group)->0,
        !populated(entries, group) ==> !names_of_groups(entries, overrides).contains_key(group),
{
}

/// The entry whose name for a group counts is a member that names it, and no
/// other such member is newer.
pub proof fn the_newest_member_names_its_group(entries: Seq<EntryView>, group: Seq<char>)
    ensures
        match leader(entries, group) {
            Some(entry) => {
                &&& entries.contains(entry)
                &&& names_group(entry, group)
                &&& forall|i: int|
                    0 <= i < entries.len() && names_group(#[trigger] entries[i], group) ==> !newer(
                        entries[i],
                        entry,
                    )
            },
            None => forall|i: int|
                0 <= i < entries.len() ==> !names_group(#[trigger] entries[i], group),
        },
    decreases entries.len(),
{
    if entries.len() > 0 {
        let rest = entries.drop_last();
        let last = entries.last();
        the_newest_member_names_its_group(rest, group);
        assert(entries[entries.len() - 1] == last);
        lemma_newer_order(last, last, last);
        match leader(rest, group) {
            Some(before) => {
                let k = choose|k: int| 0 <= k < rest.len() && rest[k] == before;
                assert(entries[k] == before);
                let now = leader(entries, group)->0;
                assert forall|i: int|
                    0 <= i < entries.len() && names_group(
                        #[trigger] entries[i],
                        group,
                    ) implies !newer(entries[i], now) by {
                    if i < rest.len() {
                        assert(rest[i] == entries[i]);
                        lemma_newer_order(entries[i], last, before);
                    }
                }
            },
            None => {
                assert forall|i: int|
                    0 <= i < entries.len() - 1 implies !names_group(#[trigger] entries[i], group) by {
                    assert(rest[i] == entries[i]);
                }
            },
        }
    }
}

/// A group that the project has named is never reported as disagreeing: every
/// such warning is about another group.
pub proof fn a_named_group_never_disagrees(
    entries: Seq<EntryView>,
    overrides: OverridesView,
    warning: WarningView,
)
    requires
        disagreements(entries, overrides).contains(warning),
    ensures
        exists|group: Seq<char>, leading: EntryView, entry: EntryView|
            overrides.named(group) is None && names_group(leading, group) && names_group(entry, group)
                && leading.group_name != entry.group_name && warning == #[trigger] disagreement(
                group,
                leading,
                entry,
            ),
    decreases entries.len(),
{
    let all = disagreements(entries, overrides);
    let k = choose|k: int| 0 <= k < all.len() && all[k] == warning;
    let before = disagreements(entries.drop_last(), overrides);
    if k < before.len() {
        assert(before[k] == warning);
        a_named_group_never_disagrees(entries.drop_last(), overrides, warning);
    } else {
        let entry = entries.last();
        let group = entry.group_id->0;
        the_newest_member_names_its_group(entries.drop_last(), group);
        let leading = leader(entries.drop_last(), group)->0;
        assert(warning == disagreement(group, leading, entry));
    }
}

/// An override for a radargram that is not there changes nothing that is
/// served.
pub proof fn an_override_for_something_absent_changes_nothing(
    unresolved: Seq<EntryView>,
    file_warnings: Seq<WarningView>,
    overrides: OverridesView,
    id: Seq<char>,
    over: OverrideView,
)
    requires
        !has_id(unresolved, id),
    ensures
        resolved(
            unresolved,
            file_warnings,
            OverridesView { radargrams: overrides.radargrams.insert(id, over), ..overrides },
        ) == resolved(
            unresolved,
            file_warnings,
            OverridesView { radargrams: overrides.radargrams.remove(id), ..overrides },
        ),
{
    let with = OverridesView { radargrams: overrides.radargrams.insert(id, over), ..overrides };
    let without = OverridesView { radargrams: overrides.radargrams.remove(id), ..overrides };
    let keep = |entry: EntryView| !overrides.ignored.contains_key(entry.radargram_id);
    let kept = served(unresolved, with);
    assert(kept == served(unresolved, without));
    assert(described(unresolved, with) =~= described(unresolved, without)) by {
        assert forall|i: int| 0 <= i < kept.len() implies overridden(#[trigger] kept[i], with)
            == overridden(kept[i], without) by {
            assert(kept.contains(kept[i]));
            unresolved.lemma_filter_contains_rev(keep, kept[i]);
            let k = choose|k: int| 0 <= k < unresolved.len() && unresolved[k] == kept[i];
            assert(unresolved[k].radargram_id != id);
        }
    }
    let entries = described(unresolved, with);
    lemma_names_by_groups(entries, with, without);
    lemma_changes_by_ignored(unresolved, with, without);
    let concerns = |warning: WarningView| concerns_nothing_ignored(warning, with);
    assert(concerns =~= |warning: WarningView| concerns_nothing_ignored(warning, without));
    assert(vestigial(unresolved, with) =~= vestigial(unresolved, without));
}

proof fn lemma_names_by_groups(entries: Seq<EntryView>, a: OverridesView, b: OverridesView)
    requires
        a.groups == b.groups,
    ensures
        names_of_groups(entries, a) == names_of_groups(entries, b),
        disagreements(entries, a) == disagreements(entries, b),
    decreases entries.len(),
{
    assert forall|group: Seq<char>| name_of_group(entries, a, group) == name_of_group(
        entries,
        b,
        group,
    ) by {
        assert(a.named(group) == b.named(group));
    }
    assert(names_of_groups(entries, a) =~= names_of_groups(entries, b));
    if entries.len() > 0 {
        lemma_names_by_groups(entries.drop_last(), a, b);
        assert forall|group: Seq<char>| a.named(group) == b.named(group) by {}
    }
}

proof fn lemma_changes_by_ignored(unresolved: Seq<EntryView>, a: OverridesView, b: OverridesView)
    requires
        a.ignored == b.ignored,
    ensures
        changes_while_ignored(unresolved, a) == changes_while_ignored(unresolved, b),
    decreases unresolved.len(),
{
    if unresolved.len() > 0 {
        lemma_changes_by_ignored(unresolved.drop_last(), a, b);
    }
}

/// A decision with nothing to act on is listed, in the order of ids, and
/// nothing else is.
pub proof fn exactly_the_decisions_without_a_file_are_vestigial(
    unresolved: Seq<EntryView>,
    overrides: OverridesView,
    id: Seq<char>,
)
    requires
        overrides.ignored.dom().finite(),
    ensures
        (exists|i: int|
            0 <= i < vestigial(unresolved, overrides).len() && (#[trigger] vestigial(
                unresolved,
                overrides,
            )[i]).radargram_id == id && vestigial(unresolved, overrides)[i].since
                == overrides.ignored[id].since) <==> overrides.ignored.contains_key(id) && !has_id(
            unresolved,
            id,
        ),
{
    let keys = key_order(overrides.ignored.dom());
    let absent = |key: Seq<char>| !has_id(unresolved, key);
    let kept = keys.filter(absent);
    let row = vestigial(unresolved, overrides);
    lemma_finite_listed(overrides.ignored.dom());
    if overrides.ignored.contains_key(id) && !has_id(unresolved, id) {
        assert(overrides.ignored.dom().contains(id));
        let k = choose|k: int| 0 <= k < keys.len() && keys[k] == id;
        keys.lemma_filter_contains(absent, k);
        let i = choose|i: int| 0 <= i < kept.len() && kept[i] == id;
        assert(row[i].radargram_id == id);
    }
    if exists|i: int|
        0 <= i < row.len() && (#[trigger] row[i]).radargram_id == id && row[i].since
            == overrides.ignored[id].since {
        let i = choose|i: int|
            0 <= i < row.len() && (#[trigger] row[i]).radargram_id == id && row[i].since
                == overrides.ignored[id].since;
        assert(kept[i] == id);
        assert(kept.contains(id));
        keys.lemma_filter_pred(absent, i);
        keys.lemma_filter_contains_rev(absent, id);
        assert(overrides.ignored.dom().contains(id));
    }
}

/// No warning about the files that is shown names an ignored radargram.
pub proof fn warnings_about_the_ignored_are_dropped(
    file_warnings: Seq<WarningView>,
    overrides: OverridesView,
    warning: WarningView,
    id: Seq<char>,
)
    requires
        overrides.ignored.contains_key(id),
        warning.about.contains(id),
    ensures
        !file_warnings.filter(
            |warning: WarningView| concerns_nothing_ignored(warning, overrides),
        ).contains(warning),
{
    let keep = |warning: WarningView| concerns_nothing_ignored(warning, overrides);
    if file_warnings.filter(keep).contains(warning) {
        file_warnings.lemma_filter_contains_rev(keep, warning);
        let k = choose|k: int|
            0 <= k < file_warnings.filter(keep).len() && file_warnings.filter(keep)[k] == warning;
        file_warnings.lemma_filter_pred(keep, k);
        let i = choose|i: int| 0 <= i < warning.about.len() && warning.about[i] == id;
        assert(!overrides.ignored.contains_key(warning.about[i]));
    }
}

/// What is said of a radargram that changed while it was ignored is for
/// operators alone, and names nothing a listing could drop it for.
pub proof fn changes_out_of_sight_are_for_operators(
    unresolved: Seq<EntryView>,
    overrides: OverridesView,
    i: int,
)
    requires
        0 <= i < changes_while_ignored(unresolved, overrides).len(),
    ensures
        changes_while_ignored(unresolved, overrides)[i].operator_only,
        changes_while_ignored(unresolved, overrides)[i].about.len() == 0,
    decreases unresolved.len(),
{
    let before = changes_while_ignored(unresolved.drop_last(), overrides);
    if i < before.len() {
        changes_out_of_sight_are_for_operators(unresolved.drop_last(), overrides, i);
    }
}

} // verus!
