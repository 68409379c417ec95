//! What holds between the files that were found and the catalog that is served
//! over them.
use vstd::prelude::*;

use crate::catalog::{has_id, EntryView, RootView, WarningView};
use crate::catalog_laws::{
    exactly_the_ignored_are_left_out, lemma_described, nothing_is_preferred_to_the_chosen,
    selection_keeps_one_entry_per_id, the_newest_of_a_layer_is_chosen,
    the_project_wins_over_an_archive,
};
use crate::discovery::CandidateView;
use crate::identity::{group_slug, revision_of};
use crate::overrides::OverridesView;
use crate::resolution::{
    described, names_of_groups, overridden, resolved, resolved_entries, served, settled,
};
use crate::selection::{
    catalog_from, chosen, entries_found, entry_of_file, selected, InspectedView, MetaView,
};
use crate::text::{text_less, trimmed};

verus! {

// ---------------------------------------------------------------------------
// What an entry says
// ---------------------------------------------------------------------------

/// Whether an entry is of this file: it has the id, the time, the shape and the
/// place of the file, and remembers the labels the file gives it, its own or,
/// for a group, those its directory suggests.
pub open spec fn is_of_file(entry: EntryView, candidate: CandidateView, meta: MetaView) -> bool {
    &&& entry.radargram_id == meta.radargram_id
    &&& entry.processing_datetime == meta.processing_datetime
    &&& entry.revision_id == revision_of(meta.radargram_id, meta.processing_datetime)
    &&& entry.shape == meta.shape
    &&& entry.relative_path == candidate.relative_path
    &&& entry.root == candidate.root
    &&& entry.from_file.display_name == meta.display_name
    &&& meta.group_name is Some ==> entry.from_file.group_name == meta.group_name
        && entry.from_file.group_id == meta.group_id
    &&& meta.group_name is None ==> match candidate.group_hint {
        None => entry.from_file.group_name is None && entry.from_file.group_id is None,
        Some(hint) => if trimmed(hint).len() == 0 {
            entry.from_file.group_name is None && entry.from_file.group_id is None
        } else {
            &&& entry.from_file.group_name == Some(trimmed(hint))
            &&& group_slug(trimmed(hint)).len() > 0 ==> entry.from_file.group_id == Some(
                group_slug(trimmed(hint)),
            )
            &&& group_slug(trimmed(hint)).len() == 0 ==> entry.from_file.group_id is None
        },
    }
}

/// Whether an entry shows what the project says of it, and where the project is
/// silent what its file says. What no file can say is off unless the project
/// turns it on.
pub open spec fn shows_what_is_said(entry: EntryView, overrides: OverridesView) -> bool {
    if overrides.radargrams.contains_key(entry.radargram_id) {
        let over = overrides.radargrams[entry.radargram_id];
        &&& over.display_name is Some ==> entry.display_name == over.display_name
        &&& over.display_name is None ==> entry.display_name == entry.from_file.display_name
        &&& over.group is Some ==> entry.group_id == over.group->0
        &&& over.group is None ==> entry.group_id == entry.from_file.group_id
        &&& entry.unlisted == over.unlisted
        &&& entry.elevation_min == over.elevation_min
        &&& entry.elevation_max == over.elevation_max
    } else {
        &&& entry.display_name == entry.from_file.display_name
        &&& entry.group_id == entry.from_file.group_id
        &&& !entry.unlisted
        &&& entry.elevation_min is None
        &&& entry.elevation_max is None
    }
}

/// The entry that a file makes says what the file says, in every field, and
/// nothing more.
pub proof fn an_entry_says_what_its_file_says(candidate: CandidateView, meta: MetaView)
    ensures
        is_of_file(entry_of_file(candidate, meta), candidate, meta),
        entry_of_file(candidate, meta).display_name == meta.display_name,
        entry_of_file(candidate, meta).group_name == entry_of_file(
            candidate,
            meta,
        ).from_file.group_name,
        entry_of_file(candidate, meta).group_id == entry_of_file(
            candidate,
            meta,
        ).from_file.group_id,
        !entry_of_file(candidate, meta).unlisted,
        entry_of_file(candidate, meta).elevation_min is None,
        entry_of_file(candidate, meta).elevation_max is None,
{
}

/// Every entry found is of one of the files.
pub proof fn lemma_found_in_a_file(inspected: Seq<InspectedView>, i: int) -> (k: int)
    requires
        0 <= i < entries_found(inspected).len(),
    ensures
        0 <= k < inspected.len(),
        inspected[k].inspection is Supported,
        entries_found(inspected)[i] == entry_of_file(
            inspected[k].candidate,
            inspected[k].inspection->Supported_0,
        ),
    decreases inspected.len(),
{
    let rest = inspected.drop_last();
    if i < entries_found(rest).len() {
        let k = lemma_found_in_a_file(rest, i);
        assert(rest[k] == inspected[k]);
        k
    } else {
        assert(inspected.last() == inspected[inspected.len() - 1]);
        inspected.len() - 1
    }
}

/// Every file that is a radargram makes an entry.
pub proof fn lemma_file_makes_entry(inspected: Seq<InspectedView>, k: int) -> (i: int)
    requires
        0 <= k < inspected.len(),
        inspected[k].inspection is Supported,
    ensures
        0 <= i < entries_found(inspected).len(),
        entries_found(inspected)[i] == entry_of_file(
            inspected[k].candidate,
            inspected[k].inspection->Supported_0,
        ),
    decreases inspected.len(),
{
    let rest = inspected.drop_last();
    if k < rest.len() {
        let i = lemma_file_makes_entry(rest, k);
        assert(entries_found(inspected)[i] == entries_found(rest)[i]);
        i
    } else {
        assert(inspected.last() == inspected[k]);
        entries_found(rest).len() as int
    }
}

/// An element that was kept, and where it was.
pub proof fn lemma_kept_from<A>(row: Seq<A>, keep: spec_fn(A) -> bool, i: int, j: int) -> (from: (int, int))
    requires
        0 <= i < j < row.filter(keep).len(),
    ensures
        0 <= from.0 < from.1 < row.len(),
        row[from.0] == row.filter(keep)[i],
        row[from.1] == row.filter(keep)[j],
    decreases row.len(),
{
    reveal_with_fuel(Seq::filter, 2);
    let rest = row.drop_last();
    let kept = rest.filter(keep);
    if j < kept.len() {
        let from = lemma_kept_from(rest, keep, i, j);
        assert(rest[from.0] == row[from.0] && rest[from.1] == row[from.1]);
        from
    } else {
        assert(kept.contains(kept[i]));
        rest.lemma_filter_contains_rev(keep, kept[i]);
        let a = choose|a: int| 0 <= a < rest.len() && rest[a] == kept[i];
        assert(row[a] == rest[a]);
        assert(row.last() == row[row.len() - 1]);
        (a, row.len() - 1)
    }
}

/// An entry that is served, the one before the project had its say, and what
/// was decided of its group's name.
pub proof fn lemma_served_from(unresolved: Seq<EntryView>, overrides: OverridesView, i: int) -> (k: int)
    requires
        0 <= i < resolved_entries(unresolved, overrides).len(),
    ensures
        0 <= k < unresolved.len(),
        !overrides.ignored.contains_key(unresolved[k].radargram_id),
        described(unresolved, overrides)[i] == overridden(unresolved[k], overrides),
        resolved_entries(unresolved, overrides)[i] == settled(
            overridden(unresolved[k], overrides),
            names_of_groups(described(unresolved, overrides), overrides),
        ),
{
    let keep = |entry: EntryView| !overrides.ignored.contains_key(entry.radargram_id);
    let kept = served(unresolved, overrides);
    lemma_described(unresolved, overrides);
    assert(resolved_entries(unresolved, overrides)[i] == settled(
        described(unresolved, overrides)[i],
        names_of_groups(described(unresolved, overrides), overrides),
    ));
    assert(described(unresolved, overrides)[i] == overridden(kept[i], overrides));
    assert(kept.contains(kept[i]));
    unresolved.lemma_filter_pred(keep, i);
    unresolved.lemma_filter_contains_rev(keep, kept[i]);
    choose|k: int| 0 <= k < unresolved.len() && unresolved[k] == kept[i]
}

/// Resolving changes nothing of an entry but what the project may say: every
/// entry is one that was found, with the project's word on its display name,
/// its group, whether it is listed and its elevations, whether or not it is in
/// a group. Only the name of its group depends on the other entries.
pub proof fn resolving_changes_only_what_is_said(
    unresolved: Seq<EntryView>,
    file_warnings: Seq<WarningView>,
    overrides: OverridesView,
    i: int,
)
    requires
        0 <= i < resolved(unresolved, file_warnings, overrides).entries.len(),
    ensures
        ({
            let shown = resolved(unresolved, file_warnings, overrides).entries[i];
            let said = overrides.radargrams[shown.radargram_id];
            let has_say = overrides.radargrams.contains_key(shown.radargram_id);
            exists|k: int|
                {
                    let found = #[trigger] unresolved[k];
                    &&& 0 <= k < unresolved.len()
                    &&& shown.radargram_id == found.radargram_id
                    &&& shown.revision_id == found.revision_id
                    &&& shown.processing_datetime == found.processing_datetime
                    &&& shown.shape == found.shape
                    &&& shown.relative_path == found.relative_path
                    &&& shown.root == found.root
                    &&& shown.from_file == found.from_file
                    &&& shown.display_name == (if has_say && said.display_name is Some {
                        said.display_name
                    } else {
                        found.display_name
                    })
                    &&& shown.group_id == (if has_say && said.group is Some {
                        said.group->0
                    } else {
                        found.group_id
                    })
                    &&& has_say ==> shown.unlisted == said.unlisted && shown.elevation_min
                        == said.elevation_min && shown.elevation_max == said.elevation_max
                    &&& !has_say ==> shown.unlisted == found.unlisted && shown.elevation_min
                        == found.elevation_min && shown.elevation_max == found.elevation_max
                }
        }),
{
    let k = lemma_served_from(unresolved, overrides, i);
    let found = unresolved[k];
    assert(found.radargram_id == resolved(
        unresolved,
        file_warnings,
        overrides,
    ).entries[i].radargram_id);
}

/// Every entry of a catalog is of a file that was found, and shows what the
/// project says of it and otherwise what that file says.
pub proof fn what_is_served_is_what_files_and_project_say(
    inspected: Seq<InspectedView>,
    roots: Seq<RootView>,
    overrides: OverridesView,
    i: int,
)
    requires
        0 <= i < catalog_from(inspected, roots, overrides).entries.len(),
    ensures
        ({
            let entry = catalog_from(inspected, roots, overrides).entries[i];
            &&& shows_what_is_said(entry, overrides)
            &&& !overrides.ignored.contains_key(entry.radargram_id)
            &&& exists|k: int|
                0 <= k < inspected.len() && (#[trigger] inspected[k]).inspection is Supported
                    && is_of_file(
                    entry,
                    inspected[k].candidate,
                    inspected[k].inspection->Supported_0,
                )
        }),
{
    let entries = entries_found(inspected);
    let unresolved = selected(entries, roots);
    let m = lemma_served_from(unresolved, overrides, i);
    selection_keeps_one_entry_per_id(entries, roots);
    let id = unresolved[m].radargram_id;
    assert(chosen(entries, roots, id) == Some(unresolved[m]));
    assert(has_id(unresolved, id));
    nothing_is_preferred_to_the_chosen(entries, roots, id);
    let j = choose|j: int| 0 <= j < entries.len() && entries[j] == unresolved[m];
    let k = lemma_found_in_a_file(inspected, j);
    an_entry_says_what_its_file_says(
        inspected[k].candidate,
        inspected[k].inspection->Supported_0,
    );
    assert(inspected[k].inspection is Supported);
}

/// Every radargram that was found is served unless it is ignored, by one entry
/// and no more; and the entries stand in the order of their paths.
pub proof fn every_radargram_found_is_served_once(
    inspected: Seq<InspectedView>,
    roots: Seq<RootView>,
    overrides: OverridesView,
    k: int,
)
    requires
        0 <= k < inspected.len(),
        inspected[k].inspection is Supported,
        !overrides.ignored.contains_key(inspected[k].inspection->Supported_0.radargram_id),
    ensures
        ({
            let entries = catalog_from(inspected, roots, overrides).entries;
            &&& exists|i: int|
                0 <= i < entries.len() && (#[trigger] entries[i]).radargram_id
                    == inspected[k].inspection->Supported_0.radargram_id
            &&& forall|i: int, j: int|
                0 <= i < j < entries.len() ==> (#[trigger] entries[i]).radargram_id != (
                #[trigger] entries[j]).radargram_id && !text_less(
                    entries[j].relative_path,
                    entries[i].relative_path,
                )
        }),
{
    let found = entries_found(inspected);
    let unresolved = selected(found, roots);
    let id = inspected[k].inspection->Supported_0.radargram_id;
    let entries = resolved_entries(unresolved, overrides);
    let m = lemma_file_makes_entry(inspected, k);
    assert(found[m].radargram_id == id);
    assert(has_id(found, id));
    selection_keeps_one_entry_per_id(found, roots);
    assert(has_id(unresolved, id));
    exactly_the_ignored_are_left_out(unresolved, overrides, id);
    let keep = |entry: EntryView| !overrides.ignored.contains_key(entry.radargram_id);
    let kept = served(unresolved, overrides);
    let rank = crate::sorting::rank_of::<crate::catalog::CatalogEntry>();
    lemma_described(unresolved, overrides);
    assert forall|i: int, j: int| 0 <= i < j < entries.len() implies (
    #[trigger] entries[i]).radargram_id != (#[trigger] entries[j]).radargram_id && !text_less(
        entries[j].relative_path,
        entries[i].relative_path,
    ) by {
        let from = lemma_kept_from(unresolved, keep, i, j);
        assert(entries[i] == settled(
            described(unresolved, overrides)[i],
            names_of_groups(described(unresolved, overrides), overrides),
        ));
        assert(entries[j] == settled(
            described(unresolved, overrides)[j],
            names_of_groups(described(unresolved, overrides), overrides),
        ));
        assert(described(unresolved, overrides)[i] == overridden(kept[i], overrides));
        assert(described(unresolved, overrides)[j] == overridden(kept[j], overrides));
        assert(unresolved[from.0].radargram_id != unresolved[from.1].radargram_id);
        assert(!rank(unresolved[from.1], unresolved[from.0]));
    }
}

/// The file that stands for an id is the right one: where any file of that id
/// lies in a writable root, it does; and no other of its layer was processed
/// later, or at the same time with a path that comes first.
pub proof fn the_right_file_stands_for_an_id(
    inspected: Seq<InspectedView>,
    roots: Seq<RootView>,
    overrides: OverridesView,
    i: int,
    k: int,
)
    requires
        0 <= i < catalog_from(inspected, roots, overrides).entries.len(),
        0 <= k < inspected.len(),
        inspected[k].inspection is Supported,
        inspected[k].inspection->Supported_0.radargram_id == catalog_from(
            inspected,
            roots,
            overrides,
        ).entries[i].radargram_id,
    ensures
        ({
            let entry = catalog_from(inspected, roots, overrides).entries[i];
            let other = inspected[k].candidate;
            let time = inspected[k].inspection->Supported_0.processing_datetime;
            let own = entry.root < roots.len() && roots[entry.root as int].writable;
            let others = other.root < roots.len() && roots[other.root as int].writable;
            &&& others ==> own
            &&& others == own ==> text_less(time, entry.processing_datetime) || (time
                == entry.processing_datetime && !text_less(
                other.relative_path,
                entry.relative_path,
            ))
        }),
{
    let found = entries_found(inspected);
    let unresolved = selected(found, roots);
    let m = lemma_served_from(unresolved, overrides, i);
    selection_keeps_one_entry_per_id(found, roots);
    let id = unresolved[m].radargram_id;
    assert(chosen(found, roots, id) == Some(unresolved[m]));
    let j = lemma_file_makes_entry(inspected, k);
    let other = found[j];
    assert(found.contains(other));
    assert(other.radargram_id == id);
    if crate::catalog::root_writable(roots, other.root) {
        the_project_wins_over_an_archive(found, roots, other);
    }
    if crate::catalog::root_writable(roots, other.root) == crate::catalog::root_writable(
        roots,
        unresolved[m].root,
    ) {
        the_newest_of_a_layer_is_chosen(found, roots, other);
    }
}

} // verus!
