//! What holds of the names of groups, and of what a catalog reports.
use vstd::prelude::*;

use crate::catalog::{has_id, EntryView, RootView, WarningView};
use crate::catalog_laws::{
    lemma_described, nothing_is_preferred_to_the_chosen, selection_keeps_one_entry_per_id,
    the_newest_member_names_its_group,
};
use crate::overrides::OverridesView;
use crate::resolution::{
    changed_while_ignored, changes_while_ignored, concerns_nothing_ignored, described, disagreement,
    disagreements, leader, name_of_group, names_group, names_of_groups, newer, populated, resolved,
    resolved_warnings,
};
use crate::selection::{
    catalog_from, chosen, duplicate, entries_found, file_problems, in_layer, layer_duplicates,
    occurrences, occurs_before, read_failures, selected, InspectedView, OccurrenceView,
};
use crate::served_laws::{
    an_entry_says_what_its_file_says, lemma_found_in_a_file, lemma_served_from,
};
use crate::text::{joined, text_less};

verus! {

broadcast use vstd::string::group_string_axioms;

// ---------------------------------------------------------------------------
// The names of groups
// ---------------------------------------------------------------------------

/// Whether an entry has a say in the name of a group: it is in the group, and
/// its file puts it there under a name.
pub open spec fn has_a_say(entry: EntryView, group: Seq<char>) -> bool {
    &&& entry.group_id == Some(group)
    &&& entry.from_file.group_id == Some(group)
    &&& entry.from_file.group_name is Some
}

/// What an entry brings along when the names of groups are decided.
proof fn lemma_brought_along(
    inspected: Seq<InspectedView>,
    roots: Seq<RootView>,
    overrides: OverridesView,
    i: int,
)
    requires
        0 <= i < catalog_from(inspected, roots, overrides).entries.len(),
    ensures
        ({
            let shown = catalog_from(inspected, roots, overrides).entries[i];
            let before = described(selected(entries_found(inspected), roots), overrides)[i];
            &&& i < described(selected(entries_found(inspected), roots), overrides).len()
            &&& before.group_id == shown.group_id
            &&& before.relative_path == shown.relative_path
            &&& before.processing_datetime == shown.processing_datetime
            &&& before.radargram_id == shown.radargram_id
            &&& before.group_name == (if shown.from_file.group_id == shown.group_id {
                shown.from_file.group_name
            } else {
                None
            })
            &&& shown.group_id is None ==> shown.group_name == before.group_name
        }),
{
    let entries = entries_found(inspected);
    let unresolved = selected(entries, roots);
    lemma_described(unresolved, overrides);
    let m = lemma_served_from(unresolved, overrides, i);
    selection_keeps_one_entry_per_id(entries, roots);
    let id = unresolved[m].radargram_id;
    assert(chosen(entries, roots, id) == Some(unresolved[m]));
    assert(has_id(unresolved, id));
    nothing_is_preferred_to_the_chosen(entries, roots, id);
    let j = choose|j: int| 0 <= j < entries.len() && entries[j] == unresolved[m];
    let k = lemma_found_in_a_file(inspected, j);
    an_entry_says_what_its_file_says(
        inspected[k].candidate,
        inspected[k].inspection->Supported_0,
    );
}

/// Every member of a group carries the name the project gives the group; or,
/// where the project gives none, the name that the newest of the members whose
/// files name the group gives it, the first by path where several are equally
/// new; or none, where no member names it. An entry in no group has only the
/// name its file gives without a group, if any.
pub proof fn a_group_is_named_by_the_project_or_its_newest_member(
    inspected: Seq<InspectedView>,
    roots: Seq<RootView>,
    overrides: OverridesView,
    i: int,
)
    requires
        0 <= i < catalog_from(inspected, roots, overrides).entries.len(),
    ensures
        ({
            let entries = catalog_from(inspected, roots, overrides).entries;
            let group = entries[i].group_id->0;
            let given = overrides.groups.contains_key(group) && overrides.groups[group] is Some;
            &&& entries[i].group_id is Some && given ==> entries[i].group_name
                == overrides.groups[group]
            &&& entries[i].group_id is Some && !given && entries[i].group_name is Some
                ==> exists|j: int|
                0 <= j < entries.len() && has_a_say(#[trigger] entries[j], group)
                    && entries[i].group_name == entries[j].from_file.group_name && (forall|k: int|
                    0 <= k < entries.len() && has_a_say(#[trigger] entries[k], group) ==> text_less(
                        entries[k].processing_datetime,
                        entries[j].processing_datetime,
                    ) || (entries[k].processing_datetime == entries[j].processing_datetime
                        && !text_less(entries[k].relative_path, entries[j].relative_path)))
            &&& entries[i].group_id is Some && !given && entries[i].group_name is None
                ==> forall|k: int|
                0 <= k < entries.len() ==> !has_a_say(#[trigger] entries[k], group)
            &&& entries[i].group_id is None ==> entries[i].group_name == (if entries[i].from_file.group_id
                is None {
                entries[i].from_file.group_name
            } else {
                None
            })
        }),
{
    let unresolved = selected(entries_found(inspected), roots);
    let before = described(unresolved, overrides);
    let entries = catalog_from(inspected, roots, overrides).entries;
    lemma_described(unresolved, overrides);
    lemma_brought_along(inspected, roots, overrides, i);
    if entries[i].group_id is Some {
        let group = entries[i].group_id->0;
        let given = overrides.groups.contains_key(group) && overrides.groups[group] is Some;
        let m = lemma_served_from(unresolved, overrides, i);
        assert(before[i].group_id == Some(group));
        assert(populated(before, group));
        the_newest_member_names_its_group(before, group);
        assert forall|k: int| 0 <= k < entries.len() implies has_a_say(
            #[trigger] entries[k],
            group,
        ) == names_group(before[k], group) by {
            lemma_brought_along(inspected, roots, overrides, k);
        }
        let names = names_of_groups(before, overrides);
        assert(names.contains_key(group) == (name_of_group(before, overrides, group) is Some));
        if !given {
            match leader(before, group) {
                Some(leading) => {
                    let j = choose|j: int| 0 <= j < before.len() && before[j] == leading;
                    lemma_brought_along(inspected, roots, overrides, j);
                    assert(has_a_say(entries[j], group));
                    assert forall|k: int|
                        0 <= k < entries.len() && has_a_say(#[trigger] entries[k], group) implies text_less(
                        entries[k].processing_datetime,
                        entries[j].processing_datetime,
                    ) || (entries[k].processing_datetime == entries[j].processing_datetime
                        && !text_less(entries[k].relative_path, entries[j].relative_path)) by {
                        lemma_brought_along(inspected, roots, overrides, k);
                        assert(!newer(before[k], before[j]));
                        crate::text::text_order_is_strict_and_total(
                            entries[k].processing_datetime,
                            entries[j].processing_datetime,
                        );
                    }
                },
                None => {},
            }
        }
    }
}

// ---------------------------------------------------------------------------
// What is reported
// ---------------------------------------------------------------------------

proof fn lemma_failure_listed(inspected: Seq<InspectedView>, k: int)
    requires
        0 <= k < inspected.len(),
        inspected[k].inspection is Unreadable,
    ensures
        read_failures(inspected).contains(
            (WarningView {
                message: inspected[k].candidate.relative_path + ": "@
                    + inspected[k].inspection->Unreadable_0,
                about: Seq::empty(),
                operator_only: false,
            }),
        ),
    decreases inspected.len(),
{
    let rest = inspected.drop_last();
    let failures = read_failures(inspected);
    if k == rest.len() {
        assert(inspected.last() == inspected[k]);
        assert(failures.last() == failures[failures.len() - 1]);
    } else {
        lemma_failure_listed(rest, k);
        assert(rest[k] == inspected[k]);
        let warning = WarningView {
            message: inspected[k].candidate.relative_path + ": "@
                + inspected[k].inspection->Unreadable_0,
            about: Seq::empty(),
            operator_only: false,
        };
        let i = choose|i: int| 0 <= i < read_failures(rest).len() && read_failures(rest)[i] == warning;
        assert(failures[i] == warning);
    }
}

/// A warning about the files is passed on, unless it names something that is
/// ignored.
pub proof fn warnings_about_files_are_passed_on(
    unresolved: Seq<EntryView>,
    file_warnings: Seq<WarningView>,
    overrides: OverridesView,
    i: int,
)
    requires
        0 <= i < file_warnings.len(),
        forall|k: int|
            0 <= k < file_warnings[i].about.len() ==> !overrides.ignored.contains_key(
                #[trigger] file_warnings[i].about[k],
            ),
    ensures
        resolved(unresolved, file_warnings, overrides).warnings.contains(file_warnings[i]),
{
    let keep = |warning: WarningView| concerns_nothing_ignored(warning, overrides);
    let kept = file_warnings.filter(keep);
    file_warnings.lemma_filter_contains(keep, i);
    let j = choose|j: int| 0 <= j < kept.len() && kept[j] == file_warnings[i];
    assert(resolved_warnings(unresolved, file_warnings, overrides)[j] == kept[j]);
}

/// Every file that could not be read is reported, with its path and the reason,
/// to everybody.
pub proof fn every_unreadable_file_is_reported(
    inspected: Seq<InspectedView>,
    roots: Seq<RootView>,
    overrides: OverridesView,
    k: int,
)
    requires
        0 <= k < inspected.len(),
        inspected[k].inspection is Unreadable,
    ensures
        catalog_from(inspected, roots, overrides).warnings.contains(
            (WarningView {
                message: inspected[k].candidate.relative_path + ": "@
                    + inspected[k].inspection->Unreadable_0,
                about: Seq::empty(),
                operator_only: false,
            }),
        ),
{
    let warning = WarningView {
        message: inspected[k].candidate.relative_path + ": "@
            + inspected[k].inspection->Unreadable_0,
        about: Seq::empty(),
        operator_only: false,
    };
    lemma_failure_listed(inspected, k);
    let failures = read_failures(inspected);
    let problems = file_problems(inspected, roots);
    let i = choose|i: int| 0 <= i < failures.len() && failures[i] == warning;
    assert(problems[i] == warning);
    warnings_about_files_are_passed_on(
        selected(entries_found(inspected), roots),
        problems,
        overrides,
        i,
    );
}

proof fn lemma_disagreement_reported(
    entries: Seq<EntryView>,
    overrides: OverridesView,
    group: Seq<char>,
    i: int,
) -> (pair: (EntryView, EntryView))
    requires
        0 <= i < entries.len(),
        overrides.named(group) is None,
        names_group(entries[i], group),
        leader(entries, group)->0.group_name != entries[i].group_name,
    ensures
        entries.contains(pair.0),
        entries.contains(pair.1),
        names_group(pair.0, group),
        names_group(pair.1, group),
        pair.0.group_name != pair.1.group_name,
        disagreements(entries, overrides).contains(disagreement(group, pair.0, pair.1)),
    decreases entries.len(),
{
    let rest = entries.drop_last();
    let last = entries.last();
    let leading = leader(rest, group);
    let all = disagreements(entries, overrides);
    assert(last == entries[entries.len() - 1]);
    the_newest_member_names_its_group(rest, group);
    if names_group(last, group) && leading is Some && leading->0.group_name != last.group_name {
        assert(all.last() == disagreement(group, leading->0, last));
        assert(all[all.len() - 1] == all.last());
        let k = choose|k: int| 0 <= k < rest.len() && rest[k] == leading->0;
        assert(entries[k] == leading->0);
        (leading->0, last)
    } else {
        assert(i < rest.len());
        assert(rest[i] == entries[i]);
        let pair = lemma_disagreement_reported(rest, overrides, group, i);
        let a = choose|k: int| 0 <= k < rest.len() && rest[k] == pair.0;
        let b = choose|k: int| 0 <= k < rest.len() && rest[k] == pair.1;
        assert(entries[a] == pair.0 && entries[b] == pair.1);
        let before = disagreements(rest, overrides);
        let w = choose|w: int|
            0 <= w < before.len() && before[w] == disagreement(group, pair.0, pair.1);
        assert(all[w] == before[w]);
        pair
    }
}

/// Where the files of two members give their group different names, and the
/// project does not decide, the catalog reports a disagreement about that
/// group: it quotes two different names, and names whom it is about.
pub proof fn a_disagreement_about_a_name_is_reported(
    inspected: Seq<InspectedView>,
    roots: Seq<RootView>,
    overrides: OverridesView,
    group: Seq<char>,
    i: int,
    j: int,
)
    requires
        ({
            let entries = catalog_from(inspected, roots, overrides).entries;
            &&& 0 <= i < entries.len()
            &&& 0 <= j < entries.len()
            &&& has_a_say(entries[i], group)
            &&& has_a_say(entries[j], group)
            &&& entries[i].from_file.group_name != entries[j].from_file.group_name
        }),
        !overrides.groups.contains_key(group) || overrides.groups[group] is None,
    ensures
        ({
            let catalog = catalog_from(inspected, roots, overrides);
            exists|a: int, b: int, w: int|
                {
                    let one = #[trigger] catalog.entries[a];
                    let other = #[trigger] catalog.entries[b];
                    let warning = #[trigger] catalog.warnings[w];
                    &&& 0 <= a < catalog.entries.len()
                    &&& 0 <= b < catalog.entries.len()
                    &&& 0 <= w < catalog.warnings.len()
                    &&& has_a_say(one, group)
                    &&& has_a_say(other, group)
                    &&& one.from_file.group_name != other.from_file.group_name
                    &&& warning.about == seq![other.radargram_id, one.radargram_id]
                    &&& !warning.operator_only
                    &&& warning.message == "Group '"@ + group + "' has disagreeing names: '"@
                        + one.from_file.group_name->0 + "' ('"@ + one.relative_path + "') and '"@
                        + other.from_file.group_name->0 + "' ('"@ + other.relative_path
                        + "'). Using the name from the entry with the most recent processing datetime"@
                        + (if one.processing_datetime == other.processing_datetime {
                        " (datetimes equal; broke the tie by path order)"@
                    } else {
                        ""@
                    }) + "."@
                }
        }),
{
    let unresolved = selected(entries_found(inspected), roots);
    let before = described(unresolved, overrides);
    let catalog = catalog_from(inspected, roots, overrides);
    lemma_described(unresolved, overrides);
    lemma_brought_along(inspected, roots, overrides, i);
    lemma_brought_along(inspected, roots, overrides, j);
    let k = if leader(before, group)->0.group_name != before[i].group_name {
        i
    } else {
        j
    };
    let pair = lemma_disagreement_reported(before, overrides, group, k);
    let a = choose|a: int| 0 <= a < before.len() && before[a] == pair.0;
    let b = choose|b: int| 0 <= b < before.len() && before[b] == pair.1;
    lemma_brought_along(inspected, roots, overrides, a);
    lemma_brought_along(inspected, roots, overrides, b);
    let told = disagreements(before, overrides);
    let warning = disagreement(group, pair.0, pair.1);
    let d = choose|d: int| 0 <= d < told.len() && told[d] == warning;
    let first = file_problems(inspected, roots).filter(
        |warning: WarningView| concerns_nothing_ignored(warning, overrides),
    );
    let w = first.len() + d;
    assert(catalog.warnings[w] == warning);
    let one = catalog.entries[a];
    let other = catalog.entries[b];
    assert(has_a_say(one, group) && has_a_say(other, group));
}

proof fn lemma_change_listed(unresolved: Seq<EntryView>, overrides: OverridesView, k: int)
    requires
        0 <= k < unresolved.len(),
        overrides.ignored.contains_key(unresolved[k].radargram_id),
        overrides.ignored[unresolved[k].radargram_id].revision_id is Some,
        overrides.ignored[unresolved[k].radargram_id].revision_id->0 != unresolved[k].revision_id,
    ensures
        changes_while_ignored(unresolved, overrides).contains(
            changed_while_ignored(
                unresolved[k].radargram_id,
                overrides.ignored[unresolved[k].radargram_id].revision_id->0,
            ),
        ),
    decreases unresolved.len(),
{
    let rest = unresolved.drop_last();
    let all = changes_while_ignored(unresolved, overrides);
    let warning = changed_while_ignored(
        unresolved[k].radargram_id,
        overrides.ignored[unresolved[k].radargram_id].revision_id->0,
    );
    if k == rest.len() {
        assert(unresolved.last() == unresolved[k]);
        assert(all[all.len() - 1] == warning);
    } else {
        assert(rest[k] == unresolved[k]);
        lemma_change_listed(rest, overrides, k);
        let before = changes_while_ignored(rest, overrides);
        let i = choose|i: int| 0 <= i < before.len() && before[i] == warning;
        assert(all[i] == warning);
    }
}

/// Where the file of an ignored radargram is no longer the revision the
/// decision was about, operators are told, by its id and that revision.
pub proof fn a_change_out_of_sight_is_reported(
    unresolved: Seq<EntryView>,
    file_warnings: Seq<WarningView>,
    overrides: OverridesView,
    k: int,
)
    requires
        0 <= k < unresolved.len(),
        overrides.ignored.contains_key(unresolved[k].radargram_id),
        overrides.ignored[unresolved[k].radargram_id].revision_id is Some,
        overrides.ignored[unresolved[k].radargram_id].revision_id->0 != unresolved[k].revision_id,
    ensures
        resolved(unresolved, file_warnings, overrides).warnings.contains(
            (WarningView {
                message: "'"@ + unresolved[k].radargram_id
                    + "' is ignored, and the file behind it has changed since that decision was made (it was revision "@
                    + overrides.ignored[unresolved[k].radargram_id].revision_id->0
                    + "). It is still not being served; restore it if the new content should be."@,
                about: Seq::empty(),
                operator_only: true,
            }),
        ),
{
    lemma_change_listed(unresolved, overrides, k);
    let was = overrides.ignored[unresolved[k].radargram_id].revision_id->0;
    let warning = changed_while_ignored(unresolved[k].radargram_id, was);
    let changes = changes_while_ignored(unresolved, overrides);
    let i = choose|i: int| 0 <= i < changes.len() && changes[i] == warning;
    let all = resolved_warnings(unresolved, file_warnings, overrides);
    assert(all[all.len() - changes.len() + i] == warning);
}

/// No change is reported where the file of every ignored radargram is still the
/// one the decision was about, or the decision was about none in particular.
pub proof fn an_unchanged_ignored_file_is_not_reported(
    unresolved: Seq<EntryView>,
    overrides: OverridesView,
)
    requires
        forall|k: int|
            0 <= k < unresolved.len() && overrides.ignored.contains_key(
                (#[trigger] unresolved[k]).radargram_id,
            ) ==> overrides.ignored[unresolved[k].radargram_id].revision_id is None
                || overrides.ignored[unresolved[k].radargram_id].revision_id == Some(
                unresolved[k].revision_id,
            ),
    ensures
        changes_while_ignored(unresolved, overrides).len() == 0,
    decreases unresolved.len(),
{
    if unresolved.len() > 0 {
        let rest = unresolved.drop_last();
        assert forall|k: int|
            0 <= k < rest.len() && overrides.ignored.contains_key(
                (#[trigger] rest[k]).radargram_id,
            ) implies overrides.ignored[rest[k].radargram_id].revision_id is None
            || overrides.ignored[rest[k].radargram_id].revision_id == Some(rest[k].revision_id) by {
            assert(rest[k] == unresolved[k]);
        }
        an_unchanged_ignored_file_is_not_reported(rest, overrides);
        assert(unresolved.last() == unresolved[unresolved.len() - 1]);
    }
}

/// Where a layer holds an id more than once, the report lists every one of its
/// files in that layer and no other, from the oldest to the newest and by path
/// where they are equally old.
pub proof fn a_duplicate_lists_its_files_from_oldest_to_newest(
    entries: Seq<EntryView>,
    roots: Seq<RootView>,
    layer: bool,
    id: Seq<char>,
    time: Seq<char>,
    path: Seq<char>,
)
    ensures
        ({
            let found = occurrences(entries, roots, layer, id);
            &&& found.contains((OccurrenceView { processing_datetime: time, path }))
                <==> exists|k: int|
                0 <= k < entries.len() && (#[trigger] entries[k]).radargram_id == id
                    && entries[k].processing_datetime == time && entries[k].relative_path == path
                    && (entries[k].root < roots.len() && roots[entries[k].root as int].writable)
                    == layer
            &&& forall|i: int, j: int|
                0 <= i < j < found.len() ==> !text_less(
                    (#[trigger] found[j]).processing_datetime,
                    (#[trigger] found[i]).processing_datetime,
                ) && (found[i].processing_datetime == found[j].processing_datetime ==> !text_less(
                    found[j].path,
                    found[i].path,
                ))
        }),
{
    broadcast use vstd::seq_lib::group_to_multiset_ensures;

    let keep = |entry: EntryView| in_layer(entry, roots, layer, id);
    let kept = entries.filter(keep);
    let row = kept.map_values(
        |entry: EntryView|
            OccurrenceView {
                processing_datetime: entry.processing_datetime,
                path: entry.relative_path,
            },
    );
    let before = |a: OccurrenceView, b: OccurrenceView| occurs_before(a, b);
    let found = occurrences(entries, roots, layer, id);
    let wanted = OccurrenceView { processing_datetime: time, path };
    lemma_occurrences_rank(before);
    crate::sorting::sorting_puts_in_order(row, before);
    crate::sorting::sorting_keeps_the_contents(row, before);
    assert(found.contains(wanted) <==> row.contains(wanted)) by {
        assert(found.to_multiset().count(wanted) == row.to_multiset().count(wanted));
    }
    if row.contains(wanted) {
        let m = choose|m: int| 0 <= m < row.len() && row[m] == wanted;
        assert(kept.contains(kept[m]));
        entries.lemma_filter_pred(keep, m);
        entries.lemma_filter_contains_rev(keep, kept[m]);
        let k = choose|k: int| 0 <= k < entries.len() && entries[k] == kept[m];
        assert(entries[k].radargram_id == id);
    }
    if exists|k: int|
        0 <= k < entries.len() && (#[trigger] entries[k]).radargram_id == id
            && entries[k].processing_datetime == time && entries[k].relative_path == path && (
        entries[k].root < roots.len() && roots[entries[k].root as int].writable) == layer {
        let k = choose|k: int|
            0 <= k < entries.len() && (#[trigger] entries[k]).radargram_id == id
                && entries[k].processing_datetime == time && entries[k].relative_path == path && (
            entries[k].root < roots.len() && roots[entries[k].root as int].writable) == layer;
        entries.lemma_filter_contains(keep, k);
        let m = choose|m: int| 0 <= m < kept.len() && kept[m] == entries[k];
        assert(row[m] == wanted);
    }
    assert forall|i: int, j: int| 0 <= i < j < found.len() implies !text_less(
        (#[trigger] found[j]).processing_datetime,
        (#[trigger] found[i]).processing_datetime,
    ) && (found[i].processing_datetime == found[j].processing_datetime ==> !text_less(
        found[j].path,
        found[i].path,
    )) by {
        assert(!before(found[j], found[i]));
    }
}

proof fn lemma_occurrences_rank(before: spec_fn(OccurrenceView, OccurrenceView) -> bool)
    requires
        before == (|a: OccurrenceView, b: OccurrenceView| occurs_before(a, b)),
    ensures
        crate::sorting::is_ranking(before),
{
    assert forall|a: OccurrenceView, b: OccurrenceView| #[trigger] before(a, b) implies !before(
        b,
        a,
    ) by {
        crate::text::text_order_is_strict_and_total(a.processing_datetime, b.processing_datetime);
        crate::text::text_order_is_strict_and_total(b.processing_datetime, a.processing_datetime);
        crate::text::text_order_is_strict_and_total(a.path, b.path);
    }
    assert forall|a: OccurrenceView, b: OccurrenceView, c: OccurrenceView|
        #[trigger] before(a, b) && !before(c, b) implies #[trigger] before(a, c) by {
        let (x, y, z) = (a.processing_datetime, b.processing_datetime, c.processing_datetime);
        crate::text::text_order_is_strict_and_total(x, y);
        crate::text::text_order_is_strict_and_total(y, z);
        crate::text::text_order_is_strict_and_total(z, y);
        crate::text::text_order_is_strict_and_total(b.path, c.path);
        crate::text::text_order_is_strict_and_total(c.path, b.path);
        if text_less(x, y) && text_less(y, z) {
            crate::text::text_order_is_transitive(x, y, z);
        }
        if text_less(a.path, b.path) && text_less(b.path, c.path) {
            crate::text::text_order_is_transitive(a.path, b.path, c.path);
        }
    }
}

/// The report of a duplicate quotes the paths in that order, says that the
/// newest was taken, and whether the path had to decide; it is about the id,
/// and for everybody.
pub proof fn a_duplicate_says_what_was_found(id: Seq<char>, found: Seq<OccurrenceView>)
    ensures
        ({
            let warning = duplicate(id, found);
            let tie = exists|i: int|
                0 < i < found.len() && (#[trigger] found[i]).processing_datetime == found[i
                    - 1].processing_datetime;
            &&& warning.about == seq![id]
            &&& !warning.operator_only
            &&& warning.message == "Duplicate radargram ID '"@ + id + "': "@ + joined(
                Seq::new(found.len(), |i: int| "'"@ + found[i].path + "'"@),
                " and "@,
            ) + ". Selected the entry with the most recent processing datetime"@ + (if tie {
                " (datetimes equal; broke the tie by path order)"@
            } else {
                ""@
            }) + "."@
        }),
{
    assert(found.map_values(|occurrence: OccurrenceView| "'"@ + occurrence.path + "'"@)
        =~= Seq::new(found.len(), |i: int| "'"@ + found[i].path + "'"@));
}

proof fn lemma_layer_told(
    ids: Seq<Seq<char>>,
    entries: Seq<EntryView>,
    roots: Seq<RootView>,
    layer: bool,
    w: int,
)
    requires
        0 <= w < layer_duplicates(ids, entries, roots, layer).len(),
    ensures
        exists|id: Seq<char>|
            #[trigger] occurrences(entries, roots, layer, id).len() >= 2 && layer_duplicates(
                ids,
                entries,
                roots,
                layer,
            )[w] == duplicate(id, occurrences(entries, roots, layer, id)),
    decreases ids.len(),
{
    let before = layer_duplicates(ids.drop_last(), entries, roots, layer);
    if w < before.len() {
        lemma_layer_told(ids.drop_last(), entries, roots, layer, w);
    } else {
        assert(occurrences(entries, roots, layer, ids.last()).len() >= 2);
    }
}

/// Every problem with the files is one that could not be read, or an id that a
/// layer holds at least twice: an archive's copy of something the project holds
/// is no problem.
pub proof fn only_real_problems_are_reported(
    inspected: Seq<InspectedView>,
    roots: Seq<RootView>,
    w: int,
)
    requires
        read_failures(inspected).len() <= w < file_problems(inspected, roots).len(),
    ensures
        exists|id: Seq<char>, layer: bool|
            #[trigger] occurrences(entries_found(inspected), roots, layer, id).len() >= 2
                && file_problems(inspected, roots)[w] == duplicate(
                id,
                occurrences(entries_found(inspected), roots, layer, id),
            ),
{
    let entries = entries_found(inspected);
    let ids = crate::text_map::key_order(crate::selection::ids_of(entries));
    let failures = read_failures(inspected);
    let archived = layer_duplicates(ids, entries, roots, false);
    let all = file_problems(inspected, roots);
    if w < failures.len() + archived.len() {
        lemma_layer_told(ids, entries, roots, false, w - failures.len());
        assert(all[w] == archived[w - failures.len()]);
    } else {
        let own = layer_duplicates(ids, entries, roots, true);
        lemma_layer_told(ids, entries, roots, true, w - failures.len() - archived.len());
        assert(all[w] == own[w - failures.len() - archived.len()]);
    }
}

/// Every group that the catalog has a name for has a member, and the name is
/// the one its members carry.
pub proof fn every_named_group_has_a_member(
    inspected: Seq<InspectedView>,
    roots: Seq<RootView>,
    overrides: OverridesView,
    group: Seq<char>,
)
    ensures
        ({
            let catalog = catalog_from(inspected, roots, overrides);
            catalog.group_names.contains_key(group) <==> exists|i: int|
                0 <= i < catalog.entries.len() && (#[trigger] catalog.entries[i]).group_id == Some(
                    group,
                ) && catalog.entries[i].group_name is Some && catalog.entries[i].group_name
                    == Some(catalog.group_names[group])
        }),
{
    let unresolved = selected(entries_found(inspected), roots);
    let before = described(unresolved, overrides);
    let catalog = catalog_from(inspected, roots, overrides);
    lemma_described(unresolved, overrides);
    if catalog.group_names.contains_key(group) {
        the_newest_member_names_its_group(before, group);
        let i = if overrides.named(group) is Some {
            choose|i: int| 0 <= i < before.len() && (#[trigger] before[i]).group_id == Some(group)
        } else {
            choose|i: int| 0 <= i < before.len() && before[i] == leader(before, group)->0
        };
        lemma_brought_along(inspected, roots, overrides, i);
        crate::catalog_laws::members_carry_their_groups_name(
            unresolved,
            file_problems(inspected, roots),
            overrides,
            i,
        );
        assert(catalog.entries[i].group_id == Some(group));
    }
    if exists|i: int|
        0 <= i < catalog.entries.len() && (#[trigger] catalog.entries[i]).group_id == Some(group)
            && catalog.entries[i].group_name is Some && catalog.entries[i].group_name == Some(
            catalog.group_names[group],
        ) {
        let i = choose|i: int|
            0 <= i < catalog.entries.len() && (#[trigger] catalog.entries[i]).group_id == Some(
                group,
            ) && catalog.entries[i].group_name is Some && catalog.entries[i].group_name == Some(
                catalog.group_names[group],
            );
        crate::catalog_laws::members_carry_their_groups_name(
            unresolved,
            file_problems(inspected, roots),
            overrides,
            i,
        );
    }
}

} // verus!
