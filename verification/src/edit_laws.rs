//! What holds of an operator's edits, from the form to the catalog.
use vstd::prelude::*;

use crate::app_state::{lookup_refusal, looked_up};
use crate::catalog::{has_id, lemma_entry_with_id, CatalogView, EntryView, RootView};
use crate::identity::{group_slug, is_slug};
use crate::lifecycle::{decisions, is_vestigial, summaries_of, KeptAxesView};
use crate::ledger::{current_of, LedgerRecordView};
use crate::catalog::VestigialView;
use crate::overrides::{OverrideView, OverridesView};
use crate::properties::{
    edit_of, group_choices, group_saved, properties_of, properties_of_group, saved,
    ChoiceView, GroupChoice, Grouping, PropertiesBody,
};
use crate::report_laws::{a_group_is_named_by_the_project_or_its_newest_member, has_a_say};
use crate::selection::{catalog_from, InspectedView};
use crate::served_laws::what_is_served_is_what_files_and_project_say;
use crate::sorting;
use crate::sorting::rank_of;
use crate::text::{text_less, trimmed};
use crate::text_map::{key_order, lemma_finite_listed};

verus! {

broadcast use vstd::string::group_string_axioms;

// ---------------------------------------------------------------------------
// What a form says
// ---------------------------------------------------------------------------

/// What was typed into a field that may be left alone.
pub open spec fn typed(field: Option<String>) -> Seq<char> {
    if field is Some {
        field->0@
    } else {
        Seq::empty()
    }
}

/// The group that a form puts a radargram in: the one that was picked, or else
/// the one whose name was typed.
pub open spec fn group_meant(body: PropertiesBody) -> Seq<char> {
    if trimmed(typed(body.group_id)).len() > 0 {
        trimmed(typed(body.group_id))
    } else {
        group_slug(trimmed(typed(body.group_name)))
    }
}

/// Whether a form can be saved: its name is not only spaces, its group can be
/// meant, and its elevations leave something between them.
pub open spec fn can_be_saved(body: PropertiesBody) -> bool {
    &&& typed(body.display_name).len() == 0 || trimmed(typed(body.display_name)).len() > 0
    &&& body.grouping == Grouping::Group && trimmed(typed(body.group_id)).len() > 0 ==> is_slug(
        trimmed(typed(body.group_id)),
    )
    &&& body.grouping == Grouping::Group && trimmed(typed(body.group_id)).len() == 0 ==> group_slug(
        trimmed(typed(body.group_name)),
    ).len() > 0
    &&& body.elevation_min is Some && body.elevation_max is Some
        ==> !body.elevation_min->0.at_or_above(body.elevation_max->0)
}

/// A form is saved exactly where it can be, and what is saved is what was
/// filled in, field by field: nothing for a field that was left alone, and
/// otherwise the text without the spaces around it. A refusal is answered as a
/// bad request.
pub proof fn what_is_filled_in_is_what_is_saved(body: PropertiesBody)
    ensures
        match edit_of(body) {
            Ok((over, group_name)) => {
                &&& can_be_saved(body)
                &&& over.unlisted == body.unlisted
                &&& over.elevation_min == body.elevation_min
                &&& over.elevation_max == body.elevation_max
                &&& typed(body.display_name).len() == 0 ==> over.display_name is None
                &&& typed(body.display_name).len() > 0 ==> over.display_name == Some(
                    trimmed(typed(body.display_name)),
                )
                &&& body.grouping == Grouping::Inherit ==> over.group is None
                &&& body.grouping == Grouping::Ungrouped ==> over.group == Some(
                    None::<Seq<char>>,
                )
                &&& body.grouping == Grouping::Group ==> over.group == Some(
                    Some(group_meant(body)),
                )
                &&& body.grouping == Grouping::Group && trimmed(typed(body.group_name)).len() > 0
                    ==> group_name == Some(trimmed(typed(body.group_name)))
                &&& body.grouping != Grouping::Group || trimmed(typed(body.group_name)).len() == 0
                    ==> group_name is None
            },
            Err(error) => !can_be_saved(body) && error.status == 400,
        },
{
    crate::text_laws::trimming_again_changes_nothing(typed(body.group_name));
}

/// Each refusal of a form names the field at fault.
pub proof fn a_refused_form_names_its_fault(body: PropertiesBody)
    requires
        edit_of(body) is Err,
    ensures
        ({
            let code = edit_of(body)->Err_0.code;
            let name_is_blank = typed(body.display_name).len() > 0 && trimmed(
                typed(body.display_name),
            ).len() == 0;
            let group_is_wrong = body.grouping == Grouping::Group && !is_slug(
                trimmed(typed(body.group_id)),
            ) && (trimmed(typed(body.group_id)).len() > 0 || group_slug(
                trimmed(typed(body.group_name)),
            ).len() == 0);
            &&& name_is_blank ==> code == "invalid_display_name"@
            &&& !name_is_blank && group_is_wrong ==> code == "invalid_group"@
            &&& !name_is_blank && !group_is_wrong ==> code == "invalid_elevation_range"@
        }),
{
    if trimmed(typed(body.group_id)).len() == 0 {
        assert(!is_slug(trimmed(typed(body.group_id))));
    }
}

// ---------------------------------------------------------------------------
// What a save does to the catalog
// ---------------------------------------------------------------------------

/// After a save, the radargram it is about shows exactly what was saved, and
/// what its file says where the save is silent; its group carries the name that
/// was saved with it.
pub proof fn a_save_shows_in_the_catalog(
    inspected: Seq<InspectedView>,
    roots: Seq<RootView>,
    stored: OverridesView,
    id: Seq<char>,
    over: OverrideView,
    group_name: Option<Seq<char>>,
    i: int,
)
    requires
        0 <= i < catalog_from(inspected, roots, saved(stored, id, over, group_name)).entries.len(),
        catalog_from(
            inspected,
            roots,
            saved(stored, id, over, group_name),
        ).entries[i].radargram_id == id,
    ensures
        ({
            let shown = catalog_from(
                inspected,
                roots,
                saved(stored, id, over, group_name),
            ).entries[i];
            &&& over.display_name is Some ==> shown.display_name == over.display_name
            &&& over.display_name is None ==> shown.display_name == shown.from_file.display_name
            &&& over.group is Some ==> shown.group_id == over.group->0
            &&& over.group is None ==> shown.group_id == shown.from_file.group_id
            &&& shown.unlisted == over.unlisted
            &&& shown.elevation_min == over.elevation_min
            &&& shown.elevation_max == over.elevation_max
            &&& over.group is Some && over.group->0 is Some && group_name is Some
                ==> shown.group_name == group_name
        }),
{
    let now = saved(stored, id, over, group_name);
    what_is_served_is_what_files_and_project_say(inspected, roots, now, i);
    a_group_is_named_by_the_project_or_its_newest_member(inspected, roots, now, i);
}

/// A save leaves what the project says of every other radargram, of every group
/// but the one it names, and what is ignored.
pub proof fn a_save_leaves_the_rest_alone(
    stored: OverridesView,
    id: Seq<char>,
    over: OverrideView,
    group_name: Option<Seq<char>>,
    other: Seq<char>,
    group: Seq<char>,
)
    requires
        other != id,
        over.group != Some(Some(group)) || group_name is None,
    ensures
        ({
            let now = saved(stored, id, over, group_name);
            &&& now.radargrams.contains_key(other) == stored.radargrams.contains_key(other)
            &&& stored.radargrams.contains_key(other) ==> now.radargrams[other]
                == stored.radargrams[other]
            &&& now.groups.contains_key(group) == stored.groups.contains_key(group)
            &&& stored.groups.contains_key(group) ==> now.groups[group] == stored.groups[group]
            &&& now.ignored == stored.ignored
            &&& now.radargrams.contains_key(id) ==> now.radargrams[id] == over
            &&& now.radargrams.contains_key(id) == !(over.display_name is None && over.group is None
                && !over.unlisted && over.elevation_min is None && over.elevation_max is None)
        }),
{
}

/// After a group is named, every member carries that name; after its name is
/// taken back, every member carries what the newest member's file says. No
/// other group, no radargram and no decision is touched.
pub proof fn naming_a_group_shows_on_every_member(
    inspected: Seq<InspectedView>,
    roots: Seq<RootView>,
    stored: OverridesView,
    group: Seq<char>,
    name: Option<Seq<char>>,
    other: Seq<char>,
    i: int,
)
    requires
        0 <= i < catalog_from(inspected, roots, group_saved(stored, group, name)).entries.len(),
        catalog_from(inspected, roots, group_saved(stored, group, name)).entries[i].group_id
            == Some(group),
        other != group,
    ensures
        ({
            let now = group_saved(stored, group, name);
            let entries = catalog_from(inspected, roots, now).entries;
            &&& name is Some ==> entries[i].group_name == name
            &&& name is None && entries[i].group_name is Some ==> exists|j: int|
                0 <= j < entries.len() && has_a_say(#[trigger] entries[j], group)
                    && entries[i].group_name == entries[j].from_file.group_name
            &&& now.radargrams == stored.radargrams
            &&& now.ignored == stored.ignored
            &&& now.groups.contains_key(other) == stored.groups.contains_key(other)
            &&& stored.groups.contains_key(other) ==> now.groups[other] == stored.groups[other]
        }),
{
    let now = group_saved(stored, group, name);
    a_group_is_named_by_the_project_or_its_newest_member(inspected, roots, now, i);
}

// ---------------------------------------------------------------------------
// What is shown before an edit
// ---------------------------------------------------------------------------

/// The page of a radargram shows its entry, what its file says, and which of
/// its fields the project decides.
pub proof fn a_page_shows_its_entry(catalog: CatalogView, entry: EntryView, stored: OverridesView)
    ensures
        ({
            let page = properties_of(catalog, entry, stored);
            let said = stored.radargrams[entry.radargram_id];
            let any = stored.radargrams.contains_key(entry.radargram_id);
            &&& page.radargram_id == entry.radargram_id
            &&& page.display_name == entry.display_name
            &&& page.group_id == entry.group_id
            &&& page.group_name == entry.group_name
            &&& page.unlisted == entry.unlisted
            &&& page.elevation_min == entry.elevation_min
            &&& page.elevation_max == entry.elevation_max
            &&& page.file_display_name == entry.from_file.display_name
            &&& page.file_group_id == entry.from_file.group_id
            &&& page.file_group_name == entry.from_file.group_name
            &&& page.overridden.display_name <==> any && said.display_name is Some
            &&& page.overridden.group <==> any && said.group is Some
            &&& page.overridden.elevation <==> any && (said.elevation_min is Some
                || said.elevation_max is Some)
        }),
{
}

/// The groups to choose from are exactly those that have a name, each with its
/// name, in the order of their names.
pub proof fn every_named_group_can_be_chosen(
    catalog: CatalogView,
    entry: EntryView,
    stored: OverridesView,
    group: Seq<char>,
)
    requires
        catalog.group_names.dom().finite(),
    ensures
        ({
            let choices = properties_of(catalog, entry, stored).groups;
            &&& catalog.group_names.contains_key(group) ==> exists|i: int|
                0 <= i < choices.len() && (#[trigger] choices[i]).id == group && choices[i].name
                    == catalog.group_names[group]
            &&& forall|i: int|
                0 <= i < choices.len() ==> catalog.group_names.contains_key(
                    (#[trigger] choices[i]).id,
                ) && choices[i].name == catalog.group_names[choices[i].id]
            &&& forall|i: int, j: int|
                0 <= i < j < choices.len() ==> !text_less(
                    (#[trigger] choices[j]).name,
                    (#[trigger] choices[i]).name,
                )
        }),
{
    broadcast use vstd::seq_lib::group_to_multiset_ensures;

    let names = catalog.group_names;
    let ids = key_order(names.dom());
    let row = ids.map_values(|id: Seq<char>| ChoiceView { id, name: names[id] });
    let choices = group_choices(names);
    let rank = rank_of::<GroupChoice>();
    lemma_finite_listed(names.dom());
    let key = |choice: ChoiceView| choice.name;
    sorting::lemma_text_key_ranking(key);
    assert(rank =~= (|a: ChoiceView, b: ChoiceView| text_less(key(a), key(b))));
    sorting::sorting_puts_in_order(row, rank);
    sorting::sorting_keeps_the_contents(row, rank);
    assert forall|choice: ChoiceView| choices.contains(choice) <==> row.contains(choice) by {
        assert(choices.to_multiset().count(choice) == row.to_multiset().count(choice));
    }
    if names.contains_key(group) {
        assert(names.dom().contains(group));
        let k = choose|k: int| 0 <= k < ids.len() && ids[k] == group;
        assert(row.contains(row[k]));
        let i = choose|i: int| 0 <= i < choices.len() && choices[i] == row[k];
        assert(choices[i].id == group && choices[i].name == names[group]);
    }
    assert(properties_of(catalog, entry, stored).groups == choices);
    assert forall|i: int| 0 <= i < choices.len() implies names.contains_key(
        (#[trigger] choices[i]).id,
    ) && choices[i].name == names[choices[i].id] by {
        assert(choices.contains(choices[i]));
        let k = choose|k: int| 0 <= k < row.len() && row[k] == choices[i];
        assert(ids.contains(ids[k]));
        assert(names.dom().contains(ids[k]));
    }
    assert forall|i: int, j: int| 0 <= i < j < choices.len() implies !text_less(
        (#[trigger] choices[j]).name,
        (#[trigger] choices[i]).name,
    ) by {
        assert(!rank(choices[j], choices[i]));
    }
}

/// The page of a group counts its members, and shows the name that each of them
/// carries and the one that would be left without the project's word.
pub proof fn a_page_shows_its_group(
    inspected: Seq<InspectedView>,
    roots: Seq<RootView>,
    stored: OverridesView,
    group: Seq<char>,
    i: int,
)
    requires
        0 <= i < catalog_from(inspected, roots, stored).entries.len(),
        catalog_from(inspected, roots, stored).entries[i].group_id == Some(group),
    ensures
        ({
            let catalog = catalog_from(inspected, roots, stored);
            let page = properties_of_group(catalog, group, stored);
            &&& page.group_id == group
            &&& page.name == catalog.entries[i].group_name
            &&& page.from_file == looked_up(
                catalog_from(inspected, roots, OverridesView::nothing()).group_names,
                group,
            )
            &&& page.overridden <==> stored.groups.contains_key(group) && stored.groups[group]
                is Some
            &&& page.member_count > 0
        }),
{
    let catalog = catalog_from(inspected, roots, stored);
    crate::catalog_laws::reverting_restores_the_plain_catalog(inspected, roots, stored);
    crate::catalog_laws::members_carry_their_groups_name(
        catalog.unresolved,
        catalog.file_warnings,
        stored,
        i,
    );
    let member = |entry: EntryView| entry.group_id == Some(group);
    catalog.entries.lemma_filter_contains(member, i);
    assert(catalog.entries.filter(member).len() > 0);
}

/// A member more is counted as one more, and nothing else is counted.
pub proof fn members_are_counted_one_by_one(
    entries: Seq<EntryView>,
    entry: EntryView,
    group: Seq<char>,
)
    ensures
        crate::properties::members(Seq::empty(), group).len() == 0,
        crate::properties::members(entries.push(entry), group).len()
            == crate::properties::members(entries, group).len() + (if entry.group_id == Some(
            group,
        ) {
            1int
        } else {
            0int
        }),
{
    reveal_with_fuel(Seq::filter, 2);
    assert(entries.push(entry).drop_last() =~= entries);
}

/// A radargram is found by exactly its id: a text that is no id is a bad
/// request, and an id that nothing served has is not found.
pub proof fn an_id_finds_its_radargram_or_says_why(catalog: CatalogView, raw: Seq<char>)
    ensures
        lookup_refusal(catalog, raw) is None <==> is_slug(raw) && has_id(catalog.entries, raw),
        !is_slug(raw) ==> lookup_refusal(catalog, raw)->0.status == 400 && lookup_refusal(
            catalog,
            raw,
        )->0.code == "invalid_radargram_id"@,
        is_slug(raw) && !has_id(catalog.entries, raw) ==> lookup_refusal(catalog, raw)->0.status
            == 404 && lookup_refusal(catalog, raw)->0.code == "dataset_not_found"@,
{
    lemma_entry_with_id(catalog.entries, raw);
    if crate::catalog::entry_with_id(catalog.entries, raw) is Some {
        let entry = crate::catalog::entry_with_id(catalog.entries, raw)->0;
        let i = choose|i: int| 0 <= i < catalog.entries.len() && catalog.entries[i] == entry;
        assert(catalog.entries[i].radargram_id == raw);
    }
}

// ---------------------------------------------------------------------------
// Decisions and histories
// ---------------------------------------------------------------------------

/// Every decision to ignore something is listed among those without a file
/// where it is one of them, and among the others otherwise, with the time it was
/// made; and nothing else is listed.
pub proof fn every_decision_is_listed(
    stored: OverridesView,
    row: Seq<VestigialView>,
    vestigial: bool,
    id: Seq<char>,
)
    requires
        stored.ignored.dom().finite(),
    ensures
        ({
            let listed = decisions(stored, row, vestigial);
            &&& (exists|i: int| 0 <= i < listed.len() && (#[trigger] listed[i]).radargram_id == id)
                <==> stored.ignored.contains_key(id) && ((exists|i: int|
                0 <= i < row.len() && (#[trigger] row[i]).radargram_id == id) <==> vestigial)
            &&& forall|i: int|
                0 <= i < listed.len() ==> (#[trigger] listed[i]).since
                    == stored.ignored[listed[i].radargram_id].since
        }),
{
    let keys = key_order(stored.ignored.dom());
    let keep = |key: Seq<char>| is_vestigial(row, key) == vestigial;
    let kept = keys.filter(keep);
    let listed = decisions(stored, row, vestigial);
    lemma_finite_listed(stored.ignored.dom());
    if stored.ignored.contains_key(id) && is_vestigial(row, id) == vestigial {
        assert(stored.ignored.dom().contains(id));
        let k = choose|k: int| 0 <= k < keys.len() && keys[k] == id;
        keys.lemma_filter_contains(keep, k);
        let i = choose|i: int| 0 <= i < kept.len() && kept[i] == id;
        assert(listed[i].radargram_id == id);
    }
    if exists|i: int| 0 <= i < listed.len() && (#[trigger] listed[i]).radargram_id == id {
        let i = choose|i: int| 0 <= i < listed.len() && (#[trigger] listed[i]).radargram_id == id;
        assert(kept[i] == id);
        assert(kept.contains(id));
        keys.lemma_filter_pred(keep, i);
        keys.lemma_filter_contains_rev(keep, id);
        assert(stored.ignored.dom().contains(id));
    }
}

/// A history is told record by record, in order: each with its revision, when
/// and by what it was superseded, whether it is the current one, and the axes
/// kept for it, where any are.
pub proof fn a_history_is_told_record_by_record(
    records: Seq<LedgerRecordView>,
    kept: Map<Seq<char>, KeptAxesView>,
    i: int,
)
    requires
        0 <= i < records.len(),
    ensures
        ({
            let told = summaries_of(records, kept);
            let revision = records[i].revision_id;
            &&& told.len() == records.len()
            &&& told[i].revision_id == revision
            &&& told[i].superseded_at == records[i].superseded_at
            &&& told[i].superseded_by == records[i].superseded_by
            &&& told[i].current <==> current_of(records) == Some(revision)
            &&& told[i].has_axes <==> kept.contains_key(revision)
            &&& kept.contains_key(revision) ==> told[i].n_traces == Some(kept[revision].n_traces)
                && told[i].n_samples == Some(kept[revision].n_samples) && told[i].y_anchor
                == kept[revision].y_anchor
            &&& !kept.contains_key(revision) ==> told[i].n_traces is None && told[i].n_samples
                is None && told[i].y_anchor is None
        }),
{
}

/// Decisions are listed in the order of their ids, each once.
pub proof fn decisions_are_listed_in_order(
    stored: OverridesView,
    row: Seq<VestigialView>,
    vestigial: bool,
    i: int,
    j: int,
)
    requires
        stored.ignored.dom().finite(),
        0 <= i < j < decisions(stored, row, vestigial).len(),
    ensures
        text_less(
            decisions(stored, row, vestigial)[i].radargram_id,
            decisions(stored, row, vestigial)[j].radargram_id,
        ),
{
    let keys = key_order(stored.ignored.dom());
    let keep = |key: Seq<char>| is_vestigial(row, key) == vestigial;
    lemma_finite_listed(stored.ignored.dom());
    let from = crate::served_laws::lemma_kept_from(keys, keep, i, j);
    assert(text_less(keys[from.0], keys[from.1]));
}

/// A group can be asked for by its id, but not those that are in none.
pub proof fn a_group_is_asked_for_by_its_id(raw: Seq<char>)
    ensures
        crate::properties::group_refusal(raw) is None <==> is_slug(raw),
        raw == "_none"@ ==> crate::properties::group_refusal(raw)->0.status == 400
            && crate::properties::group_refusal(raw)->0.code == "not_a_group"@,
        raw != "_none"@ && !is_slug(raw) ==> crate::properties::group_refusal(raw)->0.status == 400
            && crate::properties::group_refusal(raw)->0.code == "invalid_group"@,
{
    reveal_strlit("_none");
    if raw == "_none"@ {
        assert(raw[0] == '_');
    }
}

/// Properties are for operators of a project, of something that is there.
pub proof fn properties_are_for_operators(
    caller: crate::auth::Caller,
    has_project: bool,
    action: Seq<char>,
    catalog: CatalogView,
    raw: Seq<char>,
)
    ensures
        ({
            let operator = caller.allowed(crate::auth::Role::Operator);
            let one = crate::properties::properties_refusal(
                caller,
                has_project,
                action,
                catalog,
                raw,
            );
            let group = crate::properties::group_properties_refusal(
                caller,
                has_project,
                action,
                raw,
            );
            &&& one is None <==> operator && has_project && is_slug(raw) && has_id(
                catalog.entries,
                raw,
            )
            &&& group is None <==> operator && has_project && is_slug(raw)
            &&& !operator ==> one == Some(
                caller.role_refusal(crate::auth::Role::Operator, action),
            ) && group == one
            &&& operator && !has_project ==> one->0.status == 409 && group == one
        }),
{
    an_id_finds_its_radargram_or_says_why(catalog, raw);
    a_group_is_asked_for_by_its_id(raw);
}

} // verus!
