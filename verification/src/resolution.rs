//! Applying what a project says to what its files say.
//!
//! There is one resolution, and both discovering a catalog and changing an
//! override go through it, so the two cannot disagree.
use vstd::prelude::*;

use crate::catalog::{
    has_id, Catalog, CatalogEntry, CatalogView, CatalogWarning, EntryView, VestigialIgnore,
    VestigialView, WarningView,
};
use crate::identity::{GroupId, GroupName, RadargramId};
use crate::overrides::{
    copy_group_name, copy_text, CatalogOverrides, OverrideView, OverridesView,
};
use crate::rows::{lemma_filter_none, lemma_filter_step};
use crate::text;
use crate::text::text_less;
use crate::text_map::{key_order, TextMap};

verus! {

broadcast use vstd::string::group_string_axioms;

// ---------------------------------------------------------------------------
// One entry
// ---------------------------------------------------------------------------

/// An entry with what the project says about it, field by field. A radargram
/// that is moved to another group does not bring its old group's name.
pub open spec fn with_override(entry: EntryView, over: OverrideView) -> EntryView {
    EntryView {
        display_name: if over.display_name is Some {
            over.display_name
        } else {
            entry.display_name
        },
        group_id: match over.group {
            Some(group) => group,
            None => entry.group_id,
        },
        group_name: if over.group is Some && over.group->0 != entry.group_id {
            None
        } else {
            entry.group_name
        },
        unlisted: over.unlisted,
        elevation_min: over.elevation_min,
        elevation_max: over.elevation_max,
        ..entry
    }
}

/// An entry as the project wants it.
pub open spec fn overridden(entry: EntryView, overrides: OverridesView) -> EntryView {
    if overrides.radargrams.contains_key(entry.radargram_id) {
        with_override(entry, overrides.radargrams[entry.radargram_id])
    } else {
        entry
    }
}

fn same_group(a: &Option<GroupId>, b: &Option<GroupId>) -> (same: bool)
    ensures
        same == (a.deep_view() == b.deep_view()),
{
    match (a, b) {
        (None, None) => true,
        (Some(a), Some(b)) => a.same(b),
        _ => false,
    }
}

/// Applies what the project says about one radargram. Absent means inherit.
pub fn apply_override(entry: &mut CatalogEntry, overrides: &CatalogOverrides)
    ensures
        final(entry)@ == overridden(old(entry)@, overrides@),
{
    let over = match overrides.radargram(&entry.radargram_id) {
        Some(over) => over,
        None => {
            return ;
        },
    };
    if let Some(name) = &over.display_name {
        entry.display_name = Some(name.clone());
    }
    if let Some(membership) = &over.group {
        let new_id = membership.id();
        if !same_group(&entry.group_id, &new_id) {
            entry.group_name = None;
        }
        entry.group_id = new_id;
    }
    entry.unlisted = over.unlisted;
    entry.elevation_min = over.elevation_min;
    entry.elevation_max = over.elevation_max;
}

// ---------------------------------------------------------------------------
// Group names
// ---------------------------------------------------------------------------

/// Whether an entry names the group it is in.
pub open spec fn names_group(entry: EntryView, group: Seq<char>) -> bool {
    entry.group_id == Some(group) && entry.group_name is Some
}

/// Whether `a` is processed later than `b`, or at the same time with a path
/// that comes first.
pub open spec fn newer(a: EntryView, b: EntryView) -> bool {
    text_less(b.processing_datetime, a.processing_datetime) || (a.processing_datetime
        == b.processing_datetime && text_less(a.relative_path, b.relative_path))
}

/// The entry whose name for a group counts: the newest of those that name it,
/// and of equals the first.
pub open spec fn leader(entries: Seq<EntryView>, group: Seq<char>) -> Option<EntryView>
    decreases entries.len(),
{
    if entries.len() == 0 {
        None
    } else {
        let before = leader(entries.drop_last(), group);
        let entry = entries.last();
        if !names_group(entry, group) {
            before
        } else if before is None || newer(entry, before->0) {
            Some(entry)
        } else {
            before
        }
    }
}

/// Whether anything is in the group.
pub open spec fn populated(entries: Seq<EntryView>, group: Seq<char>) -> bool {
    exists|i: int| 0 <= i < entries.len() && (#[trigger] entries[i]).group_id == Some(group)
}

/// What a group is called: what the project calls it, where anything is in it,
/// and otherwise what its newest member calls it.
pub open spec fn name_of_group(
    entries: Seq<EntryView>,
    overrides: OverridesView,
    group: Seq<char>,
) -> Option<Seq<char>> {
    match overrides.named(group) {
        Some(name) => if populated(entries, group) {
            Some(name)
        } else {
            None
        },
        None => match leader(entries, group) {
            Some(entry) => entry.group_name,
            None => None,
        },
    }
}

/// The names of all groups that have one.
pub open spec fn names_of_groups(entries: Seq<EntryView>, overrides: OverridesView) -> Map<
    Seq<char>,
    Seq<char>,
> {
    Map::new(
        |group: Seq<char>| name_of_group(entries, overrides, group) is Some,
        |group: Seq<char>| name_of_group(entries, overrides, group)->0,
    )
}

/// What is said of two members that call their group differently.
pub open spec fn disagreement(group: Seq<char>, leading: EntryView, entry: EntryView) -> WarningView {
    WarningView {
        message: "Group '"@ + group + "' has disagreeing names: '"@ + leading.group_name->0 + "' ('"@
            + leading.relative_path + "') and '"@ + entry.group_name->0 + "' ('"@
            + entry.relative_path
            + "'). Using the name from the entry with the most recent processing datetime"@ + (
        if entry.processing_datetime == leading.processing_datetime {
            " (datetimes equal; broke the tie by path order)"@
        } else {
            ""@
        }) + "."@,
        about: seq![entry.radargram_id, leading.radargram_id],
        operator_only: false,
    }
}

/// One warning for each entry that calls its group differently from the one
/// that counted before it, in groups the project has not named itself.
pub open spec fn disagreements(entries: Seq<EntryView>, overrides: OverridesView) -> Seq<WarningView>
    decreases entries.len(),
{
    if entries.len() == 0 {
        Seq::empty()
    } else {
        let before = disagreements(entries.drop_last(), overrides);
        let entry = entries.last();
        if entry.group_id is Some && entry.group_name is Some && overrides.named(entry.group_id->0)
            is None && leader(entries.drop_last(), entry.group_id->0) is Some && leader(
            entries.drop_last(),
            entry.group_id->0,
        )->0.group_name != entry.group_name {
            before.push(
                disagreement(
                    entry.group_id->0,
                    leader(entries.drop_last(), entry.group_id->0)->0,
                    entry,
                ),
            )
        } else {
            before
        }
    }
}

proof fn lemma_leader_is_member(entries: Seq<EntryView>, group: Seq<char>)
    ensures
        leader(entries, group) is Some ==> names_group(leader(entries, group)->0, group)
            && entries.contains(leader(entries, group)->0),
        leader(entries, group) is None ==> forall|i: int|
            0 <= i < entries.len() ==> !names_group(#[trigger] entries[i], group),
    decreases entries.len(),
{
    if entries.len() > 0 {
        let rest = entries.drop_last();
        lemma_leader_is_member(rest, group);
        if leader(rest, group) is Some {
            let i = choose|i: int| 0 <= i < rest.len() && rest[i] == leader(rest, group)->0;
            assert(entries[i] == rest[i]);
        } else {
            assert forall|i: int|
                0 <= i < entries.len() && leader(entries, group) is None implies !names_group(
                #[trigger] entries[i],
                group,
            ) by {
                if i < rest.len() {
                    assert(rest[i] == entries[i]);
                }
            }
        }
        assert(entries[entries.len() - 1] == entries.last());
    }
}

fn describe_disagreement(group: &GroupId, leading: &CatalogEntry, entry: &CatalogEntry) -> (warning:
    CatalogWarning)
    requires
        leading.group_name is Some,
        entry.group_name is Some,
    ensures
        warning@ == disagreement(group@, leading@, entry@),
{
    let leading_name = match &leading.group_name {
        Some(name) => name.to_text(),
        None => String::new(),
    };
    let name = match &entry.group_name {
        Some(name) => name.to_text(),
        None => String::new(),
    };
    let mut message = "Group '".to_owned();
    message.append(group.as_str());
    message.append("' has disagreeing names: '");
    message.append(leading_name.as_str());
    message.append("' ('");
    message.append(leading.relative_path.as_str());
    message.append("') and '");
    message.append(name.as_str());
    message.append("' ('");
    message.append(entry.relative_path.as_str());
    message.append(
        "'). Using the name from the entry with the most recent processing datetime",
    );
    if text::equal(entry.processing_datetime.as_str(), leading.processing_datetime.as_str()) {
        message.append(" (datetimes equal; broke the tie by path order)");
    } else {
        message.append("");
    }
    message.append(".");
    let mut about: Vec<RadargramId> = Vec::new();
    about.push(entry.radargram_id.clone());
    about.push(leading.radargram_id.clone());
    let warning = CatalogWarning { message, about, operator_only: false };
    assert(warning@.about =~= seq![entry@.radargram_id, leading@.radargram_id]);
    warning
}

/// Whether `a` is newer than `b`, or as new with a path that comes first.
pub fn is_newer(a: &CatalogEntry, b: &CatalogEntry) -> (yes: bool)
    ensures
        yes == newer(a@, b@),
{
    text::less(b.processing_datetime.as_str(), a.processing_datetime.as_str()) || (text::equal(
        a.processing_datetime.as_str(),
        b.processing_datetime.as_str(),
    ) && text::less(a.relative_path.as_str(), b.relative_path.as_str()))
}

fn has_members(entries: &Vec<CatalogEntry>, group: &GroupId) -> (found: bool)
    ensures
        found == populated(entries.deep_view(), group@),
{
    let ghost all = entries.deep_view();
    let mut i: usize = 0;
    while i < entries.len()
        invariant
            i <= entries.len(),
            all == entries.deep_view(),
            forall|j: int| 0 <= j < i ==> (#[trigger] all[j]).group_id != Some(group@),
        decreases entries.len() - i,
    {
        assert(all[i as int] == entries[i as int]@);
        if let Some(id) = &entries[i].group_id {
            if id.same(group) {
                return true;
            }
        }
        i = i + 1;
    }
    false
}

/// The leaders of the groups the project has not named, by their index.
spec fn leads(
    state: Map<Seq<char>, usize>,
    entries: Seq<EntryView>,
    upto: int,
    overrides: OverridesView,
    group: Seq<char>,
) -> bool {
    let leading = leader(entries.take(upto), group);
    if overrides.named(group) is None && leading is Some {
        state.contains_key(group) && state[group] < upto && entries[state[group] as int]
            == leading->0
    } else {
        !state.contains_key(group)
    }
}

fn lead_groups(entries: &Vec<CatalogEntry>, overrides: &CatalogOverrides) -> (found: (
    TextMap<GroupId, usize>,
    Vec<CatalogWarning>,
))
    ensures
        forall|group: Seq<char>|
            #[trigger] leads(
                found.0@,
                entries.deep_view(),
                entries.len() as int,
                overrides@,
                group,
            ),
        found.1.deep_view() == disagreements(entries.deep_view(), overrides@),
{
    let ghost all = entries.deep_view();
    let mut state: TextMap<GroupId, usize> = TextMap::new();
    let mut warnings: Vec<CatalogWarning> = Vec::new();
    let mut i: usize = 0;
    proof {
        assert(all.take(0) =~= Seq::empty());
        assert(warnings.deep_view() =~= Seq::empty());
    }
    while i < entries.len()
        invariant
            i <= entries.len(),
            all == entries.deep_view(),
            forall|group: Seq<char>| #[trigger] leads(state@, all, i as int, overrides@, group),
            warnings.deep_view() == disagreements(all.take(i as int), overrides@),
        decreases entries.len() - i,
    {
        let entry = &entries[i];
        let ghost upto = all.take(i + 1);
        let ghost before = state@;
        proof {
            assert(upto.drop_last() =~= all.take(i as int));
            assert(upto.last() == entry@);
            assert(all[i as int] == entry@);
            assert forall|group: Seq<char>| !names_group(entry@, group) implies leader(upto, group)
                == leader(all.take(i as int), group) by {}
        }
        if let (Some(id), Some(_)) = (&entry.group_id, &entry.group_name) {
            if overrides.group_name(id).is_none() {
                proof {
                    assert(leads(before, all, i as int, overrides@, id@));
                    lemma_leader_is_member(all.take(i as int), id@);
                }
                let takes_over = match state.get(id.as_str()) {
                    None => true,
                    Some(index) => {
                        let leading = &entries[*index];
                        assert(all[*index as int] == leading@);
                        let agrees = match (&leading.group_name, &entry.group_name) {
                            (Some(theirs), Some(ours)) => theirs.same(ours),
                            _ => true,
                        };
                        if !agrees {
                            let ghost so_far = warnings.deep_view();
                            let warning = describe_disagreement(id, leading, entry);
                            warnings.push(warning);
                            assert(warnings.deep_view() =~= so_far.push(warning@));
                        }
                        is_newer(entry, leading)
                    },
                };
                if takes_over {
                    state.insert(id.clone(), i);
                }
            }
        }
        proof {
            assert forall|group: Seq<char>|
                #[trigger] leads(state@, all, i + 1, overrides@, group) by {
                assert(leads(before, all, i as int, overrides@, group));
            }
        }
        i = i + 1;
    }
    proof {
        assert(all.take(entries.len() as int) =~= all);
    }
    (state, warnings)
}

/// One name per group, and what is to be said about groups whose members
/// disagree. A group the project has named cannot disagree with itself.
pub fn resolve_group_names(entries: &Vec<CatalogEntry>, overrides: &CatalogOverrides) -> (found: (
    TextMap<GroupId, GroupName>,
    Vec<CatalogWarning>,
))
    ensures
        found.0.deep_view() == names_of_groups(entries.deep_view(), overrides@),
        found.1.deep_view() == disagreements(entries.deep_view(), overrides@),
{
    let ghost all = entries.deep_view();
    let (state, warnings) = lead_groups(entries, overrides);
    proof {
        assert(all.take(all.len() as int) =~= all);
        assert(entries.len() == all.len());
        assert forall|group: Seq<char>|
            #[trigger] leads(state@, all, all.len() as int, overrides@, group) by {
            assert(leads(state@, all, entries.len() as int, overrides@, group));
        }
    }

    let mut names: TextMap<GroupId, GroupName> = TextMap::new();
    let count = state.len();
    let mut i: usize = 0;
    while i < count
        invariant
            i <= count,
            count == state.keys().len(),
            all == entries.deep_view(),
            all.take(all.len() as int) == all,
            crate::text_map::lists(state.keys(), state@.dom()),
            forall|group: Seq<char>|
                #[trigger] leads(state@, all, all.len() as int, overrides@, group),
            forall|group: Seq<char>|
                #[trigger] names@.contains_key(group) <==> state.keys().take(i as int).contains(
                    group,
                ),
            forall|group: Seq<char>| #[trigger]
                names@.contains_key(group) ==> leader(all, group) is Some && Some(
                    names@[group]@,
                ) == leader(all, group)->0.group_name,
        decreases count - i,
    {
        let id = state.key_at(i);
        let index = *state.value_at(i);
        let ghost before = names@;
        proof {
            assert(leads(state@, all, all.len() as int, overrides@, id@));
            assert(state@.contains_key(id@));
            lemma_leader_is_member(all, id@);
            assert(all[index as int] == entries[index as int]@);
        }
        if let Some(name) = &entries[index].group_name {
            names.insert(id.clone(), name.clone());
        }
        proof {
            let now = state.keys().take(i + 1);
            assert(now =~= state.keys().take(i as int).push(id@));
            assert forall|group: Seq<char>|
                #[trigger] names@.contains_key(group) <==> now.contains(group) by {
                assert(before.contains_key(group) <==> state.keys().take(i as int).contains(group));
                if state.keys().take(i as int).contains(group) {
                    let k = choose|k: int|
                        0 <= k < i && state.keys().take(i as int)[k] == group;
                    assert(now[k] == group);
                }
                if group == id@ {
                    assert(now[i as int] == group);
                }
                if now.contains(group) && group != id@ {
                    let k = choose|k: int| 0 <= k < now.len() && now[k] == group;
                    assert(state.keys().take(i as int)[k] == group);
                }
            }
        }
        i = i + 1;
    }
    proof {
        assert(state.keys().take(count as int) =~= state.keys());
        assert forall|group: Seq<char>|
            #[trigger] names@.contains_key(group) <==> overrides@.named(group) is None && leader(
                all,
                group,
            ) is Some by {
            assert(leads(state@, all, all.len() as int, overrides@, group));
            assert(state@.dom().contains(group) <==> state.keys().contains(group));
        }
    }

    let count = overrides.groups.len();
    let mut i: usize = 0;
    let ghost given = overrides.groups.keys();
    while i < count
        invariant
            i <= count,
            count == given.len(),
            given == overrides.groups.keys(),
            all == entries.deep_view(),
            crate::text_map::lists(given, overrides.groups@.dom()),
            forall|group: Seq<char>|
                #[trigger] names@.contains_key(group) <==> if given.take(i as int).contains(group)
                    && overrides@.named(group) is Some {
                    populated(all, group)
                } else {
                    overrides@.named(group) is None && leader(all, group) is Some
                },
            forall|group: Seq<char>| #[trigger]
                names@.contains_key(group) ==> Some(names@[group]@) == name_of_group(
                    all,
                    overrides@,
                    group,
                ),
        decreases count - i,
    {
        let id = overrides.groups.key_at(i);
        let group = overrides.groups.value_at(i);
        let ghost before = names@;
        proof {
            assert(overrides@.groups.contains_key(id@));
            assert(overrides@.named(id@) == group.name.deep_view());
        }
        if let Some(name) = &group.name {
            if has_members(entries, id) {
                names.insert(id.clone(), name.clone());
            }
        }
        proof {
            let now = given.take(i + 1);
            assert(now =~= given.take(i as int).push(id@));
            crate::text_map::lemma_ascending_differ(given);
            assert(!given.take(i as int).contains(id@)) by {
                if given.take(i as int).contains(id@) {
                    let k = choose|k: int| 0 <= k < i && given.take(i as int)[k] == id@;
                    assert(given[k] == given[i as int]);
                }
            }
            assert forall|other: Seq<char>| other != id@ implies (now.contains(other)
                <==> given.take(i as int).contains(other)) by {
                if now.contains(other) {
                    let k = choose|k: int| 0 <= k < now.len() && now[k] == other;
                    assert(given.take(i as int)[k] == other);
                }
                if given.take(i as int).contains(other) {
                    let k = choose|k: int| 0 <= k < i && given.take(i as int)[k] == other;
                    assert(now[k] == other);
                }
            }
            assert(now[i as int] == id@);
            assert forall|other: Seq<char>|
                #[trigger] names@.contains_key(other) <==> if now.contains(other)
                    && overrides@.named(other) is Some {
                    populated(all, other)
                } else {
                    overrides@.named(other) is None && leader(all, other) is Some
                } by {
                assert(before.contains_key(other) <==> if given.take(i as int).contains(other)
                    && overrides@.named(other) is Some {
                    populated(all, other)
                } else {
                    overrides@.named(other) is None && leader(all, other) is Some
                });
            }
        }
        i = i + 1;
    }
    proof {
        assert(given.take(count as int) =~= given);
        let expected = names_of_groups(all, overrides@);
        assert forall|group: Seq<char>|
            names.deep_view().contains_key(group) == expected.contains_key(group) by {
            assert(names@.contains_key(group) <==> if given.contains(group) && overrides@.named(
                group,
            ) is Some {
                populated(all, group)
            } else {
                overrides@.named(group) is None && leader(all, group) is Some
            });
            if overrides@.named(group) is Some {
                assert(overrides.groups@.dom().contains(group));
            }
            lemma_leader_is_member(all, group);
        }
        assert(names.deep_view() =~= expected);
    }
    (names, warnings)
}

// ---------------------------------------------------------------------------
// The whole catalog
// ---------------------------------------------------------------------------

/// What the project serves, as the files describe it.
pub open spec fn served(unresolved: Seq<EntryView>, overrides: OverridesView) -> Seq<EntryView> {
    unresolved.filter(|entry: EntryView| !overrides.ignored.contains_key(entry.radargram_id))
}

/// What the project serves, as the project describes it.
pub open spec fn described(unresolved: Seq<EntryView>, overrides: OverridesView) -> Seq<EntryView> {
    served(unresolved, overrides).map_values(|entry: EntryView| overridden(entry, overrides))
}

/// An entry that carries the name of the group it is in.
pub open spec fn settled(entry: EntryView, names: Map<Seq<char>, Seq<char>>) -> EntryView {
    match entry.group_id {
        Some(group) => EntryView {
            group_name: if names.contains_key(group) {
                Some(names[group])
            } else {
                None
            },
            ..entry
        },
        None => entry,
    }
}

/// The entries of the resolved catalog.
pub open spec fn resolved_entries(unresolved: Seq<EntryView>, overrides: OverridesView) -> Seq<
    EntryView,
> {
    let entries = described(unresolved, overrides);
    let names = names_of_groups(entries, overrides);
    entries.map_values(|entry: EntryView| settled(entry, names))
}

/// What is said of an ignored radargram whose file was replaced.
pub open spec fn changed_while_ignored(id: Seq<char>, was: Seq<char>) -> WarningView {
    WarningView {
        message: "'"@ + id
            + "' is ignored, and the file behind it has changed since that decision was made (it was revision "@
            + was
            + "). It is still not being served; restore it if the new content should be."@,
        about: Seq::empty(),
        operator_only: true,
    }
}

/// One warning for each ignored radargram that is no longer the revision the
/// decision was made about.
pub open spec fn changes_while_ignored(
    unresolved: Seq<EntryView>,
    overrides: OverridesView,
) -> Seq<WarningView>
    decreases unresolved.len(),
{
    if unresolved.len() == 0 {
        Seq::empty()
    } else {
        let before = changes_while_ignored(unresolved.drop_last(), overrides);
        let entry = unresolved.last();
        if overrides.ignored.contains_key(entry.radargram_id)
            && overrides.ignored[entry.radargram_id].revision_id is Some
            && overrides.ignored[entry.radargram_id].revision_id != Some(entry.revision_id) {
            before.push(
                changed_while_ignored(
                    entry.radargram_id,
                    overrides.ignored[entry.radargram_id].revision_id->0,
                ),
            )
        } else {
            before
        }
    }
}

/// Whether a warning names nothing that is ignored.
pub open spec fn concerns_nothing_ignored(warning: WarningView, overrides: OverridesView) -> bool {
    forall|i: int|
        0 <= i < warning.about.len() ==> !overrides.ignored.contains_key(#[trigger] warning.about[i])
}

/// The warnings of the resolved catalog: those about the files, less what the
/// project does not serve; groups that disagree; and what changed out of sight.
pub open spec fn resolved_warnings(
    unresolved: Seq<EntryView>,
    file_warnings: Seq<WarningView>,
    overrides: OverridesView,
) -> Seq<WarningView> {
    file_warnings.filter(|warning: WarningView| concerns_nothing_ignored(warning, overrides))
        + disagreements(described(unresolved, overrides), overrides) + changes_while_ignored(
        unresolved,
        overrides,
    )
}

/// The decisions that have nothing to act on, in the order of their ids.
pub open spec fn vestigial(unresolved: Seq<EntryView>, overrides: OverridesView) -> Seq<
    VestigialView,
> {
    key_order(overrides.ignored.dom()).filter(|id: Seq<char>| !has_id(unresolved, id)).map_values(
        |id: Seq<char>|
            VestigialView { radargram_id: id, since: overrides.ignored[id].since },
    )
}

/// The catalog that the files and the project's word on them make together.
pub open spec fn resolved(
    unresolved: Seq<EntryView>,
    file_warnings: Seq<WarningView>,
    overrides: OverridesView,
) -> CatalogView {
    CatalogView {
        entries: resolved_entries(unresolved, overrides),
        unresolved,
        warnings: resolved_warnings(unresolved, file_warnings, overrides),
        file_warnings,
        group_names: names_of_groups(described(unresolved, overrides), overrides),
        vestigial_ignores: vestigial(unresolved, overrides),
    }
}

fn describe_change(id: &RadargramId, was: &str) -> (warning: CatalogWarning)
    ensures
        warning@ == changed_while_ignored(id@, was@),
{
    let mut message = "'".to_owned();
    message.append(id.as_str());
    message.append(
        "' is ignored, and the file behind it has changed since that decision was made (it was revision ",
    );
    message.append(was);
    message.append("). It is still not being served; restore it if the new content should be.");
    let warning = CatalogWarning { message, about: Vec::new(), operator_only: true };
    assert(warning@.about =~= Seq::empty());
    warning
}

/// What the project serves, as it describes it, and what changed out of sight.
fn serve_and_describe(unresolved: &Vec<CatalogEntry>, overrides: &CatalogOverrides) -> (found: (
    Vec<CatalogEntry>,
    Vec<CatalogWarning>,
))
    ensures
        found.0.deep_view() == described(unresolved.deep_view(), overrides@),
        found.1.deep_view() == changes_while_ignored(unresolved.deep_view(), overrides@),
{
    let ghost all = unresolved.deep_view();
    let ghost keep = |entry: EntryView| !overrides@.ignored.contains_key(entry.radargram_id);
    let mut entries: Vec<CatalogEntry> = Vec::new();
    let mut changed: Vec<CatalogWarning> = Vec::new();
    let mut i: usize = 0;
    proof {
        lemma_filter_none(all, keep);
        assert(all.take(0) =~= Seq::empty());
        assert(entries.deep_view() =~= described(all.take(0), overrides@));
        assert(changed.deep_view() =~= Seq::empty());
    }
    while i < unresolved.len()
        invariant
            i <= unresolved.len(),
            all == unresolved.deep_view(),
            keep == (|entry: EntryView| !overrides@.ignored.contains_key(entry.radargram_id)),
            entries.deep_view() == described(all.take(i as int), overrides@),
            changed.deep_view() == changes_while_ignored(all.take(i as int), overrides@),
        decreases unresolved.len() - i,
    {
        let entry = &unresolved[i];
        proof {
            lemma_filter_step(all, i as int, keep);
            assert(all.take(i + 1).drop_last() =~= all.take(i as int));
            assert(all.take(i + 1).last() == entry@);
            assert(all[i as int] == entry@);
        }
        match overrides.ignore(&entry.radargram_id) {
            Some(decision) => {
                if let Some(was) = &decision.revision_id {
                    if !text::equal(was.as_str(), entry.revision_id.as_str()) {
                        let ghost so_far = changed.deep_view();
                        let warning = describe_change(&entry.radargram_id, was.as_str());
                        changed.push(warning);
                        assert(changed.deep_view() =~= so_far.push(warning@));
                    }
                }
            },
            None => {
                let ghost so_far = entries.deep_view();
                let mut kept = entry.clone();
                apply_override(&mut kept, overrides);
                entries.push(kept);
                proof {
                    assert(entries.deep_view() =~= so_far.push(kept@));
                    assert(entries.deep_view() =~= described(all.take(i + 1), overrides@));
                }
            },
        }
        i = i + 1;
    }
    proof {
        assert(all.take(i as int) =~= all);
    }
    (entries, changed)
}

/// Every member takes its group's name.
fn settle(entries: Vec<CatalogEntry>, names: &TextMap<GroupId, GroupName>) -> (row: Vec<CatalogEntry>)
    ensures
        row.deep_view() == entries.deep_view().map_values(
            |entry: EntryView| settled(entry, names.deep_view()),
        ),
{
    let ghost all = entries.deep_view();
    let mut row: Vec<CatalogEntry> = Vec::new();
    let mut i: usize = 0;
    while i < entries.len()
        invariant
            i <= entries.len(),
            all == entries.deep_view(),
            row.len() == i,
            forall|j: int| 0 <= j < i ==> (#[trigger] row.deep_view()[j]) == settled(
                all[j],
                names.deep_view(),
            ),
        decreases entries.len() - i,
    {
        let mut entry = entries[i].clone();
        assert(all[i as int] == entry@);
        let name: Option<GroupName> = match &entry.group_id {
            Some(id) => match names.get(id.as_str()) {
                Some(name) => Some(name.clone()),
                None => None,
            },
            None => copy_group_name(&entry.group_name),
        };
        entry.group_name = name;
        let ghost so_far = row.deep_view();
        row.push(entry);
        assert(row.deep_view() =~= so_far.push(entry@));
        i = i + 1;
    }
    assert(row.deep_view() =~= all.map_values(
        |entry: EntryView| settled(entry, names.deep_view()),
    ));
    row
}

fn names_ignored(warning: &CatalogWarning, overrides: &CatalogOverrides) -> (found: bool)
    ensures
        found == !concerns_nothing_ignored(warning@, overrides@),
{
    let mut i: usize = 0;
    while i < warning.about.len()
        invariant
            i <= warning.about.len(),
            forall|j: int|
                0 <= j < i ==> !overrides@.ignored.contains_key(#[trigger] warning@.about[j]),
        decreases warning.about.len() - i,
    {
        assert(warning@.about[i as int] == warning.about[i as int]@);
        if overrides.ignores(&warning.about[i]) {
            return true;
        }
        i = i + 1;
    }
    false
}

/// The warnings about files that concern what is served.
fn served_warnings(file_warnings: &Vec<CatalogWarning>, overrides: &CatalogOverrides) -> (kept: Vec<
    CatalogWarning,
>)
    ensures
        kept.deep_view() == file_warnings.deep_view().filter(
            |warning: WarningView| concerns_nothing_ignored(warning, overrides@),
        ),
{
    let ghost all = file_warnings.deep_view();
    let ghost keep = |warning: WarningView| concerns_nothing_ignored(warning, overrides@);
    let mut kept: Vec<CatalogWarning> = Vec::new();
    let mut i: usize = 0;
    proof {
        lemma_filter_none(all, keep);
        assert(kept.deep_view() =~= Seq::empty());
    }
    while i < file_warnings.len()
        invariant
            i <= file_warnings.len(),
            all == file_warnings.deep_view(),
            keep == (|warning: WarningView| concerns_nothing_ignored(warning, overrides@)),
            kept.deep_view() == all.take(i as int).filter(keep),
        decreases file_warnings.len() - i,
    {
        let warning = &file_warnings[i];
        proof {
            lemma_filter_step(all, i as int, keep);
            assert(all[i as int] == warning@);
        }
        if !names_ignored(warning, overrides) {
            let ghost so_far = kept.deep_view();
            let copy = warning.clone();
            kept.push(copy);
            assert(kept.deep_view() =~= so_far.push(copy@));
        }
        i = i + 1;
    }
    assert(all.take(i as int) =~= all);
    kept
}

/// Whether discovery found a radargram.
fn was_found(unresolved: &Vec<CatalogEntry>, id: &RadargramId) -> (found: bool)
    ensures
        found == has_id(unresolved.deep_view(), id@),
{
    let ghost all = unresolved.deep_view();
    let mut i: usize = 0;
    while i < unresolved.len()
        invariant
            i <= unresolved.len(),
            all == unresolved.deep_view(),
            forall|j: int| 0 <= j < i ==> (#[trigger] all[j]).radargram_id != id@,
        decreases unresolved.len() - i,
    {
        assert(all[i as int] == unresolved[i as int]@);
        if unresolved[i].radargram_id.same(id) {
            return true;
        }
        i = i + 1;
    }
    false
}

/// The decisions that have nothing to act on.
fn find_vestigial(unresolved: &Vec<CatalogEntry>, overrides: &CatalogOverrides) -> (row: Vec<
    VestigialIgnore,
>)
    ensures
        row.deep_view() == vestigial(unresolved.deep_view(), overrides@),
{
    let ghost all = unresolved.deep_view();
    let ghost absent = |id: Seq<char>| !has_id(all, id);
    let ghost as_listed = |id: Seq<char>|
        VestigialView { radargram_id: id, since: overrides@.ignored[id].since };
    let mut row: Vec<VestigialIgnore> = Vec::new();
    let count = overrides.ignored.len();
    let ghost keys = overrides.ignored.keys();
    let mut i: usize = 0;
    proof {
        assert(overrides@.ignored.dom() =~= overrides.ignored@.dom());
        lemma_filter_none(keys, absent);
        assert(row.deep_view() =~= keys.take(0).filter(absent).map_values(as_listed));
    }
    while i < count
        invariant
            i <= count,
            count == keys.len(),
            keys == overrides.ignored.keys(),
            all == unresolved.deep_view(),
            absent == (|id: Seq<char>| !has_id(all, id)),
            as_listed == (|id: Seq<char>|
                VestigialView { radargram_id: id, since: overrides@.ignored[id].since }),
            row.deep_view() == keys.take(i as int).filter(absent).map_values(as_listed),
        decreases count - i,
    {
        let id = overrides.ignored.key_at(i);
        let decision = overrides.ignored.value_at(i);
        proof {
            lemma_filter_step(keys, i as int, absent);
        }
        if !was_found(unresolved, id) {
            let ghost so_far = row.deep_view();
            let item = VestigialIgnore {
                radargram_id: id.clone(),
                since: copy_text(&decision.since),
            };
            row.push(item);
            proof {
                assert(row.deep_view() =~= so_far.push(item@));
                assert(item@ == as_listed(id@));
                assert(row.deep_view() =~= keys.take(i + 1).filter(absent).map_values(as_listed));
            }
        }
        i = i + 1;
    }
    assert(keys.take(i as int) =~= keys);
    row
}

/// Applies the overrides to freshly discovered entries and settles the names
/// of the groups.
pub fn resolve(
    unresolved: Vec<CatalogEntry>,
    file_warnings: Vec<CatalogWarning>,
    overrides: &CatalogOverrides,
) -> (catalog: Catalog)
    ensures
        catalog@ == resolved(unresolved.deep_view(), file_warnings.deep_view(), overrides@),
{
    let (entries, mut changed) = serve_and_describe(&unresolved, overrides);
    let (group_names, mut disagreeing) = resolve_group_names(&entries, overrides);
    let entries = settle(entries, &group_names);
    let mut warnings = served_warnings(&file_warnings, overrides);
    let ghost first = warnings.deep_view();
    let ghost second = disagreeing.deep_view();
    let ghost third = changed.deep_view();
    warnings.append(&mut disagreeing);
    assert(warnings.deep_view() =~= first + second);
    warnings.append(&mut changed);
    assert(warnings.deep_view() =~= first + second + third);
    let vestigial_ignores = find_vestigial(&unresolved, overrides);
    Catalog { entries, unresolved, warnings, file_warnings, group_names, vestigial_ignores }
}

fn copy_entries(entries: &Vec<CatalogEntry>) -> (copy: Vec<CatalogEntry>)
    ensures
        copy.deep_view() == entries.deep_view(),
{
    let copy = entries.clone();
    assert(copy.deep_view() =~= entries.deep_view());
    copy
}

fn copy_warnings(warnings: &Vec<CatalogWarning>) -> (copy: Vec<CatalogWarning>)
    ensures
        copy.deep_view() == warnings.deep_view(),
{
    let copy = warnings.clone();
    assert(copy.deep_view() =~= warnings.deep_view());
    copy
}

impl Catalog {
    /// Resolves again, against other overrides and without touching the disk:
    /// what a label edit needs.
    pub fn reresolved(&self, overrides: &CatalogOverrides) -> (catalog: Catalog)
        ensures
            catalog@ == resolved(self@.unresolved, self@.file_warnings, overrides@),
    {
        resolve(copy_entries(&self.unresolved), copy_warnings(&self.file_warnings), overrides)
    }
}

} // verus!
