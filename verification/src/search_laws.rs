//! What holds of the roots that are searched, of what is found in them, and of
//! who is shown it.
use vstd::prelude::*;

use crate::auth::{Caller, Role};
use crate::catalog::{CatalogView, EntryView, RootView, WarningView};
use crate::discovery::{
    candidate_from, candidates_met, candidates_under, deepest_base, is_candidate, is_hidden,
    is_netcdf_name, suggested_group, the_deepest_declared_directory_counts, Candidate, CandidateView,
    WalkedView,
};
use crate::listing::{ids_of, is_shown, shown_of, warning_is_shown};
use crate::merge_scope::MergeScope;
use crate::paths::{lies_under, path_text};
use crate::roots::{
    all_roots, bases_under, declared_paths, extra_roots, project_declares, root_at, skipped_roots,
    DeclaredView, LocatedView, PlacesView,
};
use crate::sorting;
use crate::sorting::rank_of;
use crate::text::{joined, text_less};

verus! {

broadcast use vstd::string::group_string_axioms;

// ---------------------------------------------------------------------------
// What is found
// ---------------------------------------------------------------------------

/// A file is taken for NetCDF by its ending alone, and the ending alone is no
/// name.
pub proof fn a_name_ends_as_netcdf_does(name: Seq<char>, stem: Seq<char>)
    ensures
        stem.len() > 0 ==> is_netcdf_name(stem + ".nc"@),
        is_netcdf_name(name) ==> exists|front: Seq<char>|
            front.len() > 0 && name == #[trigger] (front + ".nc"@),
{
    reveal_strlit(".nc");
    let whole = stem + ".nc"@;
    assert(whole.skip(whole.len() - 3) =~= ".nc"@);
    if is_netcdf_name(name) {
        let front = name.take(name.len() - 3);
        assert(name =~= front + ".nc"@);
    }
}

/// Whether names lead to a file that is looked at: it ends as NetCDF does, and
/// none of the directories on the way is hidden.
pub open spec fn leads_to_data(names: Seq<Seq<char>>) -> bool {
    &&& names.len() > 0
    &&& names.last().len() > 3
    &&& names.last().skip(names.last().len() - 3) == ".nc"@
    &&& forall|i: int|
        0 <= i < names.len() - 1 ==> !((#[trigger] names[i]).len() > 0 && names[i][0] == '.')
}

/// Every NetCDF file below a root that no hidden directory hides is found,
/// under its names below the root; nothing else is; and what is found stands in
/// the order of those paths.
pub proof fn exactly_the_visible_data_is_found(
    root: RootView,
    index: usize,
    walked: Seq<WalkedView>,
    k: int,
    names: Seq<Seq<char>>,
)
    requires
        !root.is_file,
        0 <= k < walked.len(),
        walked[k].path == root.path + names,
    ensures
        ({
            let found = candidates_under(root, index, walked);
            &&& walked[k].is_file && leads_to_data(names) ==> exists|i: int|
                0 <= i < found.len() && (#[trigger] found[i]).path == walked[k].path
                    && found[i].relative_path == joined(names, "/"@) && found[i].root == index
            &&& (forall|j: int|
                0 <= j < walked.len() && (#[trigger] walked[j]).path == walked[k].path
                    ==> !walked[j].is_file) || !leads_to_data(names) ==> forall|i: int|
                0 <= i < found.len() ==> (#[trigger] found[i]).path != walked[k].path
            &&& forall|i: int, j: int|
                0 <= i < j < found.len() ==> !text_less(
                    (#[trigger] found[j]).relative_path,
                    (#[trigger] found[i]).relative_path,
                )
        }),
{
    broadcast use vstd::seq_lib::group_to_multiset_ensures;

    let keep = |file: WalkedView| is_candidate(root, file);
    let kept = walked.filter(keep);
    let met = candidates_met(root, index, walked);
    let found = candidates_under(root, index, walked);
    let rank = rank_of::<Candidate>();
    let key = |candidate: CandidateView| candidate.relative_path;
    sorting::lemma_text_key_ranking(key);
    assert(rank =~= (|a: CandidateView, b: CandidateView| text_less(key(a), key(b))));
    sorting::sorting_puts_in_order(met, rank);
    sorting::sorting_keeps_the_contents(met, rank);
    assert forall|candidate: CandidateView| found.contains(candidate) <==> met.contains(
        candidate,
    ) by {
        assert(found.to_multiset().count(candidate) == met.to_multiset().count(candidate));
    }
    assert(walked[k].path.take(root.path.len() as int) =~= root.path);
    assert(walked[k].path.skip(root.path.len() as int) =~= names);
    assert(is_candidate(root, walked[k]) <==> walked[k].is_file && leads_to_data(names)) by {
        if leads_to_data(names) {
            assert forall|i: int| 0 <= i < names.len() - 1 implies !is_hidden(
                #[trigger] names[i],
            ) by {}
        }
    }
    if walked[k].is_file && leads_to_data(names) {
        walked.lemma_filter_contains(keep, k);
        let m = choose|m: int| 0 <= m < kept.len() && kept[m] == walked[k];
        assert(met[m] == candidate_from(root, index, walked[k]));
        assert(met.contains(met[m]));
        let i = choose|i: int| 0 <= i < found.len() && found[i] == met[m];
        assert(found[i].path == walked[k].path);
    }
    assert forall|i: int|
        0 <= i < found.len() && (#[trigger] found[i]).path == walked[k].path implies leads_to_data(
        names,
    ) && exists|j: int|
        0 <= j < walked.len() && (#[trigger] walked[j]).path == walked[k].path
            && walked[j].is_file by {
        assert(found.contains(found[i]));
        let m = choose|m: int| 0 <= m < met.len() && met[m] == found[i];
        assert(kept.contains(kept[m]));
        walked.lemma_filter_pred(keep, m);
        walked.lemma_filter_contains_rev(keep, kept[m]);
        let j = choose|j: int| 0 <= j < walked.len() && walked[j] == kept[m];
        assert(walked[j].path == walked[k].path);
        assert(is_candidate(root, walked[j]));
        assert forall|n: int| 0 <= n < names.len() - 1 implies !((#[trigger] names[n]).len() > 0
            && names[n][0] == '.') by {
            assert(!is_hidden(names[n]));
        }
    }
    assert forall|i: int, j: int| 0 <= i < j < found.len() implies !text_less(
        (#[trigger] found[j]).relative_path,
        (#[trigger] found[i]).relative_path,
    ) by {
        assert(!rank(found[j], found[i]));
    }
}

proof fn lemma_deepest_is_one(bases: Seq<Seq<Seq<char>>>, path: Seq<Seq<char>>)
    ensures
        deepest_base(bases, path) is Some ==> exists|k: int|
            0 <= k < bases.len() && lies_under(path, #[trigger] bases[k]) && bases[k].len()
                == deepest_base(bases, path)->0,
        deepest_base(bases, path) is None ==> forall|k: int|
            0 <= k < bases.len() ==> !lies_under(path, #[trigger] bases[k]),
    decreases bases.len(),
{
    if bases.len() > 0 {
        let rest = bases.drop_last();
        lemma_deepest_is_one(rest, path);
        assert(bases.last() == bases[bases.len() - 1]);
        if deepest_base(rest, path) is Some {
            let k = choose|k: int|
                0 <= k < rest.len() && lies_under(path, #[trigger] rest[k]) && rest[k].len()
                    == deepest_base(rest, path)->0;
            assert(bases[k] == rest[k]);
        } else {
            assert forall|k: int| 0 <= k < rest.len() implies !lies_under(
                path,
                #[trigger] bases[k],
            ) by {
                assert(rest[k] == bases[k]);
            }
        }
    }
}

/// The directories between the deepest declared directory above a file, or else
/// the root, and the file are the group it suggests; a file directly in it
/// suggests none.
pub proof fn the_directories_below_suggest_the_group(
    root: RootView,
    base: Seq<Seq<char>>,
    directories: Seq<Seq<char>>,
    file: Seq<char>,
)
    requires
        ({
            let path = base + directories.push(file);
            ||| root.group_bases.contains(base) && forall|k: int|
                0 <= k < root.group_bases.len() && lies_under(path, #[trigger] root.group_bases[k])
                    ==> root.group_bases[k].len() <= base.len()
            ||| base == root.path && forall|k: int|
                0 <= k < root.group_bases.len() ==> !lies_under(
                    path,
                    #[trigger] root.group_bases[k],
                )
        }),
    ensures
        suggested_group(root, base + directories.push(file)) == (if directories.len() > 0 {
            Some(joined(directories, "/"@))
        } else {
            None
        }),
{
    let path = base + directories.push(file);
    assert(path.take(base.len() as int) =~= base);
    assert(path.skip(base.len() as int) =~= directories.push(file));
    assert(directories.push(file).drop_last() =~= directories);
    lemma_deepest_is_one(root.group_bases, path);
    if root.group_bases.contains(base) && forall|k: int|
        0 <= k < root.group_bases.len() && lies_under(path, #[trigger] root.group_bases[k])
            ==> root.group_bases[k].len() <= base.len() {
        the_deepest_declared_directory_counts(root.group_bases, path, base);
        assert(deepest_base(root.group_bases, path) == Some(base.len()));
    } else {
        assert(deepest_base(root.group_bases, path) is None);
    }
}

// ---------------------------------------------------------------------------
// Where is searched
// ---------------------------------------------------------------------------

proof fn lemma_extra_root_there(
    project: Option<PlacesView>,
    served: Seq<Seq<char>>,
    roots: Seq<DeclaredView>,
    k: int,
)
    requires
        0 <= k < roots.len(),
        roots[k].resolved is Some,
        !lies_under(roots[k].resolved->0.path, served),
    ensures
        extra_roots(project, served, roots).contains(root_at(project, roots[k].resolved->0)),
    decreases roots.len(),
{
    let rest = roots.drop_last();
    let all = extra_roots(project, served, roots);
    let root = root_at(project, roots[k].resolved->0);
    if k == rest.len() {
        assert(roots.last() == roots[k]);
        assert(all[all.len() - 1] == root);
    } else {
        assert(rest[k] == roots[k]);
        lemma_extra_root_there(project, served, rest, k);
        let before = extra_roots(project, served, rest);
        let i = choose|i: int| 0 <= i < before.len() && before[i] == root;
        assert(all[i] == root);
    }
}

proof fn lemma_extra_root_declared(
    project: Option<PlacesView>,
    served: Seq<Seq<char>>,
    roots: Seq<DeclaredView>,
    i: int,
) -> (k: int)
    requires
        0 <= i < extra_roots(project, served, roots).len(),
    ensures
        0 <= k < roots.len(),
        roots[k].resolved is Some,
        extra_roots(project, served, roots)[i] == root_at(project, roots[k].resolved->0),
    decreases roots.len(),
{
    let rest = roots.drop_last();
    let before = extra_roots(project, served, rest);
    assert(roots.last() == roots[roots.len() - 1]);
    if i < before.len() {
        let k = lemma_extra_root_declared(project, served, rest, i);
        assert(rest[k] == roots[k]);
        assert(extra_roots(project, served, roots)[i] == before[i]);
        k
    } else {
        roots.len() - 1
    }
}

/// What is served is searched first; every directory the project declares that
/// is there and lies outside of it is searched too; and nothing else is.
pub proof fn what_is_declared_is_searched(
    served: LocatedView,
    places: PlacesView,
    k: int,
    i: int,
)
    requires
        0 <= k < places.radargram_roots.len(),
        0 <= i < all_roots(served, Some(places)).len(),
    ensures
        ({
            let roots = all_roots(served, Some(places));
            let found = places.radargram_roots[k].resolved;
            &&& roots[0].path == served.path && roots[0].is_file == served.is_file
            &&& found is Some && !lies_under(found->0.path, served.path) ==> exists|j: int|
                0 < j < roots.len() && (#[trigger] roots[j]).path == found->0.path
                    && roots[j].is_file == found->0.is_file
            &&& i > 0 ==> exists|m: int|
                0 <= m < places.radargram_roots.len() && (
                #[trigger] places.radargram_roots[m]).resolved is Some && roots[i].path
                    == places.radargram_roots[m].resolved->0.path && roots[i].is_file
                    == places.radargram_roots[m].resolved->0.is_file
            &&& roots[i].writable <==> places.root is Some && lies_under(
                roots[i].path,
                places.root->0,
            )
        }),
{
    let roots = all_roots(served, Some(places));
    let extra = extra_roots(Some(places), served.path, places.radargram_roots);
    let found = places.radargram_roots[k].resolved;
    if found is Some && !lies_under(found->0.path, served.path) {
        lemma_extra_root_there(Some(places), served.path, places.radargram_roots, k);
        let root = root_at(Some(places), found->0);
        let j = choose|j: int| 0 <= j < extra.len() && extra[j] == root;
        assert(roots[j + 1] == root);
    }
    if i > 0 {
        assert(roots[i] == extra[i - 1]);
        let m = lemma_extra_root_declared(
            Some(places),
            served.path,
            places.radargram_roots,
            i - 1,
        );
        assert(places.radargram_roots[m].resolved is Some);
    }
    crate::roots::exactly_the_projects_own_roots_are_writable(served, Some(places), i);
}

/// Without a project only what is served is searched, and none of it may be
/// written to.
pub proof fn without_a_project_only_what_is_served_is_searched(served: LocatedView)
    ensures
        all_roots(served, None).len() == 1,
        all_roots(served, None)[0].path == served.path,
        !all_roots(served, None)[0].writable,
        all_roots(served, None)[0].group_bases.len() == 0,
{
    assert(Seq::<Seq<Seq<char>>>::empty().filter(
        |path: Seq<Seq<char>>| lies_under(path, served.path),
    ).len() == 0) by {
        reveal_with_fuel(Seq::filter, 1);
    }
}

proof fn lemma_declared_listed(roots: Seq<DeclaredView>, path: Seq<Seq<char>>)
    ensures
        declared_paths(roots).contains(path) <==> exists|k: int|
            0 <= k < roots.len() && (#[trigger] roots[k]).resolved is Some
                && roots[k].resolved->0.path == path,
    decreases roots.len(),
{
    if roots.len() > 0 {
        let rest = roots.drop_last();
        let all = declared_paths(roots);
        let before = declared_paths(rest);
        lemma_declared_listed(rest, path);
        assert(roots.last() == roots[roots.len() - 1]);
        if before.contains(path) {
            let i = choose|i: int| 0 <= i < before.len() && before[i] == path;
            assert(all[i] == path);
            let k = choose|k: int|
                0 <= k < rest.len() && (#[trigger] rest[k]).resolved is Some
                    && rest[k].resolved->0.path == path;
            assert(roots[k] == rest[k]);
        } else if roots.last().resolved is Some && roots.last().resolved->0.path == path {
            assert(all[all.len() - 1] == path);
        } else {
            if exists|k: int|
                0 <= k < roots.len() && (#[trigger] roots[k]).resolved is Some
                    && roots[k].resolved->0.path == path {
                let k = choose|k: int|
                    0 <= k < roots.len() && (#[trigger] roots[k]).resolved is Some
                        && roots[k].resolved->0.path == path;
                assert(rest[k] == roots[k]);
            }
            if all.contains(path) {
                let i = choose|i: int| 0 <= i < all.len() && all[i] == path;
                assert(before[i] == path);
            }
        }
    }
}

/// Groups are told from the declared directories that lie in a root, and from
/// no others.
pub proof fn groups_begin_at_declared_directories(
    places: PlacesView,
    place: LocatedView,
    base: Seq<Seq<char>>,
)
    ensures
        root_at(Some(places), place).group_bases.contains(base) <==> lies_under(base, place.path)
            && exists|k: int|
            0 <= k < places.radargram_roots.len() && (
            #[trigger] places.radargram_roots[k]).resolved is Some
                && places.radargram_roots[k].resolved->0.path == base,
{
    let declared = declared_paths(places.radargram_roots);
    let keep = |path: Seq<Seq<char>>| lies_under(path, place.path);
    let bases = bases_under(declared, place.path);
    assert(project_declares(Some(places)) == declared);
    lemma_declared_listed(places.radargram_roots, base);
    if bases.contains(base) {
        declared.lemma_filter_contains_rev(keep, base);
        let i = choose|i: int| 0 <= i < bases.len() && bases[i] == base;
        declared.lemma_filter_pred(keep, i);
    }
    if declared.contains(base) && lies_under(base, place.path) {
        let k = choose|k: int| 0 <= k < declared.len() && declared[k] == base;
        declared.lemma_filter_contains(keep, k);
    }
}

/// A declared directory that is not there is told of by name, once for each
/// time it is declared; one that is there is not.
pub proof fn what_is_not_there_is_told_of(roots: Seq<DeclaredView>, root: DeclaredView)
    ensures
        skipped_roots(Seq::empty()) == Seq::<Seq<char>>::empty(),
        root.resolved is Some ==> skipped_roots(roots.push(root)) == skipped_roots(roots),
        root.resolved is None ==> skipped_roots(roots.push(root)) == skipped_roots(roots).push(
            "Warning: radargram root "@ + path_text(root.declared)
                + " does not exist and was skipped."@,
        ),
{
    assert(roots.push(root).drop_last() =~= roots);
}

// ---------------------------------------------------------------------------
// Who is shown what
// ---------------------------------------------------------------------------

/// The scope of a group holds exactly its members, and the scope of a catalog
/// everything; `_none` holds what is in no group.
pub proof fn a_scope_holds_exactly_its_members(
    group: String,
    catalog: CatalogView,
    entry: EntryView,
)
    ensures
        MergeScope::Catalog.selects(catalog) == catalog.entries,
        group@ != "_none"@ ==> (MergeScope::Group(group).selects(catalog).contains(entry)
            <==> catalog.entries.contains(entry) && entry.group_id == Some(group@)),
        group@ == "_none"@ ==> (MergeScope::Group(group).selects(catalog).contains(entry)
            <==> catalog.entries.contains(entry) && entry.group_id is None),
{
    let keep = |entry: EntryView| crate::catalog::in_group(entry, group@);
    lemma_kept(catalog.entries, keep, entry);
}

pub proof fn lemma_kept<A>(row: Seq<A>, keep: spec_fn(A) -> bool, x: A)
    ensures
        row.filter(keep).contains(x) <==> row.contains(x) && keep(x),
{
    let kept = row.filter(keep);
    if kept.contains(x) {
        row.lemma_filter_contains_rev(keep, x);
        let i = choose|i: int| 0 <= i < kept.len() && kept[i] == x;
        row.lemma_filter_pred(keep, i);
    }
    if row.contains(x) && keep(x) {
        let k = choose|k: int| 0 <= k < row.len() && row[k] == x;
        row.lemma_filter_contains(keep, k);
    }
}

/// Whoever is no operator is shown exactly what is listed.
pub proof fn exactly_the_listed_is_shown(
    caller: Caller,
    entries: Seq<EntryView>,
    entry: EntryView,
)
    requires
        !caller.allowed(Role::Operator),
    ensures
        shown_of(caller, entries).contains(entry) <==> entries.contains(entry) && !entry.unlisted,
{
    lemma_kept(entries, |entry: EntryView| is_shown(caller, entry), entry);
}

/// A warning that is not for operators alone, and that names nothing but what
/// is listed, is shown to everybody; one that is for operators is shown to
/// nobody else.
pub proof fn a_warning_about_the_listed_is_shown(
    caller: Caller,
    catalog: CatalogView,
    warning: WarningView,
)
    requires
        forall|i: int|
            0 <= i < warning.about.len() ==> exists|k: int|
                0 <= k < catalog.entries.len() && (#[trigger] catalog.entries[k]).radargram_id
                    == #[trigger] warning.about[i] && !catalog.entries[k].unlisted,
    ensures
        !warning.operator_only ==> warning_is_shown(caller, catalog, warning),
        warning.operator_only && !caller.allowed(Role::Operator) ==> !warning_is_shown(
            caller,
            catalog,
            warning,
        ),
{
    let shown = shown_of(caller, catalog.entries);
    assert forall|i: int| 0 <= i < warning.about.len() implies ids_of(shown).contains(
        #[trigger] warning.about[i],
    ) by {
        let k = choose|k: int|
            0 <= k < catalog.entries.len() && (#[trigger] catalog.entries[k]).radargram_id
                == warning.about[i] && !catalog.entries[k].unlisted;
        let entry = catalog.entries[k];
        lemma_kept(catalog.entries, |entry: EntryView| is_shown(caller, entry), entry);
        assert(is_shown(caller, entry));
        let j = choose|j: int| 0 <= j < shown.len() && shown[j] == entry;
        assert(ids_of(shown)[j] == warning.about[i]);
    }
}

} // verus!
