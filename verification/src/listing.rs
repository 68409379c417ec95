//! What a caller is shown of a catalog.
//!
//! Unlisting a radargram is curation, not access control: it is left out of
//! listings, and of everything else that would tell that it is there, and can
//! still be opened by its id.
use vstd::prelude::*;

use crate::auth::{Caller, Role};
use crate::catalog::{
    Catalog, CatalogEntry, CatalogView, CatalogWarning, EntryView, WarningView,
};
use crate::identity::RadargramId;
use crate::merge_scope::MergeScope;
use crate::rows::{lemma_filter_none, lemma_filter_step};

verus! {

/// Whether an entry is shown: an operator sees everything, because nobody
/// else could ever list it again.
pub open spec fn is_shown(caller: Caller, entry: EntryView) -> bool {
    caller.allowed(Role::Operator) || !entry.unlisted
}

/// The entries that are shown of a row of them.
pub open spec fn shown_of(caller: Caller, entries: Seq<EntryView>) -> Seq<EntryView> {
    entries.filter(|entry: EntryView| is_shown(caller, entry))
}

/// The ids of a row of entries.
pub open spec fn ids_of(entries: Seq<EntryView>) -> Seq<Seq<char>> {
    entries.map_values(|entry: EntryView| entry.radargram_id)
}

/// Whether a warning is shown: one that quotes an unlisted radargram would put
/// it back, and one about something that is not served concerns whoever
/// decided that.
pub open spec fn warning_is_shown(
    caller: Caller,
    catalog: CatalogView,
    warning: WarningView,
) -> bool {
    caller.allowed(Role::Operator) || (!warning.operator_only && warning.visible_among(
        ids_of(shown_of(caller, catalog.entries)),
    ))
}

/// The members of a scope that a caller is shown, in a listing or on a map.
pub fn shown_entries<'a>(caller: &Caller, scope: &MergeScope, catalog: &'a Catalog) -> (shown: Vec<
    &'a CatalogEntry,
>)
    ensures
        shown.deep_view() == shown_of(*caller, scope.selects(catalog@)),
{
    let selected = scope.entries(catalog);
    let operator = caller.may(Role::Operator);
    let ghost all = selected.deep_view();
    let ghost keep = |entry: EntryView| is_shown(*caller, entry);
    let mut shown: Vec<&CatalogEntry> = Vec::new();
    let mut i: usize = 0;
    proof {
        lemma_filter_none(all, keep);
        assert(shown.deep_view() =~= Seq::empty());
    }
    while i < selected.len()
        invariant
            i <= selected.len(),
            all == selected.deep_view(),
            operator == caller.allowed(Role::Operator),
            keep == (|entry: EntryView| is_shown(*caller, entry)),
            shown.deep_view() == all.take(i as int).filter(keep),
        decreases selected.len() - i,
    {
        let entry: &CatalogEntry = selected[i];
        proof {
            lemma_filter_step(all, i as int, keep);
            assert(all[i as int] == entry@);
        }
        if operator || !entry.unlisted {
            let ghost so_far = shown.deep_view();
            shown.push(entry);
            assert(shown.deep_view() =~= so_far.push(entry@));
        }
        i = i + 1;
    }
    assert(all.take(i as int) =~= all);
    shown
}

fn shown_ids(caller: &Caller, catalog: &Catalog) -> (ids: Vec<RadargramId>)
    ensures
        ids.deep_view() == ids_of(shown_of(*caller, catalog@.entries)),
{
    let shown = shown_entries(caller, &MergeScope::Catalog, catalog);
    let ghost all = shown.deep_view();
    let mut ids: Vec<RadargramId> = Vec::new();
    let mut i: usize = 0;
    while i < shown.len()
        invariant
            i <= shown.len(),
            all == shown.deep_view(),
            ids.len() == i,
            forall|j: int| 0 <= j < i ==> #[trigger] ids.deep_view()[j] == all[j].radargram_id,
        decreases shown.len() - i,
    {
        let entry: &CatalogEntry = shown[i];
        assert(all[i as int] == entry@);
        let id = entry.radargram_id.clone();
        let ghost so_far = ids.deep_view();
        ids.push(id);
        assert(ids.deep_view() =~= so_far.push(id@));
        i = i + 1;
    }
    assert(ids.deep_view() =~= ids_of(all));
    ids
}

/// The warnings that a caller is shown beside a listing.
pub fn shown_warnings<'a>(caller: &Caller, catalog: &'a Catalog) -> (shown: Vec<&'a CatalogWarning>)
    ensures
        shown.deep_view() == catalog@.warnings.filter(
            |warning: WarningView| warning_is_shown(*caller, catalog@, warning),
        ),
{
    let operator = caller.may(Role::Operator);
    let visible = shown_ids(caller, catalog);
    let ghost all = catalog@.warnings;
    let ghost keep = |warning: WarningView| warning_is_shown(*caller, catalog@, warning);
    let mut shown: Vec<&CatalogWarning> = Vec::new();
    let mut i: usize = 0;
    proof {
        lemma_filter_none(all, keep);
        assert(shown.deep_view() =~= Seq::empty());
    }
    while i < catalog.warnings.len()
        invariant
            i <= catalog.warnings.len(),
            all == catalog.warnings.deep_view(),
            operator == caller.allowed(Role::Operator),
            visible.deep_view() == ids_of(shown_of(*caller, catalog@.entries)),
            keep == (|warning: WarningView| warning_is_shown(*caller, catalog@, warning)),
            shown.deep_view() == all.take(i as int).filter(keep),
        decreases catalog.warnings.len() - i,
    {
        let warning = &catalog.warnings[i];
        proof {
            lemma_filter_step(all, i as int, keep);
            assert(all[i as int] == warning@);
        }
        if operator || (!warning.operator_only && warning.is_visible_to(visible.as_slice())) {
            let ghost so_far = shown.deep_view();
            shown.push(warning);
            assert(shown.deep_view() =~= so_far.push(warning@));
        }
        i = i + 1;
    }
    assert(all.take(i as int) =~= all);
    shown
}

/// A warning that is shown to anybody below an operator names nothing that the
/// same caller's listing leaves out.
pub proof fn a_warning_names_only_what_is_listed(
    caller: Caller,
    catalog: CatalogView,
    warning: WarningView,
    i: int,
)
    requires
        !caller.allowed(Role::Operator),
        warning_is_shown(caller, catalog, warning),
        0 <= i < warning.about.len(),
    ensures
        exists|k: int|
            0 <= k < catalog.entries.len() && (#[trigger] catalog.entries[k]).radargram_id
                == warning.about[i] && !catalog.entries[k].unlisted,
{
    let keep = |entry: EntryView| is_shown(caller, entry);
    let shown = shown_of(caller, catalog.entries);
    assert(ids_of(shown).contains(warning.about[i]));
    let j = choose|j: int| 0 <= j < ids_of(shown).len() && ids_of(shown)[j] == warning.about[i];
    assert(shown[j].radargram_id == warning.about[i]);
    catalog.entries.lemma_filter_pred(keep, j);
    assert(shown.contains(shown[j]));
    catalog.entries.lemma_filter_contains_rev(keep, shown[j]);
    let k = choose|k: int| 0 <= k < catalog.entries.len() && catalog.entries[k] == shown[j];
    assert(catalog.entries[k].radargram_id == warning.about[i]);
}

/// Whoever can list a radargram again is shown it, and every warning.
pub proof fn an_operator_is_shown_everything(caller: Caller, catalog: CatalogView)
    requires
        caller.allowed(Role::Operator),
    ensures
        shown_of(caller, catalog.entries) == catalog.entries,
        forall|warning: WarningView| #[trigger] warning_is_shown(caller, catalog, warning),
{
    lemma_keeps_all(catalog.entries, |entry: EntryView| is_shown(caller, entry));
}

proof fn lemma_keeps_all(entries: Seq<EntryView>, keep: spec_fn(EntryView) -> bool)
    requires
        forall|entry: EntryView| #[trigger] keep(entry),
    ensures
        entries.filter(keep) == entries,
    decreases entries.len(),
{
    reveal_with_fuel(Seq::filter, 1);
    if entries.len() > 0 {
        lemma_keeps_all(entries.drop_last(), keep);
        assert(keep(entries.last()));
        assert(entries.drop_last().push(entries.last()) =~= entries);
    } else {
        assert(entries.filter(keep) =~= entries);
    }
}

} // verus!
