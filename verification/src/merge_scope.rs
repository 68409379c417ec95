//! What a merged download covers.
use vstd::prelude::*;

use crate::catalog::{in_group, Catalog, CatalogEntry, CatalogView, EntryView};
use crate::rows::{lemma_filter_none, lemma_filter_step};

verus! {

/// What a merged download covers: one group, or the whole catalog.
///
/// The two differ only in which entries they select and what the file is
/// called, so every merged product is offered at both.
#[derive(Debug, PartialEq)]
pub enum MergeScope {
    /// Every radargram the server knows about, grouped or not.
    Catalog,
    /// One group id, or [`crate::catalog::NO_GROUP_ID`] for those in none.
    Group(String),
}

impl MergeScope {
    /// The entries the scope selects.
    pub open spec fn selects(self, catalog: CatalogView) -> Seq<EntryView> {
        match self {
            MergeScope::Catalog => catalog.entries,
            MergeScope::Group(id) => catalog.entries.filter(
                |entry: EntryView| in_group(entry, id@),
            ),
        }
    }

    /// The entries the scope selects, in the order of the catalog.
    pub fn entries<'a>(&self, catalog: &'a Catalog) -> (entries: Vec<&'a CatalogEntry>)
        ensures
            entries.deep_view() == self.selects(catalog@),
    {
        match self {
            MergeScope::Catalog => {
                let mut entries: Vec<&CatalogEntry> = Vec::new();
                let ghost all = catalog@.entries;
                let mut i: usize = 0;
                proof {
                    assert(entries.deep_view() =~= all.take(0));
                }
                while i < catalog.entries.len()
                    invariant
                        i <= catalog.entries.len(),
                        all == catalog.entries.deep_view(),
                        entries.deep_view() == all.take(i as int),
                    decreases catalog.entries.len() - i,
                {
                    let ghost so_far = entries.deep_view();
                    entries.push(&catalog.entries[i]);
                    proof {
                        assert(entries.deep_view() =~= so_far.push(all[i as int]));
                        assert(entries.deep_view() =~= all.take(i + 1));
                    }
                    i = i + 1;
                }
                assert(all.take(i as int) =~= all);
                entries
            },
            MergeScope::Group(id) => catalog.entries_in_group(id.as_str()),
        }
    }

    /// What a merged download covers, and how many members it leaves out.
    /// Unlisted members are left out, and counted, because a merged file that
    /// omits members in silence looks complete.
    pub fn listed_entries<'a>(&self, catalog: &'a Catalog) -> (found: (Vec<&'a CatalogEntry>, usize))
        ensures
            found.0.deep_view() == self.selects(catalog@).filter(
                |entry: EntryView| !entry.unlisted,
            ),
            found.1 == self.selects(catalog@).len() - found.0.len(),
    {
        let selected = self.entries(catalog);
        let ghost all = selected.deep_view();
        let ghost keep = |entry: EntryView| !entry.unlisted;
        let mut listed: Vec<&CatalogEntry> = Vec::new();
        let mut omitted: usize = 0;
        let mut i: usize = 0;
        proof {
            lemma_filter_none(all, keep);
            assert(listed.deep_view() =~= Seq::empty());
        }
        while i < selected.len()
            invariant
                i <= selected.len(),
                all == selected.deep_view(),
                keep == (|entry: EntryView| !entry.unlisted),
                listed.deep_view() == all.take(i as int).filter(keep),
                omitted + listed.len() == i,
            decreases selected.len() - i,
        {
            let entry: &CatalogEntry = selected[i];
            proof {
                lemma_filter_step(all, i as int, keep);
                assert(all[i as int] == entry@);
            }
            if entry.unlisted {
                omitted = omitted + 1;
            } else {
                let ghost so_far = listed.deep_view();
                listed.push(entry);
                assert(listed.deep_view() =~= so_far.push(entry@));
            }
            i = i + 1;
        }
        assert(all.take(i as int) =~= all);
        (listed, omitted)
    }

    /// The leading part of the download's file name. A slug either way, so it
    /// needs no quoting in a header.
    pub fn slug(&self) -> (slug: &str)
        ensures
            slug@ == (match self {
                MergeScope::Catalog => "catalog"@,
                MergeScope::Group(id) => id@,
            }),
    {
        match self {
            MergeScope::Catalog => "catalog",
            MergeScope::Group(id) => id.as_str(),
        }
    }

    /// The scope inside a sentence.
    pub fn describe(&self) -> (text: String)
        ensures
            text@ == (match self {
                MergeScope::Catalog => "this catalog"@,
                MergeScope::Group(id) => "group '"@ + id@ + "'"@,
            }),
    {
        match self {
            MergeScope::Catalog => "this catalog".to_owned(),
            MergeScope::Group(id) => {
                let mut text = "group '".to_owned();
                text.append(id.as_str());
                text.append("'");
                text
            },
        }
    }

    /// The error code for a scope that selects nothing: a group that is not
    /// there and a server with nothing to serve have different causes.
    pub fn empty_code(&self) -> (code: &'static str)
        ensures
            code@ == (match self {
                MergeScope::Catalog => "catalog_empty"@,
                MergeScope::Group(_) => "group_not_found"@,
            }),
    {
        match self {
            MergeScope::Catalog => "catalog_empty",
            MergeScope::Group(_) => "group_not_found",
        }
    }
}

/// A merged download accounts for every member: each is either in it or
/// unlisted.
pub proof fn every_member_is_listed_or_unlisted(
    scope: MergeScope,
    catalog: CatalogView,
    entry: EntryView,
)
    requires
        scope.selects(catalog).contains(entry),
    ensures
        scope.selects(catalog).filter(|entry: EntryView| !entry.unlisted).contains(entry)
            <==> !entry.unlisted,
{
    let all = scope.selects(catalog);
    let keep = |entry: EntryView| !entry.unlisted;
    let k = choose|k: int| 0 <= k < all.len() && all[k] == entry;
    if !entry.unlisted {
        all.lemma_filter_contains(keep, k);
    }
    if all.filter(keep).contains(entry) {
        let i = choose|i: int| 0 <= i < all.filter(keep).len() && all.filter(keep)[i] == entry;
        all.lemma_filter_pred(keep, i);
    }
}

/// The catalog's scope covers what every group's scope covers, and those in no
/// group besides.
pub proof fn the_catalog_covers_every_group(
    group: String,
    catalog: CatalogView,
    entry: EntryView,
)
    requires
        MergeScope::Group(group).selects(catalog).contains(entry),
    ensures
        MergeScope::Catalog.selects(catalog).contains(entry),
{
    catalog.entries.lemma_filter_contains_rev(
        |entry: EntryView| in_group(entry, group@),
        entry,
    );
}

} // verus!
