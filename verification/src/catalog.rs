//! The catalog: which radargrams are served, and what each one is called.
//!
//! This module holds the types and what can be asked of a finished catalog.
//! How one comes about is in [`crate::discovery`], which finds candidates,
//! [`crate::selection`], which picks one file per id, and
//! [`crate::resolution`], which applies what the project says.
use vstd::prelude::*;

use crate::elevation::{Elevation, ElevationRange};
use crate::identity::{is_slug, DisplayName, GroupId, GroupName, RadargramId, RevisionId};
use crate::overrides::{copy_display_name, copy_group_id, copy_group_name, copy_text};
use crate::paths::FilePath;
use crate::rows::{lemma_filter_none, lemma_filter_step};
use crate::text;
use crate::text_map::TextMap;

verus! {

broadcast use vstd::string::group_string_axioms;

/// The catalog metadata a radargram's own file carries.
#[derive(Debug, PartialEq)]
pub struct FileMetadata {
    pub display_name: Option<DisplayName>,
    pub group_name: Option<GroupName>,
    pub group_id: Option<GroupId>,
}

/// The metadata of a file, as plain values.
#[verifier::ext_equal]
pub struct FileView {
    pub display_name: Option<Seq<char>>,
    pub group_name: Option<Seq<char>>,
    pub group_id: Option<Seq<char>>,
}

impl View for FileMetadata {
    type V = FileView;

    open spec fn view(&self) -> FileView {
        FileView {
            display_name: self.display_name.deep_view(),
            group_name: self.group_name.deep_view(),
            group_id: self.group_id.deep_view(),
        }
    }
}

impl Default for FileMetadata {
    /// A file that says nothing.
    fn default() -> (metadata: Self)
        ensures
            metadata@ == (FileView { display_name: None, group_name: None, group_id: None }),
    {
        FileMetadata { display_name: None, group_name: None, group_id: None }
    }
}

impl Clone for FileMetadata {
    fn clone(&self) -> (copy: Self)
        ensures
            copy == *self,
    {
        FileMetadata {
            display_name: copy_display_name(&self.display_name),
            group_name: copy_group_name(&self.group_name),
            group_id: copy_group_id(&self.group_id),
        }
    }
}

/// One radargram of the catalog: the file that stands for its id.
#[derive(Debug, PartialEq)]
pub struct CatalogEntry {
    pub radargram_id: RadargramId,
    pub revision_id: RevisionId,
    pub display_name: Option<DisplayName>,
    pub group_name: Option<GroupName>,
    pub group_id: Option<GroupId>,
    pub processing_datetime: String,
    pub shape: (usize, usize),
    /// Path below the root, with `/` between its components. For telling
    /// entries apart on screen; it is no part of the entry's identity.
    pub relative_path: String,
    /// Which of the catalog's roots this was found under.
    pub root: usize,
    /// Left out of listings, though still reachable by its id.
    pub unlisted: bool,
    /// The floor of the corrected view.
    pub elevation_min: Option<Elevation>,
    /// The cap on a trace's surface elevation.
    pub elevation_max: Option<Elevation>,
    /// What the file said, before the project's overrides.
    pub from_file: FileMetadata,
}

/// An entry, as plain values.
#[verifier::ext_equal]
pub struct EntryView {
    pub radargram_id: Seq<char>,
    pub revision_id: Seq<char>,
    pub display_name: Option<Seq<char>>,
    pub group_name: Option<Seq<char>>,
    pub group_id: Option<Seq<char>>,
    pub processing_datetime: Seq<char>,
    pub shape: (usize, usize),
    pub relative_path: Seq<char>,
    pub root: usize,
    pub unlisted: bool,
    pub elevation_min: Option<Elevation>,
    pub elevation_max: Option<Elevation>,
    pub from_file: FileView,
}

impl View for CatalogEntry {
    type V = EntryView;

    open spec fn view(&self) -> EntryView {
        EntryView {
            radargram_id: self.radargram_id@,
            revision_id: self.revision_id@,
            display_name: self.display_name.deep_view(),
            group_name: self.group_name.deep_view(),
            group_id: self.group_id.deep_view(),
            processing_datetime: self.processing_datetime@,
            shape: self.shape,
            relative_path: self.relative_path@,
            root: self.root,
            unlisted: self.unlisted,
            elevation_min: self.elevation_min,
            elevation_max: self.elevation_max,
            from_file: self.from_file@,
        }
    }
}

impl DeepView for CatalogEntry {
    type V = EntryView;

    open spec fn deep_view(&self) -> EntryView {
        self@
    }
}

impl Clone for CatalogEntry {
    fn clone(&self) -> (copy: Self)
        ensures
            copy == *self,
    {
        CatalogEntry {
            radargram_id: self.radargram_id.clone(),
            revision_id: self.revision_id.clone(),
            display_name: copy_display_name(&self.display_name),
            group_name: copy_group_name(&self.group_name),
            group_id: copy_group_id(&self.group_id),
            processing_datetime: self.processing_datetime.clone(),
            shape: (self.shape.0, self.shape.1),
            relative_path: self.relative_path.clone(),
            root: self.root,
            unlisted: self.unlisted,
            elevation_min: self.elevation_min,
            elevation_max: self.elevation_max,
            from_file: self.from_file.clone(),
        }
    }
}

impl CatalogEntry {
    /// What the entry is called on screen: its display name, or its id where
    /// it has none.
    pub fn effective_label(&self) -> (label: String)
        ensures
            label@ == (match self@.display_name {
                Some(name) => name,
                None => self@.radargram_id,
            }),
    {
        match &self.display_name {
            Some(name) => name.to_text(),
            None => self.radargram_id.to_text(),
        }
    }

    /// The bounds the corrected view draws this radargram within.
    pub fn elevation_range(&self) -> (range: ElevationRange)
        ensures
            range.min == self.elevation_min,
            range.max == self.elevation_max,
    {
        ElevationRange { min: self.elevation_min, max: self.elevation_max }
    }
}

/// A problem that does not stop the catalog from being served.
#[derive(Debug, PartialEq)]
pub struct CatalogWarning {
    pub message: String,
    /// The radargrams the message names, so that a listing can drop a warning
    /// it must not show. Empty where it names none of the catalog's.
    pub about: Vec<RadargramId>,
    /// Shown to `operator` and above only.
    pub operator_only: bool,
}

/// A warning, as plain values.
#[verifier::ext_equal]
pub struct WarningView {
    pub message: Seq<char>,
    pub about: Seq<Seq<char>>,
    pub operator_only: bool,
}

impl View for CatalogWarning {
    type V = WarningView;

    open spec fn view(&self) -> WarningView {
        WarningView {
            message: self.message@,
            about: self.about.deep_view(),
            operator_only: self.operator_only,
        }
    }
}

impl DeepView for CatalogWarning {
    type V = WarningView;

    open spec fn deep_view(&self) -> WarningView {
        self@
    }
}

impl Clone for CatalogWarning {
    fn clone(&self) -> (copy: Self)
        ensures
            copy@ == self@,
    {
        let about = self.about.clone();
        assert(about.deep_view() =~= self.about.deep_view());
        CatalogWarning {
            message: self.message.clone(),
            about,
            operator_only: self.operator_only,
        }
    }
}

/// Whether one of `ids` is `id`.
pub fn names_id(ids: &[RadargramId], id: &RadargramId) -> (named: bool)
    ensures
        named == ids.deep_view().contains(id@),
{
    let mut i: usize = 0;
    while i < ids.len()
        invariant
            i <= ids@.len(),
            forall|j: int| 0 <= j < i ==> #[trigger] ids.deep_view()[j] != id@,
        decreases ids@.len() - i,
    {
        assert(ids.deep_view()[i as int] == ids@[i as int]@);
        if ids[i].same(id) {
            return true;
        }
        i = i + 1;
    }
    false
}

impl WarningView {
    /// Whether everything the warning names is among `visible`.
    pub open spec fn visible_among(self, visible: Seq<Seq<char>>) -> bool {
        forall|i: int| 0 <= i < self.about.len() ==> visible.contains(#[trigger] self.about[i])
    }
}

impl CatalogWarning {
    /// Whether this warning can be shown to someone who sees only `visible`:
    /// everything it names is among them, in whatever order.
    pub fn is_visible_to(&self, visible: &[RadargramId]) -> (shown: bool)
        ensures
            shown == self@.visible_among(visible.deep_view()),
    {
        let mut i: usize = 0;
        while i < self.about.len()
            invariant
                i <= self.about.len(),
                forall|j: int|
                    0 <= j < i ==> visible.deep_view().contains(#[trigger] self@.about[j]),
            decreases self.about.len() - i,
        {
            assert(self@.about[i as int] == self.about[i as int]@);
            if !names_id(visible, &self.about[i]) {
                return false;
            }
            i = i + 1;
        }
        true
    }
}

/// One place radargrams are found, and what may be done there.
///
/// The project's own directories are the writable upper layer; whatever it
/// points at outside itself is a read-only lower one. Nothing is ever written
/// below the project.
#[derive(Debug, PartialEq)]
pub struct CatalogRoot {
    /// Resolved once, by the caller.
    pub path: FilePath,
    /// Whether `path` names one file rather than a directory.
    pub is_file: bool,
    /// Whether it may be written to.
    pub writable: bool,
    /// Directories whose own name is structure rather than grouping.
    pub group_bases: Vec<FilePath>,
}

/// A root, as plain values.
#[verifier::ext_equal]
pub struct RootView {
    pub path: Seq<Seq<char>>,
    pub is_file: bool,
    pub writable: bool,
    pub group_bases: Seq<Seq<Seq<char>>>,
}

impl View for CatalogRoot {
    type V = RootView;

    open spec fn view(&self) -> RootView {
        RootView {
            path: self.path@,
            is_file: self.is_file,
            writable: self.writable,
            group_bases: self.group_bases.deep_view(),
        }
    }
}

impl DeepView for CatalogRoot {
    type V = RootView;

    open spec fn deep_view(&self) -> RootView {
        self@
    }
}

impl CatalogRoot {
    /// A single root, for callers that have one: a bare directory or a single
    /// file.
    pub fn single(path: FilePath, is_file: bool) -> (root: Self)
        ensures
            root@ == (RootView {
                path: path@,
                is_file,
                writable: true,
                group_bases: Seq::empty(),
            }),
    {
        let root = CatalogRoot { path, is_file, writable: true, group_bases: Vec::new() };
        assert(root@.group_bases =~= Seq::empty());
        root
    }
}

/// Whether the root that an entry names may be written to. A root that is not
/// there may not.
pub open spec fn root_writable(roots: Seq<RootView>, root: usize) -> bool {
    root < roots.len() && roots[root as int].writable
}

/// Whether the root that an entry names may be written to.
pub fn writable_root(roots: &[CatalogRoot], root: usize) -> (writable: bool)
    ensures
        writable == root_writable(roots.deep_view(), root),
{
    if root < roots.len() {
        assert(roots.deep_view()[root as int] == roots@[root as int]@);
        roots[root].writable
    } else {
        false
    }
}

/// A decision not to serve a radargram that is no longer anywhere.
///
/// Neither an error nor cleared by itself: an archive can be away for a week
/// and come back, and the decision must still be there when it does.
#[derive(Debug, PartialEq)]
pub struct VestigialIgnore {
    pub radargram_id: RadargramId,
    pub since: Option<String>,
}

/// A decision with nothing to act on, as plain values.
#[verifier::ext_equal]
pub struct VestigialView {
    pub radargram_id: Seq<char>,
    pub since: Option<Seq<char>>,
}

impl View for VestigialIgnore {
    type V = VestigialView;

    open spec fn view(&self) -> VestigialView {
        VestigialView { radargram_id: self.radargram_id@, since: self.since.deep_view() }
    }
}

impl DeepView for VestigialIgnore {
    type V = VestigialView;

    open spec fn deep_view(&self) -> VestigialView {
        self@
    }
}

impl Clone for VestigialIgnore {
    fn clone(&self) -> (copy: Self)
        ensures
            copy == *self,
    {
        VestigialIgnore {
            radargram_id: self.radargram_id.clone(),
            since: copy_text(&self.since),
        }
    }
}

/// What is served.
#[derive(Debug, PartialEq)]
pub struct Catalog {
    /// Everything the project serves, with the ignored left out.
    pub entries: Vec<CatalogEntry>,
    /// Everything discovery found, before any override was applied. Resolving
    /// again starts here, so that lifting a decision brings back what it hid.
    pub unresolved: Vec<CatalogEntry>,
    /// Problems with the files, and groups whose members disagree.
    pub warnings: Vec<CatalogWarning>,
    /// The problems with the files alone, which no override changes.
    pub file_warnings: Vec<CatalogWarning>,
    /// One name per group.
    pub group_names: TextMap<GroupId, GroupName>,
    /// Decisions with nothing to act on.
    pub vestigial_ignores: Vec<VestigialIgnore>,
}

/// A catalog, as plain values.
#[verifier::ext_equal]
pub struct CatalogView {
    pub entries: Seq<EntryView>,
    pub unresolved: Seq<EntryView>,
    pub warnings: Seq<WarningView>,
    pub file_warnings: Seq<WarningView>,
    pub group_names: Map<Seq<char>, Seq<char>>,
    pub vestigial_ignores: Seq<VestigialView>,
}

impl View for Catalog {
    type V = CatalogView;

    open spec fn view(&self) -> CatalogView {
        CatalogView {
            entries: self.entries.deep_view(),
            unresolved: self.unresolved.deep_view(),
            warnings: self.warnings.deep_view(),
            file_warnings: self.file_warnings.deep_view(),
            group_names: self.group_names.deep_view(),
            vestigial_ignores: self.vestigial_ignores.deep_view(),
        }
    }
}

impl CatalogView {
    /// A catalog with nothing in it.
    pub open spec fn nothing() -> CatalogView {
        CatalogView {
            entries: Seq::empty(),
            unresolved: Seq::empty(),
            warnings: Seq::empty(),
            file_warnings: Seq::empty(),
            group_names: Map::empty(),
            vestigial_ignores: Seq::empty(),
        }
    }
}

impl Default for Catalog {
    /// A catalog with nothing in it.
    fn default() -> (catalog: Self)
        ensures
            catalog@ == CatalogView::nothing(),
    {
        let catalog = Catalog {
            entries: Vec::new(),
            unresolved: Vec::new(),
            warnings: Vec::new(),
            file_warnings: Vec::new(),
            group_names: TextMap::new(),
            vestigial_ignores: Vec::new(),
        };
        proof {
            assert(catalog@.entries =~= Seq::empty());
            assert(catalog@.unresolved =~= Seq::empty());
            assert(catalog@.warnings =~= Seq::empty());
            assert(catalog@.file_warnings =~= Seq::empty());
            assert(catalog@.group_names =~= Map::empty());
            assert(catalog@.vestigial_ignores =~= Seq::empty());
        }
        catalog
    }
}

impl Clone for Catalog {
    fn clone(&self) -> (copy: Self)
        ensures
            copy@ == self@,
    {
        let entries = self.entries.clone();
        let unresolved = self.unresolved.clone();
        let warnings = self.warnings.clone();
        let file_warnings = self.file_warnings.clone();
        let group_names = self.group_names.clone();
        let vestigial_ignores = self.vestigial_ignores.clone();
        proof {
            assert(entries.deep_view() =~= self.entries.deep_view());
            assert(unresolved.deep_view() =~= self.unresolved.deep_view());
            assert(warnings.deep_view() =~= self.warnings.deep_view());
            assert(file_warnings.deep_view() =~= self.file_warnings.deep_view());
            assert(group_names.deep_view() =~= self.group_names.deep_view());
            assert(vestigial_ignores.deep_view() =~= self.vestigial_ignores.deep_view());
        }
        Catalog { entries, unresolved, warnings, file_warnings, group_names, vestigial_ignores }
    }
}

/// The reserved id of the radargrams in no group. It starts with `_`, so no
/// group can have it.
pub const NO_GROUP_ID: &'static str = "_none";

/// Whether an entry is in `group`, where [`NO_GROUP_ID`] stands for being in
/// none.
pub open spec fn in_group(entry: EntryView, group: Seq<char>) -> bool {
    if group == NO_GROUP_ID@ {
        entry.group_id is None
    } else {
        entry.group_id == Some(group)
    }
}

/// Whether one of the entries has this id.
pub open spec fn has_id(entries: Seq<EntryView>, id: Seq<char>) -> bool {
    exists|i: int| 0 <= i < entries.len() && (#[trigger] entries[i]).radargram_id == id
}

/// The first entry with this id.
pub open spec fn entry_with_id(entries: Seq<EntryView>, id: Seq<char>) -> Option<EntryView>
    decreases entries.len(),
{
    if entries.len() == 0 {
        None
    } else {
        match entry_with_id(entries.drop_last(), id) {
            Some(entry) => Some(entry),
            None => if entries.last().radargram_id == id {
                Some(entries.last())
            } else {
                None
            },
        }
    }
}

/// Looking an id up finds an entry with that id, or there is none.
pub proof fn lemma_entry_with_id(entries: Seq<EntryView>, id: Seq<char>)
    ensures
        match entry_with_id(entries, id) {
            Some(entry) => entry.radargram_id == id && entries.contains(entry),
            None => !has_id(entries, id),
        },
    decreases entries.len(),
{
    if entries.len() > 0 {
        let rest = entries.drop_last();
        lemma_entry_with_id(rest, id);
        match entry_with_id(rest, id) {
            Some(entry) => {
                let i = choose|i: int| 0 <= i < rest.len() && rest[i] == entry;
                assert(entries[i] == entry);
            },
            None => {
                if entries.last().radargram_id == id {
                    assert(entries[entries.len() - 1] == entries.last());
                } else if has_id(entries, id) {
                    let i = choose|i: int|
                        0 <= i < entries.len() && (#[trigger] entries[i]).radargram_id == id;
                    assert(rest[i].radargram_id == id);
                }
            },
        }
    }
}

impl Catalog {
    /// The entry of a radargram, where it is served.
    pub fn find_entry(&self, radargram_id: &str) -> (entry: Option<&CatalogEntry>)
        ensures
            match entry {
                Some(entry) => entry_with_id(self@.entries, radargram_id@) == Some(entry@),
                None => entry_with_id(self@.entries, radargram_id@) is None,
            },
    {
        let ghost all = self@.entries;
        let mut i: usize = 0;
        proof {
            assert(all.take(0) =~= Seq::empty());
        }
        while i < self.entries.len()
            invariant
                i <= self.entries.len(),
                all == self.entries.deep_view(),
                entry_with_id(all.take(i as int), radargram_id@) is None,
            decreases self.entries.len() - i,
        {
            proof {
                assert(all.take(i + 1).drop_last() =~= all.take(i as int));
                assert(all.take(i + 1).last() == self.entries[i as int]@);
            }
            if text::equal(self.entries[i].radargram_id.as_str(), radargram_id) {
                proof {
                    lemma_found_stays(all, i + 1, radargram_id@);
                }
                return Some(&self.entries[i]);
            }
            i = i + 1;
        }
        proof {
            assert(all.take(i as int) =~= all);
        }
        None
    }

    /// The entries of `group`, in the order of the catalog.
    pub fn entries_in_group(&self, group: &str) -> (members: Vec<&CatalogEntry>)
        ensures
            members.deep_view() == self@.entries.filter(|entry: EntryView| in_group(entry, group@)),
    {
        let ungrouped = text::equal(group, NO_GROUP_ID);
        let ghost all = self@.entries;
        let ghost wanted = |entry: EntryView| in_group(entry, group@);
        let mut members: Vec<&CatalogEntry> = Vec::new();
        let mut i: usize = 0;
        proof {
            lemma_filter_none(all, wanted);
            assert(members.deep_view() =~= all.take(0).filter(wanted));
        }
        while i < self.entries.len()
            invariant
                i <= self.entries.len(),
                all == self.entries.deep_view(),
                wanted == (|entry: EntryView| in_group(entry, group@)),
                ungrouped == (group@ == NO_GROUP_ID@),
                members.deep_view() == all.take(i as int).filter(wanted),
            decreases self.entries.len() - i,
        {
            let entry = &self.entries[i];
            proof {
                lemma_filter_step(all, i as int, wanted);
                assert(all[i as int] == entry@);
            }
            let member = match &entry.group_id {
                None => ungrouped,
                Some(id) => !ungrouped && text::equal(id.as_str(), group),
            };
            if member {
                let ghost before = members.deep_view();
                members.push(entry);
                assert(members.deep_view() =~= before.push(entry@));
            }
            i = i + 1;
        }
        proof {
            assert(all.take(i as int) =~= all);
        }
        members
    }

    /// Decisions about radargrams that are not anywhere at present.
    pub fn vestigial_ignores(&self) -> (ignores: &[VestigialIgnore])
        ensures
            ignores.deep_view() == self@.vestigial_ignores,
    {
        assert(self.vestigial_ignores.deep_view() =~= self@.vestigial_ignores);
        self.vestigial_ignores.as_slice()
    }
}

proof fn lemma_found_stays(entries: Seq<EntryView>, n: int, id: Seq<char>)
    requires
        0 <= n <= entries.len(),
        entry_with_id(entries.take(n), id) is Some,
    ensures
        entry_with_id(entries, id) == entry_with_id(entries.take(n), id),
    decreases entries.len(),
{
    if n < entries.len() {
        assert(entries.drop_last().take(n) =~= entries.take(n));
        lemma_found_stays(entries.drop_last(), n, id);
    } else {
        assert(entries.take(n) =~= entries);
    }
}

/// No group that anything can be in has the id kept for being in none.
pub proof fn no_group_is_the_ungrouped(group: Seq<char>)
    requires
        is_slug(group),
    ensures
        group != NO_GROUP_ID@,
{
    reveal_strlit("_none");
}

} // verus!
