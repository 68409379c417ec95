//! From candidates to one entry per radargram.
//!
//! Reading a file is the caller's work; what it found is handed in beside each
//! candidate. Where several files claim one id, the project's own copy stands
//! for it, and within one layer the most recently processed one does.
use vstd::prelude::*;

use crate::catalog::{
    has_id, root_writable, writable_root, Catalog, CatalogEntry, CatalogRoot, CatalogWarning,
    EntryView, FileMetadata, FileView, RootView, WarningView,
};
use crate::discovery::{Candidate, CandidateView};
use crate::identity::{
    group_slug, name_from_input, revision_of, DisplayName, GroupId, GroupName, RadargramId,
    RevisionId,
};
use crate::overrides::{copy_display_name, copy_group_id, copy_group_name, CatalogOverrides};
use crate::resolution;
use crate::resolution::{newer, resolved};
use crate::sorting;
use crate::sorting::{rank_of, sorted, Ranked};
use crate::text;
use crate::text::{joined, text_less};
use crate::text_map::{key_order, TextMap};

verus! {

broadcast use vstd::string::group_string_axioms;

/// What a processed radargram says about itself.
#[derive(Debug, PartialEq)]
pub struct RadargramMeta {
    pub radargram_id: RadargramId,
    pub processing_datetime: String,
    pub display_name: Option<DisplayName>,
    pub group_name: Option<GroupName>,
    pub group_id: Option<GroupId>,
    pub shape: (usize, usize),
}

/// What a processed radargram says about itself, as plain values.
#[verifier::ext_equal]
pub struct MetaView {
    pub radargram_id: Seq<char>,
    pub processing_datetime: Seq<char>,
    pub display_name: Option<Seq<char>>,
    pub group_name: Option<Seq<char>>,
    pub group_id: Option<Seq<char>>,
    pub shape: (usize, usize),
}

impl View for RadargramMeta {
    type V = MetaView;

    open spec fn view(&self) -> MetaView {
        MetaView {
            radargram_id: self.radargram_id@,
            processing_datetime: self.processing_datetime@,
            display_name: self.display_name.deep_view(),
            group_name: self.group_name.deep_view(),
            group_id: self.group_id.deep_view(),
            shape: self.shape,
        }
    }
}

/// What reading a file found.
#[derive(Debug, PartialEq)]
pub enum Inspection {
    /// It could not be read, and why.
    Unreadable(String),
    /// A radargram from before ids, with the version that wrote it.
    Legacy(String),
    /// Something else altogether.
    Foreign,
    /// A radargram.
    Supported(RadargramMeta),
}

/// What reading a file found, as plain values.
#[verifier::ext_equal]
pub enum InspectionView {
    Unreadable(Seq<char>),
    Legacy(Seq<char>),
    Foreign,
    Supported(MetaView),
}

impl View for Inspection {
    type V = InspectionView;

    open spec fn view(&self) -> InspectionView {
        match self {
            Inspection::Unreadable(reason) => InspectionView::Unreadable(reason@),
            Inspection::Legacy(version) => InspectionView::Legacy(version@),
            Inspection::Foreign => InspectionView::Foreign,
            Inspection::Supported(meta) => InspectionView::Supported(meta@),
        }
    }
}

/// A candidate, and what reading it found.
#[derive(Debug, PartialEq)]
pub struct Inspected {
    pub candidate: Candidate,
    pub inspection: Inspection,
}

/// A candidate and what reading it found, as plain values.
#[verifier::ext_equal]
pub struct InspectedView {
    pub candidate: CandidateView,
    pub inspection: InspectionView,
}

impl DeepView for Inspected {
    type V = InspectedView;

    open spec fn deep_view(&self) -> InspectedView {
        InspectedView { candidate: self.candidate@, inspection: self.inspection@ }
    }
}

// ---------------------------------------------------------------------------
// The entry a file makes
// ---------------------------------------------------------------------------

/// The name and id of the group a file is in: its own, or those its directory
/// suggests.
pub open spec fn group_of_file(meta: MetaView, hint: Option<Seq<char>>) -> (
    Option<Seq<char>>,
    Option<Seq<char>>,
) {
    let suggested = match hint {
        Some(text) => name_from_input(text),
        None => None,
    };
    match (meta.group_name, suggested) {
        (Some(name), _) => (Some(name), meta.group_id),
        (None, Some(name)) => (
            Some(name),
            if group_slug(name).len() > 0 {
                Some(group_slug(name))
            } else {
                None
            },
        ),
        (None, None) => (None, None),
    }
}

/// The entry that a radargram at a candidate's place makes, before the project
/// has its say.
pub open spec fn entry_of_file(candidate: CandidateView, meta: MetaView) -> EntryView {
    let (group_name, group_id) = group_of_file(meta, candidate.group_hint);
    EntryView {
        radargram_id: meta.radargram_id,
        revision_id: revision_of(meta.radargram_id, meta.processing_datetime),
        display_name: meta.display_name,
        group_name,
        group_id,
        processing_datetime: meta.processing_datetime,
        shape: meta.shape,
        relative_path: candidate.relative_path,
        root: candidate.root,
        unlisted: false,
        elevation_min: None,
        elevation_max: None,
        from_file: FileView { display_name: meta.display_name, group_name, group_id },
    }
}

/// The entries that the radargrams among the candidates make, in order. What
/// is not a radargram is passed over.
pub open spec fn entries_found(inspected: Seq<InspectedView>) -> Seq<EntryView>
    decreases inspected.len(),
{
    if inspected.len() == 0 {
        Seq::empty()
    } else {
        let before = entries_found(inspected.drop_last());
        match inspected.last().inspection {
            InspectionView::Supported(meta) => before.push(
                entry_of_file(inspected.last().candidate, meta),
            ),
            _ => before,
        }
    }
}

/// What is said of a candidate that could not be read.
pub open spec fn read_failure(candidate: CandidateView, reason: Seq<char>) -> WarningView {
    WarningView {
        message: candidate.relative_path + ": "@ + reason,
        about: Seq::empty(),
        operator_only: false,
    }
}

/// One warning for each candidate that could not be read.
pub open spec fn read_failures(inspected: Seq<InspectedView>) -> Seq<WarningView>
    decreases inspected.len(),
{
    if inspected.len() == 0 {
        Seq::empty()
    } else {
        let before = read_failures(inspected.drop_last());
        match inspected.last().inspection {
            InspectionView::Unreadable(reason) => before.push(
                read_failure(inspected.last().candidate, reason),
            ),
            _ => before,
        }
    }
}

fn find_group(meta: &RadargramMeta, hint: &Option<String>) -> (group: (
    Option<GroupName>,
    Option<GroupId>,
))
    ensures
        (group.0.deep_view(), group.1.deep_view()) == group_of_file(meta@, hint.deep_view()),
{
    if let Some(name) = &meta.group_name {
        return (Some(name.clone()), copy_group_id(&meta.group_id));
    }
    let suggested = match hint {
        Some(text) => GroupName::from_input(text.as_str()),
        None => None,
    };
    match suggested {
        Some(name) => {
            let id = match GroupId::from_fallback(name.as_str()) {
                Ok(id) => Some(id),
                Err(_) => None,
            };
            (Some(name), id)
        },
        None => (None, None),
    }
}

/// The entry that a radargram at a candidate's place makes.
pub fn make_entry(candidate: &Candidate, meta: &RadargramMeta) -> (entry: CatalogEntry)
    ensures
        entry@ == entry_of_file(candidate@, meta@),
{
    let (group_name, group_id) = find_group(meta, &candidate.group_hint);
    CatalogEntry {
        radargram_id: meta.radargram_id.clone(),
        revision_id: RevisionId::fingerprint_v1(
            &meta.radargram_id,
            meta.processing_datetime.as_str(),
        ),
        display_name: copy_display_name(&meta.display_name),
        group_name: copy_group_name(&group_name),
        group_id: copy_group_id(&group_id),
        processing_datetime: meta.processing_datetime.clone(),
        shape: (meta.shape.0, meta.shape.1),
        relative_path: candidate.relative_path.clone(),
        root: candidate.root,
        unlisted: false,
        elevation_min: None,
        elevation_max: None,
        from_file: FileMetadata {
            display_name: copy_display_name(&meta.display_name),
            group_name,
            group_id,
        },
    }
}

fn describe_failure(candidate: &Candidate, reason: &str) -> (warning: CatalogWarning)
    ensures
        warning@ == read_failure(candidate@, reason@),
{
    let mut message = candidate.relative_path.clone();
    message.append(": ");
    message.append(reason);
    let warning = CatalogWarning { message, about: Vec::new(), operator_only: false };
    assert(warning@.about =~= Seq::empty());
    warning
}

fn sift(inspected: &[Inspected]) -> (found: (Vec<CatalogEntry>, Vec<CatalogWarning>))
    ensures
        found.0.deep_view() == entries_found(inspected.deep_view()),
        found.1.deep_view() == read_failures(inspected.deep_view()),
{
    let ghost all = inspected.deep_view();
    let mut entries: Vec<CatalogEntry> = Vec::new();
    let mut warnings: Vec<CatalogWarning> = Vec::new();
    let mut i: usize = 0;
    proof {
        assert(all.take(0) =~= Seq::empty());
        assert(entries.deep_view() =~= Seq::empty());
        assert(warnings.deep_view() =~= Seq::empty());
    }
    while i < inspected.len()
        invariant
            i <= inspected@.len(),
            all == inspected.deep_view(),
            entries.deep_view() == entries_found(all.take(i as int)),
            warnings.deep_view() == read_failures(all.take(i as int)),
        decreases inspected@.len() - i,
    {
        proof {
            assert(all.take(i + 1).drop_last() =~= all.take(i as int));
            assert(all.take(i + 1).last() == inspected@[i as int].deep_view());
        }
        let here = &inspected[i];
        match &here.inspection {
            Inspection::Unreadable(reason) => {
                let ghost so_far = warnings.deep_view();
                let warning = describe_failure(&here.candidate, reason.as_str());
                warnings.push(warning);
                assert(warnings.deep_view() =~= so_far.push(warning@));
            },
            Inspection::Legacy(_) => {},
            Inspection::Foreign => {},
            Inspection::Supported(meta) => {
                let ghost so_far = entries.deep_view();
                let entry = make_entry(&here.candidate, meta);
                entries.push(entry);
                assert(entries.deep_view() =~= so_far.push(entry@));
            },
        }
        i = i + 1;
    }
    assert(all.take(i as int) =~= all);
    (entries, warnings)
}

// ---------------------------------------------------------------------------
// Which file stands for an id
// ---------------------------------------------------------------------------

/// Whether `a` stands for an id rather than `b`: the writable layer before the
/// read-only one whatever the times say, and within a layer the newer.
pub open spec fn preferred(roots: Seq<RootView>, a: EntryView, b: EntryView) -> bool {
    if root_writable(roots, a.root) != root_writable(roots, b.root) {
        root_writable(roots, a.root)
    } else {
        newer(a, b)
    }
}

/// The entry that stands for an id, and of equals the first.
pub open spec fn chosen(entries: Seq<EntryView>, roots: Seq<RootView>, id: Seq<char>) -> Option<
    EntryView,
>
    decreases entries.len(),
{
    if entries.len() == 0 {
        None
    } else {
        let before = chosen(entries.drop_last(), roots, id);
        let entry = entries.last();
        if entry.radargram_id != id {
            before
        } else if before is None || preferred(roots, entry, before->0) {
            Some(entry)
        } else {
            before
        }
    }
}

/// The ids there are.
pub open spec fn ids_of(entries: Seq<EntryView>) -> Set<Seq<char>> {
    Set::new(|id: Seq<char>| has_id(entries, id))
}

impl Ranked for CatalogEntry {
    /// Entries stand in the order of their paths.
    open spec fn ranks_before(a: EntryView, b: EntryView) -> bool {
        text_less(a.relative_path, b.relative_path)
    }

    fn comes_before(&self, other: &Self) -> (before: bool) {
        text::less(self.relative_path.as_str(), other.relative_path.as_str())
    }
}

/// One entry per id, in the order of their ids.
pub open spec fn chosen_by_id(entries: Seq<EntryView>, roots: Seq<RootView>) -> Seq<EntryView> {
    key_order(ids_of(entries)).map_values(|id: Seq<char>| chosen(entries, roots, id)->0)
}

/// One entry per id, in the order of their paths.
pub open spec fn selected(entries: Seq<EntryView>, roots: Seq<RootView>) -> Seq<EntryView> {
    sorted(chosen_by_id(entries, roots), rank_of::<CatalogEntry>())
}

fn is_preferred(roots: &[CatalogRoot], a: &CatalogEntry, b: &CatalogEntry) -> (yes: bool)
    ensures
        yes == preferred(roots.deep_view(), a@, b@),
{
    let a_writable = writable_root(roots, a.root);
    let b_writable = writable_root(roots, b.root);
    if a_writable != b_writable {
        a_writable
    } else {
        resolution::is_newer(a, b)
    }
}

/// The index of the entry that stands for each id.
spec fn stands_for(
    state: Map<Seq<char>, usize>,
    entries: Seq<EntryView>,
    upto: int,
    roots: Seq<RootView>,
    id: Seq<char>,
) -> bool {
    match chosen(entries.take(upto), roots, id) {
        Some(entry) => state.contains_key(id) && state[id] < upto && entries[state[id] as int]
            == entry,
        None => !state.contains_key(id),
    }
}

proof fn lemma_chosen_has_id(entries: Seq<EntryView>, roots: Seq<RootView>, id: Seq<char>)
    ensures
        chosen(entries, roots, id) is Some <==> has_id(entries, id),
        chosen(entries, roots, id) is Some ==> chosen(entries, roots, id)->0.radargram_id == id
            && entries.contains(chosen(entries, roots, id)->0),
    decreases entries.len(),
{
    if entries.len() > 0 {
        let rest = entries.drop_last();
        lemma_chosen_has_id(rest, roots, id);
        assert(entries[entries.len() - 1] == entries.last());
        if has_id(rest, id) {
            let i = choose|i: int| 0 <= i < rest.len() && (#[trigger] rest[i]).radargram_id == id;
            assert(entries[i].radargram_id == id);
            let k = choose|k: int| 0 <= k < rest.len() && rest[k] == chosen(rest, roots, id)->0;
            assert(entries[k] == rest[k]);
        }
        if has_id(entries, id) && entries.last().radargram_id != id {
            let i = choose|i: int|
                0 <= i < entries.len() && (#[trigger] entries[i]).radargram_id == id;
            assert(rest[i].radargram_id == id);
        }
    }
}

fn choose_per_id(entries: &Vec<CatalogEntry>, roots: &[CatalogRoot]) -> (state: TextMap<
    RadargramId,
    usize,
>)
    ensures
        forall|id: Seq<char>|
            #[trigger] stands_for(
                state@,
                entries.deep_view(),
                entries.len() as int,
                roots.deep_view(),
                id,
            ),
{
    let ghost all = entries.deep_view();
    let mut state: TextMap<RadargramId, usize> = TextMap::new();
    let mut i: usize = 0;
    proof {
        assert(all.take(0) =~= Seq::empty());
    }
    while i < entries.len()
        invariant
            i <= entries.len(),
            all == entries.deep_view(),
            forall|id: Seq<char>|
                #[trigger] stands_for(state@, all, i as int, roots.deep_view(), id),
        decreases entries.len() - i,
    {
        let entry = &entries[i];
        let ghost before = state@;
        proof {
            assert(all.take(i + 1).drop_last() =~= all.take(i as int));
            assert(all.take(i + 1).last() == entry@);
            assert(all[i as int] == entry@);
            assert(stands_for(before, all, i as int, roots.deep_view(), entry@.radargram_id));
        }
        let wins = match state.get(entry.radargram_id.as_str()) {
            None => true,
            Some(index) => {
                assert(all[*index as int] == entries[*index as int]@);
                is_preferred(roots, entry, &entries[*index])
            },
        };
        if wins {
            state.insert(entry.radargram_id.clone(), i);
        }
        proof {
            assert forall|id: Seq<char>|
                #[trigger] stands_for(state@, all, i + 1, roots.deep_view(), id) by {
                assert(stands_for(before, all, i as int, roots.deep_view(), id));
            }
        }
        i = i + 1;
    }
    state
}

/// One entry per id, in the order of their paths.
fn select(entries: &Vec<CatalogEntry>, roots: &[CatalogRoot], state: &TextMap<RadargramId, usize>)
    -> (row: Vec<CatalogEntry>)
    requires
        forall|id: Seq<char>|
            #[trigger] stands_for(
                state@,
                entries.deep_view(),
                entries.len() as int,
                roots.deep_view(),
                id,
            ),
    ensures
        row.deep_view() == selected(entries.deep_view(), roots.deep_view()),
{
    let ghost all = entries.deep_view();
    let ghost by_id = |id: Seq<char>| chosen(all, roots.deep_view(), id)->0;
    let count = state.len();
    let mut row: Vec<CatalogEntry> = Vec::new();
    let mut i: usize = 0;
    proof {
        assert(all.take(entries.len() as int) =~= all);
        lemma_ids_match(all, roots.deep_view(), state@);
        assert(row.deep_view() =~= state.keys().take(0).map_values(by_id));
    }
    while i < count
        invariant
            i <= count,
            count == state.keys().len(),
            all == entries.deep_view(),
            all.take(entries.len() as int) == all,
            by_id == (|id: Seq<char>| chosen(all, roots.deep_view(), id)->0),
            forall|id: Seq<char>|
                #[trigger] stands_for(
                    state@,
                    all,
                    entries.len() as int,
                    roots.deep_view(),
                    id,
                ),
            row.deep_view() == state.keys().take(i as int).map_values(by_id),
        decreases count - i,
    {
        let index = *state.value_at(i);
        let ghost id = state.keys()[i as int];
        proof {
            assert(stands_for(state@, all, entries.len() as int, roots.deep_view(), id));
            assert(all[index as int] == entries[index as int]@);
        }
        let entry = entries[index].clone();
        let ghost so_far = row.deep_view();
        row.push(entry);
        proof {
            assert(row.deep_view() =~= so_far.push(entry@));
            assert(row.deep_view() =~= state.keys().take(i + 1).map_values(by_id));
        }
        i = i + 1;
    }
    assert(state.keys().take(i as int) =~= state.keys());
    sorting::sort(row)
}

proof fn lemma_ids_match(entries: Seq<EntryView>, roots: Seq<RootView>, state: Map<Seq<char>, usize>)
    requires
        forall|id: Seq<char>|
            #[trigger] stands_for(state, entries, entries.len() as int, roots, id),
    ensures
        state.dom() == ids_of(entries),
{
    assert(entries.take(entries.len() as int) =~= entries);
    assert forall|id: Seq<char>| state.dom().contains(id) == ids_of(entries).contains(id) by {
        assert(stands_for(state, entries, entries.len() as int, roots, id));
        lemma_chosen_has_id(entries, roots, id);
    }
    assert(state.dom() =~= ids_of(entries));
}

// ---------------------------------------------------------------------------
// Ids that a layer holds more than once
// ---------------------------------------------------------------------------

/// One place where an id was found.
struct Occurrence {
    processing_datetime: String,
    path: String,
}

/// One place where an id was found, as plain values.
#[verifier::ext_equal]
pub struct OccurrenceView {
    pub processing_datetime: Seq<char>,
    pub path: Seq<char>,
}

impl DeepView for Occurrence {
    type V = OccurrenceView;

    closed spec fn deep_view(&self) -> OccurrenceView {
        OccurrenceView { processing_datetime: self.processing_datetime@, path: self.path@ }
    }
}

/// Occurrences stand in the order of their times, and at one time in the order
/// of their paths.
pub open spec fn occurs_before(a: OccurrenceView, b: OccurrenceView) -> bool {
    text_less(a.processing_datetime, b.processing_datetime) || (a.processing_datetime
        == b.processing_datetime && text_less(a.path, b.path))
}

impl Ranked for Occurrence {
    open spec fn ranks_before(a: OccurrenceView, b: OccurrenceView) -> bool {
        occurs_before(a, b)
    }

    fn comes_before(&self, other: &Self) -> (before: bool) {
        text::less(self.processing_datetime.as_str(), other.processing_datetime.as_str()) || (
        text::equal(self.processing_datetime.as_str(), other.processing_datetime.as_str())
            && text::less(self.path.as_str(), other.path.as_str()))
    }
}

/// Whether an entry is of this id and in this layer.
pub open spec fn in_layer(entry: EntryView, roots: Seq<RootView>, writable: bool, id: Seq<char>) -> bool {
    entry.radargram_id == id && root_writable(roots, entry.root) == writable
}

/// Where one layer holds an id, in order.
pub open spec fn occurrences(
    entries: Seq<EntryView>,
    roots: Seq<RootView>,
    writable: bool,
    id: Seq<char>,
) -> Seq<OccurrenceView> {
    sorted(
        entries.filter(|entry: EntryView| in_layer(entry, roots, writable, id)).map_values(
            |entry: EntryView|
                OccurrenceView {
                    processing_datetime: entry.processing_datetime,
                    path: entry.relative_path,
                },
        ),
        |a: OccurrenceView, b: OccurrenceView| occurs_before(a, b),
    )
}

/// Whether two of them, in order, were processed at the same time.
pub open spec fn has_tie(found: Seq<OccurrenceView>) -> bool {
    exists|i: int|
        0 < i < found.len() && (#[trigger] found[i]).processing_datetime == found[i
            - 1].processing_datetime
}

/// What is said of an id that one layer holds more than once.
pub open spec fn duplicate(id: Seq<char>, found: Seq<OccurrenceView>) -> WarningView {
    WarningView {
        message: "Duplicate radargram ID '"@ + id + "': "@ + joined(
            found.map_values(|occurrence: OccurrenceView| "'"@ + occurrence.path + "'"@),
            " and "@,
        ) + ". Selected the entry with the most recent processing datetime"@ + (if has_tie(found) {
            " (datetimes equal; broke the tie by path order)"@
        } else {
            ""@
        }) + "."@,
        about: seq![id],
        operator_only: false,
    }
}

/// One warning for each of `ids` that a layer holds more than once.
pub open spec fn layer_duplicates(
    ids: Seq<Seq<char>>,
    entries: Seq<EntryView>,
    roots: Seq<RootView>,
    writable: bool,
) -> Seq<WarningView>
    decreases ids.len(),
{
    if ids.len() == 0 {
        Seq::empty()
    } else {
        let before = layer_duplicates(ids.drop_last(), entries, roots, writable);
        let found = occurrences(entries, roots, writable, ids.last());
        if found.len() >= 2 {
            before.push(duplicate(ids.last(), found))
        } else {
            before
        }
    }
}

/// The problems with the files: what could not be read, then the ids that the
/// read-only layer holds more than once, then those that the writable one does.
pub open spec fn file_problems(inspected: Seq<InspectedView>, roots: Seq<RootView>) -> Seq<
    WarningView,
> {
    let entries = entries_found(inspected);
    let ids = key_order(ids_of(entries));
    read_failures(inspected) + layer_duplicates(ids, entries, roots, false) + layer_duplicates(
        ids,
        entries,
        roots,
        true,
    )
}

fn find_occurrences(
    entries: &Vec<CatalogEntry>,
    roots: &[CatalogRoot],
    writable: bool,
    id: &RadargramId,
) -> (found: Vec<Occurrence>)
    ensures
        found.deep_view() == occurrences(entries.deep_view(), roots.deep_view(), writable, id@),
{
    let ghost all = entries.deep_view();
    let ghost keep = |entry: EntryView| in_layer(entry, roots.deep_view(), writable, id@);
    let ghost as_occurrence = |entry: EntryView|
        OccurrenceView {
            processing_datetime: entry.processing_datetime,
            path: entry.relative_path,
        };
    let mut met: Vec<Occurrence> = Vec::new();
    let mut i: usize = 0;
    proof {
        crate::rows::lemma_filter_none(all, keep);
        assert(met.deep_view() =~= all.take(0).filter(keep).map_values(as_occurrence));
    }
    while i < entries.len()
        invariant
            i <= entries.len(),
            all == entries.deep_view(),
            keep == (|entry: EntryView| in_layer(entry, roots.deep_view(), writable, id@)),
            as_occurrence == (|entry: EntryView|
                OccurrenceView {
                    processing_datetime: entry.processing_datetime,
                    path: entry.relative_path,
                }),
            met.deep_view() == all.take(i as int).filter(keep).map_values(as_occurrence),
        decreases entries.len() - i,
    {
        let entry = &entries[i];
        proof {
            crate::rows::lemma_filter_step(all, i as int, keep);
            assert(all[i as int] == entry@);
        }
        if entry.radargram_id.same(id) && writable_root(roots, entry.root) == writable {
            let ghost so_far = met.deep_view();
            let occurrence = Occurrence {
                processing_datetime: entry.processing_datetime.clone(),
                path: entry.relative_path.clone(),
            };
            met.push(occurrence);
            proof {
                assert(met.deep_view() =~= so_far.push(occurrence.deep_view()));
                assert(met.deep_view() =~= all.take(i + 1).filter(keep).map_values(as_occurrence));
            }
        }
        i = i + 1;
    }
    proof {
        assert(all.take(i as int) =~= all);
        assert(rank_of::<Occurrence>() =~= |a: OccurrenceView, b: OccurrenceView|
            occurs_before(a, b));
    }
    sorting::sort(met)
}

fn describe_duplicate(id: &RadargramId, found: &Vec<Occurrence>) -> (warning: CatalogWarning)
    ensures
        warning@ == duplicate(id@, found.deep_view()),
{
    let ghost all = found.deep_view();
    let ghost quote = |occurrence: OccurrenceView| "'"@ + occurrence.path + "'"@;
    let mut paths: Vec<String> = Vec::new();
    let mut tied = false;
    let mut i: usize = 0;
    while i < found.len()
        invariant
            i <= found.len(),
            all == found.deep_view(),
            quote == (|occurrence: OccurrenceView| "'"@ + occurrence.path + "'"@),
            paths.len() == i,
            forall|j: int| 0 <= j < i ==> #[trigger] paths.deep_view()[j] == quote(all[j]),
            tied == exists|j: int|
                0 < j < i && (#[trigger] all[j]).processing_datetime == all[j
                    - 1].processing_datetime,
        decreases found.len() - i,
    {
        proof {
            assert(all[i as int] == found[i as int].deep_view());
        }
        if i > 0 {
            assert(all[i - 1] == found[i - 1].deep_view());
            if text::equal(
                found[i].processing_datetime.as_str(),
                found[i - 1].processing_datetime.as_str(),
            ) {
                tied = true;
            }
        }
        let mut path = "'".to_owned();
        path.append(found[i].path.as_str());
        path.append("'");
        let ghost so_far = paths.deep_view();
        paths.push(path);
        assert(paths.deep_view() =~= so_far.push(path@));
        i = i + 1;
    }
    assert(paths.deep_view() =~= all.map_values(quote));
    let mut message = "Duplicate radargram ID '".to_owned();
    message.append(id.as_str());
    message.append("': ");
    message.append(text::join(&paths, " and ").as_str());
    message.append(". Selected the entry with the most recent processing datetime");
    if tied {
        message.append(" (datetimes equal; broke the tie by path order)");
    } else {
        message.append("");
    }
    message.append(".");
    let mut about: Vec<RadargramId> = Vec::new();
    about.push(id.clone());
    let warning = CatalogWarning { message, about, operator_only: false };
    assert(warning@.about =~= seq![id@]);
    warning
}

fn find_duplicates(
    state: &TextMap<RadargramId, usize>,
    entries: &Vec<CatalogEntry>,
    roots: &[CatalogRoot],
    writable: bool,
) -> (warnings: Vec<CatalogWarning>)
    ensures
        warnings.deep_view() == layer_duplicates(
            key_order(state@.dom()),
            entries.deep_view(),
            roots.deep_view(),
            writable,
        ),
{
    let count = state.len();
    let ghost ids = state.keys();
    let mut warnings: Vec<CatalogWarning> = Vec::new();
    let mut i: usize = 0;
    proof {
        assert(ids.take(0) =~= Seq::empty());
        assert(warnings.deep_view() =~= Seq::empty());
    }
    while i < count
        invariant
            i <= count,
            count == ids.len(),
            ids == state.keys(),
            warnings.deep_view() == layer_duplicates(
                ids.take(i as int),
                entries.deep_view(),
                roots.deep_view(),
                writable,
            ),
        decreases count - i,
    {
        let id = state.key_at(i);
        proof {
            assert(ids.take(i + 1).drop_last() =~= ids.take(i as int));
            assert(ids.take(i + 1).last() == id@);
        }
        let found = find_occurrences(entries, roots, writable, id);
        if found.len() >= 2 {
            let ghost so_far = warnings.deep_view();
            let warning = describe_duplicate(id, &found);
            warnings.push(warning);
            assert(warnings.deep_view() =~= so_far.push(warning@));
        }
        i = i + 1;
    }
    assert(ids.take(i as int) =~= ids);
    warnings
}

/// All candidates, root by root.
pub open spec fn flattened(found: Seq<Seq<InspectedView>>) -> Seq<InspectedView>
    decreases found.len(),
{
    if found.len() == 0 {
        Seq::empty()
    } else {
        flattened(found.drop_last()) + found.last()
    }
}

/// The catalog that candidates make, given where they were found and what the
/// project says.
pub open spec fn catalog_from(
    inspected: Seq<InspectedView>,
    roots: Seq<RootView>,
    overrides: crate::overrides::OverridesView,
) -> crate::catalog::CatalogView {
    resolved(
        selected(entries_found(inspected), roots),
        file_problems(inspected, roots),
        overrides,
    )
}

impl Catalog {
    /// The catalog that candidates make.
    pub fn from_candidates(
        inspected: &[Inspected],
        roots: &[CatalogRoot],
        overrides: &CatalogOverrides,
    ) -> (catalog: Catalog)
        ensures
            catalog@ == catalog_from(inspected.deep_view(), roots.deep_view(), overrides@),
    {
        let (entries, mut warnings) = sift(inspected);
        let state = choose_per_id(&entries, roots);
        proof {
            lemma_ids_match(entries.deep_view(), roots.deep_view(), state@);
        }
        let mut external = find_duplicates(&state, &entries, roots, false);
        let mut own = find_duplicates(&state, &entries, roots, true);
        let unresolved = select(&entries, roots, &state);
        let ghost first = warnings.deep_view();
        let ghost second = external.deep_view();
        let ghost third = own.deep_view();
        warnings.append(&mut external);
        assert(warnings.deep_view() =~= first + second);
        warnings.append(&mut own);
        assert(warnings.deep_view() =~= first + second + third);
        resolution::resolve(unresolved, warnings, overrides)
    }

    /// The catalog over several roots, the project's own first: where two
    /// roots hold one id, the writable one is selected whatever the times say.
    pub fn discover_roots(
        roots: &[CatalogRoot],
        found: Vec<Vec<Inspected>>,
        overrides: &CatalogOverrides,
    ) -> (catalog: Catalog)
        ensures
            catalog@ == catalog_from(
                flattened(found.deep_view()),
                roots.deep_view(),
                overrides@,
            ),
    {
        let ghost all = found.deep_view();
        let mut rest = found;
        let mut inspected: Vec<Inspected> = Vec::new();
        let ghost mut taken: int = 0;
        proof {
            assert(all.take(0) =~= Seq::empty());
            assert(rest.deep_view() =~= all.skip(0));
            assert(inspected.deep_view() =~= Seq::empty());
        }
        while rest.len() > 0
            invariant
                0 <= taken,
                taken + rest.len() == all.len(),
                rest.deep_view() == all.skip(taken),
                inspected.deep_view() == flattened(all.take(taken)),
            decreases rest.len(),
        {
            let ghost untaken = rest.deep_view();
            let mut here = rest.remove(0);
            let ghost views = here.deep_view();
            proof {
                assert(views == untaken[0]);
                assert forall|i: int| 0 <= i < rest.len() implies #[trigger] rest.deep_view()[i]
                    == untaken[i + 1] by {}
                assert(rest.deep_view() =~= all.skip(taken + 1));
                assert(all.take(taken + 1).drop_last() =~= all.take(taken));
                assert(all.take(taken + 1).last() == views);
            }
            let ghost so_far = inspected.deep_view();
            inspected.append(&mut here);
            proof {
                assert(inspected.deep_view() =~= so_far + views);
                taken = taken + 1;
            }
        }
        assert(all.take(taken) =~= all);
        Catalog::from_candidates(inspected.as_slice(), roots, overrides)
    }

    /// The catalog under one root, with what the project says.
    pub fn discover_with_overrides(
        root: CatalogRoot,
        found: Vec<Inspected>,
        overrides: &CatalogOverrides,
    ) -> (catalog: Catalog)
        ensures
            catalog@ == catalog_from(found.deep_view(), seq![root@], overrides@),
    {
        let mut roots: Vec<CatalogRoot> = Vec::new();
        roots.push(root);
        assert(roots.deep_view() =~= seq![root@]);
        Catalog::from_candidates(found.as_slice(), roots.as_slice(), overrides)
    }

    /// The catalog under one root, taking the files at their word.
    pub fn discover(root: CatalogRoot, found: Vec<Inspected>) -> (catalog: Catalog)
        ensures
            catalog@ == catalog_from(
                found.deep_view(),
                seq![root@],
                crate::overrides::OverridesView::nothing(),
            ),
    {
        Catalog::discover_with_overrides(root, found, &CatalogOverrides::default())
    }
}

} // verus!
