//! What holds of the answers themselves, whatever was asked.
use vstd::prelude::*;

use crate::api_error::ApiError;
use crate::app_state::{confine, resolve_absolute_path, AppState, Lookup};
use crate::audit::{AuditAction, AuditEntry};
use crate::auth::{Caller, DownloadScope, Role};
use crate::catalog::{Catalog, CatalogEntry, CatalogRoot, EntryView, RootView};
use crate::derived::{feeds, visible_documents, Audience, DerivedItem, DerivedSet, ItemView};
use crate::derived_routes::{get_derived, put_derived, DerivedListing};
use crate::derived_values::{
    csv_disposition, derived_level2, download_derived, export_derived_points, exports_audience,
    is_exported, needs_audience, points_spacing, spacing_in_metres, write_csv,
    DerivedPointsQuery, EvaluatedItem, OutputCrs, PointsPlan, Spacing,
};
use crate::discovery::{candidates_under, should_descend, Candidate, WalkedView};
use crate::elevation::ElevationRange;
use crate::history_laws::an_id_leads_to_its_entry;
use crate::identity::{revision_of, RadargramId, UserId};
use crate::launch::{discovered, url};
use crate::ledger::Ledger;
use crate::lifecycle::{list_revisions, restore_log, restored_revision, KeptAxes, RevisionSummary};
use crate::listing::{is_shown, shown_entries};
use crate::merge_scope::MergeScope;
use crate::overrides::CatalogOverrides;
use crate::paths::{lies_under, FilePath};
use crate::properties::{
    get_properties, put_group_properties, put_properties, GroupEdit, GroupPropertiesBody,
    Properties, PropertiesBody, PropertiesEdit,
};
use crate::removal::{remove_dataset, Removal, RemovalStage};
use crate::routing::{Endpoint, Method};
use crate::search_laws::lemma_kept;
use crate::selection::{flattened, make_entry, InspectedView, RadargramMeta};
use crate::sizes::accept_length;
use crate::text::{decimal, parsed_u64, trimmed};
use crate::text_map::TextMap;
use crate::upload::{Upload, UploadQuery, UploadStage};

verus! {

broadcast use vstd::string::group_string_axioms;

// ---------------------------------------------------------------------------
// Entries
// ---------------------------------------------------------------------------

/// The entry that is made of a file has the file's own id, name, time and
/// shape, and is where the file is; nothing the project decides is decided yet.
pub proof fn an_entry_is_made_of_its_file(
    candidate: Candidate,
    meta: RadargramMeta,
    entry: CatalogEntry,
)
    requires
        call_ensures(make_entry, (&candidate, &meta), entry),
    ensures
        entry.radargram_id@ == meta.radargram_id@,
        entry.revision_id@ == revision_of(meta.radargram_id@, meta.processing_datetime@),
        entry.display_name.deep_view() == meta.display_name.deep_view(),
        entry.from_file.display_name.deep_view() == meta.display_name.deep_view(),
        entry.processing_datetime@ == meta.processing_datetime@,
        entry.shape == meta.shape,
        entry.relative_path@ == candidate.relative_path@,
        entry.root == candidate.root,
        !entry.unlisted,
        entry.elevation_min is None,
        entry.elevation_max is None,
        meta.group_name is Some ==> entry.group_name.deep_view() == meta.group_name.deep_view()
            && entry.group_id.deep_view() == meta.group_id.deep_view(),
        entry.from_file.group_name.deep_view() == entry.group_name.deep_view(),
        entry.from_file.group_id.deep_view() == entry.group_id.deep_view(),
{
    assert(entry@.shape == entry.shape);
}

/// An entry is called by its display name, or else by its id, and drawn within
/// its own bounds.
pub proof fn an_entry_is_called_by_its_name(
    entry: CatalogEntry,
    label: String,
    range: ElevationRange,
)
    requires
        call_ensures(CatalogEntry::effective_label, (&entry,), label),
        call_ensures(CatalogEntry::elevation_range, (&entry,), range),
    ensures
        entry.display_name is Some ==> label@ == entry.display_name->0@,
        entry.display_name is None ==> label@ == entry.radargram_id@,
        range.min == entry.elevation_min,
        range.max == entry.elevation_max,
{
}

/// What is found in several roots is all that is found in each of them, root by
/// root.
pub proof fn every_root_adds_what_is_found_in_it(
    found: Seq<Seq<InspectedView>>,
    more: Seq<InspectedView>,
)
    ensures
        flattened(Seq::empty()) == Seq::<InspectedView>::empty(),
        flattened(found.push(more)) == flattened(found) + more,
{
    assert(found.push(more).drop_last() =~= found);
}

/// A root that is one file holds just that file, under its own name and without
/// a suggestion of a group.
pub proof fn a_single_file_is_found_as_itself(
    root: RootView,
    index: usize,
    walked: Seq<WalkedView>,
)
    requires
        root.is_file,
        root.path.len() > 0,
    ensures
        ({
            let found = candidates_under(root, index, walked);
            &&& found.len() == 1
            &&& found[0].path == root.path
            &&& found[0].relative_path == root.path.last()
            &&& found[0].group_hint is None
            &&& found[0].root == index
        }),
{
}

// ---------------------------------------------------------------------------
// Properties
// ---------------------------------------------------------------------------

/// The properties that are shown are those of the entry that was asked for.
pub proof fn properties_are_of_the_entry_asked_for(
    caller: Caller,
    has_project: bool,
    catalog: Catalog,
    raw: &str,
    stored: Result<CatalogOverrides, String>,
    shown: Properties,
    i: int,
)
    requires
        call_ensures(
            get_properties,
            (&caller, has_project, &catalog, raw, stored),
            Ok::<Properties, ApiError>(shown),
        ),
        0 <= i < catalog@.entries.len(),
        catalog@.entries[i].radargram_id == raw@,
        forall|a: int, b: int|
            0 <= a < b < catalog@.entries.len() ==> (#[trigger] catalog@.entries[a]).radargram_id
                != (#[trigger] catalog@.entries[b]).radargram_id,
    ensures
        caller.allowed(Role::Operator),
        has_project,
        ({
            let entry = catalog@.entries[i];
            &&& shown.radargram_id@ == raw@
            &&& shown.effective.display_name.deep_view() == entry.display_name
            &&& shown.effective.group_id.deep_view() == entry.group_id
            &&& shown.effective.group_name.deep_view() == entry.group_name
            &&& shown.effective.unlisted == entry.unlisted
            &&& shown.effective.elevation_min == entry.elevation_min
            &&& shown.effective.elevation_max == entry.elevation_max
            &&& shown.from_file.display_name.deep_view() == entry.from_file.display_name
            &&& shown.from_file.group_id.deep_view() == entry.from_file.group_id
            &&& shown.from_file.group_name.deep_view() == entry.from_file.group_name
        }),
{
    an_id_leads_to_its_entry(catalog@.entries, i);
    assert(shown@.display_name == shown.effective.display_name.deep_view());
}

/// An edit is about what was asked for, and says what was filled in.
pub proof fn an_edit_says_what_was_filled_in(
    caller: Caller,
    has_project: bool,
    catalog: Catalog,
    raw: &str,
    body: PropertiesBody,
    edit: PropertiesEdit,
)
    requires
        call_ensures(
            put_properties,
            (&caller, has_project, &catalog, raw, &body),
            Ok::<PropertiesEdit, ApiError>(edit),
        ),
    ensures
        caller.allowed(Role::Operator),
        has_project,
        edit.id@ == raw@,
        edit.over.unlisted == body.unlisted,
        edit.over.elevation_min == body.elevation_min,
        edit.over.elevation_max == body.elevation_max,
        body.display_name is None ==> edit.over.display_name is None,
        body.display_name is Some && trimmed(body.display_name->0@).len() > 0
            ==> edit.over.display_name.deep_view() == Some(trimmed(body.display_name->0@)),
{
    crate::edit_laws::what_is_filled_in_is_what_is_saved(body);
    assert(edit.over.deep_view().unlisted == edit.over.unlisted);
    if body.display_name is Some && trimmed(body.display_name->0@).len() > 0 {
        let bounds = crate::text_laws::trimming_takes_away_white_space(body.display_name->0@);
        assert(body.display_name->0@.len() > 0);
    }
}

/// A group is renamed as it was asked, and its name taken back where nothing
/// was filled in.
pub proof fn a_group_is_named_as_it_was_asked(
    caller: Caller,
    has_project: bool,
    raw: &str,
    body: GroupPropertiesBody,
    edit: GroupEdit,
)
    requires
        call_ensures(
            put_group_properties,
            (&caller, has_project, raw, &body),
            Ok::<GroupEdit, ApiError>(edit),
        ),
    ensures
        caller.allowed(Role::Operator),
        has_project,
        raw@ != "_none"@,
        edit.id@ == raw@,
        body.display_name is None || body.display_name->0@.len() == 0 ==> edit.name is None,
        body.display_name is Some && body.display_name->0@.len() > 0 ==> edit.name.deep_view()
            == Some(trimmed(body.display_name->0@)) && trimmed(body.display_name->0@).len() > 0,
{
}

// ---------------------------------------------------------------------------
// Removing and restoring
// ---------------------------------------------------------------------------

/// A removal begins with the entry that was asked for: its id and revision,
/// and whether its file is the project's own.
pub proof fn a_removal_begins_with_its_entry(
    state: AppState,
    caller: Caller,
    raw: &str,
    path: Result<FilePath, String>,
    at: String,
    removal: Removal,
    i: int,
)
    requires
        call_ensures(
            remove_dataset,
            (&state, &caller, raw, path, at),
            Ok::<Removal, ApiError>(removal),
        ),
        0 <= i < state@.snapshot.catalog.entries.len(),
        state@.snapshot.catalog.entries[i].radargram_id == raw@,
        forall|a: int, b: int|
            0 <= a < b < state@.snapshot.catalog.entries.len() ==> (
            #[trigger] state@.snapshot.catalog.entries[a]).radargram_id != (
            #[trigger] state@.snapshot.catalog.entries[b]).radargram_id,
    ensures
        caller.allowed(Role::Operator),
        path is Ok,
        ({
            let entry = state@.snapshot.catalog.entries[i];
            &&& removal.id@ == raw@
            &&& removal.revision@ == entry.revision_id
            &&& removal.path@ == path->Ok_0@
            &&& removal.in_project <==> entry.root < state@.roots.len()
                && state@.roots[entry.root as int].writable
            &&& removal.at@ == at@
            &&& caller.user is Some ==> removal.user@ == caller.user->0@
            &&& removal.stage == RemovalStage::ReadingAxes
            &&& removal.archived == 0
        }),
{
    an_id_leads_to_its_entry(state@.snapshot.catalog.entries, i);
    assert(removal@.stage == removal.stage);
}

/// An upload begins where it was sent, by whoever sent it.
pub proof fn an_upload_begins_as_it_was_sent(
    destination: FilePath,
    query: UploadQuery,
    caller: Caller,
    bytes: u64,
    upload: Upload,
)
    requires
        call_ensures(Upload::begin, (destination, query, &caller, bytes), upload),
    ensures
        upload.destination@ == destination@,
        upload.filename.deep_view() == query.filename.deep_view(),
        caller.user is Some ==> upload.user@ == caller.user->0@,
        upload.bytes == bytes,
        upload.stage == UploadStage::Inspecting,
        upload.meta is None,
        upload.archived == 0,
{
    assert(upload@.bytes == upload.bytes);
    if upload.meta is Some {
        assert(upload@.meta is Some);
    }
}

/// What is restored is current again in the revision that the catalog has now,
/// and the log says who restored it.
pub proof fn what_is_restored_is_what_the_catalog_has(
    catalog: Catalog,
    id: RadargramId,
    revision: Option<String>,
    caller: Caller,
    at: String,
    log: AuditEntry,
    i: int,
)
    requires
        call_ensures(restored_revision, (&catalog, &id), revision),
        call_ensures(restore_log, (&caller, &id, at), log),
        0 <= i < catalog@.entries.len(),
        catalog@.entries[i].radargram_id == id@,
        forall|a: int, b: int|
            0 <= a < b < catalog@.entries.len() ==> (#[trigger] catalog@.entries[a]).radargram_id
                != (#[trigger] catalog@.entries[b]).radargram_id,
    ensures
        revision.deep_view() == Some(catalog@.entries[i].revision_id),
        log.at@ == at@,
        caller.user is Some ==> log.user@ == caller.user->0@,
        log.action == AuditAction::Unignored,
        log.radargram_id@ == id@,
{
    an_id_leads_to_its_entry(catalog@.entries, i);
    assert(log@.at == log.at@);
}

/// A history that is told has a row for each record of that radargram, in
/// order, with the record's own revision and what superseded it.
pub proof fn a_history_is_told_as_it_was_kept(
    caller: Caller,
    has_project: bool,
    raw: &str,
    history: Ledger,
    kept: TextMap<String, KeptAxes>,
    told: Vec<RevisionSummary>,
    i: int,
)
    requires
        call_ensures(
            list_revisions,
            (&caller, has_project, raw, Ok::<Ledger, String>(history), &kept),
            Ok::<Vec<RevisionSummary>, ApiError>(told),
        ),
        history@.contains_key(raw@),
        0 <= i < history@[raw@].len(),
    ensures
        told.len() == history@[raw@].len(),
        told[i].revision_id@ == history@[raw@][i].revision_id,
        told[i].superseded_at.deep_view() == history@[raw@][i].superseded_at,
        told[i].superseded_by.deep_view() == history@[raw@][i].superseded_by,
{
    assert(told.deep_view().len() == told.len());
    assert(told.deep_view()[i] == told[i].deep_view());
}

// ---------------------------------------------------------------------------
// Paths and sizes
// ---------------------------------------------------------------------------

/// A path that is followed lies below its root, by its names and, once links
/// are resolved, in fact.
pub proof fn a_path_that_is_followed_stays_in_its_root(
    root: CatalogRoot,
    entry: CatalogEntry,
    found: Lookup,
    resolved: FilePath,
    path: FilePath,
)
    requires
        call_ensures(resolve_absolute_path, (&root, &entry), Ok::<Lookup, String>(found)),
        call_ensures(confine, (&root, resolved), Ok::<FilePath, String>(path)),
    ensures
        root.is_file ==> found is Exact && found->Exact_0@ == root.path@,
        !root.is_file ==> found is Below && lies_under(found->Below_0@, root.path@),
        path@ == resolved@,
        lies_under(path@, root.path@),
{
    assert(found@ is Below <==> found is Below);
    if !root.is_file {
        crate::app_state::a_followed_path_stays_below_its_root(root@.path, entry@.relative_path);
    }
    assert(root@.path == root.path@);
}

/// A declared length that fits is let in with all the room there is, and one
/// that does not is not; what cannot be read as a length declares nothing.
pub proof fn a_length_is_let_in_where_it_fits(
    cap: u64,
    used: u64,
    header: Option<String>,
    room: Result<u64, ApiError>,
)
    requires
        call_ensures(accept_length, (cap, used, &header), room),
        used <= cap,
    ensures
        ({
            let declared = if header is Some {
                parsed_u64(header->0@)
            } else {
                None
            };
            &&& room is Ok <==> (declared is None || used + declared->0 <= cap)
            &&& room is Ok ==> used + room->Ok_0 == cap
            &&& room is Err ==> room->Err_0@.status == 413
        }),
{
}

// ---------------------------------------------------------------------------
// Derived values
// ---------------------------------------------------------------------------

/// Derived points are on the grid that was asked for, and at every trace where
/// the vertices of a line were; a fixed grid has the step it says.
pub proof fn points_are_on_the_grid_asked_for(
    spacing: Spacing,
    grid: Spacing,
    auto_step: u64,
    step: Option<u64>,
)
    requires
        call_ensures(points_spacing, (spacing,), grid),
        call_ensures(spacing_in_metres, (grid, auto_step), step),
    ensures
        spacing == Spacing::Vertices ==> grid == Spacing::PerTrace && step is None,
        spacing == Spacing::PerTrace ==> grid == Spacing::PerTrace && step is None,
        spacing is ArcLength ==> grid == spacing && step == Some(spacing->ArcLength_0),
        spacing == Spacing::Auto ==> grid == spacing && step == Some(auto_step),
{
}

/// Points are given as they were asked for: a table where one was, and
/// otherwise GeoJSON in the coordinates that were named, or geographic ones.
pub proof fn points_are_given_as_asked(
    caller: Caller,
    radargram_id: &str,
    query: DerivedPointsQuery,
    plan: PointsPlan,
)
    requires
        call_ensures(
            derived_level2,
            (&caller, radargram_id, &query),
            Ok::<PointsPlan, ApiError>(plan),
        ),
    ensures
        plan.radargram_id@ == radargram_id@,
        plan.include_unlisted == query.include_unlisted,
        query.spacing is Some ==> plan.spacing@ == query.spacing->0@,
        query.spacing is None ==> plan.spacing@ == "auto"@,
        query.format is Some && query.format->0@ == "csv"@ ==> plan.format is Csv
            && plan.content_type@ == "text/csv; charset=utf-8"@ && plan.disposition@
            == "attachment; filename=\""@ + (radargram_id@ + "-derived-layer-points."@ + "csv"@)
            + "\""@,
        query.format is None || query.format->0@ != "csv"@ ==> {
            &&& plan.format is GeoJson
            &&& plan.content_type@ == "application/geo+json"@
            &&& plan.disposition@ == "attachment; filename=\""@ + (radargram_id@
                + "-derived-layer-points."@ + "geojson"@) + "\""@
            &&& query.crs is Some && query.crs->0@.len() > 0
                ==> plan.format->GeoJson_0 is Named && plan.format->GeoJson_0->Named_0@
                == query.crs->0@
            &&& query.crs is None || query.crs->0@.len() == 0 ==> plan.format->GeoJson_0
                == OutputCrs::Wgs84
        },
{
}

/// A download is named after its radargram, and begins with the names of its
/// columns.
pub proof fn a_download_names_its_columns(
    radargram_id: RadargramId,
    set: DerivedSet,
    viewer: &str,
    own: TextMap<String, EvaluatedItem>,
    released: TextMap<String, EvaluatedItem>,
    csv: String,
    header: String,
)
    requires
        call_ensures(write_csv, (&radargram_id, &set, viewer, &own, &released), csv),
        call_ensures(csv_disposition, (&radargram_id,), header),
    ensures
        "radargram_id,item,kind,unit,trace,value\n"@.len() <= csv@.len(),
        csv@.take("radargram_id,item,kind,unit,trace,value\n"@.len() as int)
            == "radargram_id,item,kind,unit,trace,value\n"@,
        header@ == "attachment; filename=\""@ + (radargram_id@ + "-derived.csv"@) + "\""@,
{
    let head = "radargram_id,item,kind,unit,trace,value\n"@;
    assert(csv@.take(head.len() as int) =~= head);
}

/// What is stored after a save begins with exactly what was sent.
pub proof fn what_is_sent_is_stored(
    caller: Caller,
    has_project: bool,
    incoming: DerivedSet,
    stored: DerivedSet,
    merged: DerivedSet,
    i: int,
)
    requires
        call_ensures(
            put_derived,
            (&caller, has_project, incoming, &stored),
            Ok::<DerivedSet, ApiError>(merged),
        ),
        0 <= i < incoming.items.len(),
    ensures
        has_project,
        i < merged.items.len(),
        merged.items[i]@ == incoming.items[i]@,
{
    assert(merged@[i] == incoming@[i]);
    assert(merged@.len() == merged.items.len());
    assert(incoming@[i] == incoming.items[i]@);
    assert(merged@[i] == merged.items[i]@);
}

/// A listing tells an operator that they may author, and an admin that they may
/// release, and nobody else.
pub proof fn a_listing_tells_what_may_be_done(
    caller: Caller,
    set: DerivedSet,
    kinds: Vec<Result<String, String>>,
    listing: DerivedListing,
)
    requires
        call_ensures(get_derived, (&caller, &set, &kinds), listing),
    ensures
        listing.can_author <==> !caller.read_only && (caller.role == Role::Operator || caller.role
            == Role::Admin),
        listing.can_release <==> !caller.read_only && caller.role == Role::Admin,
{
}

// ---------------------------------------------------------------------------
// Scopes
// ---------------------------------------------------------------------------

/// A scope is named after its group, or is the catalog.
pub proof fn a_scope_is_named_after_its_group(
    group: String,
    slug: &str,
    text: String,
    whole: &str,
    all: String,
)
    requires
        call_ensures(MergeScope::slug, (&MergeScope::Group(group),), slug),
        call_ensures(MergeScope::describe, (&MergeScope::Group(group),), text),
        call_ensures(MergeScope::slug, (&MergeScope::Catalog,), whole),
        call_ensures(MergeScope::describe, (&MergeScope::Catalog,), all),
    ensures
        slug@ == group@,
        text@ == "group '"@ + group@ + "'"@,
        whole@ == "catalog"@,
        all@ == "this catalog"@,
{
}

/// An export holds exactly the items that the viewer may see and that are
/// listed, or all of those where unlisted ones are asked for; and it needs an
/// evaluation for exactly the audiences that these items have.
pub proof fn an_export_holds_what_is_listed_or_asked_for(
    set: DerivedSet,
    viewer: &str,
    include_unlisted: bool,
    export: (Vec<&DerivedItem>, Vec<Audience>),
    item: ItemView,
    audience: Audience,
)
    requires
        call_ensures(export_derived_points, (&set, viewer, include_unlisted), export),
    ensures
        export.0.deep_view().contains(item) <==> set@.contains(item) && (item.scope is Project
            || item.scope->Private_0 == viewer@) && (item.listed || include_unlisted),
        export.1@.contains(audience) <==> exists|i: int|
            0 <= i < export.0.deep_view().len() && (
            #[trigger] export.0.deep_view()[i]).audience == audience,
{
    let keep = |item: ItemView| is_exported(item, viewer@, include_unlisted);
    let wanted = |audience: Audience| exports_audience(set@, viewer@, include_unlisted, audience);
    let both = seq![Audience::OwnPicks, Audience::Released];
    let items = export.0.deep_view();
    lemma_kept(set@, keep, item);
    lemma_kept(both, wanted, audience);
    assert(both[0] == Audience::OwnPicks && both[1] == Audience::Released);
    assert(both.contains(audience));
    if wanted(audience) {
        let k = choose|k: int|
            0 <= k < set@.len() && is_exported(#[trigger] set@[k], viewer@, include_unlisted)
                && set@[k].audience == audience;
        lemma_kept(set@, keep, set@[k]);
        assert(set@.contains(set@[k]));
        let i = choose|i: int| 0 <= i < items.len() && items[i] == set@[k];
        assert(items[i].audience == audience);
    }
    if exists|i: int| 0 <= i < items.len() && (#[trigger] items[i]).audience == audience {
        let i = choose|i: int| 0 <= i < items.len() && (#[trigger] items[i]).audience == audience;
        assert(items.contains(items[i]));
        lemma_kept(set@, keep, items[i]);
        let k = choose|k: int| 0 <= k < set@.len() && set@[k] == items[i];
        assert(is_exported(set@[k], viewer@, include_unlisted));
    }
}

/// A download evaluates for exactly the audiences of the items that the caller
/// may see, listed or not.
pub proof fn a_download_evaluates_what_is_seen(
    caller: Caller,
    radargram_id: &str,
    set: DerivedSet,
    id: RadargramId,
    audiences: Vec<Audience>,
    audience: Audience,
)
    requires
        call_ensures(
            download_derived,
            (&caller, radargram_id, &set),
            Ok::<(RadargramId, Vec<Audience>), ApiError>((id, audiences)),
        ),
    ensures
        id@ == radargram_id@,
        caller.allowed_download(DownloadScope::Results),
        audiences@.contains(audience) <==> exists|i: int|
            0 <= i < set@.len() && (#[trigger] set@[i]).audience == audience && (set@[i].scope
                is Project || set@[i].scope->Private_0 == caller.shown_name()),
{
    let wanted = |audience: Audience| needs_audience(set@, caller.shown_name(), audience);
    let both = seq![Audience::OwnPicks, Audience::Released];
    lemma_kept(both, wanted, audience);
    assert(both[0] == Audience::OwnPicks && both[1] == Audience::Released);
    assert(both.contains(audience));
    if exists|i: int|
        0 <= i < set@.len() && (#[trigger] set@[i]).audience == audience && (set@[i].scope
            is Project || set@[i].scope->Private_0 == caller.shown_name()) {
        let i = choose|i: int|
            0 <= i < set@.len() && (#[trigger] set@[i]).audience == audience && (set@[i].scope
                is Project || set@[i].scope->Private_0 == caller.shown_name());
        assert(set@[i].is_visible_to(caller.shown_name()));
    }
}

/// One's own picks, and those that one may see, feed an evaluation, and nobody
/// else's.
pub proof fn exactly_the_permitted_picks_are_taken(
    caller: Caller,
    audience: Audience,
    users: Vec<UserId>,
    chosen: Vec<UserId>,
    user: Seq<char>,
)
    requires
        call_ensures(visible_documents, (&caller, audience, &users), chosen),
    ensures
        chosen.deep_view().contains(user) <==> users.deep_view().contains(user) && (
        caller.user.deep_view() == Some(user) || !caller.authentication_configured
            || caller.allowed(Role::Operator) || audience == Audience::Released),
{
    let keep = |user: Seq<char>| feeds(caller, audience, user);
    lemma_kept(users.deep_view(), keep, user);
}

/// A caller is shown the entries of a catalog that are listed, and an operator
/// all of them.
pub proof fn a_listing_holds_what_may_be_shown(
    caller: Caller,
    catalog: Catalog,
    shown: Vec<&CatalogEntry>,
    entry: EntryView,
)
    requires
        call_ensures(shown_entries, (&caller, &MergeScope::Catalog, &catalog), shown),
    ensures
        shown.deep_view().contains(entry) <==> catalog@.entries.contains(entry) && (
        caller.allowed(Role::Operator) || !entry.unlisted),
{
    lemma_kept(catalog@.entries, |entry: EntryView| is_shown(caller, entry), entry);
}

/// A hidden directory is not gone into, unless it is where the search starts;
/// everything else is.
pub proof fn hidden_directories_are_passed_by(
    depth: usize,
    is_dir: bool,
    name: &str,
    descend: bool,
)
    requires
        call_ensures(should_descend, (depth, is_dir, name), descend),
    ensures
        !descend <==> depth > 0 && is_dir && name@.len() > 0 && name@[0] == '.',
{
}

/// What is said when a server starts: how much it found where, and where a
/// browser finds it.
pub proof fn a_start_says_what_was_found(
    entries: usize,
    root: &str,
    line: String,
    bound: &str,
    address: String,
)
    requires
        call_ensures(discovered, (entries, root), line),
        call_ensures(url, (bound,), address),
    ensures
        line@ == "Discovered "@ + decimal(entries as nat) + " radargram(s) under "@ + root@,
        address@ == "http://"@ + bound@,
{
}


// ---------------------------------------------------------------------------
// Routes
// ---------------------------------------------------------------------------

/// What can be read and changed is read and changed at one address, by
/// different methods.
pub proof fn one_thing_has_one_address()
    ensures
        Endpoint::GetPreferences.path_of() == Endpoint::PutPreferences.path_of(),
        Endpoint::GetSettings.path_of() == Endpoint::PutSettings.path_of(),
        Endpoint::GetLayers.path_of() == Endpoint::PutLayers.path_of(),
        Endpoint::GetInterpretation.path_of() == Endpoint::PutInterpretation.path_of(),
        Endpoint::GetInterpretation.path_of() == Endpoint::DeleteInterpretation.path_of(),
        Endpoint::GetProperties.path_of() == Endpoint::PutProperties.path_of(),
        Endpoint::GetGroupProperties.path_of() == Endpoint::PutGroupProperties.path_of(),
        Endpoint::GetDerived.path_of() == Endpoint::PutDerived.path_of(),
        Endpoint::ListDatasets.path_of() == Endpoint::UploadDataset.path_of(),
        Endpoint::DatasetDetail.path_of() == Endpoint::RemoveDataset.path_of(),
        Endpoint::ListUsers.path_of() == Endpoint::CreateUser.path_of(),
        Endpoint::UpdateUser.path_of() == Endpoint::DeleteUser.path_of(),
{
}

/// Nothing is changed by a `GET`: whatever saves is a `PUT`, whatever removes a
/// `DELETE`, and whatever adds or does something a `POST`; every page, every
/// asset and every listing is a `GET`.
pub proof fn nothing_is_changed_by_getting(endpoint: Endpoint)
    ensures
        endpoint.method_of() == Method::Put <==> endpoint == Endpoint::UpdateUser || endpoint
            == Endpoint::PutAccess || endpoint == Endpoint::PutPreferences || endpoint
            == Endpoint::PutSettings || endpoint == Endpoint::PutLayers || endpoint
            == Endpoint::PutInterpretation || endpoint == Endpoint::PutProperties || endpoint
            == Endpoint::PutGroupProperties || endpoint == Endpoint::PutDerived,
        endpoint.method_of() == Method::Delete <==> endpoint == Endpoint::DeleteUser || endpoint
            == Endpoint::DeleteInterpretation || endpoint == Endpoint::RemoveDataset,
        endpoint.method_of() == Method::Post <==> endpoint == Endpoint::Login || endpoint
            == Endpoint::Logout || endpoint == Endpoint::RedeemInvite || endpoint
            == Endpoint::CreateUser || endpoint == Endpoint::ReissueInvite || endpoint
            == Endpoint::UploadDataset || endpoint == Endpoint::RestoreDataset || endpoint
            == Endpoint::PreviewDerived,
        endpoint.asset_of() is Some ==> endpoint.method_of() == Method::Get,
{
}

} // verus!
