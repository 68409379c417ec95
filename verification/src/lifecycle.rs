//! What is not served, what came back, and what a radargram has been.
use vstd::prelude::*;

use crate::api_error::{refusal, ApiError, ErrorView};
use crate::audit::{AuditAction, AuditEntry, AuditView};
use crate::auth::{project_refusal, Caller, Role};
use crate::catalog::{
    entry_with_id, has_id, lemma_entry_with_id, Catalog, EntryView, VestigialIgnore, VestigialView,
    WarningView,
};
use crate::catalog_laws::exactly_the_ignored_are_left_out;
use crate::identity::{is_slug, not_a_slug, RadargramId};
use crate::ledger::{
    a_revision_that_comes_back_is_current, a_superseded_revision_is_not_current, current_of,
    history_of, renewed, superseded, Ledger, LedgerRecord, LedgerRecordView,
};
use crate::overrides::{copy_text, CatalogOverrides, IgnoredView, OverridesView};
use crate::paths::FilePath;
use crate::resolution::resolved;
use crate::rows::{lemma_filter_none, lemma_filter_step};
use crate::text;
use crate::text_map::{key_order, TextMap};
use crate::upload::{nowhere_to_put, project_for};

verus! {

broadcast use vstd::string::group_string_axioms;

// ---------------------------------------------------------------------------
// Lifting a decision
// ---------------------------------------------------------------------------

/// How a request to restore something that is not ignored is answered.
pub open spec fn not_ignored(raw: Seq<char>) -> ErrorView {
    refusal(
        404,
        "not_ignored"@,
        "'"@ + raw + "' is not ignored, so there is nothing to restore."@,
    )
}

/// How a request to restore a radargram is refused.
pub open spec fn restore_refusal(
    caller: Caller,
    has_project: bool,
    raw: Seq<char>,
    stored: OverridesView,
) -> Option<ErrorView> {
    match project_refusal(caller, has_project, "restore a radargram"@, nowhere_to_put()) {
        Some(error) => Some(error),
        None => if !is_slug(raw) {
            Some(refusal(400, "invalid_radargram_id"@, not_a_slug(raw)))
        } else if !stored.ignored.contains_key(raw) {
            Some(not_ignored(raw))
        } else {
            None
        },
    }
}

/// What a project says once a decision is lifted.
pub open spec fn without_ignore(stored: OverridesView, id: Seq<char>) -> OverridesView {
    OverridesView { ignored: stored.ignored.remove(id), ..stored }
}

/// Lifts the decision not to serve a radargram. Only ever undoes that: a file
/// that was deleted does not come back.
pub fn restore_dataset(
    caller: &Caller,
    has_project: bool,
    raw: &str,
    stored: &mut CatalogOverrides,
) -> (lifted: Result<RadargramId, ApiError>)
    ensures
        match lifted {
            Ok(id) => {
                &&& restore_refusal(*caller, has_project, raw@, old(stored)@) is None
                &&& id@ == raw@
                &&& final(stored)@ == without_ignore(old(stored)@, raw@)
            },
            Err(error) => {
                &&& restore_refusal(*caller, has_project, raw@, old(stored)@) == Some(error@)
                &&& final(stored)@ == old(stored)@
            },
        },
{
    match project_for(caller, has_project, "restore a radargram") {
        Ok(_) => {},
        Err(error) => {
            return Err(error);
        },
    }
    let id = match RadargramId::new(raw) {
        Ok(id) => id,
        Err(message) => {
            return Err(ApiError::bad_request("invalid_radargram_id", message));
        },
    };
    if !stored.ignores(&id) {
        let mut message = "'".to_owned();
        message.append(raw);
        message.append("' is not ignored, so there is nothing to restore.");
        return Err(ApiError::not_found("not_ignored", message));
    }
    stored.ignored.remove(raw);
    assert(stored@.ignored =~= old(stored)@.ignored.remove(raw@));
    Ok(id)
}

/// The revision that is current again once a radargram is back: whatever the
/// rebuilt catalog has, which may not be what was ignored.
pub fn restored_revision(catalog: &Catalog, id: &RadargramId) -> (revision: Option<String>)
    ensures
        revision.deep_view() == (match entry_with_id(catalog@.entries, id@) {
            Some(entry) => Some(entry.revision_id),
            None => None,
        }),
{
    match catalog.find_entry(id.as_str()) {
        Some(entry) => Some(entry.revision_id.to_text()),
        None => None,
    }
}

/// What the log says of a lifted decision.
pub fn restore_log(caller: &Caller, id: &RadargramId, at: String) -> (entry: AuditEntry)
    ensures
        entry@ == (AuditView {
            at: at@,
            user: caller.shown_name(),
            action: AuditAction::Unignored,
            radargram_id: id@,
            revision_id: None,
            note: None,
        }),
{
    AuditEntry {
        at,
        user: caller.display_name().to_owned(),
        action: AuditAction::Unignored,
        radargram_id: id.to_text(),
        revision_id: None,
        note: None,
    }
}

/// Restoring a radargram undoes ignoring it: what the project says is again
/// what it was.
pub proof fn restoring_undoes_ignoring(stored: OverridesView, id: Seq<char>, decision: IgnoredView)
    requires
        !stored.ignored.contains_key(id),
    ensures
        ({
            let ignored = OverridesView { ignored: stored.ignored.insert(id, decision), ..stored };
            without_ignore(ignored, id) == stored
        }),
{
    assert(stored.ignored.insert(id, decision).remove(id) =~= stored.ignored);
}

// ---------------------------------------------------------------------------
// What is not served
// ---------------------------------------------------------------------------

/// One decision not to serve a radargram.
#[derive(Debug, PartialEq, Eq)]
pub struct IgnoredItem {
    pub radargram_id: String,
    pub since: Option<String>,
}

impl DeepView for IgnoredItem {
    type V = VestigialView;

    open spec fn deep_view(&self) -> VestigialView {
        VestigialView { radargram_id: self.radargram_id@, since: self.since.deep_view() }
    }
}

/// What the project is not serving.
#[derive(Debug, PartialEq, Eq)]
pub struct IgnoredListing {
    pub ignored: Vec<IgnoredItem>,
    /// Decisions with nothing to act on.
    pub vestigial: Vec<IgnoredItem>,
}

/// A decision, as it is listed.
pub open spec fn listed_decision(stored: OverridesView, id: Seq<char>) -> VestigialView {
    VestigialView { radargram_id: id, since: stored.ignored[id].since }
}

/// Whether the catalog knows nothing that a decision about this id could act
/// on.
pub open spec fn is_vestigial(row: Seq<VestigialView>, id: Seq<char>) -> bool {
    exists|i: int| 0 <= i < row.len() && (#[trigger] row[i]).radargram_id == id
}

/// The decisions on one side or the other, in the order of their ids.
pub open spec fn decisions(stored: OverridesView, row: Seq<VestigialView>, vestigial: bool) -> Seq<
    VestigialView,
> {
    key_order(stored.ignored.dom()).filter(
        |id: Seq<char>| is_vestigial(row, id) == vestigial,
    ).map_values(|id: Seq<char>| listed_decision(stored, id))
}

fn among(row: &[VestigialIgnore], id: &RadargramId) -> (found: bool)
    ensures
        found == is_vestigial(row.deep_view(), id@),
{
    let ghost all = row.deep_view();
    let mut i: usize = 0;
    while i < row.len()
        invariant
            i <= row@.len(),
            all == row.deep_view(),
            forall|j: int| 0 <= j < i ==> (#[trigger] all[j]).radargram_id != id@,
        decreases row@.len() - i,
    {
        assert(all[i as int] == row@[i as int]@);
        if row[i].radargram_id.same(id) {
            return true;
        }
        i = i + 1;
    }
    false
}

fn list_decisions(stored: &CatalogOverrides, row: &[VestigialIgnore], vestigial: bool) -> (items: Vec<
    IgnoredItem,
>)
    ensures
        items.deep_view() == decisions(stored@, row.deep_view(), vestigial),
{
    let ghost keep = |id: Seq<char>| is_vestigial(row.deep_view(), id) == vestigial;
    let ghost as_listed = |id: Seq<char>| listed_decision(stored@, id);
    let count = stored.ignored.len();
    let ghost keys = stored.ignored.keys();
    let mut items: Vec<IgnoredItem> = Vec::new();
    let mut i: usize = 0;
    proof {
        assert(stored@.ignored.dom() =~= stored.ignored@.dom());
        lemma_filter_none(keys, keep);
        assert(items.deep_view() =~= keys.take(0).filter(keep).map_values(as_listed));
    }
    while i < count
        invariant
            i <= count,
            count == keys.len(),
            keys == stored.ignored.keys(),
            keep == (|id: Seq<char>| is_vestigial(row.deep_view(), id) == vestigial),
            as_listed == (|id: Seq<char>| listed_decision(stored@, id)),
            items.deep_view() == keys.take(i as int).filter(keep).map_values(as_listed),
        decreases count - i,
    {
        let id = stored.ignored.key_at(i);
        let decision = stored.ignored.value_at(i);
        proof {
            lemma_filter_step(keys, i as int, keep);
        }
        if among(row, id) == vestigial {
            let ghost so_far = items.deep_view();
            let item = IgnoredItem { radargram_id: id.to_text(), since: copy_text(&decision.since) };
            items.push(item);
            proof {
                assert(items.deep_view() =~= so_far.push(item.deep_view()));
                assert(item.deep_view() == as_listed(id@));
                assert(items.deep_view() =~= keys.take(i + 1).filter(keep).map_values(as_listed));
            }
        }
        i = i + 1;
    }
    assert(keys.take(i as int) =~= keys);
    items
}

/// What the project is not serving, apart from the decisions that have nothing
/// to act on.
pub fn list_ignored(
    caller: &Caller,
    has_project: bool,
    stored: Result<CatalogOverrides, String>,
    catalog: &Catalog,
) -> (listing: Result<IgnoredListing, ApiError>)
    ensures
        ({
            let barred = project_refusal(
                *caller,
                has_project,
                "see what is not being served"@,
                nowhere_to_put(),
            );
            match listing {
                Ok(listing) => {
                    &&& barred is None
                    &&& stored matches Ok(stored)
                    &&& listing.ignored.deep_view() == decisions(
                        stored@,
                        catalog@.vestigial_ignores,
                        false,
                    )
                    &&& listing.vestigial.deep_view() == decisions(
                        stored@,
                        catalog@.vestigial_ignores,
                        true,
                    )
                },
                Err(error) => if barred is Some {
                    barred == Some(error@)
                } else {
                    stored matches Err(reason) && error@ == refusal(
                        500,
                        "overrides_read_failed"@,
                        reason@,
                    )
                },
            }
        }),
{
    match project_for(caller, has_project, "see what is not being served") {
        Ok(_) => {},
        Err(error) => {
            return Err(error);
        },
    }
    match stored {
        Err(reason) => Err(ApiError::internal("overrides_read_failed", reason)),
        Ok(stored) => {
            let row = catalog.vestigial_ignores();
            Ok(
                IgnoredListing {
                    ignored: list_decisions(&stored, row, false),
                    vestigial: list_decisions(&stored, row, true),
                },
            )
        },
    }
}

// ---------------------------------------------------------------------------
// What a radargram has been
// ---------------------------------------------------------------------------

/// What was kept of a revision's axes.
#[derive(Debug, PartialEq, Eq)]
pub struct KeptAxes {
    pub n_traces: usize,
    pub n_samples: usize,
    pub y_anchor: Option<String>,
}

/// What was kept of axes, as plain values.
#[verifier::ext_equal]
pub struct KeptAxesView {
    pub n_traces: usize,
    pub n_samples: usize,
    pub y_anchor: Option<Seq<char>>,
}

impl DeepView for KeptAxes {
    type V = KeptAxesView;

    open spec fn deep_view(&self) -> KeptAxesView {
        KeptAxesView {
            n_traces: self.n_traces,
            n_samples: self.n_samples,
            y_anchor: self.y_anchor.deep_view(),
        }
    }
}

/// One revision a radargram has been through.
#[derive(Debug, PartialEq, Eq)]
pub struct RevisionSummary {
    pub revision_id: String,
    /// Whether it is the one behind the id now.
    pub current: bool,
    pub superseded_at: Option<String>,
    pub superseded_by: Option<String>,
    /// Whether its axes were kept, which decides whether picks drawn on it can
    /// be carried onto a later one.
    pub has_axes: bool,
    pub n_traces: Option<usize>,
    pub n_samples: Option<usize>,
    pub y_anchor: Option<String>,
}

/// A summary, as plain values.
#[verifier::ext_equal]
pub struct SummaryView {
    pub revision_id: Seq<char>,
    pub current: bool,
    pub superseded_at: Option<Seq<char>>,
    pub superseded_by: Option<Seq<char>>,
    pub has_axes: bool,
    pub n_traces: Option<usize>,
    pub n_samples: Option<usize>,
    pub y_anchor: Option<Seq<char>>,
}

impl DeepView for RevisionSummary {
    type V = SummaryView;

    open spec fn deep_view(&self) -> SummaryView {
        SummaryView {
            revision_id: self.revision_id@,
            current: self.current,
            superseded_at: self.superseded_at.deep_view(),
            superseded_by: self.superseded_by.deep_view(),
            has_axes: self.has_axes,
            n_traces: self.n_traces,
            n_samples: self.n_samples,
            y_anchor: self.y_anchor.deep_view(),
        }
    }
}

/// A line of the history, as it is answered.
pub open spec fn summary_of(
    record: LedgerRecordView,
    current: Option<Seq<char>>,
    kept: Map<Seq<char>, KeptAxesView>,
) -> SummaryView {
    let has_axes = kept.contains_key(record.revision_id);
    let axes = kept[record.revision_id];
    SummaryView {
        revision_id: record.revision_id,
        current: current == Some(record.revision_id),
        superseded_at: record.superseded_at,
        superseded_by: record.superseded_by,
        has_axes,
        n_traces: if has_axes {
            Some(axes.n_traces)
        } else {
            None
        },
        n_samples: if has_axes {
            Some(axes.n_samples)
        } else {
            None
        },
        y_anchor: if has_axes {
            axes.y_anchor
        } else {
            None
        },
    }
}

/// The history of a radargram, as it is answered.
pub open spec fn summaries_of(
    records: Seq<LedgerRecordView>,
    kept: Map<Seq<char>, KeptAxesView>,
) -> Seq<SummaryView> {
    records.map_values(|record: LedgerRecordView| summary_of(record, current_of(records), kept))
}

/// How a request for a history is refused.
pub open spec fn revisions_refusal(
    caller: Caller,
    has_project: bool,
    raw: Seq<char>,
) -> Option<ErrorView> {
    if !caller.allowed(Role::Viewer) {
        Some(caller.role_refusal(Role::Viewer, "read a radargram's history"@))
    } else if !has_project {
        Some(
            refusal(
                404,
                "not_a_project"@,
                "This catalog is not a Ridal project, so it keeps no revision history."@,
            ),
        )
    } else if !is_slug(raw) {
        Some(refusal(400, "invalid_radargram_id"@, not_a_slug(raw)))
    } else {
        None
    }
}

fn summarize(
    record: &LedgerRecord,
    current: &Option<String>,
    kept: &TextMap<String, KeptAxes>,
) -> (summary: RevisionSummary)
    ensures
        summary.deep_view() == summary_of(record@, current.deep_view(), kept.deep_view()),
{
    let is_current = match current {
        Some(id) => text::equal(id.as_str(), record.revision_id.as_str()),
        None => false,
    };
    let axes = kept.get(record.revision_id.as_str());
    let (n_traces, n_samples, y_anchor) = match axes {
        Some(axes) => (Some(axes.n_traces), Some(axes.n_samples), copy_text(&axes.y_anchor)),
        None => (None, None, None),
    };
    RevisionSummary {
        revision_id: record.revision_id.clone(),
        current: is_current,
        superseded_at: copy_text(&record.superseded_at),
        superseded_by: copy_text(&record.superseded_by),
        has_axes: axes.is_some(),
        n_traces,
        n_samples,
        y_anchor,
    }
}

/// What a radargram has been, from its history rather than from its files: a
/// revision's file may be gone while its mapping is not. What is `kept` are the
/// axes of its revisions.
pub fn list_revisions(
    caller: &Caller,
    has_project: bool,
    raw: &str,
    history: Result<Ledger, String>,
    kept: &TextMap<String, KeptAxes>,
) -> (summaries: Result<Vec<RevisionSummary>, ApiError>)
    ensures
        match summaries {
            Ok(summaries) => {
                &&& revisions_refusal(*caller, has_project, raw@) is None
                &&& history matches Ok(history)
                &&& summaries.deep_view() == summaries_of(
                    history_of(history@, raw@),
                    kept.deep_view(),
                )
            },
            Err(error) => match revisions_refusal(*caller, has_project, raw@) {
                Some(refused) => error@ == refused,
                None => history matches Err(reason) && error@ == refusal(
                    500,
                    "ledger_read_failed"@,
                    reason@,
                ),
            },
        },
{
    match caller.require(Role::Viewer, "read a radargram's history") {
        Ok(_) => {},
        Err(error) => {
            return Err(error);
        },
    }
    if !has_project {
        return Err(
            ApiError::not_found(
                "not_a_project",
                "This catalog is not a Ridal project, so it keeps no revision history.".to_owned(),
            ),
        );
    }
    match RadargramId::new(raw) {
        Ok(_) => {},
        Err(message) => {
            return Err(ApiError::bad_request("invalid_radargram_id", message));
        },
    }
    match history {
        Err(reason) => Err(ApiError::internal("ledger_read_failed", reason)),
        Ok(history) => {
            let records = history.history(raw);
            let current = history.current(raw);
            let ghost all = records.deep_view();
            let ghost as_summary = |record: LedgerRecordView|
                summary_of(record, current_of(all), kept.deep_view());
            let mut summaries: Vec<RevisionSummary> = Vec::new();
            let mut i: usize = 0;
            while i < records.len()
                invariant
                    i <= records.len(),
                    all == records.deep_view(),
                    current.deep_view() == current_of(all),
                    as_summary == (|record: LedgerRecordView|
                        summary_of(record, current_of(all), kept.deep_view())),
                    summaries.len() == i,
                    forall|j: int|
                        0 <= j < i ==> #[trigger] summaries.deep_view()[j] == as_summary(all[j]),
                decreases records.len() - i,
            {
                let summary = summarize(&records[i], &current, kept);
                assert(all[i as int] == records[i as int]@);
                let ghost so_far = summaries.deep_view();
                summaries.push(summary);
                assert(summaries.deep_view() =~= so_far.push(summary.deep_view()));
                i = i + 1;
            }
            assert(summaries.deep_view() =~= all.map_values(as_summary));
            Ok(summaries)
        },
    }
}

/// A radargram has at most one current revision.
pub proof fn at_most_one_revision_is_current(
    records: Seq<LedgerRecordView>,
    kept: Map<Seq<char>, KeptAxesView>,
    i: int,
    j: int,
)
    requires
        0 <= i < records.len(),
        0 <= j < records.len(),
        summaries_of(records, kept)[i].current,
        summaries_of(records, kept)[j].current,
    ensures
        records[i].revision_id == records[j].revision_id,
{
}

/// A radargram that is restored while its file is there is served again, and
/// the revision it is served with is the current one: its history, whatever it
/// was, calls it current and no longer says that it is gone.
pub proof fn a_restored_radargram_is_served_and_current(
    unresolved: Seq<EntryView>,
    file_warnings: Seq<WarningView>,
    stored: OverridesView,
    id: Seq<char>,
    records: Seq<LedgerRecordView>,
    kept: Map<Seq<char>, KeptAxesView>,
)
    requires
        has_id(unresolved, id),
    ensures
        ({
            let catalog = resolved(unresolved, file_warnings, without_ignore(stored, id));
            let entry = entry_with_id(catalog.entries, id);
            let after = renewed(records, entry->0.revision_id, None);
            &&& entry is Some
            &&& current_of(after) == Some(entry->0.revision_id)
            &&& forall|i: int|
                0 <= i < after.len() && (#[trigger] summaries_of(after, kept)[i]).revision_id
                    == entry->0.revision_id ==> summaries_of(after, kept)[i].current
                    && summaries_of(after, kept)[i].superseded_at is None && summaries_of(
                    after,
                    kept,
                )[i].superseded_by is None
        }),
{
    let catalog = resolved(unresolved, file_warnings, without_ignore(stored, id));
    exactly_the_ignored_are_left_out(unresolved, without_ignore(stored, id), id);
    lemma_entry_with_id(catalog.entries, id);
    let revision = entry_with_id(catalog.entries, id)->0.revision_id;
    let after = renewed(records, revision, None);
    a_revision_that_comes_back_is_current(records, revision, None);
    assert forall|i: int|
        0 <= i < after.len() && (#[trigger] summaries_of(after, kept)[i]).revision_id
            == revision implies summaries_of(after, kept)[i].current && summaries_of(
        after,
        kept,
    )[i].superseded_at is None && summaries_of(after, kept)[i].superseded_by is None by {
        assert(after[i].revision_id == revision);
    }
}

/// Ignoring a radargram takes it out of the catalog and has its history say
/// that it is gone. Restoring it makes the catalog what it was, and the
/// revision it serves current again.
pub proof fn restoring_undoes_ignoring_everywhere(
    unresolved: Seq<EntryView>,
    file_warnings: Seq<WarningView>,
    stored: OverridesView,
    id: Seq<char>,
    decision: IgnoredView,
    records: Seq<LedgerRecordView>,
    at: Seq<char>,
)
    requires
        has_id(unresolved, id),
        !stored.ignored.contains_key(id),
    ensures
        ({
            let before = resolved(unresolved, file_warnings, stored);
            let revision = entry_with_id(before.entries, id)->0.revision_id;
            let ignored = OverridesView { ignored: stored.ignored.insert(id, decision), ..stored };
            let gone = superseded(records, revision, None, at);
            &&& entry_with_id(before.entries, id) is Some
            &&& !has_id(resolved(unresolved, file_warnings, ignored).entries, id)
            &&& current_of(gone) != Some(revision)
            &&& resolved(unresolved, file_warnings, without_ignore(ignored, id)) == before
            &&& current_of(renewed(gone, revision, None)) == Some(revision)
        }),
{
    let before = resolved(unresolved, file_warnings, stored);
    let revision = entry_with_id(before.entries, id)->0.revision_id;
    let ignored = OverridesView { ignored: stored.ignored.insert(id, decision), ..stored };
    let gone = superseded(records, revision, None, at);
    restoring_undoes_ignoring(stored, id, decision);
    exactly_the_ignored_are_left_out(unresolved, stored, id);
    exactly_the_ignored_are_left_out(unresolved, ignored, id);
    lemma_entry_with_id(before.entries, id);
    a_superseded_revision_is_not_current(records, revision, None, at);
    a_revision_that_comes_back_is_current(gone, revision, None);
}

// ---------------------------------------------------------------------------
// Temporary files
// ---------------------------------------------------------------------------

/// A file that is to be deleted unless it was installed.
#[derive(Debug, PartialEq, Eq)]
pub struct TempFile {
    pub path: FilePath,
}

impl TempFile {
    /// A file that was just created.
    pub fn new(path: FilePath) -> (file: TempFile)
        ensures
            file.path@ == path@,
    {
        TempFile { path }
    }

    /// The file was given its name: nothing is left to delete.
    pub fn installed(self) -> (file: TempFile)
        ensures
            file.path@.len() == 0,
    {
        TempFile { path: FilePath { parts: Vec::new() } }
    }

    /// What is to be deleted.
    pub fn leftover(&self) -> (path: Option<FilePath>)
        ensures
            path.deep_view() == (if self.path@.len() == 0 {
                None
            } else {
                Some(self.path@)
            }),
    {
        if self.path.parts.len() == 0 {
            None
        } else {
            Some(self.path.clone())
        }
    }
}

} // verus!
