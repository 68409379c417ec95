//! Handing out the values of derived items.
//!
//! Evaluating an expression is the caller's work, and takes the picks that
//! [`crate::derived::visible_documents`] allows. What is evaluated, over whose
//! picks, and what the download looks like, is decided here. A value comes in
//! as text, already formatted, and a gap as nothing.
use vstd::prelude::*;

use crate::api_error::{refusal, ApiError, ErrorView};
use crate::auth::{Caller, DownloadScope};
use crate::derived::{
    feeds, item_with_id, sees_across_users, Audience, DerivedItem, DerivedSet, ItemView, Scope,
    ScopeView, Unit,
};
use crate::identity::{is_slug, not_a_slug, RadargramId};
use crate::rows::{lemma_filter_none, lemma_filter_step};
use crate::text;
use crate::text::decimal;
use crate::text_map::TextMap;

verus! {

broadcast use vstd::string::group_string_axioms;

// ---------------------------------------------------------------------------
// Who may have values
// ---------------------------------------------------------------------------

/// How a request for values is refused.
pub open spec fn values_refusal(
    caller: Caller,
    what: Seq<char>,
    radargram_id: Seq<char>,
) -> Option<ErrorView> {
    if !caller.allowed_download(DownloadScope::Results) {
        Some(caller.download_refusal(what))
    } else if !is_slug(radargram_id) {
        Some(refusal(400, "invalid_radargram_id"@, not_a_slug(radargram_id)))
    } else {
        None
    }
}

/// Checks that a caller may have values of a radargram, before anything is
/// read for them. `what` says which values.
pub fn require_values(caller: &Caller, what: &str, radargram_id: &str) -> (id: Result<
    RadargramId,
    ApiError,
>)
    ensures
        match id {
            Ok(id) => values_refusal(*caller, what@, radargram_id@) is None && id@ == radargram_id@,
            Err(error) => values_refusal(*caller, what@, radargram_id@) == Some(error@),
        },
{
    match caller.require_download(DownloadScope::Results, what) {
        Ok(_) => {},
        Err(error) => {
            return Err(error);
        },
    }
    match RadargramId::new(radargram_id) {
        Ok(id) => Ok(id),
        Err(message) => Err(ApiError::bad_request("invalid_radargram_id", message)),
    }
}

// ---------------------------------------------------------------------------
// Previewing an expression
// ---------------------------------------------------------------------------

/// A request to preview an expression. It carries no audience: a released
/// result is an admin's decision about a stored item, and nothing in a request
/// is that.
#[derive(Debug, PartialEq, Eq)]
pub struct PreviewBody {
    pub expression: String,
    pub unit: Option<Unit>,
}

/// What is evaluated for a preview: the stored items, so that the expression
/// can refer to them, and the expression itself in the last place.
pub open spec fn preview_items(stored: Seq<ItemView>, preview: ItemView) -> Seq<ItemView> {
    stored.filter(|item: ItemView| item.id != "preview"@).push(preview)
}

/// The item that a preview evaluates.
pub open spec fn preview_item(
    expression: Seq<char>,
    unit: Option<Unit>,
    references: Seq<Seq<char>>,
) -> ItemView {
    ItemView {
        id: "preview"@,
        name: "preview"@,
        expression,
        unit: match unit {
            Some(unit) => unit,
            None => Unit::Meters,
        },
        color: None,
        show: false,
        listed: true,
        fill_to: None,
        scope: ScopeView::Project,
        audience: Audience::OwnPicks,
        references,
        extra: Map::empty(),
    }
}

/// What a preview evaluates, and over whose picks: always as an item that was
/// not released. `references` are the names the expression mentions.
pub fn preview_derived(
    caller: &Caller,
    radargram_id: &str,
    stored: &DerivedSet,
    body: PreviewBody,
    references: Vec<String>,
) -> (plan: Result<(RadargramId, DerivedSet, Audience), ApiError>)
    ensures
        match plan {
            Ok((id, set, audience)) => {
                &&& values_refusal(*caller, "derived preview"@, radargram_id@) is None
                &&& id@ == radargram_id@
                &&& set@ == preview_items(
                    stored@,
                    preview_item(body.expression@, body.unit, references.deep_view()),
                )
                &&& audience == Audience::OwnPicks
            },
            Err(error) => values_refusal(*caller, "derived preview"@, radargram_id@) == Some(
                error@,
            ),
        },
{
    let id = match require_values(caller, "derived preview", radargram_id) {
        Ok(id) => id,
        Err(error) => {
            return Err(error);
        },
    };
    let ghost all = stored@;
    let ghost keep = |item: ItemView| item.id != "preview"@;
    let mut items: Vec<DerivedItem> = Vec::new();
    let mut i: usize = 0;
    proof {
        lemma_filter_none(all, keep);
        assert(items.deep_view() =~= Seq::empty());
    }
    while i < stored.items.len()
        invariant
            i <= stored.items.len(),
            all == stored.items.deep_view(),
            keep == (|item: ItemView| item.id != "preview"@),
            items.deep_view() == all.take(i as int).filter(keep),
        decreases stored.items.len() - i,
    {
        proof {
            lemma_filter_step(all, i as int, keep);
            assert(all[i as int] == stored.items[i as int]@);
        }
        if !text::equal(stored.items[i].id.as_str(), "preview") {
            let ghost so_far = items.deep_view();
            let item = stored.items[i].clone();
            items.push(item);
            assert(items.deep_view() =~= so_far.push(item@));
        }
        i = i + 1;
    }
    assert(all.take(i as int) =~= all);
    let unit = match body.unit {
        Some(unit) => unit,
        None => Unit::Meters,
    };
    let ghost before = items.deep_view();
    let preview = DerivedItem {
        id: "preview".to_owned(),
        name: "preview".to_owned(),
        expression: body.expression,
        unit,
        color: None,
        show: false,
        listed: true,
        fill_to: None,
        scope: Scope::Project,
        audience: Audience::OwnPicks,
        references,
        extra: TextMap::new(),
    };
    assert(preview@.extra =~= Map::empty());
    items.push(preview);
    assert(items.deep_view() =~= before.push(preview@));
    Ok((id, DerivedSet { items }, Audience::OwnPicks))
}

// ---------------------------------------------------------------------------
// One item
// ---------------------------------------------------------------------------

/// How a request for an item that is not there is answered.
pub open spec fn no_such_item(id: Seq<char>) -> ErrorView {
    refusal(404, "derived_item_not_found"@, "No derived item with id '"@ + id + "'."@)
}

/// How a request for an item that is not the caller's is answered.
pub open spec fn not_your_item() -> ErrorView {
    refusal(403, "not_your_item"@, "That private derived item belongs to someone else."@)
}

/// How a request for one item's values is refused.
pub open spec fn item_values_refusal(
    caller: Caller,
    radargram_id: Seq<char>,
    items: Seq<ItemView>,
    item_id: Seq<char>,
) -> Option<ErrorView> {
    match values_refusal(caller, "derived results"@, radargram_id) {
        Some(error) => Some(error),
        None => match item_with_id(items, item_id) {
            None => Some(no_such_item(item_id)),
            Some(item) => if item.is_visible_to(caller.shown_name()) {
                None
            } else {
                Some(not_your_item())
            },
        },
    }
}

/// The item whose values are asked for, and over whose picks they are
/// evaluated: by what the stored item says.
pub fn get_derived_item<'a>(
    caller: &Caller,
    radargram_id: &str,
    set: &'a DerivedSet,
    item_id: &str,
) -> (found: Result<(RadargramId, &'a DerivedItem, Audience), ApiError>)
    ensures
        match found {
            Ok((id, item, audience)) => {
                &&& item_values_refusal(*caller, radargram_id@, set@, item_id@) is None
                &&& id@ == radargram_id@
                &&& item_with_id(set@, item_id@) == Some(item@)
                &&& audience == item@.audience
            },
            Err(error) => item_values_refusal(*caller, radargram_id@, set@, item_id@) == Some(
                error@,
            ),
        },
{
    let id = match require_values(caller, "derived results", radargram_id) {
        Ok(id) => id,
        Err(error) => {
            return Err(error);
        },
    };
    match set.get(item_id) {
        None => {
            let mut message = "No derived item with id '".to_owned();
            message.append(item_id);
            message.append("'.");
            Err(ApiError::not_found("derived_item_not_found", message))
        },
        Some(item) => if item.visible_to(caller.display_name()) {
            Ok((id, item, item.audience))
        } else {
            Err(
                ApiError::forbidden(
                    "not_your_item",
                    "That private derived item belongs to someone else.".to_owned(),
                ),
            )
        },
    }
}

// ---------------------------------------------------------------------------
// Every item
// ---------------------------------------------------------------------------

/// The values of one item, trace by trace.
#[derive(Debug, PartialEq, Eq)]
pub struct EvaluatedItem {
    pub kind: String,
    pub unit: String,
    /// Each value as text, or nothing where there is a gap.
    pub values: Vec<Option<String>>,
}

/// The values of one item, as plain values.
#[verifier::ext_equal]
pub struct EvaluatedView {
    pub kind: Seq<char>,
    pub unit: Seq<char>,
    pub values: Seq<Option<Seq<char>>>,
}

impl DeepView for EvaluatedItem {
    type V = EvaluatedView;

    open spec fn deep_view(&self) -> EvaluatedView {
        EvaluatedView { kind: self.kind@, unit: self.unit@, values: self.values.deep_view() }
    }
}

/// Whether a download needs an evaluation for this audience: somebody of this
/// name may see an item that has it.
pub open spec fn needs_audience(items: Seq<ItemView>, viewer: Seq<char>, audience: Audience) -> bool {
    exists|i: int|
        0 <= i < items.len() && (#[trigger] items[i]).is_visible_to(viewer) && items[i].audience
            == audience
}

/// Whether an item is among exported points: somebody of this name may see it,
/// and it is listed or unlisted ones are asked for.
pub open spec fn is_exported(item: ItemView, viewer: Seq<char>, include_unlisted: bool) -> bool {
    item.is_visible_to(viewer) && (item.listed || include_unlisted)
}

/// Whether an export of points needs an evaluation for this audience: an item
/// that has it is exported.
pub open spec fn exports_audience(
    items: Seq<ItemView>,
    viewer: Seq<char>,
    include_unlisted: bool,
    audience: Audience,
) -> bool {
    exists|i: int|
        0 <= i < items.len() && is_exported(#[trigger] items[i], viewer, include_unlisted)
            && items[i].audience == audience
}

fn is_needed(set: &DerivedSet, viewer: &str, include_unlisted: bool, audience: Audience) -> (needed:
    bool)
    ensures
        needed == exports_audience(set@, viewer@, include_unlisted, audience),
{
    let ghost all = set@;
    let mut i: usize = 0;
    while i < set.items.len()
        invariant
            i <= set.items.len(),
            all == set.items.deep_view(),
            forall|j: int|
                0 <= j < i ==> !(is_exported(#[trigger] all[j], viewer@, include_unlisted)
                    && all[j].audience == audience),
        decreases set.items.len() - i,
    {
        let item = &set.items[i];
        assert(all[i as int] == item@);
        if item.visible_to(viewer) && (item.listed || include_unlisted) && item.audience
            == audience {
            return true;
        }
        i = i + 1;
    }
    false
}

/// The audiences that evaluations are needed for, each once.
fn needed_audiences(set: &DerivedSet, viewer: &str, include_unlisted: bool) -> (audiences: Vec<
    Audience,
>)
    ensures
        audiences@ == seq![Audience::OwnPicks, Audience::Released].filter(
            |audience: Audience| exports_audience(set@, viewer@, include_unlisted, audience),
        ),
{
    let ghost both = seq![Audience::OwnPicks, Audience::Released];
    let ghost keep = |audience: Audience|
        exports_audience(set@, viewer@, include_unlisted, audience);
    proof {
        lemma_filter_none(both, keep);
        lemma_filter_step(both, 0, keep);
        lemma_filter_step(both, 1, keep);
        assert(both.take(2) =~= both);
    }
    let mut audiences: Vec<Audience> = Vec::new();
    if is_needed(set, viewer, include_unlisted, Audience::OwnPicks) {
        audiences.push(Audience::OwnPicks);
    }
    if is_needed(set, viewer, include_unlisted, Audience::Released) {
        audiences.push(Audience::Released);
    }
    assert(audiences@ =~= both.filter(keep));
    audiences
}

/// The evaluations a download needs: one for each audience among the items the
/// caller may see, and none besides. An item is never served from an
/// evaluation over more than its own audience allows.
pub fn download_derived(caller: &Caller, radargram_id: &str, set: &DerivedSet) -> (plan: Result<
    (RadargramId, Vec<Audience>),
    ApiError,
>)
    ensures
        match plan {
            Ok((id, audiences)) => {
                let viewer = caller.shown_name();
                &&& values_refusal(*caller, "derived results"@, radargram_id@) is None
                &&& id@ == radargram_id@
                &&& audiences@ == seq![Audience::OwnPicks, Audience::Released].filter(
                    |audience: Audience| needs_audience(set@, viewer, audience),
                )
            },
            Err(error) => values_refusal(*caller, "derived results"@, radargram_id@) == Some(
                error@,
            ),
        },
{
    let id = match require_values(caller, "derived results", radargram_id) {
        Ok(id) => id,
        Err(error) => {
            return Err(error);
        },
    };
    let audiences = needed_audiences(set, caller.display_name(), true);
    proof {
        let viewer = caller.shown_name();
        let needed = |audience: Audience| needs_audience(set@, viewer, audience);
        let exported = |audience: Audience| exports_audience(set@, viewer, true, audience);
        assert forall|audience: Audience| #[trigger] needed(audience) == exported(audience) by {
            if needed(audience) {
                let i = choose|i: int|
                    0 <= i < set@.len() && (#[trigger] set@[i]).is_visible_to(viewer)
                        && set@[i].audience == audience;
                assert(is_exported(set@[i], viewer, true));
            }
        }
        assert(needed =~= exported);
    }
    Ok((id, audiences))
}

/// The column heads of a download.
pub open spec fn csv_head() -> Seq<char> {
    "radargram_id,item,kind,unit,trace,value\n"@
}

/// One row of a download. A gap is empty.
pub open spec fn csv_row(
    radargram_id: Seq<char>,
    item: Seq<char>,
    result: EvaluatedView,
    trace: nat,
) -> Seq<char> {
    radargram_id + ","@ + item + ","@ + result.kind + ","@ + result.unit + ","@ + decimal(trace)
        + ","@ + (match result.values[trace as int] {
        Some(value) => value,
        None => ""@,
    }) + "\n"@
}

/// The rows of one item's first `n` traces.
pub open spec fn csv_rows(
    radargram_id: Seq<char>,
    item: Seq<char>,
    result: EvaluatedView,
    n: int,
) -> Seq<char>
    decreases n,
{
    if n <= 0 {
        Seq::empty()
    } else {
        csv_rows(radargram_id, item, result, n - 1) + csv_row(
            radargram_id,
            item,
            result,
            (n - 1) as nat,
        )
    }
}

/// Where an item's values are taken from: the evaluation for its own audience.
pub open spec fn result_for<T>(
    item: ItemView,
    own: Map<Seq<char>, T>,
    released: Map<Seq<char>, T>,
) -> Option<T> {
    let results = match item.audience {
        Audience::OwnPicks => own,
        Audience::Released => released,
    };
    if results.contains_key(item.id) {
        Some(results[item.id])
    } else {
        None
    }
}

/// Takes an item's values from the evaluation for its own audience.
pub fn take_result<'a, T>(
    item: &DerivedItem,
    own: &'a TextMap<String, T>,
    released: &'a TextMap<String, T>,
) -> (result: Option<&'a T>)
    ensures
        match result {
            Some(result) => result_for(item@, own@, released@) == Some(*result),
            None => result_for(item@, own@, released@) is None,
        },
{
    match item.audience {
        Audience::OwnPicks => own.get(item.id.as_str()),
        Audience::Released => released.get(item.id.as_str()),
    }
}

/// The rows of the items, as far as they were evaluated.
pub open spec fn csv_body(
    radargram_id: Seq<char>,
    items: Seq<ItemView>,
    own: Map<Seq<char>, EvaluatedView>,
    released: Map<Seq<char>, EvaluatedView>,
) -> Seq<char>
    decreases items.len(),
{
    if items.len() == 0 {
        Seq::empty()
    } else {
        let before = csv_body(radargram_id, items.drop_last(), own, released);
        match result_for(items.last(), own, released) {
            Some(result) => before + csv_rows(
                radargram_id,
                items.last().id,
                result,
                result.values.len() as int,
            ),
            None => before,
        }
    }
}

fn write_rows(csv: String, radargram_id: &str, item: &str, result: &EvaluatedItem) -> (longer: String)
    ensures
        longer@ == csv@ + csv_rows(
            radargram_id@,
            item@,
            result.deep_view(),
            result.values.len() as int,
        ),
{
    let ghost view = result.deep_view();
    let ghost before = csv@;
    let mut csv = csv;
    let mut trace: usize = 0;
    proof {
        assert(before + csv_rows(radargram_id@, item@, view, 0) =~= before);
    }
    while trace < result.values.len()
        invariant
            trace <= result.values.len(),
            view == result.deep_view(),
            csv@ == before + csv_rows(radargram_id@, item@, view, trace as int),
        decreases result.values.len() - trace,
    {
        assert(view.values[trace as int] == result.values[trace as int].deep_view());
        let mut row = radargram_id.to_owned();
        row.append(",");
        row.append(item);
        row.append(",");
        row.append(result.kind.as_str());
        row.append(",");
        row.append(result.unit.as_str());
        row.append(",");
        row.append(text::decimal_usize(trace).as_str());
        row.append(",");
        match &result.values[trace] {
            Some(value) => {
                row.append(value.as_str());
            },
            None => {
                row.append("");
            },
        }
        row.append("\n");
        let ghost so_far = csv@;
        csv.append(row.as_str());
        proof {
            assert(row@ == csv_row(radargram_id@, item@, view, trace as nat));
            assert(csv@ =~= before + csv_rows(radargram_id@, item@, view, trace + 1));
        }
        trace = trace + 1;
    }
    csv
}

/// The download itself: every item the caller may see, one row per item and
/// trace.
pub fn write_csv(
    radargram_id: &RadargramId,
    set: &DerivedSet,
    viewer: &str,
    own: &TextMap<String, EvaluatedItem>,
    released: &TextMap<String, EvaluatedItem>,
) -> (csv: String)
    ensures
        csv@ == csv_head() + csv_body(
            radargram_id@,
            set@.filter(|item: ItemView| item.is_visible_to(viewer@)),
            own.deep_view(),
            released.deep_view(),
        ),
{
    let items = set.visible_to(viewer);
    let ghost all = items.deep_view();
    let mut csv = "radargram_id,item,kind,unit,trace,value\n".to_owned();
    let mut i: usize = 0;
    proof {
        assert(all.take(0) =~= Seq::empty());
        assert(csv_head() + csv_body(
            radargram_id@,
            all.take(0),
            own.deep_view(),
            released.deep_view(),
        ) =~= csv_head());
    }
    while i < items.len()
        invariant
            i <= items.len(),
            all == items.deep_view(),
            csv@ == csv_head() + csv_body(
                radargram_id@,
                all.take(i as int),
                own.deep_view(),
                released.deep_view(),
            ),
        decreases items.len() - i,
    {
        let item: &DerivedItem = items[i];
        let ghost body = csv_body(
            radargram_id@,
            all.take(i as int),
            own.deep_view(),
            released.deep_view(),
        );
        proof {
            assert(all.take(i + 1).drop_last() =~= all.take(i as int));
            assert(all.take(i + 1).last() == item@);
        }
        if let Some(result) = take_result(item, own, released) {
            csv = write_rows(csv, radargram_id.as_str(), item.id.as_str(), result);
            proof {
                let rows = csv_rows(
                    radargram_id@,
                    item@.id,
                    result.deep_view(),
                    result.values.len() as int,
                );
                assert(csv_head() + body + rows =~= csv_head() + (body + rows));
            }
        }
        i = i + 1;
    }
    assert(all.take(i as int) =~= all);
    csv
}

/// An item's values, in a table or as points, come from the evaluation for its
/// own audience and from no other: changing the other evaluation changes
/// nothing for it.
pub proof fn an_item_is_served_from_its_own_audience<T>(
    item: ItemView,
    own: Map<Seq<char>, T>,
    released: Map<Seq<char>, T>,
    other: Map<Seq<char>, T>,
)
    ensures
        item.audience == Audience::OwnPicks ==> result_for(item, own, released) == result_for(
            item,
            own,
            other,
        ),
        item.audience == Audience::Released ==> result_for(item, own, released) == result_for(
            item,
            other,
            released,
        ),
{
}

// ---------------------------------------------------------------------------
// Points
// ---------------------------------------------------------------------------

/// A request for derived points.
#[derive(Debug, PartialEq, Eq)]
pub struct DerivedPointsQuery {
    pub spacing: Option<String>,
    pub format: Option<String>,
    pub crs: Option<String>,
    /// Whether items that are kept out of listings are in it too.
    pub include_unlisted: bool,
}

/// How far apart points are. A step is a double-precision number of metres,
/// held by its bit pattern.
#[derive(Clone, Copy, Debug, PartialEq, Eq, Structural)]
pub enum Spacing {
    /// At the vertices of what was drawn.
    Vertices,
    /// At every trace.
    PerTrace,
    /// This many metres along the track.
    ArcLength(u64),
    /// Whatever suits the track.
    Auto,
}

/// The spacing of derived points. A derived item is one value per position, so
/// the vertices of a drawn line mean every trace; all else is the same grid
/// that picked points are on.
pub fn points_spacing(spacing: Spacing) -> (grid: Spacing)
    ensures
        grid == (if spacing is Vertices {
            Spacing::PerTrace
        } else {
            spacing
        }),
{
    match spacing {
        Spacing::Vertices => Spacing::PerTrace,
        other => other,
    }
}

/// How far apart the points of a grid are, in metres, where that is fixed.
/// `auto_step` is what suits the track.
pub fn spacing_in_metres(grid: Spacing, auto_step: u64) -> (step: Option<u64>)
    ensures
        step == (match grid {
            Spacing::ArcLength(step) => Some(step),
            Spacing::Auto => Some(auto_step),
            Spacing::PerTrace => None,
            Spacing::Vertices => None,
        }),
{
    match grid {
        Spacing::ArcLength(step) => Some(step),
        Spacing::Auto => Some(auto_step),
        Spacing::PerTrace => None,
        Spacing::Vertices => None,
    }
}

/// The coordinates points are written in.
#[derive(Debug, PartialEq, Eq)]
pub enum OutputCrs {
    Wgs84,
    Named(String),
}

/// How derived points are written.
#[derive(Debug, PartialEq, Eq)]
pub enum PointsFormat {
    Csv,
    GeoJson(OutputCrs),
}

/// What a download of derived points is.
#[derive(Debug, PartialEq, Eq)]
pub struct PointsPlan {
    pub radargram_id: RadargramId,
    /// The spacing as it was asked for.
    pub spacing: String,
    pub format: PointsFormat,
    pub include_unlisted: bool,
    pub content_type: &'static str,
    pub disposition: String,
}

/// The header that names a download.
pub open spec fn attachment(name: Seq<char>) -> Seq<char> {
    "attachment; filename=\""@ + name + "\""@
}

fn name_attachment(name: &str) -> (header: String)
    ensures
        header@ == attachment(name@),
{
    let mut header = "attachment; filename=\"".to_owned();
    header.append(name);
    header.append("\"");
    header
}

/// The header that names the download of every item.
pub fn csv_disposition(radargram_id: &RadargramId) -> (header: String)
    ensures
        header@ == attachment(radargram_id@ + "-derived.csv"@),
{
    let mut name = radargram_id.to_text();
    name.append("-derived.csv");
    name_attachment(name.as_str())
}

/// Whether points are asked for as a table.
pub open spec fn wants_csv(format: Option<Seq<char>>) -> bool {
    format == Some("csv"@)
}

/// The coordinates that are asked for by name, if any are.
pub open spec fn named_crs(crs: Option<Seq<char>>) -> Option<Seq<char>> {
    match crs {
        Some(name) => if name.len() == 0 {
            None
        } else {
            Some(name)
        },
        None => None,
    }
}

/// The coordinates of an output.
pub open spec fn crs_name(crs: OutputCrs) -> Option<Seq<char>> {
    match crs {
        OutputCrs::Wgs84 => None,
        OutputCrs::Named(name) => Some(name@),
    }
}

/// Reads a request for derived points: a table where one is asked for, and
/// otherwise GeoJSON, in geographic coordinates unless others are named.
pub fn derived_level2(caller: &Caller, radargram_id: &str, query: &DerivedPointsQuery) -> (plan: Result<
    PointsPlan,
    ApiError,
>)
    ensures
        match plan {
            Ok(plan) => {
                let csv = wants_csv(query.format.deep_view());
                &&& values_refusal(*caller, "derived layer points"@, radargram_id@) is None
                &&& plan.radargram_id@ == radargram_id@
                &&& plan.spacing@ == (match query.spacing.deep_view() {
                    Some(spacing) => spacing,
                    None => "auto"@,
                })
                &&& plan.include_unlisted == query.include_unlisted
                &&& csv ==> plan.format is Csv
                &&& !csv ==> (plan.format matches PointsFormat::GeoJson(crs) && crs_name(crs)
                    == named_crs(query.crs.deep_view()))
                &&& plan.content_type@ == (if csv {
                    "text/csv; charset=utf-8"@
                } else {
                    "application/geo+json"@
                })
                &&& plan.disposition@ == attachment(
                    radargram_id@ + "-derived-layer-points."@ + (if csv {
                        "csv"@
                    } else {
                        "geojson"@
                    }),
                )
            },
            Err(error) => values_refusal(*caller, "derived layer points"@, radargram_id@) == Some(
                error@,
            ),
        },
{
    let id = match require_values(caller, "derived layer points", radargram_id) {
        Ok(id) => id,
        Err(error) => {
            return Err(error);
        },
    };
    let spacing = match &query.spacing {
        Some(spacing) => spacing.clone(),
        None => "auto".to_owned(),
    };
    let csv = match &query.format {
        Some(format) => text::equal(format.as_str(), "csv"),
        None => false,
    };
    let mut name = id.to_text();
    name.append("-derived-layer-points.");
    if csv {
        name.append("csv");
        Ok(
            PointsPlan {
                radargram_id: id,
                spacing,
                format: PointsFormat::Csv,
                include_unlisted: query.include_unlisted,
                content_type: "text/csv; charset=utf-8",
                disposition: name_attachment(name.as_str()),
            },
        )
    } else {
        name.append("geojson");
        let crs = match &query.crs {
            None => OutputCrs::Wgs84,
            Some(crs) => if crs.as_str().is_empty() {
                OutputCrs::Wgs84
            } else {
                OutputCrs::Named(crs.clone())
            },
        };
        Ok(
            PointsPlan {
                radargram_id: id,
                spacing,
                format: PointsFormat::GeoJson(crs),
                include_unlisted: query.include_unlisted,
                content_type: "application/geo+json",
                disposition: name_attachment(name.as_str()),
            },
        )
    }
}

/// The items that an export of points covers, in order, and the evaluations it
/// needs: one for each audience among those items, and none besides.
pub fn export_derived_points<'a>(set: &'a DerivedSet, viewer: &str, include_unlisted: bool) -> (export: (
    Vec<&'a DerivedItem>,
    Vec<Audience>,
))
    ensures
        export.0.deep_view() == set@.filter(
            |item: ItemView| is_exported(item, viewer@, include_unlisted),
        ),
        export.1@ == seq![Audience::OwnPicks, Audience::Released].filter(
            |audience: Audience| exports_audience(set@, viewer@, include_unlisted, audience),
        ),
{
    let ghost all = set@;
    let ghost keep = |item: ItemView| is_exported(item, viewer@, include_unlisted);
    let mut items: Vec<&DerivedItem> = Vec::new();
    let mut i: usize = 0;
    proof {
        lemma_filter_none(all, keep);
        assert(items.deep_view() =~= Seq::empty());
    }
    while i < set.items.len()
        invariant
            i <= set.items.len(),
            all == set.items.deep_view(),
            keep == (|item: ItemView| is_exported(item, viewer@, include_unlisted)),
            items.deep_view() == all.take(i as int).filter(keep),
        decreases set.items.len() - i,
    {
        let item = &set.items[i];
        proof {
            lemma_filter_step(all, i as int, keep);
            assert(all[i as int] == item@);
        }
        if item.visible_to(viewer) && (item.listed || include_unlisted) {
            let ghost so_far = items.deep_view();
            items.push(item);
            assert(items.deep_view() =~= so_far.push(item@));
        }
        i = i + 1;
    }
    assert(all.take(i as int) =~= all);
    (items, needed_audiences(set, viewer, include_unlisted))
}

/// The values that an export of points holds: for every item, those from the
/// evaluation for its own audience.
pub fn exported_results<'a, T>(
    items: &Vec<&DerivedItem>,
    own: &'a TextMap<String, T>,
    released: &'a TextMap<String, T>,
) -> (results: Vec<Option<&'a T>>)
    ensures
        results.len() == items.len(),
        forall|i: int|
            0 <= i < results.len() ==> match #[trigger] results[i] {
                Some(result) => result_for(items.deep_view()[i], own@, released@) == Some(*result),
                None => result_for(items.deep_view()[i], own@, released@) is None,
            },
{
    let ghost all = items.deep_view();
    let mut results: Vec<Option<&'a T>> = Vec::new();
    let mut i: usize = 0;
    while i < items.len()
        invariant
            i <= items.len(),
            all == items.deep_view(),
            results.len() == i,
            forall|j: int|
                0 <= j < i ==> match #[trigger] results[j] {
                    Some(result) => result_for(all[j], own@, released@) == Some(*result),
                    None => result_for(all[j], own@, released@) is None,
                },
        decreases items.len() - i,
    {
        let item: &DerivedItem = items[i];
        assert(all[i as int] == item@);
        results.push(take_result(item, own, released));
        i = i + 1;
    }
    results
}

/// An exported item is evaluated, and over exactly the picks its audience
/// permits the caller: everybody's where it was released, and otherwise, for
/// somebody who may not see across users, their own alone.
pub proof fn an_exported_item_is_evaluated_as_its_audience_permits(
    caller: Caller,
    items: Seq<ItemView>,
    include_unlisted: bool,
    item: ItemView,
    user: Seq<char>,
)
    requires
        items.filter(
            |item: ItemView| is_exported(item, caller.shown_name(), include_unlisted),
        ).contains(item),
    ensures
        seq![Audience::OwnPicks, Audience::Released].filter(
            |audience: Audience|
                exports_audience(items, caller.shown_name(), include_unlisted, audience),
        ).contains(item.audience),
        item.audience == Audience::Released ==> feeds(caller, item.audience, user),
        item.audience == Audience::OwnPicks && !sees_across_users(caller) ==> (feeds(
            caller,
            item.audience,
            user,
        ) <==> caller.user.deep_view() == Some(user)),
{
    let viewer = caller.shown_name();
    let keep = |item: ItemView| is_exported(item, viewer, include_unlisted);
    let both = seq![Audience::OwnPicks, Audience::Released];
    let wanted = |audience: Audience| exports_audience(items, viewer, include_unlisted, audience);
    let i = choose|i: int| 0 <= i < items.filter(keep).len() && items.filter(keep)[i] == item;
    items.lemma_filter_pred(keep, i);
    items.lemma_filter_contains_rev(keep, item);
    let k = choose|k: int| 0 <= k < items.len() && items[k] == item;
    assert(is_exported(items[k], viewer, include_unlisted));
    assert(wanted(item.audience));
    let n: int = match item.audience {
        Audience::OwnPicks => 0,
        Audience::Released => 1,
    };
    assert(both[n] == item.audience);
    both.lemma_filter_contains(wanted, n);
}

/// Nothing is evaluated for an export over an audience that none of its items
/// has.
pub proof fn an_export_evaluates_nothing_besides(
    items: Seq<ItemView>,
    viewer: Seq<char>,
    include_unlisted: bool,
    audience: Audience,
)
    requires
        seq![Audience::OwnPicks, Audience::Released].filter(
            |audience: Audience| exports_audience(items, viewer, include_unlisted, audience),
        ).contains(audience),
    ensures
        exists|i: int|
            0 <= i < items.len() && is_exported(#[trigger] items[i], viewer, include_unlisted)
                && items[i].audience == audience,
{
    let both = seq![Audience::OwnPicks, Audience::Released];
    let wanted = |audience: Audience| exports_audience(items, viewer, include_unlisted, audience);
    let i = choose|i: int| 0 <= i < both.filter(wanted).len() && both.filter(wanted)[i] == audience;
    both.lemma_filter_pred(wanted, i);
}

} // verus!
