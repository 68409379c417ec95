//! Editing what a project says over its files.
//!
//! A group is editable in its own right, not only through whichever member
//! happens to be at hand. Reading answers a question the catalog alone cannot:
//! what would this field be without its override?
use vstd::prelude::*;

use crate::api_error::{refusal, ApiError, ErrorView};
use crate::app_state::{looked_up, lookup_dataset, lookup_refusal};
use crate::auth::{project_refusal, require_project, Caller};
use crate::catalog::{entry_with_id, Catalog, CatalogView, EntryView, NO_GROUP_ID};
use crate::elevation::Elevation;
use crate::identity::{
    group_slug, is_slug, name_from_input, no_slug_in, not_a_slug, DisplayName, GroupId, GroupName,
    RadargramId,
};
use crate::overrides::{
    CatalogOverrides, GroupMembership, GroupOverride, OverrideView, OverridesView,
    RadargramOverride,
};
use crate::resolution::resolved;
use crate::rows::{lemma_filter_none, lemma_filter_step};
use crate::sorting;
use crate::sorting::{rank_of, sorted, Ranked};
use crate::text;
use crate::text::{text_less, trimmed};
use crate::text_map::key_order;

verus! {

broadcast use vstd::string::group_string_axioms;

/// Why nothing can be saved about a catalog that is no project.
pub open spec fn nowhere_to_save() -> Seq<char> {
    "This catalog is not a Ridal project, so there is nowhere to save its properties. Run `ridal project init` in the directory you are serving, then restart."@
}

/// Refuses a caller who may not edit what the project says.
pub fn project_for(caller: &Caller, has_project: bool, action: &str) -> (verdict: Result<
    (),
    ApiError,
>)
    ensures
        match verdict {
            Ok(_) => project_refusal(*caller, has_project, action@, nowhere_to_save()) is None,
            Err(error) => project_refusal(*caller, has_project, action@, nowhere_to_save()) == Some(
                error@,
            ),
        },
{
    require_project(
        caller,
        has_project,
        action,
        "This catalog is not a Ridal project, so there is nowhere to save its properties. Run `ridal project init` in the directory you are serving, then restart.",
    )
}

// ---------------------------------------------------------------------------
// Reading a radargram's properties
// ---------------------------------------------------------------------------

/// What the catalog currently shows.
#[derive(Debug, PartialEq)]
pub struct EffectiveProperties {
    pub display_name: Option<String>,
    pub group_id: Option<String>,
    pub group_name: Option<String>,
    pub unlisted: bool,
    pub elevation_min: Option<Elevation>,
    pub elevation_max: Option<Elevation>,
}

/// What it would show without the override.
#[derive(Debug, PartialEq)]
pub struct FileProperties {
    pub display_name: Option<String>,
    pub group_id: Option<String>,
    pub group_name: Option<String>,
}

/// Which fields are the project's word rather than the file's.
#[derive(Clone, Copy, Debug, PartialEq, Eq, Structural)]
pub struct OverriddenFields {
    pub display_name: bool,
    pub group: bool,
    pub elevation: bool,
}

/// A group that can be chosen.
#[derive(Debug, PartialEq)]
pub struct GroupChoice {
    pub id: String,
    pub name: String,
}

/// What the dialog about a radargram needs.
#[derive(Debug, PartialEq)]
pub struct Properties {
    pub radargram_id: String,
    pub effective: EffectiveProperties,
    pub from_file: FileProperties,
    pub overridden: OverriddenFields,
    /// Every group the catalog knows, in the order of their names.
    pub groups: Vec<GroupChoice>,
}

/// A group that can be chosen, as plain values.
#[verifier::ext_equal]
pub struct ChoiceView {
    pub id: Seq<char>,
    pub name: Seq<char>,
}

impl DeepView for GroupChoice {
    type V = ChoiceView;

    open spec fn deep_view(&self) -> ChoiceView {
        ChoiceView { id: self.id@, name: self.name@ }
    }
}

impl Ranked for GroupChoice {
    /// Choices stand in the order of their names.
    open spec fn ranks_before(a: ChoiceView, b: ChoiceView) -> bool {
        text_less(a.name, b.name)
    }

    fn comes_before(&self, other: &Self) -> (before: bool) {
        text::less(self.name.as_str(), other.name.as_str())
    }
}

/// What the dialog about a radargram needs, as plain values.
#[verifier::ext_equal]
pub struct PropertiesView {
    pub radargram_id: Seq<char>,
    pub display_name: Option<Seq<char>>,
    pub group_id: Option<Seq<char>>,
    pub group_name: Option<Seq<char>>,
    pub unlisted: bool,
    pub elevation_min: Option<Elevation>,
    pub elevation_max: Option<Elevation>,
    pub file_display_name: Option<Seq<char>>,
    pub file_group_id: Option<Seq<char>>,
    pub file_group_name: Option<Seq<char>>,
    pub overridden: OverriddenFields,
    pub groups: Seq<ChoiceView>,
}

impl View for Properties {
    type V = PropertiesView;

    open spec fn view(&self) -> PropertiesView {
        PropertiesView {
            radargram_id: self.radargram_id@,
            display_name: self.effective.display_name.deep_view(),
            group_id: self.effective.group_id.deep_view(),
            group_name: self.effective.group_name.deep_view(),
            unlisted: self.effective.unlisted,
            elevation_min: self.effective.elevation_min,
            elevation_max: self.effective.elevation_max,
            file_display_name: self.from_file.display_name.deep_view(),
            file_group_id: self.from_file.group_id.deep_view(),
            file_group_name: self.from_file.group_name.deep_view(),
            overridden: self.overridden,
            groups: self.groups.deep_view(),
        }
    }
}

/// Every group of a catalog, in the order of their names.
pub open spec fn group_choices(names: Map<Seq<char>, Seq<char>>) -> Seq<ChoiceView> {
    sorted(
        key_order(names.dom()).map_values(|id: Seq<char>| ChoiceView { id, name: names[id] }),
        rank_of::<GroupChoice>(),
    )
}

/// Which fields of an entry the project has its say in.
pub open spec fn fields_overridden(stored: OverridesView, id: Seq<char>) -> OverriddenFields {
    if stored.radargrams.contains_key(id) {
        let over = stored.radargrams[id];
        OverriddenFields {
            display_name: over.display_name is Some,
            group: over.group is Some,
            elevation: over.elevation_min is Some || over.elevation_max is Some,
        }
    } else {
        OverriddenFields { display_name: false, group: false, elevation: false }
    }
}

/// The properties of an entry.
pub open spec fn properties_of(
    catalog: CatalogView,
    entry: EntryView,
    stored: OverridesView,
) -> PropertiesView {
    PropertiesView {
        radargram_id: entry.radargram_id,
        display_name: entry.display_name,
        group_id: entry.group_id,
        group_name: entry.group_name,
        unlisted: entry.unlisted,
        elevation_min: entry.elevation_min,
        elevation_max: entry.elevation_max,
        file_display_name: entry.from_file.display_name,
        file_group_id: entry.from_file.group_id,
        file_group_name: entry.from_file.group_name,
        overridden: fields_overridden(stored, entry.radargram_id),
        groups: group_choices(catalog.group_names),
    }
}

fn display_text(name: &Option<DisplayName>) -> (text: Option<String>)
    ensures
        text.deep_view() == name.deep_view(),
{
    match name {
        Some(name) => Some(name.to_text()),
        None => None,
    }
}

fn group_text(name: &Option<GroupName>) -> (text: Option<String>)
    ensures
        text.deep_view() == name.deep_view(),
{
    match name {
        Some(name) => Some(name.to_text()),
        None => None,
    }
}

fn group_id_text(id: &Option<GroupId>) -> (text: Option<String>)
    ensures
        text.deep_view() == id.deep_view(),
{
    match id {
        Some(id) => Some(id.to_text()),
        None => None,
    }
}

fn list_groups(catalog: &Catalog) -> (groups: Vec<GroupChoice>)
    ensures
        groups.deep_view() == group_choices(catalog@.group_names),
{
    let ghost names = catalog@.group_names;
    let ghost as_choice = |id: Seq<char>| ChoiceView { id, name: names[id] };
    let count = catalog.group_names.len();
    let ghost keys = catalog.group_names.keys();
    let mut row: Vec<GroupChoice> = Vec::new();
    let mut i: usize = 0;
    proof {
        assert(names.dom() =~= catalog.group_names@.dom());
    }
    while i < count
        invariant
            i <= count,
            count == keys.len(),
            keys == catalog.group_names.keys(),
            names == catalog.group_names.deep_view(),
            as_choice == (|id: Seq<char>| ChoiceView { id, name: names[id] }),
            row.len() == i,
            forall|j: int| 0 <= j < i ==> #[trigger] row.deep_view()[j] == as_choice(keys[j]),
        decreases count - i,
    {
        let id = catalog.group_names.key_at(i);
        let name = catalog.group_names.value_at(i);
        let ghost so_far = row.deep_view();
        let choice = GroupChoice { id: id.to_text(), name: name.to_text() };
        row.push(choice);
        assert(row.deep_view() =~= so_far.push(choice.deep_view()));
        i = i + 1;
    }
    assert(row.deep_view() =~= keys.map_values(as_choice));
    sorting::sort(row)
}

fn find_overridden(stored: &CatalogOverrides, id: &RadargramId) -> (fields: OverriddenFields)
    ensures
        fields == fields_overridden(stored@, id@),
{
    match stored.radargram(id) {
        Some(over) => OverriddenFields {
            display_name: over.display_name.is_some(),
            group: over.group.is_some(),
            elevation: over.elevation_min.is_some() || over.elevation_max.is_some(),
        },
        None => OverriddenFields { display_name: false, group: false, elevation: false },
    }
}

/// How a request for a radargram's properties is refused.
pub open spec fn properties_refusal(
    caller: Caller,
    has_project: bool,
    action: Seq<char>,
    catalog: CatalogView,
    raw: Seq<char>,
) -> Option<ErrorView> {
    match project_refusal(caller, has_project, action, nowhere_to_save()) {
        Some(error) => Some(error),
        None => lookup_refusal(catalog, raw),
    }
}

/// What the catalog shows of a radargram, what its file says, and which of the
/// two each field is. What the project says has to be readable: an empty form
/// over a document that is not would discard it when saved.
pub fn get_properties(
    caller: &Caller,
    has_project: bool,
    catalog: &Catalog,
    raw: &str,
    stored: Result<CatalogOverrides, String>,
) -> (properties: Result<Properties, ApiError>)
    ensures
        ({
            let barred = properties_refusal(
                *caller,
                has_project,
                "read a radargram's properties"@,
                catalog@,
                raw@,
            );
            match properties {
                Ok(properties) => {
                    &&& barred is None
                    &&& stored matches Ok(stored)
                    &&& entry_with_id(catalog@.entries, raw@) matches Some(entry)
                    &&& properties@ == properties_of(catalog@, entry, stored@)
                },
                Err(error) => if barred is Some {
                    barred == Some(error@)
                } else {
                    stored matches Err(reason) && error@ == refusal(
                        500,
                        "overrides_read_failed"@,
                        reason@,
                    )
                },
            }
        }),
{
    match project_for(caller, has_project, "read a radargram's properties") {
        Ok(_) => {},
        Err(error) => {
            return Err(error);
        },
    }
    let entry = match lookup_dataset(catalog, raw) {
        Ok(entry) => entry,
        Err(error) => {
            return Err(error);
        },
    };
    let stored = match stored {
        Ok(stored) => stored,
        Err(reason) => {
            return Err(ApiError::internal("overrides_read_failed", reason));
        },
    };
    Ok(
        Properties {
            radargram_id: entry.radargram_id.to_text(),
            effective: EffectiveProperties {
                display_name: display_text(&entry.display_name),
                group_id: group_id_text(&entry.group_id),
                group_name: group_text(&entry.group_name),
                unlisted: entry.unlisted,
                elevation_min: entry.elevation_min,
                elevation_max: entry.elevation_max,
            },
            from_file: FileProperties {
                display_name: display_text(&entry.from_file.display_name),
                group_id: group_id_text(&entry.from_file.group_id),
                group_name: group_text(&entry.from_file.group_name),
            },
            overridden: find_overridden(&stored, &entry.radargram_id),
            groups: list_groups(catalog),
        },
    )
}

// ---------------------------------------------------------------------------
// Changing a radargram's properties
// ---------------------------------------------------------------------------

/// Which group a save asks for.
#[derive(Clone, Copy, Debug, PartialEq, Eq, Structural)]
pub enum Grouping {
    /// Whatever the file says.
    Inherit,
    /// In no group, whatever the file says.
    Ungrouped,
    /// In the group the save names.
    Group,
}

impl Default for Grouping {
    fn default() -> (grouping: Self)
        ensures
            grouping == Grouping::Inherit,
    {
        Grouping::Inherit
    }
}

/// A whole override, replaced rather than patched: a save says what every
/// field should be.
#[derive(Debug, PartialEq)]
pub struct PropertiesBody {
    /// Missing or empty reverts to the file's.
    pub display_name: Option<String>,
    pub grouping: Grouping,
    /// The group to join, where `grouping` is [`Grouping::Group`].
    pub group_id: Option<String>,
    /// What that group is called. Stored with the group, not the radargram.
    pub group_name: Option<String>,
    pub unlisted: bool,
    pub elevation_min: Option<Elevation>,
    pub elevation_max: Option<Elevation>,
}

/// Text that may be missing, as text.
pub open spec fn or_empty(text: Option<Seq<char>>) -> Seq<char> {
    match text {
        Some(text) => text,
        None => Seq::empty(),
    }
}

/// The group that the grouping fields of a save describe, and what it is to be
/// called. An id that is spelled has to be one; a group that is only named
/// gets the id its name gives, as processing derives it, so that typing an
/// existing group's name lands in that group.
pub open spec fn grouping_of(
    grouping: Grouping,
    group_id: Option<Seq<char>>,
    group_name: Option<Seq<char>>,
) -> Result<(Option<Option<Seq<char>>>, Option<Seq<char>>), ErrorView> {
    let id = trimmed(or_empty(group_id));
    let name = trimmed(or_empty(group_name));
    match grouping {
        Grouping::Inherit => Ok((None, None)),
        Grouping::Ungrouped => Ok((Some(None), None)),
        Grouping::Group => if id.len() == 0 {
            if group_slug(name).len() == 0 {
                Err(
                    refusal(
                        400,
                        "invalid_group"@,
                        "'"@ + name + "' does not give a usable group id: "@ + no_slug_in(name),
                    ),
                )
            } else {
                Ok((Some(Some(group_slug(name))), name_from_input(name)))
            }
        } else if is_slug(id) {
            Ok((Some(Some(id)), name_from_input(name)))
        } else {
            Err(refusal(400, "invalid_group"@, not_a_slug(id)))
        },
    }
}

fn given(field: &Option<String>) -> (text: &str)
    ensures
        text@ == or_empty(field.deep_view()),
{
    proof {
        reveal_strlit("");
        assert(""@ =~= Seq::empty());
    }
    match field {
        Some(text) => text.as_str(),
        None => "",
    }
}

/// Reads the grouping fields of a save as the one decision they describe.
pub fn resolve_grouping(body: &PropertiesBody) -> (decision: Result<
    (Option<GroupMembership>, Option<GroupName>),
    ApiError,
>)
    ensures
        match (
            decision,
            grouping_of(body.grouping, body.group_id.deep_view(), body.group_name.deep_view()),
        ) {
            (Ok(found), Ok(expected)) => found.0.deep_view() == expected.0 && found.1.deep_view()
                == expected.1,
            (Err(error), Err(expected)) => error@ == expected,
            _ => false,
        },
{
    match body.grouping {
        Grouping::Inherit => Ok((None, None)),
        Grouping::Ungrouped => Ok((Some(GroupMembership::Ungrouped), None)),
        Grouping::Group => {
            let id = text::trim(given(&body.group_id));
            let name = text::trim(given(&body.group_name));
            let group_id = if id.is_empty() {
                match GroupId::from_fallback(name) {
                    Ok(id) => id,
                    Err(reason) => {
                        let mut message = "'".to_owned();
                        message.append(name);
                        message.append("' does not give a usable group id: ");
                        message.append(reason.as_str());
                        return Err(ApiError::bad_request("invalid_group", message));
                    },
                }
            } else {
                match GroupId::new(id) {
                    Ok(id) => id,
                    Err(reason) => {
                        return Err(ApiError::bad_request("invalid_group", reason));
                    },
                }
            };
            Ok((Some(GroupMembership::Group(group_id)), GroupName::from_input(name)))
        },
    }
}

/// What a save says of one radargram.
#[derive(Debug, PartialEq)]
pub struct PropertiesEdit {
    pub id: RadargramId,
    pub over: RadargramOverride,
    /// What the group it joins is to be called.
    pub group_name: Option<GroupName>,
}

/// How a name of nothing but white space is answered.
pub open spec fn blank_name(code: Seq<char>) -> ErrorView {
    refusal(400, code, "A name cannot be only spaces."@)
}

/// How a floor at or above the cap is answered: it would leave out every trace.
pub open spec fn empty_range() -> ErrorView {
    refusal(
        400,
        "invalid_elevation_range"@,
        "The lowest elevation has to be below the highest one."@,
    )
}

/// The name that a field of a save gives: none where it is missing or empty.
pub open spec fn name_given(field: Option<Seq<char>>) -> Option<Seq<char>> {
    match field {
        Some(text) => if text.len() == 0 {
            None
        } else {
            name_from_input(text)
        },
        None => None,
    }
}

/// Whether a field of a save holds something, but nothing except white space.
pub open spec fn is_blank(field: Option<Seq<char>>) -> bool {
    field is Some && field->0.len() > 0 && name_from_input(field->0) is None
}

/// Whether the elevations of a save leave nothing between them.
pub open spec fn is_empty_range(min: Option<Elevation>, max: Option<Elevation>) -> bool {
    min is Some && max is Some && min->0.at_or_above(max->0)
}

/// What a save asks for, or why it is refused.
pub open spec fn edit_of(body: PropertiesBody) -> Result<
    (OverrideView, Option<Seq<char>>),
    ErrorView,
> {
    let display_name = body.display_name.deep_view();
    if is_blank(display_name) {
        Err(blank_name("invalid_display_name"@))
    } else {
        match grouping_of(body.grouping, body.group_id.deep_view(), body.group_name.deep_view()) {
            Err(error) => Err(error),
            Ok((group, group_name)) => if is_empty_range(body.elevation_min, body.elevation_max) {
                Err(empty_range())
            } else {
                Ok(
                    (
                        OverrideView {
                            display_name: name_given(display_name),
                            group,
                            unlisted: body.unlisted,
                            elevation_min: body.elevation_min,
                            elevation_max: body.elevation_max,
                        },
                        group_name,
                    ),
                )
            },
        }
    }
}

fn read_display_name(field: &Option<String>) -> (name: Result<Option<DisplayName>, ApiError>)
    ensures
        match name {
            Ok(name) => !is_blank(field.deep_view()) && name.deep_view() == name_given(
                field.deep_view(),
            ),
            Err(error) => is_blank(field.deep_view()) && error@ == blank_name(
                "invalid_display_name"@,
            ),
        },
{
    match field {
        None => Ok(None),
        Some(text) => if text.as_str().is_empty() {
            Ok(None)
        } else {
            match DisplayName::from_input(text.as_str()) {
                Some(name) => Ok(Some(name)),
                None => Err(
                    ApiError::bad_request(
                        "invalid_display_name",
                        "A name cannot be only spaces.".to_owned(),
                    ),
                ),
            }
        },
    }
}

/// Reads a save. What it is about is looked up first, so that editing a
/// radargram that is not there is refused rather than written where nobody
/// will ever see it.
pub fn put_properties(
    caller: &Caller,
    has_project: bool,
    catalog: &Catalog,
    raw: &str,
    body: &PropertiesBody,
) -> (edit: Result<PropertiesEdit, ApiError>)
    ensures
        ({
            let barred = properties_refusal(
                *caller,
                has_project,
                "change a radargram's properties"@,
                catalog@,
                raw@,
            );
            match edit {
                Ok(edit) => {
                    &&& barred is None
                    &&& edit.id@ == raw@
                    &&& edit_of(*body) == Ok::<_, ErrorView>(
                        (edit.over.deep_view(), edit.group_name.deep_view()),
                    )
                },
                Err(error) => if barred is Some {
                    barred == Some(error@)
                } else {
                    edit_of(*body) == Err::<(OverrideView, Option<Seq<char>>), _>(error@)
                },
            }
        }),
{
    match project_for(caller, has_project, "change a radargram's properties") {
        Ok(_) => {},
        Err(error) => {
            return Err(error);
        },
    }
    let id = match lookup_dataset(catalog, raw) {
        Ok(entry) => {
            proof {
                crate::catalog::lemma_entry_with_id(catalog@.entries, raw@);
            }
            entry.radargram_id.clone()
        },
        Err(error) => {
            return Err(error);
        },
    };
    let display_name = match read_display_name(&body.display_name) {
        Ok(name) => name,
        Err(error) => {
            return Err(error);
        },
    };
    let (group, group_name) = match resolve_grouping(body) {
        Ok(decision) => decision,
        Err(error) => {
            return Err(error);
        },
    };
    if let (Some(min), Some(max)) = (body.elevation_min, body.elevation_max) {
        if min.reaches(max) {
            return Err(
                ApiError::bad_request(
                    "invalid_elevation_range",
                    "The lowest elevation has to be below the highest one.".to_owned(),
                ),
            );
        }
    }
    let over = RadargramOverride {
        display_name,
        group,
        unlisted: body.unlisted,
        elevation_min: body.elevation_min,
        elevation_max: body.elevation_max,
    };
    Ok(PropertiesEdit { id, over, group_name })
}

/// What the project says after a save. An override that says nothing is taken
/// out rather than stored empty; a group's name is stored with the group.
pub open spec fn saved(
    stored: OverridesView,
    id: Seq<char>,
    over: OverrideView,
    group_name: Option<Seq<char>>,
) -> OverridesView {
    OverridesView {
        radargrams: if over.says_nothing() {
            stored.radargrams.remove(id)
        } else {
            stored.radargrams.insert(id, over)
        },
        groups: match (over.group, group_name) {
            (Some(Some(group)), Some(name)) => stored.groups.insert(group, Some(name)),
            _ => stored.groups,
        },
        ignored: stored.ignored,
    }
}

/// Writes a save into what the project says.
pub fn apply(
    stored: &mut CatalogOverrides,
    id: &RadargramId,
    over: &RadargramOverride,
    group_name: &Option<GroupName>,
)
    ensures
        final(stored)@ == saved(old(stored)@, id@, over.deep_view(), group_name.deep_view()),
{
    if over.is_empty() {
        stored.radargrams.remove(id.as_str());
        assert(stored@.radargrams =~= old(stored)@.radargrams.remove(id@));
    } else {
        stored.radargrams.insert(id.clone(), over.clone());
        assert(stored@.radargrams =~= old(stored)@.radargrams.insert(id@, over.deep_view()));
    }
    if let (Some(GroupMembership::Group(group)), Some(name)) = (&over.group, group_name) {
        stored.groups.insert(group.clone(), GroupOverride { name: Some(name.clone()) });
        assert(stored@.groups =~= old(stored)@.groups.insert(group@, Some(name@)));
    }
}

// ---------------------------------------------------------------------------
// Groups
// ---------------------------------------------------------------------------

/// What the dialog about a group needs.
#[derive(Debug, PartialEq)]
pub struct GroupProperties {
    pub group_id: String,
    /// What the catalog calls it.
    pub name: Option<String>,
    /// What the member files alone would call it.
    pub from_file: Option<String>,
    pub overridden: bool,
    /// How many radargrams are in it.
    pub member_count: usize,
}

/// What the dialog about a group needs, as plain values.
#[verifier::ext_equal]
pub struct GroupPropertiesView {
    pub group_id: Seq<char>,
    pub name: Option<Seq<char>>,
    pub from_file: Option<Seq<char>>,
    pub overridden: bool,
    pub member_count: nat,
}

impl View for GroupProperties {
    type V = GroupPropertiesView;

    open spec fn view(&self) -> GroupPropertiesView {
        GroupPropertiesView {
            group_id: self.group_id@,
            name: self.name.deep_view(),
            from_file: self.from_file.deep_view(),
            overridden: self.overridden,
            member_count: self.member_count as nat,
        }
    }
}

/// What a save says of a group.
#[derive(Debug, PartialEq)]
pub struct GroupPropertiesBody {
    /// Missing or empty reverts to what the member files say.
    pub display_name: Option<String>,
}

/// How the pseudo-group of those in no group is answered.
pub open spec fn no_such_thing_as_ungrouped() -> ErrorView {
    refusal(
        400,
        "not_a_group"@,
        "\"Ungrouped\" is not a group, it is the radargrams that are in none. Put them in a group to give them one."@,
    )
}

/// How an id that names no group is answered.
pub open spec fn group_refusal(raw: Seq<char>) -> Option<ErrorView> {
    if raw == NO_GROUP_ID@ {
        Some(no_such_thing_as_ungrouped())
    } else if !is_slug(raw) {
        Some(refusal(400, "invalid_group"@, not_a_slug(raw)))
    } else {
        None
    }
}

/// The group that a URL names.
pub fn group_for(raw: &str) -> (id: Result<GroupId, ApiError>)
    ensures
        match id {
            Ok(id) => group_refusal(raw@) is None && id@ == raw@,
            Err(error) => group_refusal(raw@) == Some(error@),
        },
{
    if text::equal(raw, NO_GROUP_ID) {
        return Err(
            ApiError::bad_request(
                "not_a_group",
                "\"Ungrouped\" is not a group, it is the radargrams that are in none. Put them in a group to give them one.".to_owned(),
            ),
        );
    }
    match GroupId::new(raw) {
        Ok(id) => Ok(id),
        Err(message) => Err(ApiError::bad_request("invalid_group", message)),
    }
}

/// The members of a group.
pub open spec fn members(entries: Seq<EntryView>, group: Seq<char>) -> Seq<EntryView> {
    entries.filter(|entry: EntryView| entry.group_id == Some(group))
}

fn count_members(catalog: &Catalog, group: &GroupId) -> (count: usize)
    ensures
        count == members(catalog@.entries, group@).len(),
{
    let ghost all = catalog@.entries;
    let ghost member = |entry: EntryView| entry.group_id == Some(group@);
    let mut count: usize = 0;
    let mut i: usize = 0;
    proof {
        lemma_filter_none(all, member);
    }
    while i < catalog.entries.len()
        invariant
            i <= catalog.entries.len(),
            all == catalog.entries.deep_view(),
            member == (|entry: EntryView| entry.group_id == Some(group@)),
            count == all.take(i as int).filter(member).len(),
            count <= i,
        decreases catalog.entries.len() - i,
    {
        proof {
            lemma_filter_step(all, i as int, member);
            assert(all[i as int] == catalog.entries[i as int]@);
        }
        if let Some(id) = &catalog.entries[i].group_id {
            if id.same(group) {
                count = count + 1;
            }
        }
        i = i + 1;
    }
    assert(all.take(i as int) =~= all);
    count
}

/// The properties of a group: what the catalog calls it, and what the files
/// alone would, which is what resolving without any override gives.
pub open spec fn properties_of_group(
    catalog: CatalogView,
    group: Seq<char>,
    stored: OverridesView,
) -> GroupPropertiesView {
    GroupPropertiesView {
        group_id: group,
        name: looked_up(catalog.group_names, group),
        from_file: looked_up(
            resolved(
                catalog.unresolved,
                catalog.file_warnings,
                OverridesView::nothing(),
            ).group_names,
            group,
        ),
        overridden: stored.named(group) is Some,
        member_count: members(catalog.entries, group).len(),
    }
}

/// How a request about a group is refused.
pub open spec fn group_properties_refusal(
    caller: Caller,
    has_project: bool,
    action: Seq<char>,
    raw: Seq<char>,
) -> Option<ErrorView> {
    match project_refusal(caller, has_project, action, nowhere_to_save()) {
        Some(error) => Some(error),
        None => group_refusal(raw),
    }
}

/// How a group that nothing is in is answered.
pub open spec fn no_such_group(raw: Seq<char>) -> ErrorView {
    refusal(404, "group_not_found"@, "No group with id '"@ + raw + "'"@)
}

/// What the catalog calls a group, what its files call it, and whose word it
/// is.
pub fn get_group_properties(
    caller: &Caller,
    has_project: bool,
    raw: &str,
    catalog: &Catalog,
    stored: Result<CatalogOverrides, String>,
) -> (properties: Result<GroupProperties, ApiError>)
    ensures
        ({
            let barred = group_properties_refusal(
                *caller,
                has_project,
                "read a group's properties"@,
                raw@,
            );
            let empty = members(catalog@.entries, raw@).len() == 0;
            match properties {
                Ok(properties) => {
                    &&& barred is None
                    &&& !empty
                    &&& stored matches Ok(stored)
                    &&& properties@ == properties_of_group(catalog@, raw@, stored@)
                },
                Err(error) => if barred is Some {
                    barred == Some(error@)
                } else if empty {
                    error@ == no_such_group(raw@)
                } else {
                    stored matches Err(reason) && error@ == refusal(
                        500,
                        "overrides_read_failed"@,
                        reason@,
                    )
                },
            }
        }),
{
    match project_for(caller, has_project, "read a group's properties") {
        Ok(_) => {},
        Err(error) => {
            return Err(error);
        },
    }
    let id = match group_for(raw) {
        Ok(id) => id,
        Err(error) => {
            return Err(error);
        },
    };
    let member_count = count_members(catalog, &id);
    if member_count == 0 {
        let mut message = "No group with id '".to_owned();
        message.append(raw);
        message.append("'");
        return Err(ApiError::not_found("group_not_found", message));
    }
    let plain = catalog.reresolved(&CatalogOverrides::default());
    let from_file = match plain.group_names.get(id.as_str()) {
        Some(name) => Some(name.to_text()),
        None => None,
    };
    let stored = match stored {
        Ok(stored) => stored,
        Err(reason) => {
            return Err(ApiError::internal("overrides_read_failed", reason));
        },
    };
    let name = match catalog.group_names.get(id.as_str()) {
        Some(name) => Some(name.to_text()),
        None => None,
    };
    let overridden = stored.group_name(&id).is_some();
    Ok(GroupProperties { group_id: id.to_text(), name, from_file, overridden, member_count })
}

/// What a save says of a group, once read.
#[derive(Debug, PartialEq)]
pub struct GroupEdit {
    pub id: GroupId,
    /// What it is to be called, or nothing to revert.
    pub name: Option<GroupName>,
}

/// Reads a save about a group.
pub fn put_group_properties(
    caller: &Caller,
    has_project: bool,
    raw: &str,
    body: &GroupPropertiesBody,
) -> (edit: Result<GroupEdit, ApiError>)
    ensures
        ({
            let barred = group_properties_refusal(
                *caller,
                has_project,
                "change a group's properties"@,
                raw@,
            );
            let field = body.display_name.deep_view();
            match edit {
                Ok(edit) => {
                    &&& barred is None
                    &&& !is_blank(field)
                    &&& edit.id@ == raw@
                    &&& edit.name.deep_view() == name_given(field)
                },
                Err(error) => if barred is Some {
                    barred == Some(error@)
                } else {
                    is_blank(field) && error@ == blank_name("invalid_group_name"@)
                },
            }
        }),
{
    match project_for(caller, has_project, "change a group's properties") {
        Ok(_) => {},
        Err(error) => {
            return Err(error);
        },
    }
    let id = match group_for(raw) {
        Ok(id) => id,
        Err(error) => {
            return Err(error);
        },
    };
    let name = match &body.display_name {
        None => None,
        Some(text) => if text.as_str().is_empty() {
            None
        } else {
            match GroupName::from_input(text.as_str()) {
                Some(name) => Some(name),
                None => {
                    return Err(
                        ApiError::bad_request(
                            "invalid_group_name",
                            "A name cannot be only spaces.".to_owned(),
                        ),
                    );
                },
            }
        },
    };
    Ok(GroupEdit { id, name })
}

/// What the project says after a save about a group. A group that nothing is
/// said of any more leaves no trace.
pub open spec fn group_saved(
    stored: OverridesView,
    group: Seq<char>,
    name: Option<Seq<char>>,
) -> OverridesView {
    OverridesView {
        groups: match name {
            Some(name) => stored.groups.insert(group, Some(name)),
            None => stored.groups.remove(group),
        },
        ..stored
    }
}

/// Writes a save about a group into what the project says.
pub fn apply_group(stored: &mut CatalogOverrides, edit: &GroupEdit)
    ensures
        final(stored)@ == group_saved(old(stored)@, edit.id@, edit.name.deep_view()),
{
    match &edit.name {
        Some(name) => {
            stored.groups.insert(edit.id.clone(), GroupOverride { name: Some(name.clone()) });
            assert(stored@.groups =~= old(stored)@.groups.insert(edit.id@, Some(name@)));
        },
        None => {
            stored.groups.remove(edit.id.as_str());
            assert(stored@.groups =~= old(stored)@.groups.remove(edit.id@));
        },
    }
}

// ---------------------------------------------------------------------------
// What holds of every edit
// ---------------------------------------------------------------------------

/// Saving an override and then reverting every field returns what the project
/// says to what it was before anyone touched the radargram.
pub proof fn reverting_every_field_leaves_no_trace(
    stored: OverridesView,
    id: Seq<char>,
    over: OverrideView,
    revert: OverrideView,
)
    requires
        !stored.radargrams.contains_key(id),
        revert.says_nothing(),
    ensures
        saved(saved(stored, id, over, None), id, revert, None) == stored,
{
    assert(saved(saved(stored, id, over, None), id, revert, None).radargrams =~= stored.radargrams);
}

/// Naming a group and then reverting it leaves no trace either.
pub proof fn reverting_a_group_leaves_no_trace(
    stored: OverridesView,
    group: Seq<char>,
    name: Seq<char>,
)
    requires
        !stored.groups.contains_key(group),
    ensures
        group_saved(group_saved(stored, group, Some(name)), group, None) == stored,
{
    assert(group_saved(group_saved(stored, group, Some(name)), group, None).groups
        =~= stored.groups);
}

/// A save about one radargram says nothing of any other.
pub proof fn a_save_concerns_one_radargram(
    stored: OverridesView,
    id: Seq<char>,
    over: OverrideView,
    group_name: Option<Seq<char>>,
    other: Seq<char>,
)
    requires
        other != id,
    ensures
        looked_up(saved(stored, id, over, group_name).radargrams, other) == looked_up(
            stored.radargrams,
            other,
        ),
        saved(stored, id, over, group_name).ignored == stored.ignored,
{
}

/// What is saved is what the catalog shows once it is resolved again: the
/// display name, the group and whether it is listed, field by field.
pub proof fn what_is_saved_is_shown(
    stored: OverridesView,
    entry: EntryView,
    over: OverrideView,
    group_name: Option<Seq<char>>,
)
    ensures
        ({
            let shown = crate::resolution::overridden(
                entry,
                saved(stored, entry.radargram_id, over, group_name),
            );
            &&& over.display_name is Some ==> shown.display_name == over.display_name
            &&& over.display_name is None ==> shown.display_name == entry.display_name
            &&& over.group is Some ==> shown.group_id == over.group->0
            &&& over.group is None ==> shown.group_id == entry.group_id
            &&& !over.says_nothing() ==> shown.unlisted == over.unlisted && shown.elevation_min
                == over.elevation_min && shown.elevation_max == over.elevation_max
            &&& over.says_nothing() ==> shown == entry
        }),
{
}

/// A group that is typed by its name lands in the group that processing would
/// have put a file of that name in.
pub proof fn typing_a_name_finds_its_group(name: Seq<char>)
    requires
        group_slug(trimmed(name)).len() > 0,
    ensures
        grouping_of(Grouping::Group, None, Some(name)) matches Ok((Some(Some(id)), _))
            && id == group_slug(trimmed(name)),
{
    assert(trimmed(Seq::<char>::empty()) =~= Seq::<char>::empty());
}

} // verus!
