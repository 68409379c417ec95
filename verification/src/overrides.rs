//! What a project says over what its files say.
//!
//! Every field is optional, and absent means "whatever the file has". A group
//! has its name in one place, so its members cannot come to disagree about it.
use vstd::prelude::*;

use crate::elevation::Elevation;
use crate::identity::{DisplayName, GroupId, GroupName, RadargramId};
use crate::text_map::TextMap;

verus! {

/// Which group a radargram is put in.
#[derive(Debug, PartialEq)]
pub enum GroupMembership {
    /// In no group, whatever the file says.
    Ungrouped,
    /// In this group.
    Group(GroupId),
}

impl DeepView for GroupMembership {
    type V = Option<Seq<char>>;

    open spec fn deep_view(&self) -> Option<Seq<char>> {
        match self {
            GroupMembership::Ungrouped => None,
            GroupMembership::Group(id) => Some(id@),
        }
    }
}

impl Clone for GroupMembership {
    fn clone(&self) -> (copy: Self)
        ensures
            copy == *self,
    {
        match self {
            GroupMembership::Ungrouped => GroupMembership::Ungrouped,
            GroupMembership::Group(id) => GroupMembership::Group(id.clone()),
        }
    }
}

impl GroupMembership {
    /// The group joined, where there is one.
    pub fn id(&self) -> (id: Option<GroupId>)
        ensures
            id.deep_view() == self.deep_view(),
    {
        match self {
            GroupMembership::Ungrouped => None,
            GroupMembership::Group(id) => Some(id.clone()),
        }
    }
}

/// What a project says about one radargram.
#[derive(Debug, PartialEq)]
pub struct RadargramOverride {
    pub display_name: Option<DisplayName>,
    pub group: Option<GroupMembership>,
    /// Left out of listings, though still reachable by its id.
    pub unlisted: bool,
    /// The floor of the corrected view.
    pub elevation_min: Option<Elevation>,
    /// The cap on a trace's surface elevation.
    pub elevation_max: Option<Elevation>,
}

/// What a project says about one radargram, as plain values.
#[verifier::ext_equal]
pub struct OverrideView {
    pub display_name: Option<Seq<char>>,
    pub group: Option<Option<Seq<char>>>,
    pub unlisted: bool,
    pub elevation_min: Option<Elevation>,
    pub elevation_max: Option<Elevation>,
}

impl DeepView for RadargramOverride {
    type V = OverrideView;

    open spec fn deep_view(&self) -> OverrideView {
        OverrideView {
            display_name: self.display_name.deep_view(),
            group: self.group.deep_view(),
            unlisted: self.unlisted,
            elevation_min: self.elevation_min,
            elevation_max: self.elevation_max,
        }
    }
}

impl Clone for RadargramOverride {
    fn clone(&self) -> (copy: Self)
        ensures
            copy == *self,
    {
        RadargramOverride {
            display_name: copy_display_name(&self.display_name),
            group: match &self.group {
                Some(group) => Some(group.clone()),
                None => None,
            },
            unlisted: self.unlisted,
            elevation_min: self.elevation_min,
            elevation_max: self.elevation_max,
        }
    }
}

impl Default for RadargramOverride {
    /// Nothing said.
    fn default() -> (over: Self)
        ensures
            over.deep_view().says_nothing(),
    {
        RadargramOverride {
            display_name: None,
            group: None,
            unlisted: false,
            elevation_min: None,
            elevation_max: None,
        }
    }
}

/// The name once more.
pub fn copy_display_name(name: &Option<DisplayName>) -> (copy: Option<DisplayName>)
    ensures
        copy == *name,
{
    match name {
        Some(name) => Some(name.clone()),
        None => None,
    }
}

/// The name once more.
pub fn copy_group_name(name: &Option<GroupName>) -> (copy: Option<GroupName>)
    ensures
        copy == *name,
{
    match name {
        Some(name) => Some(name.clone()),
        None => None,
    }
}

/// The id once more.
pub fn copy_group_id(id: &Option<GroupId>) -> (copy: Option<GroupId>)
    ensures
        copy == *id,
{
    match id {
        Some(id) => Some(id.clone()),
        None => None,
    }
}

/// The text once more.
pub fn copy_text(text: &Option<String>) -> (copy: Option<String>)
    ensures
        copy == *text,
{
    match text {
        Some(text) => Some(text.clone()),
        None => None,
    }
}

impl OverrideView {
    /// Whether it says nothing.
    pub open spec fn says_nothing(self) -> bool {
        &&& self.display_name is None
        &&& self.group is None
        &&& !self.unlisted
        &&& self.elevation_min is None
        &&& self.elevation_max is None
    }
}

impl RadargramOverride {
    /// Whether it says nothing.
    pub fn is_empty(&self) -> (empty: bool)
        ensures
            empty == self.deep_view().says_nothing(),
    {
        self.display_name.is_none() && self.group.is_none() && !self.unlisted
            && self.elevation_min.is_none() && self.elevation_max.is_none()
    }
}

/// What a project says about one group.
#[derive(Debug, PartialEq)]
pub struct GroupOverride {
    pub name: Option<GroupName>,
}

impl DeepView for GroupOverride {
    type V = Option<Seq<char>>;

    open spec fn deep_view(&self) -> Option<Seq<char>> {
        self.name.deep_view()
    }
}

impl Clone for GroupOverride {
    fn clone(&self) -> (copy: Self)
        ensures
            copy == *self,
    {
        GroupOverride { name: copy_group_name(&self.name) }
    }
}

/// A radargram the project does not serve.
#[derive(Debug, PartialEq)]
pub struct IgnoredRadargram {
    /// When the decision was made.
    pub since: Option<String>,
    /// Which revision it was made about.
    pub revision_id: Option<String>,
}

/// A decision not to serve a radargram, as plain values.
#[verifier::ext_equal]
pub struct IgnoredView {
    pub since: Option<Seq<char>>,
    pub revision_id: Option<Seq<char>>,
}

impl DeepView for IgnoredRadargram {
    type V = IgnoredView;

    open spec fn deep_view(&self) -> IgnoredView {
        IgnoredView { since: self.since.deep_view(), revision_id: self.revision_id.deep_view() }
    }
}

impl Clone for IgnoredRadargram {
    fn clone(&self) -> (copy: Self)
        ensures
            copy == *self,
    {
        IgnoredRadargram {
            since: copy_text(&self.since),
            revision_id: copy_text(&self.revision_id),
        }
    }
}

/// Everything a project says over its files.
#[derive(Debug, PartialEq)]
pub struct CatalogOverrides {
    pub radargrams: TextMap<RadargramId, RadargramOverride>,
    pub groups: TextMap<GroupId, GroupOverride>,
    pub ignored: TextMap<RadargramId, IgnoredRadargram>,
}

/// Everything a project says over its files, as plain values.
#[verifier::ext_equal]
pub struct OverridesView {
    pub radargrams: Map<Seq<char>, OverrideView>,
    pub groups: Map<Seq<char>, Option<Seq<char>>>,
    pub ignored: Map<Seq<char>, IgnoredView>,
}

impl View for CatalogOverrides {
    type V = OverridesView;

    open spec fn view(&self) -> OverridesView {
        OverridesView {
            radargrams: self.radargrams.deep_view(),
            groups: self.groups.deep_view(),
            ignored: self.ignored.deep_view(),
        }
    }
}

impl OverridesView {
    /// A project that says nothing.
    pub open spec fn nothing() -> OverridesView {
        OverridesView {
            radargrams: Map::empty(),
            groups: Map::empty(),
            ignored: Map::empty(),
        }
    }

    /// The name the project gives a group.
    pub open spec fn named(self, group: Seq<char>) -> Option<Seq<char>> {
        if self.groups.contains_key(group) {
            self.groups[group]
        } else {
            None
        }
    }
}

impl Default for CatalogOverrides {
    /// A project that says nothing.
    fn default() -> (overrides: Self)
        ensures
            overrides@ == OverridesView::nothing(),
    {
        let overrides = CatalogOverrides {
            radargrams: TextMap::new(),
            groups: TextMap::new(),
            ignored: TextMap::new(),
        };
        assert(overrides@ =~= OverridesView::nothing()) by {
            assert(overrides@.radargrams =~= Map::empty());
            assert(overrides@.groups =~= Map::empty());
            assert(overrides@.ignored =~= Map::empty());
        }
        overrides
    }
}

impl Clone for CatalogOverrides {
    fn clone(&self) -> (copy: Self)
        ensures
            copy@ == self@,
    {
        let copy = CatalogOverrides {
            radargrams: self.radargrams.clone(),
            groups: self.groups.clone(),
            ignored: self.ignored.clone(),
        };
        proof {
            assert(copy@.radargrams =~= self@.radargrams);
            assert(copy@.groups =~= self@.groups);
            assert(copy@.ignored =~= self@.ignored);
        }
        copy
    }
}

impl CatalogOverrides {
    /// What the project says about a radargram, where it says anything.
    pub fn radargram(&self, id: &RadargramId) -> (over: Option<&RadargramOverride>)
        ensures
            match over {
                Some(over) => self@.radargrams.contains_key(id@) && over.deep_view()
                    == self@.radargrams[id@],
                None => !self@.radargrams.contains_key(id@),
            },
    {
        self.radargrams.get(id.as_str())
    }

    /// The name the project gives a group.
    pub fn group_name(&self, id: &GroupId) -> (name: Option<GroupName>)
        ensures
            name.deep_view() == self@.named(id@),
    {
        match self.groups.get(id.as_str()) {
            Some(group) => copy_group_name(&group.name),
            None => None,
        }
    }

    /// The decision not to serve a radargram, where there is one.
    pub fn ignore(&self, id: &RadargramId) -> (decision: Option<&IgnoredRadargram>)
        ensures
            match decision {
                Some(decision) => self@.ignored.contains_key(id@) && decision.deep_view()
                    == self@.ignored[id@],
                None => !self@.ignored.contains_key(id@),
            },
    {
        self.ignored.get(id.as_str())
    }

    /// Whether the project does not serve a radargram.
    pub fn ignores(&self, id: &RadargramId) -> (ignored: bool)
        ensures
            ignored == self@.ignored.contains_key(id@),
    {
        self.ignored.contains_key(id.as_str())
    }
}

} // verus!
