//! Derived items: what is computed from people's picks.
//!
//! Two ideas carry the permission model. An expression is evaluated over the
//! picks its reader may see, so one definition gives an operator the consensus
//! and a picker a result from their own picks only. And a result across users
//! reaches everybody only by an explicit decision, which takes an admin.
use vstd::prelude::*;

use crate::api_error::{refusal, ApiError, ErrorView};
use crate::auth::{Caller, DownloadScope, Role};
use crate::identity::{is_slug, not_a_slug, RadargramId, UserId};
use crate::overrides::copy_text;
use crate::paths::copy_parts;
use crate::rows::{lemma_filter_none, lemma_filter_step};
use crate::text;
use crate::text_map::TextMap;

verus! {

broadcast use vstd::string::group_string_axioms;

// ---------------------------------------------------------------------------
// Items
// ---------------------------------------------------------------------------

/// What a derived value is measured in.
#[derive(Clone, Copy, Debug, PartialEq, Eq, Structural)]
pub enum Unit {
    Meters,
    Nanoseconds,
    Samples,
    Dimensionless,
}

impl Unit {
    /// The unit as text.
    pub open spec fn label(self) -> Seq<char> {
        match self {
            Unit::Meters => "meters"@,
            Unit::Nanoseconds => "nanoseconds"@,
            Unit::Samples => "samples"@,
            Unit::Dimensionless => "dimensionless"@,
        }
    }

    /// The unit as it is written in documents and downloads.
    pub fn as_str(self) -> (text: &'static str)
        ensures
            text@ == self.label(),
    {
        match self {
            Unit::Meters => "meters",
            Unit::Nanoseconds => "nanoseconds",
            Unit::Samples => "samples",
            Unit::Dimensionless => "dimensionless",
        }
    }
}

/// Whose an item is.
#[derive(Debug, PartialEq, Eq)]
pub enum Scope {
    /// The project's.
    Project,
    /// One user's own.
    Private(String),
}

/// Whose picks an item is shown over.
#[derive(Clone, Copy, Debug, PartialEq, Eq, Structural)]
pub enum Audience {
    /// Everyone sees it over their own picks.
    OwnPicks,
    /// Everyone sees it over everybody's, by an admin's decision.
    Released,
}

/// Something computed from picks.
#[derive(Debug, PartialEq)]
pub struct DerivedItem {
    pub id: String,
    pub name: String,
    pub expression: String,
    pub unit: Unit,
    pub color: Option<String>,
    pub show: bool,
    pub listed: bool,
    pub fill_to: Option<String>,
    pub scope: Scope,
    pub audience: Audience,
    /// The names that the expression mentions, in order.
    pub references: Vec<String>,
    /// Whatever else the stored item says, each field by its name with its
    /// value as JSON text: kept, though nothing here reads it.
    pub extra: TextMap<String, String>,
}

/// Whose an item is, as plain values.
#[verifier::ext_equal]
pub enum ScopeView {
    Project,
    Private(Seq<char>),
}

impl View for Scope {
    type V = ScopeView;

    open spec fn view(&self) -> ScopeView {
        match self {
            Scope::Project => ScopeView::Project,
            Scope::Private(user) => ScopeView::Private(user@),
        }
    }
}

impl Clone for Scope {
    fn clone(&self) -> (copy: Self)
        ensures
            copy == *self,
    {
        match self {
            Scope::Project => Scope::Project,
            Scope::Private(user) => Scope::Private(user.clone()),
        }
    }
}

/// An item, as plain values.
#[verifier::ext_equal]
pub struct ItemView {
    pub id: Seq<char>,
    pub name: Seq<char>,
    pub expression: Seq<char>,
    pub unit: Unit,
    pub color: Option<Seq<char>>,
    pub show: bool,
    pub listed: bool,
    pub fill_to: Option<Seq<char>>,
    pub scope: ScopeView,
    pub audience: Audience,
    pub references: Seq<Seq<char>>,
    pub extra: Map<Seq<char>, Seq<char>>,
}

impl View for DerivedItem {
    type V = ItemView;

    open spec fn view(&self) -> ItemView {
        ItemView {
            id: self.id@,
            name: self.name@,
            expression: self.expression@,
            unit: self.unit,
            color: self.color.deep_view(),
            show: self.show,
            listed: self.listed,
            fill_to: self.fill_to.deep_view(),
            scope: self.scope@,
            audience: self.audience,
            references: self.references.deep_view(),
            extra: self.extra.deep_view(),
        }
    }
}

impl DeepView for DerivedItem {
    type V = ItemView;

    open spec fn deep_view(&self) -> ItemView {
        self@
    }
}

impl Clone for DerivedItem {
    fn clone(&self) -> (copy: Self)
        ensures
            copy@ == self@,
    {
        let extra = self.extra.clone();
        assert(extra.deep_view() =~= self.extra.deep_view());
        DerivedItem {
            id: self.id.clone(),
            name: self.name.clone(),
            expression: self.expression.clone(),
            unit: self.unit,
            color: copy_text(&self.color),
            show: self.show,
            listed: self.listed,
            fill_to: copy_text(&self.fill_to),
            scope: self.scope.clone(),
            audience: self.audience,
            references: copy_parts(&self.references),
            extra,
        }
    }
}

/// All derived items of a project, in the order they are drawn.
#[derive(Debug, PartialEq)]
pub struct DerivedSet {
    pub items: Vec<DerivedItem>,
}

impl View for DerivedSet {
    type V = Seq<ItemView>;

    open spec fn view(&self) -> Seq<ItemView> {
        self.items.deep_view()
    }
}

impl ItemView {
    /// Whether somebody of this name may see the item.
    pub open spec fn is_visible_to(self, viewer: Seq<char>) -> bool {
        match self.scope {
            ScopeView::Project => true,
            ScopeView::Private(user) => user == viewer,
        }
    }
}

impl DerivedItem {
    /// Whether somebody of this name may see the item.
    pub fn visible_to(&self, viewer: &str) -> (visible: bool)
        ensures
            visible == self@.is_visible_to(viewer@),
    {
        match &self.scope {
            Scope::Project => true,
            Scope::Private(user) => text::equal(user.as_str(), viewer),
        }
    }
}

/// Whether one of the items has this id.
pub open spec fn has_item(items: Seq<ItemView>, id: Seq<char>) -> bool {
    exists|i: int| 0 <= i < items.len() && (#[trigger] items[i]).id == id
}

/// The first item with this id.
pub open spec fn item_with_id(items: Seq<ItemView>, id: Seq<char>) -> Option<ItemView>
    decreases items.len(),
{
    if items.len() == 0 {
        None
    } else {
        match item_with_id(items.drop_last(), id) {
            Some(item) => Some(item),
            None => if items.last().id == id {
                Some(items.last())
            } else {
                None
            },
        }
    }
}

proof fn lemma_item_found_stays(items: Seq<ItemView>, n: int, id: Seq<char>)
    requires
        0 <= n <= items.len(),
        item_with_id(items.take(n), id) is Some,
    ensures
        item_with_id(items, id) == item_with_id(items.take(n), id),
    decreases items.len(),
{
    if n < items.len() {
        assert(items.drop_last().take(n) =~= items.take(n));
        lemma_item_found_stays(items.drop_last(), n, id);
    } else {
        assert(items.take(n) =~= items);
    }
}

proof fn lemma_item_with_id(items: Seq<ItemView>, id: Seq<char>)
    ensures
        item_with_id(items, id) is Some <==> has_item(items, id),
    decreases items.len(),
{
    if items.len() > 0 {
        let rest = items.drop_last();
        lemma_item_with_id(rest, id);
        assert(items[items.len() - 1] == items.last());
        if has_item(rest, id) {
            let i = choose|i: int| 0 <= i < rest.len() && (#[trigger] rest[i]).id == id;
            assert(items[i].id == id);
        }
        if has_item(items, id) && items.last().id != id {
            let i = choose|i: int| 0 <= i < items.len() && (#[trigger] items[i]).id == id;
            assert(rest[i].id == id);
        }
    }
}

/// The items that an item's expression refers to, as far as they are there.
pub open spec fn dependencies_of(items: Seq<ItemView>, id: Seq<char>) -> Seq<Seq<char>> {
    match item_with_id(items, id) {
        Some(item) => item.references.filter(|name: Seq<char>| has_item(items, name)),
        None => Seq::empty(),
    }
}

impl DerivedSet {
    /// The item with this id.
    pub fn get(&self, id: &str) -> (item: Option<&DerivedItem>)
        ensures
            match item {
                Some(item) => item_with_id(self@, id@) == Some(item@),
                None => item_with_id(self@, id@) is None,
            },
    {
        let ghost all = self@;
        let mut i: usize = 0;
        proof {
            assert(all.take(0) =~= Seq::empty());
        }
        while i < self.items.len()
            invariant
                i <= self.items.len(),
                all == self.items.deep_view(),
                item_with_id(all.take(i as int), id@) is None,
            decreases self.items.len() - i,
        {
            proof {
                assert(all.take(i + 1).drop_last() =~= all.take(i as int));
                assert(all.take(i + 1).last() == self.items[i as int]@);
            }
            if text::equal(self.items[i].id.as_str(), id) {
                proof {
                    lemma_item_found_stays(all, i + 1, id@);
                }
                return Some(&self.items[i]);
            }
            i = i + 1;
        }
        assert(all.take(i as int) =~= all);
        None
    }

    /// Whether an item of this id is there.
    pub fn contains(&self, id: &str) -> (found: bool)
        ensures
            found == has_item(self@, id@),
    {
        proof {
            lemma_item_with_id(self@, id@);
        }
        self.get(id).is_some()
    }

    /// The items that an item's expression refers to, as far as they are there.
    pub fn dependencies(&self, id: &str) -> (names: Vec<String>)
        ensures
            names.deep_view() == dependencies_of(self@, id@),
    {
        let mut names: Vec<String> = Vec::new();
        assert(names.deep_view() =~= Seq::empty());
        match self.get(id) {
            None => {},
            Some(item) => {
                let ghost all = item@.references;
                let ghost keep = |name: Seq<char>| has_item(self@, name);
                let mut i: usize = 0;
                proof {
                    lemma_filter_none(all, keep);
                }
                while i < item.references.len()
                    invariant
                        i <= item.references.len(),
                        all == item.references.deep_view(),
                        keep == (|name: Seq<char>| has_item(self@, name)),
                        names.deep_view() == all.take(i as int).filter(keep),
                    decreases item.references.len() - i,
                {
                    proof {
                        lemma_filter_step(all, i as int, keep);
                        assert(all[i as int] == item.references[i as int]@);
                    }
                    if self.contains(item.references[i].as_str()) {
                        let ghost so_far = names.deep_view();
                        let name = item.references[i].clone();
                        names.push(name);
                        assert(names.deep_view() =~= so_far.push(name@));
                    }
                    i = i + 1;
                }
                assert(all.take(i as int) =~= all);
            },
        }
        names
    }

    /// The items that somebody of this name may see, in order.
    pub fn visible_to(&self, viewer: &str) -> (items: Vec<&DerivedItem>)
        ensures
            items.deep_view() == self@.filter(|item: ItemView| item.is_visible_to(viewer@)),
    {
        let ghost all = self@;
        let ghost keep = |item: ItemView| item.is_visible_to(viewer@);
        let mut items: Vec<&DerivedItem> = Vec::new();
        let mut i: usize = 0;
        proof {
            lemma_filter_none(all, keep);
            assert(items.deep_view() =~= Seq::empty());
        }
        while i < self.items.len()
            invariant
                i <= self.items.len(),
                all == self.items.deep_view(),
                keep == (|item: ItemView| item.is_visible_to(viewer@)),
                items.deep_view() == all.take(i as int).filter(keep),
            decreases self.items.len() - i,
        {
            let item = &self.items[i];
            proof {
                lemma_filter_step(all, i as int, keep);
                assert(all[i as int] == item@);
            }
            if item.visible_to(viewer) {
                let ghost so_far = items.deep_view();
                items.push(item);
                assert(items.deep_view() =~= so_far.push(item@));
            }
            i = i + 1;
        }
        assert(all.take(i as int) =~= all);
        items
    }
}

// ---------------------------------------------------------------------------
// Errors
// ---------------------------------------------------------------------------

/// Why derived items could not be read, checked or written.
#[derive(Debug, PartialEq, Eq)]
pub enum DerivedError {
    /// Somebody else saved first.
    Conflict(String),
    /// The document could not be read or written.
    Store(String),
    /// An item depends on itself, by way of others.
    Cycle(String),
    InvalidId(String),
    DuplicateId(String),
    InvalidColor(String),
    Malformed(String),
    ReservedProperty(String),
    PropertyCollision(String),
    UnitMismatch(String),
    /// The expression itself is at fault.
    Derive(String),
}

/// How an error about derived items is answered. A mistake of whoever wrote
/// the item is a bad request, so that the editor can show it; a failing store
/// is the server's fault.
pub open spec fn derived_refusal(error: DerivedError) -> ErrorView {
    match error {
        DerivedError::Conflict(message) => refusal(412, "version_conflict"@, message@),
        DerivedError::Store(message) => refusal(500, "store_failed"@, message@),
        DerivedError::Cycle(message) => refusal(400, "invalid_derived_items"@, message@),
        DerivedError::InvalidId(message) => refusal(400, "invalid_derived_items"@, message@),
        DerivedError::DuplicateId(message) => refusal(400, "invalid_derived_items"@, message@),
        DerivedError::InvalidColor(message) => refusal(400, "invalid_derived_items"@, message@),
        DerivedError::Malformed(message) => refusal(400, "invalid_derived_items"@, message@),
        DerivedError::ReservedProperty(message) => refusal(
            400,
            "invalid_derived_items"@,
            message@,
        ),
        DerivedError::PropertyCollision(message) => refusal(
            400,
            "invalid_derived_items"@,
            message@,
        ),
        DerivedError::UnitMismatch(message) => refusal(400, "invalid_derived_items"@, message@),
        DerivedError::Derive(message) => refusal(400, "invalid_derived_items"@, message@),
    }
}

/// Answers an error about derived items.
pub fn derived_error(error: DerivedError) -> (answer: ApiError)
    ensures
        answer@ == derived_refusal(error),
{
    match error {
        DerivedError::Conflict(message) => ApiError::precondition_failed(
            "version_conflict",
            message,
        ),
        DerivedError::Store(message) => ApiError::internal("store_failed", message),
        DerivedError::Cycle(message) => ApiError::bad_request("invalid_derived_items", message),
        DerivedError::InvalidId(message) => ApiError::bad_request("invalid_derived_items", message),
        DerivedError::DuplicateId(message) => ApiError::bad_request(
            "invalid_derived_items",
            message,
        ),
        DerivedError::InvalidColor(message) => ApiError::bad_request(
            "invalid_derived_items",
            message,
        ),
        DerivedError::Malformed(message) => ApiError::bad_request("invalid_derived_items", message),
        DerivedError::ReservedProperty(message) => ApiError::bad_request(
            "invalid_derived_items",
            message,
        ),
        DerivedError::PropertyCollision(message) => ApiError::bad_request(
            "invalid_derived_items",
            message,
        ),
        DerivedError::UnitMismatch(message) => ApiError::bad_request(
            "invalid_derived_items",
            message,
        ),
        DerivedError::Derive(message) => ApiError::bad_request("invalid_derived_items", message),
    }
}

// ---------------------------------------------------------------------------
// Whose picks
// ---------------------------------------------------------------------------

/// Whether a caller may see results across everybody's picks, whatever an item
/// says. Operators can read every interpretation anyway, and in a project
/// without accounts everybody can.
pub open spec fn sees_across_users(caller: Caller) -> bool {
    caller.allowed(Role::Operator) || !caller.authentication_configured
}

/// Whether a caller may see results across everybody's picks.
pub fn may_see_cross_user(caller: &Caller) -> (may: bool)
    ensures
        may == sees_across_users(*caller),
{
    caller.may(Role::Operator) || !caller.authentication_configured
}

/// Whose picks an item is evaluated over.
#[derive(Debug, PartialEq, Eq)]
pub enum EvaluableUsers {
    /// Everybody's.
    All,
    /// This user's, or nobody's.
    Only(Option<UserId>),
}

impl EvaluableUsers {
    /// Whether a user's picks are among them.
    pub open spec fn covers(self, user: Seq<char>) -> bool {
        match self {
            EvaluableUsers::All => true,
            EvaluableUsers::Only(own) => own.deep_view() == Some(user),
        }
    }

    /// Whether a user's picks are among them.
    pub fn includes(&self, user: &UserId) -> (included: bool)
        ensures
            included == self.covers(user@),
    {
        match self {
            EvaluableUsers::All => true,
            EvaluableUsers::Only(own) => match own {
                Some(own) => own.same(user),
                None => false,
            },
        }
    }
}

/// Whether a user's picks go into an item with this audience, for this caller:
/// their own always do, and everybody's where the caller may see across users
/// or an admin has released the item.
pub open spec fn feeds(caller: Caller, audience: Audience, user: Seq<char>) -> bool {
    sees_across_users(caller) || audience == Audience::Released || caller.user.deep_view() == Some(
        user,
    )
}

/// Whose picks an item with this audience is evaluated over, for this caller.
pub fn evaluable_users(caller: &Caller, audience: Audience) -> (users: EvaluableUsers)
    ensures
        forall|user: Seq<char>| #[trigger] users.covers(user) == feeds(*caller, audience, user),
        users is All <==> sees_across_users(*caller) || audience == Audience::Released,
{
    if may_see_cross_user(caller) || audience == Audience::Released {
        EvaluableUsers::All
    } else {
        let own = match &caller.user {
            Some(user) => Some(user.clone()),
            None => None,
        };
        EvaluableUsers::Only(own)
    }
}

/// The users among `stems`, and what is no user's name. One file that is named
/// wrongly must not hide those that are named right.
pub fn check_users(stems: &Vec<String>) -> (found: (Vec<UserId>, Vec<String>))
    ensures
        found.0.deep_view() == stems.deep_view().filter(|stem: Seq<char>| is_slug(stem)),
        found.1.deep_view() == stems.deep_view().filter(|stem: Seq<char>| !is_slug(stem)),
{
    let ghost all = stems.deep_view();
    let ghost good = |stem: Seq<char>| is_slug(stem);
    let ghost bad = |stem: Seq<char>| !is_slug(stem);
    let mut users: Vec<UserId> = Vec::new();
    let mut unreadable: Vec<String> = Vec::new();
    let mut i: usize = 0;
    proof {
        lemma_filter_none(all, good);
        lemma_filter_none(all, bad);
        assert(users.deep_view() =~= Seq::empty());
        assert(unreadable.deep_view() =~= Seq::empty());
    }
    while i < stems.len()
        invariant
            i <= stems.len(),
            all == stems.deep_view(),
            good == (|stem: Seq<char>| is_slug(stem)),
            bad == (|stem: Seq<char>| !is_slug(stem)),
            users.deep_view() == all.take(i as int).filter(good),
            unreadable.deep_view() == all.take(i as int).filter(bad),
        decreases stems.len() - i,
    {
        proof {
            lemma_filter_step(all, i as int, good);
            lemma_filter_step(all, i as int, bad);
            assert(all[i as int] == stems[i as int]@);
        }
        match UserId::new(stems[i].as_str()) {
            Ok(user) => {
                let ghost so_far = users.deep_view();
                users.push(user);
                assert(users.deep_view() =~= so_far.push(user@));
            },
            Err(_) => {
                let ghost so_far = unreadable.deep_view();
                let stem = stems[i].clone();
                unreadable.push(stem);
                assert(unreadable.deep_view() =~= so_far.push(stem@));
            },
        }
        i = i + 1;
    }
    assert(all.take(i as int) =~= all);
    (users, unreadable)
}

/// Whose documents feed an item with this audience, for this caller, in order.
pub fn visible_documents(caller: &Caller, audience: Audience, users: &Vec<UserId>) -> (chosen: Vec<
    UserId,
>)
    ensures
        chosen.deep_view() == users.deep_view().filter(
            |user: Seq<char>| feeds(*caller, audience, user),
        ),
{
    let permitted = evaluable_users(caller, audience);
    let ghost all = users.deep_view();
    let ghost keep = |user: Seq<char>| feeds(*caller, audience, user);
    let mut chosen: Vec<UserId> = Vec::new();
    let mut i: usize = 0;
    proof {
        lemma_filter_none(all, keep);
        assert(chosen.deep_view() =~= Seq::empty());
    }
    while i < users.len()
        invariant
            i <= users.len(),
            all == users.deep_view(),
            keep == (|user: Seq<char>| feeds(*caller, audience, user)),
            forall|user: Seq<char>| #[trigger]
                permitted.covers(user) == feeds(*caller, audience, user),
            chosen.deep_view() == all.take(i as int).filter(keep),
        decreases users.len() - i,
    {
        proof {
            lemma_filter_step(all, i as int, keep);
            assert(all[i as int] == users[i as int]@);
            assert(permitted.covers(users[i as int]@) == feeds(
                *caller,
                audience,
                users[i as int]@,
            ));
        }
        if permitted.includes(&users[i]) {
            let ghost so_far = chosen.deep_view();
            let user = users[i].clone();
            chosen.push(user);
            assert(chosen.deep_view() =~= so_far.push(user@));
        }
        i = i + 1;
    }
    assert(all.take(i as int) =~= all);
    chosen
}

/// Somebody whose interpretation a caller is shown.
#[derive(Debug, PartialEq, Eq)]
pub struct Contributor {
    pub user: UserId,
    /// Whether it is the caller.
    pub own: bool,
}

/// Somebody whose interpretation is shown, as plain values.
#[verifier::ext_equal]
pub struct ContributorView {
    pub user: Seq<char>,
    pub own: bool,
}

impl DeepView for Contributor {
    type V = ContributorView;

    open spec fn deep_view(&self) -> ContributorView {
        ContributorView { user: self.user@, own: self.own }
    }
}

/// Whether a caller is shown everybody's interpretations: their role has to
/// allow it, and raw picks have to be within what they may download, whatever
/// route they leave by.
pub open spec fn sees_contributors(caller: Caller) -> bool {
    sees_across_users(caller) && caller.allowed_download(DownloadScope::Picks)
}

/// Those whose interpretations a caller is shown: themselves always, and the
/// others where they may see them.
pub open spec fn contributors_shown(caller: Caller, users: Seq<Seq<char>>) -> Seq<ContributorView> {
    users.filter(
        |user: Seq<char>| sees_contributors(caller) || caller.user.deep_view() == Some(user),
    ).map_values(
        |user: Seq<char>| ContributorView { user, own: caller.user.deep_view() == Some(user) },
    )
}

/// Whose interpretations of a radargram the caller is shown, and whether that
/// is everybody's.
pub fn get_contributors(caller: &Caller, radargram_id: &str, users: &Vec<UserId>) -> (shown: Result<
    (bool, Vec<Contributor>),
    ApiError,
>)
    ensures
        match shown {
            Ok((can_see_others, contributors)) => {
                &&& is_slug(radargram_id@)
                &&& can_see_others == sees_contributors(*caller)
                &&& contributors.deep_view() == contributors_shown(*caller, users.deep_view())
            },
            Err(error) => !is_slug(radargram_id@) && error@ == refusal(
                400,
                "invalid_radargram_id"@,
                not_a_slug(radargram_id@),
            ),
        },
{
    match RadargramId::new(radargram_id) {
        Ok(_) => {},
        Err(message) => {
            return Err(ApiError::bad_request("invalid_radargram_id", message));
        },
    }
    let can_see_others = may_see_cross_user(caller) && caller.may_download(DownloadScope::Picks);
    let ghost all = users.deep_view();
    let ghost keep = |user: Seq<char>|
        sees_contributors(*caller) || caller.user.deep_view() == Some(user);
    let ghost as_contributor = |user: Seq<char>|
        ContributorView { user, own: caller.user.deep_view() == Some(user) };
    let mut contributors: Vec<Contributor> = Vec::new();
    let mut i: usize = 0;
    proof {
        lemma_filter_none(all, keep);
        assert(contributors.deep_view() =~= all.take(0).filter(keep).map_values(as_contributor));
    }
    while i < users.len()
        invariant
            i <= users.len(),
            all == users.deep_view(),
            can_see_others == sees_contributors(*caller),
            keep == (|user: Seq<char>|
                sees_contributors(*caller) || caller.user.deep_view() == Some(user)),
            as_contributor == (|user: Seq<char>|
                ContributorView { user, own: caller.user.deep_view() == Some(user) }),
            contributors.deep_view() == all.take(i as int).filter(keep).map_values(as_contributor),
        decreases users.len() - i,
    {
        proof {
            lemma_filter_step(all, i as int, keep);
            assert(all[i as int] == users[i as int]@);
        }
        let own = match &caller.user {
            Some(user) => user.same(&users[i]),
            None => false,
        };
        if can_see_others || own {
            let ghost so_far = contributors.deep_view();
            let contributor = Contributor { user: users[i].clone(), own };
            contributors.push(contributor);
            proof {
                assert(contributors.deep_view() =~= so_far.push(contributor.deep_view()));
                assert(contributors.deep_view() =~= all.take(i + 1).filter(keep).map_values(
                    as_contributor,
                ));
            }
        }
        i = i + 1;
    }
    assert(all.take(i as int) =~= all);
    Ok((can_see_others, contributors))
}

} // verus!
