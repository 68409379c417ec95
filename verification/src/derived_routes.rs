//! What is answered about derived items: listing them, saving them, and
//! handing out their values.
use vstd::prelude::*;

use crate::api_error::{refusal, ApiError, ErrorView};
use crate::auth::{Caller, Role};
use crate::derived::{
    dependencies_of, feeds, has_item, Audience, DerivedItem, DerivedSet, ItemView, Scope, ScopeView,
};
use crate::identity::is_slug;
use crate::rows::{lemma_filter_none, lemma_filter_step};
use crate::text;

verus! {

broadcast use vstd::string::group_string_axioms;

// ---------------------------------------------------------------------------
// Listing
// ---------------------------------------------------------------------------

/// An item as it is listed.
#[derive(Debug, PartialEq)]
pub struct ListedItem {
    pub item: DerivedItem,
    /// What kind of value it has, or why that cannot be told.
    pub kind: String,
    /// How many items refer to it, including those the caller cannot see: a
    /// delete would be refused on their account.
    pub used_by: usize,
}

/// An item as it is listed, as plain values.
#[verifier::ext_equal]
pub struct ListedView {
    pub item: ItemView,
    pub kind: Seq<char>,
    pub used_by: nat,
}

impl DeepView for ListedItem {
    type V = ListedView;

    open spec fn deep_view(&self) -> ListedView {
        ListedView { item: self.item@, kind: self.kind@, used_by: self.used_by as nat }
    }
}

/// What the editor needs.
#[derive(Debug, PartialEq)]
pub struct DerivedListing {
    pub items: Vec<ListedItem>,
    /// Whether the caller may save project-wide items.
    pub can_author: bool,
    /// Whether the caller may release a result to everybody.
    pub can_release: bool,
}

/// How many items refer to the one with this id, over the whole set.
pub open spec fn used_by(items: Seq<ItemView>, id: Seq<char>) -> nat {
    items.filter(|item: ItemView| dependencies_of(items, item.id).contains(id)).len()
}

/// What kind an item has, in words.
pub open spec fn kind_text(kind: Result<String, String>) -> Seq<char> {
    match kind {
        Ok(kind) => kind@,
        Err(reason) => "error: "@ + reason@,
    }
}

/// The first `n` items, as far as somebody of this name may see them.
pub open spec fn listed(
    items: Seq<ItemView>,
    kinds: Seq<Result<String, String>>,
    viewer: Seq<char>,
    n: int,
) -> Seq<ListedView>
    decreases n,
{
    if n <= 0 {
        Seq::empty()
    } else {
        let before = listed(items, kinds, viewer, n - 1);
        if items[n - 1].is_visible_to(viewer) {
            before.push(
                ListedView {
                    item: items[n - 1],
                    kind: kind_text(kinds[n - 1]),
                    used_by: used_by(items, items[n - 1].id),
                },
            )
        } else {
            before
        }
    }
}

/// Whether one of the names is this one.
fn names_contain(names: &Vec<String>, name: &str) -> (found: bool)
    ensures
        found == names.deep_view().contains(name@),
{
    let ghost all = names.deep_view();
    let mut i: usize = 0;
    while i < names.len()
        invariant
            i <= names.len(),
            all == names.deep_view(),
            forall|j: int| 0 <= j < i ==> #[trigger] all[j] != name@,
        decreases names.len() - i,
    {
        assert(all[i as int] == names[i as int]@);
        if text::equal(names[i].as_str(), name) {
            return true;
        }
        i = i + 1;
    }
    false
}

fn count_uses(set: &DerivedSet, id: &str) -> (count: usize)
    ensures
        count == used_by(set@, id@),
{
    let ghost all = set@;
    let ghost uses = |item: ItemView| dependencies_of(all, item.id).contains(id@);
    let mut count: usize = 0;
    let mut i: usize = 0;
    proof {
        lemma_filter_none(all, uses);
    }
    while i < set.items.len()
        invariant
            i <= set.items.len(),
            all == set.items.deep_view(),
            uses == (|item: ItemView| dependencies_of(all, item.id).contains(id@)),
            count == all.take(i as int).filter(uses).len(),
            count <= i,
        decreases set.items.len() - i,
    {
        proof {
            lemma_filter_step(all, i as int, uses);
            assert(all[i as int] == set.items[i as int]@);
        }
        let names = set.dependencies(set.items[i].id.as_str());
        if names_contain(&names, id) {
            count = count + 1;
        }
        i = i + 1;
    }
    assert(all.take(i as int) =~= all);
    count
}

/// The derived items the caller may see. `kinds` says of each item of the set
/// what kind of value it has.
pub fn get_derived(caller: &Caller, set: &DerivedSet, kinds: &Vec<Result<String, String>>) -> (listing:
    DerivedListing)
    requires
        kinds.len() == set.items.len(),
    ensures
        listing.items.deep_view() == listed(
            set@,
            kinds@,
            caller.shown_name(),
            set@.len() as int,
        ),
        listing.can_author == caller.allowed(Role::Operator),
        listing.can_release == caller.allowed(Role::Admin),
{
    let viewer = caller.display_name();
    let ghost all = set@;
    let mut items: Vec<ListedItem> = Vec::new();
    let mut i: usize = 0;
    proof {
        assert(items.deep_view() =~= Seq::empty());
    }
    while i < set.items.len()
        invariant
            i <= set.items.len(),
            kinds.len() == set.items.len(),
            all == set.items.deep_view(),
            viewer@ == caller.shown_name(),
            items.deep_view() == listed(all, kinds@, viewer@, i as int),
        decreases set.items.len() - i,
    {
        let item = &set.items[i];
        assert(all[i as int] == item@);
        if item.visible_to(viewer) {
            let kind = match &kinds[i] {
                Ok(kind) => kind.clone(),
                Err(reason) => {
                    let mut kind = "error: ".to_owned();
                    kind.append(reason.as_str());
                    kind
                },
            };
            let ghost so_far = items.deep_view();
            let entry = ListedItem {
                item: item.clone(),
                kind,
                used_by: count_uses(set, item.id.as_str()),
            };
            items.push(entry);
            assert(items.deep_view() =~= so_far.push(entry.deep_view()));
        }
        i = i + 1;
    }
    DerivedListing {
        items,
        can_author: caller.may(Role::Operator),
        can_release: caller.may(Role::Admin),
    }
}

// ---------------------------------------------------------------------------
// Saving
// ---------------------------------------------------------------------------

/// How an item that the caller may not save is answered. Releasing takes an
/// admin, because it publishes other people's work; a project-wide item takes
/// an operator; a private one has to be the caller's own.
pub open spec fn item_refusal(caller: Caller, item: ItemView) -> Option<ErrorView> {
    if item.audience == Audience::Released && !caller.allowed(Role::Admin) {
        Some(caller.role_refusal(Role::Admin, "release a cross-user derived result"@))
    } else {
        match item.scope {
            ScopeView::Project => if caller.allowed(Role::Operator) {
                None
            } else {
                Some(caller.role_refusal(Role::Operator, "edit project-wide derived items"@))
            },
            ScopeView::Private(user) => match caller.user {
                None => Some(
                    refusal(
                        401,
                        "authentication_required"@,
                        "Sign in to save a private derived item."@,
                    ),
                ),
                Some(own) => if own@ == user {
                    None
                } else {
                    Some(
                        refusal(
                            403,
                            "not_your_item"@,
                            "The private derived item '"@ + item.id + "' belongs to '"@ + user
                                + "'."@,
                        ),
                    )
                },
            },
        }
    }
}

/// How the first of the items that the caller may not save is answered.
pub open spec fn items_refusal(caller: Caller, items: Seq<ItemView>) -> Option<ErrorView>
    decreases items.len(),
{
    if items.len() == 0 {
        None
    } else {
        match items_refusal(caller, items.drop_last()) {
            Some(error) => Some(error),
            None => item_refusal(caller, items.last()),
        }
    }
}

/// The stored items that somebody of this name cannot see.
pub open spec fn preserved(stored: Seq<ItemView>, viewer: Seq<char>) -> Seq<ItemView> {
    stored.filter(|item: ItemView| !item.is_visible_to(viewer))
}

/// How an id that something invisible already has is answered. Naming the
/// owner would tell who keeps what.
pub open spec fn id_taken(id: Seq<char>) -> ErrorView {
    refusal(
        409,
        "derived_id_taken"@,
        "The derived id '"@ + id
            + "' is already used by an item you cannot see. Choose another id."@,
    )
}

/// How the first of the items whose id something invisible has is answered.
pub open spec fn clash(items: Seq<ItemView>, kept: Seq<ItemView>) -> Option<ErrorView>
    decreases items.len(),
{
    if items.len() == 0 {
        None
    } else {
        match clash(items.drop_last(), kept) {
            Some(error) => Some(error),
            None => if has_item(kept, items.last().id) {
                Some(id_taken(items.last().id))
            } else {
                None
            },
        }
    }
}

/// Whether a save deletes the item with this id: it was there to be seen, and
/// the save leaves it out.
pub open spec fn is_deleted(
    stored: Seq<ItemView>,
    incoming: Seq<ItemView>,
    viewer: Seq<char>,
    id: Seq<char>,
) -> bool {
    has_item(stored.filter(|item: ItemView| item.is_visible_to(viewer)), id) && !has_item(
        incoming,
        id,
    )
}

/// How deleting something that is still referred to is answered.
pub open spec fn still_used(dependency: Seq<char>, dependent: Seq<char>) -> ErrorView {
    refusal(
        409,
        "derived_item_in_use"@,
        "Cannot delete '"@ + dependency + "': the derived item '"@ + dependent
            + "' depends on it. Delete or change '"@ + dependent + "' first."@,
    )
}

/// The first of the names that a save deletes.
pub open spec fn first_deleted(
    names: Seq<Seq<char>>,
    stored: Seq<ItemView>,
    incoming: Seq<ItemView>,
    viewer: Seq<char>,
) -> Option<Seq<char>>
    decreases names.len(),
{
    if names.len() == 0 {
        None
    } else {
        match first_deleted(names.drop_last(), stored, incoming, viewer) {
            Some(name) => Some(name),
            None => if is_deleted(stored, incoming, viewer, names.last()) {
                Some(names.last())
            } else {
                None
            },
        }
    }
}

/// How the first of the items that refers to something deleted is answered.
/// What an item refers to is read from what is stored, where the deleted one
/// is still there.
pub open spec fn orphaned(
    items: Seq<ItemView>,
    stored: Seq<ItemView>,
    incoming: Seq<ItemView>,
    viewer: Seq<char>,
) -> Option<ErrorView>
    decreases items.len(),
{
    if items.len() == 0 {
        None
    } else {
        match orphaned(items.drop_last(), stored, incoming, viewer) {
            Some(error) => Some(error),
            None => match first_deleted(
                dependencies_of(stored, items.last().id),
                stored,
                incoming,
                viewer,
            ) {
                Some(name) => Some(still_used(name, items.last().id)),
                None => None,
            },
        }
    }
}

/// How a catalog that is no project is answered.
pub open spec fn no_project() -> ErrorView {
    refusal(
        409,
        "not_a_project"@,
        "This catalog is not a Ridal project. Run `ridal project init` in the directory you are serving, then restart."@,
    )
}

/// Refuses a catalog that keeps no documents because it is no project.
pub fn readable_project(has_project: bool) -> (verdict: Result<(), ApiError>)
    ensures
        match verdict {
            Ok(_) => has_project,
            Err(error) => !has_project && error@ == no_project(),
        },
{
    if has_project {
        Ok(())
    } else {
        Err(
            ApiError::conflict(
                "not_a_project",
                "This catalog is not a Ridal project. Run `ridal project init` in the directory you are serving, then restart.".to_owned(),
            ),
        )
    }
}

/// How a save is refused.
pub open spec fn save_refusal(
    caller: Caller,
    has_project: bool,
    incoming: Seq<ItemView>,
    stored: Seq<ItemView>,
) -> Option<ErrorView> {
    let viewer = caller.shown_name();
    let kept = preserved(stored, viewer);
    match items_refusal(caller, incoming) {
        Some(error) => Some(error),
        None => if !has_project {
            Some(no_project())
        } else {
            match clash(incoming, kept) {
                Some(error) => Some(error),
                None => orphaned(incoming + kept, stored, incoming, viewer),
            }
        },
    }
}

fn refuse_item(caller: &Caller, item: &DerivedItem) -> (verdict: Result<(), ApiError>)
    ensures
        match verdict {
            Ok(_) => item_refusal(*caller, item@) is None,
            Err(error) => item_refusal(*caller, item@) == Some(error@),
        },
{
    if item.audience == Audience::Released {
        match caller.require(Role::Admin, "release a cross-user derived result") {
            Ok(_) => {},
            Err(error) => {
                return Err(error);
            },
        }
    }
    match &item.scope {
        Scope::Project => caller.require(Role::Operator, "edit project-wide derived items"),
        Scope::Private(user) => match &caller.user {
            None => Err(
                ApiError::unauthorized(
                    "authentication_required",
                    "Sign in to save a private derived item.".to_owned(),
                ),
            ),
            Some(own) => if text::equal(own.as_str(), user.as_str()) {
                Ok(())
            } else {
                let mut message = "The private derived item '".to_owned();
                message.append(item.id.as_str());
                message.append("' belongs to '");
                message.append(user.as_str());
                message.append("'.");
                Err(ApiError::forbidden("not_your_item", message))
            },
        },
    }
}

proof fn lemma_first_refusal_stays(caller: Caller, items: Seq<ItemView>, n: int)
    requires
        0 <= n <= items.len(),
        items_refusal(caller, items.take(n)) is Some,
    ensures
        items_refusal(caller, items) == items_refusal(caller, items.take(n)),
    decreases items.len(),
{
    if n < items.len() {
        assert(items.drop_last().take(n) =~= items.take(n));
        lemma_first_refusal_stays(caller, items.drop_last(), n);
    } else {
        assert(items.take(n) =~= items);
    }
}

fn refuse_items(caller: &Caller, set: &DerivedSet) -> (verdict: Result<(), ApiError>)
    ensures
        match verdict {
            Ok(_) => items_refusal(*caller, set@) is None,
            Err(error) => items_refusal(*caller, set@) == Some(error@),
        },
{
    let ghost all = set@;
    let mut i: usize = 0;
    proof {
        assert(all.take(0) =~= Seq::empty());
    }
    while i < set.items.len()
        invariant
            i <= set.items.len(),
            all == set.items.deep_view(),
            items_refusal(*caller, all.take(i as int)) is None,
        decreases set.items.len() - i,
    {
        proof {
            assert(all.take(i + 1).drop_last() =~= all.take(i as int));
            assert(all.take(i + 1).last() == set.items[i as int]@);
        }
        match refuse_item(caller, &set.items[i]) {
            Ok(_) => {},
            Err(error) => {
                proof {
                    lemma_first_refusal_stays(*caller, all, i + 1);
                }
                return Err(error);
            },
        }
        i = i + 1;
    }
    assert(all.take(i as int) =~= all);
    Ok(())
}

fn keep_invisible(stored: &DerivedSet, viewer: &str) -> (kept: DerivedSet)
    ensures
        kept@ == preserved(stored@, viewer@),
{
    let ghost all = stored@;
    let ghost keep = |item: ItemView| !item.is_visible_to(viewer@);
    let mut items: Vec<DerivedItem> = Vec::new();
    let mut i: usize = 0;
    proof {
        lemma_filter_none(all, keep);
        assert(items.deep_view() =~= Seq::empty());
    }
    while i < stored.items.len()
        invariant
            i <= stored.items.len(),
            all == stored.items.deep_view(),
            keep == (|item: ItemView| !item.is_visible_to(viewer@)),
            items.deep_view() == all.take(i as int).filter(keep),
        decreases stored.items.len() - i,
    {
        proof {
            lemma_filter_step(all, i as int, keep);
            assert(all[i as int] == stored.items[i as int]@);
        }
        if !stored.items[i].visible_to(viewer) {
            let ghost so_far = items.deep_view();
            let item = stored.items[i].clone();
            items.push(item);
            assert(items.deep_view() =~= so_far.push(item@));
        }
        i = i + 1;
    }
    assert(all.take(i as int) =~= all);
    DerivedSet { items }
}

proof fn lemma_first_clash_stays(items: Seq<ItemView>, kept: Seq<ItemView>, n: int)
    requires
        0 <= n <= items.len(),
        clash(items.take(n), kept) is Some,
    ensures
        clash(items, kept) == clash(items.take(n), kept),
    decreases items.len(),
{
    if n < items.len() {
        assert(items.drop_last().take(n) =~= items.take(n));
        lemma_first_clash_stays(items.drop_last(), kept, n);
    } else {
        assert(items.take(n) =~= items);
    }
}

fn find_clash(set: &DerivedSet, kept: &DerivedSet) -> (found: Option<ApiError>)
    ensures
        found.deep_view() == clash(set@, kept@),
{
    let ghost all = set@;
    let mut i: usize = 0;
    proof {
        assert(all.take(0) =~= Seq::empty());
    }
    while i < set.items.len()
        invariant
            i <= set.items.len(),
            all == set.items.deep_view(),
            clash(all.take(i as int), kept@) is None,
        decreases set.items.len() - i,
    {
        proof {
            assert(all.take(i + 1).drop_last() =~= all.take(i as int));
            assert(all.take(i + 1).last() == set.items[i as int]@);
        }
        if kept.contains(set.items[i].id.as_str()) {
            let mut message = "The derived id '".to_owned();
            message.append(set.items[i].id.as_str());
            message.append("' is already used by an item you cannot see. Choose another id.");
            proof {
                lemma_first_clash_stays(all, kept@, i + 1);
            }
            return Some(ApiError::conflict("derived_id_taken", message));
        }
        i = i + 1;
    }
    assert(all.take(i as int) =~= all);
    None
}

fn deletes(stored: &DerivedSet, incoming: &DerivedSet, viewer: &str, id: &str) -> (deleted: bool)
    ensures
        deleted == is_deleted(stored@, incoming@, viewer@, id@),
{
    let visible = stored.visible_to(viewer);
    let ghost all = visible.deep_view();
    let mut seen = false;
    let mut i: usize = 0;
    while i < visible.len()
        invariant
            i <= visible.len(),
            all == visible.deep_view(),
            seen == exists|j: int| 0 <= j < i && (#[trigger] all[j]).id == id@,
        decreases visible.len() - i,
    {
        let item: &DerivedItem = visible[i];
        assert(all[i as int] == item@);
        if text::equal(item.id.as_str(), id) {
            seen = true;
        }
        i = i + 1;
    }
    seen && !incoming.contains(id)
}

proof fn lemma_first_deleted_stays(
    names: Seq<Seq<char>>,
    stored: Seq<ItemView>,
    incoming: Seq<ItemView>,
    viewer: Seq<char>,
    n: int,
)
    requires
        0 <= n <= names.len(),
        first_deleted(names.take(n), stored, incoming, viewer) is Some,
    ensures
        first_deleted(names, stored, incoming, viewer) == first_deleted(
            names.take(n),
            stored,
            incoming,
            viewer,
        ),
    decreases names.len(),
{
    if n < names.len() {
        assert(names.drop_last().take(n) =~= names.take(n));
        lemma_first_deleted_stays(names.drop_last(), stored, incoming, viewer, n);
    } else {
        assert(names.take(n) =~= names);
    }
}

fn find_deleted(names: &Vec<String>, stored: &DerivedSet, incoming: &DerivedSet, viewer: &str) -> (found:
    Option<String>)
    ensures
        found.deep_view() == first_deleted(names.deep_view(), stored@, incoming@, viewer@),
{
    let ghost all = names.deep_view();
    let mut i: usize = 0;
    proof {
        assert(all.take(0) =~= Seq::empty());
    }
    while i < names.len()
        invariant
            i <= names.len(),
            all == names.deep_view(),
            first_deleted(all.take(i as int), stored@, incoming@, viewer@) is None,
        decreases names.len() - i,
    {
        proof {
            assert(all.take(i + 1).drop_last() =~= all.take(i as int));
            assert(all.take(i + 1).last() == names[i as int]@);
        }
        if deletes(stored, incoming, viewer, names[i].as_str()) {
            proof {
                lemma_first_deleted_stays(all, stored@, incoming@, viewer@, i + 1);
            }
            return Some(names[i].clone());
        }
        i = i + 1;
    }
    assert(all.take(i as int) =~= all);
    None
}

proof fn lemma_first_orphan_stays(
    items: Seq<ItemView>,
    stored: Seq<ItemView>,
    incoming: Seq<ItemView>,
    viewer: Seq<char>,
    n: int,
)
    requires
        0 <= n <= items.len(),
        orphaned(items.take(n), stored, incoming, viewer) is Some,
    ensures
        orphaned(items, stored, incoming, viewer) == orphaned(
            items.take(n),
            stored,
            incoming,
            viewer,
        ),
    decreases items.len(),
{
    if n < items.len() {
        assert(items.drop_last().take(n) =~= items.take(n));
        lemma_first_orphan_stays(items.drop_last(), stored, incoming, viewer, n);
    } else {
        assert(items.take(n) =~= items);
    }
}

fn find_orphan(merged: &DerivedSet, stored: &DerivedSet, incoming: &DerivedSet, viewer: &str) -> (found:
    Option<ApiError>)
    ensures
        found.deep_view() == orphaned(merged@, stored@, incoming@, viewer@),
{
    let ghost all = merged@;
    let mut i: usize = 0;
    proof {
        assert(all.take(0) =~= Seq::empty());
    }
    while i < merged.items.len()
        invariant
            i <= merged.items.len(),
            all == merged.items.deep_view(),
            orphaned(all.take(i as int), stored@, incoming@, viewer@) is None,
        decreases merged.items.len() - i,
    {
        proof {
            assert(all.take(i + 1).drop_last() =~= all.take(i as int));
            assert(all.take(i + 1).last() == merged.items[i as int]@);
        }
        let dependent = merged.items[i].id.as_str();
        let names = stored.dependencies(dependent);
        if let Some(dependency) = find_deleted(&names, stored, incoming, viewer) {
            let mut message = "Cannot delete '".to_owned();
            message.append(dependency.as_str());
            message.append("': the derived item '");
            message.append(dependent);
            message.append("' depends on it. Delete or change '");
            message.append(dependent);
            message.append("' first.");
            proof {
                lemma_first_orphan_stays(all, stored@, incoming@, viewer@, i + 1);
            }
            return Some(ApiError::conflict("derived_item_in_use", message));
        }
        i = i + 1;
    }
    assert(all.take(i as int) =~= all);
    None
}

fn copy_items(set: &DerivedSet) -> (items: Vec<DerivedItem>)
    ensures
        items.deep_view() == set@,
{
    let items = set.items.clone();
    assert(items.deep_view() =~= set@);
    items
}

/// Takes a save of the derived items and gives what is to be stored: what was
/// sent, followed by what the caller cannot see, as it was. The editor sends
/// back what it was shown, so anything else would delete everybody else's.
pub fn put_derived(
    caller: &Caller,
    has_project: bool,
    incoming: DerivedSet,
    stored: &DerivedSet,
) -> (merged: Result<DerivedSet, ApiError>)
    ensures
        match merged {
            Ok(merged) => save_refusal(*caller, has_project, incoming@, stored@) is None && merged@
                == incoming@ + preserved(stored@, caller.shown_name()),
            Err(error) => save_refusal(*caller, has_project, incoming@, stored@) == Some(error@),
        },
{
    match refuse_items(caller, &incoming) {
        Ok(_) => {},
        Err(error) => {
            return Err(error);
        },
    }
    match readable_project(has_project) {
        Ok(_) => {},
        Err(error) => {
            return Err(error);
        },
    }
    let viewer = caller.display_name();
    let kept = keep_invisible(stored, viewer);
    if let Some(error) = find_clash(&incoming, &kept) {
        return Err(error);
    }
    let mut items = copy_items(&incoming);
    let ghost first = items.deep_view();
    let mut rest = kept.items;
    let ghost second = rest.deep_view();
    items.append(&mut rest);
    assert(items.deep_view() =~= first + second);
    let merged = DerivedSet { items };
    if let Some(error) = find_orphan(&merged, stored, &incoming, viewer) {
        return Err(error);
    }
    Ok(merged)
}

// ---------------------------------------------------------------------------
// What holds of every save
// ---------------------------------------------------------------------------

/// A save keeps every item the caller cannot see, exactly as it was.
pub proof fn a_save_keeps_what_its_author_cannot_see(
    caller: Caller,
    incoming: Seq<ItemView>,
    stored: Seq<ItemView>,
    item: ItemView,
)
    requires
        stored.contains(item),
        !item.is_visible_to(caller.shown_name()),
    ensures
        (incoming + preserved(stored, caller.shown_name())).contains(item),
{
    let keep = |item: ItemView| !item.is_visible_to(caller.shown_name());
    let kept = preserved(stored, caller.shown_name());
    let k = choose|k: int| 0 <= k < stored.len() && stored[k] == item;
    stored.lemma_filter_contains(keep, k);
    let i = choose|i: int| 0 <= i < kept.len() && kept[i] == item;
    assert((incoming + kept)[incoming.len() + i] == item);
}

/// What a save adds on its own account is only what the caller may save, and
/// only an admin releases a result across users.
pub proof fn a_save_holds_only_what_its_author_may_save(
    caller: Caller,
    incoming: Seq<ItemView>,
    i: int,
)
    requires
        items_refusal(caller, incoming) is None,
        0 <= i < incoming.len(),
    ensures
        item_refusal(caller, incoming[i]) is None,
        incoming[i].audience == Audience::Released ==> caller.allowed(Role::Admin),
        incoming[i].scope is Project ==> caller.allowed(Role::Operator),
        incoming[i].scope matches ScopeView::Private(user) ==> caller.user.deep_view() == Some(user),
    decreases incoming.len(),
{
    if i < incoming.len() - 1 {
        a_save_holds_only_what_its_author_may_save(caller, incoming.drop_last(), i);
    }
}

/// No accepted save takes an id away from something its author cannot see.
pub proof fn a_save_never_takes_an_invisible_id(
    incoming: Seq<ItemView>,
    kept: Seq<ItemView>,
    i: int,
)
    requires
        clash(incoming, kept) is None,
        0 <= i < incoming.len(),
    ensures
        !has_item(kept, incoming[i].id),
    decreases incoming.len(),
{
    if i < incoming.len() - 1 {
        a_save_never_takes_an_invisible_id(incoming.drop_last(), kept, i);
    }
}

/// No accepted save deletes something that an item which stays refers to,
/// whoever's that item is.
pub proof fn a_save_never_orphans_an_item(
    items: Seq<ItemView>,
    stored: Seq<ItemView>,
    incoming: Seq<ItemView>,
    viewer: Seq<char>,
    i: int,
    name: Seq<char>,
)
    requires
        orphaned(items, stored, incoming, viewer) is None,
        0 <= i < items.len(),
        dependencies_of(stored, items[i].id).contains(name),
    ensures
        !is_deleted(stored, incoming, viewer, name),
    decreases items.len(),
{
    if i < items.len() - 1 {
        a_save_never_orphans_an_item(items.drop_last(), stored, incoming, viewer, i, name);
    } else {
        lemma_none_deleted(dependencies_of(stored, items[i].id), stored, incoming, viewer, name);
    }
}

proof fn lemma_none_deleted(
    names: Seq<Seq<char>>,
    stored: Seq<ItemView>,
    incoming: Seq<ItemView>,
    viewer: Seq<char>,
    name: Seq<char>,
)
    requires
        first_deleted(names, stored, incoming, viewer) is None,
        names.contains(name),
    ensures
        !is_deleted(stored, incoming, viewer, name),
    decreases names.len(),
{
    let k = choose|k: int| 0 <= k < names.len() && names[k] == name;
    if k < names.len() - 1 {
        assert(names.drop_last()[k] == name);
        lemma_none_deleted(names.drop_last(), stored, incoming, viewer, name);
    }
}

/// Somebody who is not signed in is shown no private item.
pub proof fn the_anonymous_see_no_private_item(caller: Caller, item: ItemView)
    requires
        caller.user is None,
        item.scope matches ScopeView::Private(user) && is_slug(user),
    ensures
        !item.is_visible_to(caller.shown_name()),
{
    crate::auth::nobody_is_called_anonymous();
}

/// Before an item is released, a picker's result comes from their own picks
/// alone; releasing is what lets everybody's in.
pub proof fn only_releasing_shows_a_picker_the_others(caller: Caller, user: Seq<char>)
    requires
        caller.authentication_configured,
        !caller.allowed(Role::Operator),
        caller.user.deep_view() != Some(user),
    ensures
        !feeds(caller, Audience::OwnPicks, user),
        feeds(caller, Audience::Released, user),
{
}

/// An operator sees the result across users either way.
pub proof fn an_operator_sees_everybody(caller: Caller, audience: Audience, user: Seq<char>)
    requires
        caller.allowed(Role::Operator),
    ensures
        feeds(caller, audience, user),
{
}

} // verus!
