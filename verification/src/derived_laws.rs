//! What holds of derived items: who sees them, what they are made of, and what
//! a save does to them.
use vstd::prelude::*;

use crate::auth::{Caller, DownloadScope, Role};
use crate::derived::{
    contributors_shown, dependencies_of, derived_refusal, feeds, has_item, item_with_id,
    Audience, ContributorView, DerivedError, ItemView,
};
use crate::derived_routes::{
    clash, first_deleted, is_deleted, item_refusal, items_refusal, listed, orphaned,
    preserved, save_refusal, used_by,
};
use crate::derived_values::{item_values_refusal, result_for, values_refusal};
use crate::identity::is_slug;

verus! {

broadcast use vstd::string::group_string_axioms;

proof fn lemma_kept<A>(row: Seq<A>, keep: spec_fn(A) -> bool, x: A)
    ensures
        row.filter(keep).contains(x) <==> row.contains(x) && keep(x),
{
    let kept = row.filter(keep);
    if kept.contains(x) {
        row.lemma_filter_contains_rev(keep, x);
        let i = choose|i: int| 0 <= i < kept.len() && kept[i] == x;
        row.lemma_filter_pred(keep, i);
    }
    if row.contains(x) && keep(x) {
        let k = choose|k: int| 0 <= k < row.len() && row[k] == x;
        row.lemma_filter_contains(keep, k);
    }
}

// ---------------------------------------------------------------------------
// Finding items
// ---------------------------------------------------------------------------

/// An id leads to the first item that has it, and to none where none has.
pub proof fn an_id_leads_to_the_first_item(items: Seq<ItemView>, id: Seq<char>)
    ensures
        item_with_id(items, id) is None <==> forall|i: int|
            0 <= i < items.len() ==> (#[trigger] items[i]).id != id,
        item_with_id(items, id) is Some ==> exists|i: int|
            0 <= i < items.len() && (#[trigger] items[i]).id == id && item_with_id(items, id)
                == Some(items[i]) && (forall|j: int| 0 <= j < i ==> (#[trigger] items[j]).id != id),
    decreases items.len(),
{
    if items.len() > 0 {
        let rest = items.drop_last();
        let last = items.len() - 1;
        an_id_leads_to_the_first_item(rest, id);
        assert(items.last() == items[last]);
        if item_with_id(rest, id) is Some {
            let i = choose|i: int|
                0 <= i < rest.len() && (#[trigger] rest[i]).id == id && item_with_id(rest, id)
                    == Some(rest[i]) && (forall|j: int|
                    0 <= j < i ==> (#[trigger] rest[j]).id != id);
            assert(items[i] == rest[i]);
            assert forall|j: int| 0 <= j < i implies (#[trigger] items[j]).id != id by {
                assert(rest[j] == items[j]);
            }
        } else {
            assert forall|j: int| 0 <= j < last implies (#[trigger] items[j]).id != id by {
                assert(rest[j] == items[j]);
            }
        }
    }
}

/// An item depends on exactly those names its expression mentions that items
/// have.
pub proof fn an_item_depends_on_what_it_mentions(items: Seq<ItemView>, i: int, name: Seq<char>)
    requires
        0 <= i < items.len(),
        forall|a: int, b: int|
            0 <= a < b < items.len() ==> (#[trigger] items[a]).id != (#[trigger] items[b]).id,
    ensures
        dependencies_of(items, items[i].id).contains(name) <==> items[i].references.contains(name)
            && exists|k: int| 0 <= k < items.len() && (#[trigger] items[k]).id == name,
{
    an_id_leads_to_the_first_item(items, items[i].id);
    assert(item_with_id(items, items[i].id) == Some(items[i]));
    lemma_kept(items[i].references, |name: Seq<char>| has_item(items, name), name);
}

/// An item is used exactly where some item mentions it.
pub proof fn what_is_mentioned_is_used(items: Seq<ItemView>, id: Seq<char>, i: int)
    requires
        0 <= i < items.len(),
        items[i].id == id,
        forall|a: int, b: int|
            0 <= a < b < items.len() ==> (#[trigger] items[a]).id != (#[trigger] items[b]).id,
    ensures
        used_by(items, id) > 0 <==> exists|k: int|
            0 <= k < items.len() && (#[trigger] items[k]).references.contains(id),
        used_by(items, id) <= items.len(),
{
    let keep = |item: ItemView| dependencies_of(items, item.id).contains(id);
    let kept = items.filter(keep);
    lemma_no_longer(items, keep);
    if kept.len() > 0 {
        assert(kept.contains(kept[0]));
        items.lemma_filter_pred(keep, 0);
        items.lemma_filter_contains_rev(keep, kept[0]);
        let k = choose|k: int| 0 <= k < items.len() && items[k] == kept[0];
        an_item_depends_on_what_it_mentions(items, k, id);
        assert(items[k].references.contains(id));
    }
    if exists|k: int| 0 <= k < items.len() && (#[trigger] items[k]).references.contains(id) {
        let k = choose|k: int|
            0 <= k < items.len() && (#[trigger] items[k]).references.contains(id);
        an_item_depends_on_what_it_mentions(items, k, id);
        assert(items[i].id == id);
        items.lemma_filter_contains(keep, k);
    }
}

proof fn lemma_no_longer<A>(row: Seq<A>, keep: spec_fn(A) -> bool)
    ensures
        row.filter(keep).len() <= row.len(),
    decreases row.len(),
{
    reveal_with_fuel(Seq::filter, 1);
    if row.len() > 0 {
        lemma_no_longer(row.drop_last(), keep);
    }
}

// ---------------------------------------------------------------------------
// Listing items
// ---------------------------------------------------------------------------

/// A listing has a row for each item that is the project's or the viewer's own,
/// in order, with the item itself, its kind or why it has none, and how many
/// depend on it; and no row for anybody else's.
pub proof fn a_listing_has_a_row_for_each_visible_item(
    items: Seq<ItemView>,
    kinds: Seq<Result<String, String>>,
    viewer: Seq<char>,
    n: int,
)
    requires
        0 <= n < items.len(),
    ensures
        ({
            let before = listed(items, kinds, viewer, n);
            let after = listed(items, kinds, viewer, n + 1);
            let seen = items[n].scope is Project || items[n].scope->Private_0 == viewer;
            &&& listed(items, kinds, viewer, 0).len() == 0
            &&& !seen ==> after == before
            &&& seen ==> {
                &&& after.drop_last() == before
                &&& after.len() == before.len() + 1
                &&& after.last().item == items[n]
                &&& kinds[n] is Ok ==> after.last().kind == kinds[n]->Ok_0@
                &&& kinds[n] is Err ==> after.last().kind == "error: "@ + kinds[n]->Err_0@
                &&& after.last().used_by == used_by(items, items[n].id)
            }
        }),
{
    let before = listed(items, kinds, viewer, n);
    let after = listed(items, kinds, viewer, n + 1);
    if items[n].is_visible_to(viewer) {
        assert(after.drop_last() =~= before);
    }
}

// ---------------------------------------------------------------------------
// Saving items
// ---------------------------------------------------------------------------

/// Whether a caller may save an item: one that is released only as an admin,
/// one of the project only as an operator, and a private one only as its owner.
pub open spec fn may_save(caller: Caller, item: ItemView) -> bool {
    &&& item.audience == Audience::Released ==> caller.allowed(Role::Admin)
    &&& item.scope is Project ==> caller.allowed(Role::Operator)
    &&& item.scope is Private ==> caller.user.deep_view() == Some(item.scope->Private_0)
}

/// An item is refused exactly where the caller may not save it; as a matter of
/// signing in where nobody is signed in and the server takes changes, and as
/// forbidden otherwise.
pub proof fn an_item_is_refused_to_whom_it_does_not_belong(caller: Caller, item: ItemView)
    ensures
        item_refusal(caller, item) is None <==> may_save(caller, item),
        !may_save(caller, item) ==> item_refusal(caller, item)->0.status == 401 || item_refusal(
            caller,
            item,
        )->0.status == 403,
        !may_save(caller, item) && caller.user is Some ==> item_refusal(caller, item)->0.status
            == 403,
        !may_save(caller, item) && caller.user is None && !caller.read_only ==> item_refusal(
            caller,
            item,
        )->0.status == 401,
{
}

proof fn lemma_all_allowed(caller: Caller, items: Seq<ItemView>)
    ensures
        items_refusal(caller, items) is None <==> forall|i: int|
            0 <= i < items.len() ==> may_save(caller, #[trigger] items[i]),
    decreases items.len(),
{
    if items.len() > 0 {
        let rest = items.drop_last();
        lemma_all_allowed(caller, rest);
        assert(items.last() == items[items.len() - 1]);
        if items_refusal(caller, rest) is None {
            assert forall|i: int| 0 <= i < rest.len() implies may_save(
                caller,
                #[trigger] items[i],
            ) by {
                assert(rest[i] == items[i]);
            }
        } else {
            let i = choose|i: int| 0 <= i < rest.len() && !may_save(caller, #[trigger] rest[i]);
            assert(items[i] == rest[i]);
        }
    }
}

proof fn lemma_no_clash(items: Seq<ItemView>, kept: Seq<ItemView>)
    ensures
        clash(items, kept) is None <==> forall|i: int|
            0 <= i < items.len() ==> !has_item(kept, (#[trigger] items[i]).id),
        clash(items, kept) is Some ==> clash(items, kept)->0.status == 409 && clash(items, kept)->0.code
            == "derived_id_taken"@,
    decreases items.len(),
{
    if items.len() > 0 {
        let rest = items.drop_last();
        lemma_no_clash(rest, kept);
        assert(items.last() == items[items.len() - 1]);
        if clash(rest, kept) is None {
            assert forall|i: int| 0 <= i < rest.len() implies !has_item(
                kept,
                (#[trigger] items[i]).id,
            ) by {
                assert(rest[i] == items[i]);
            }
        } else {
            let i = choose|i: int| 0 <= i < rest.len() && has_item(kept, (#[trigger] rest[i]).id);
            assert(items[i] == rest[i]);
        }
    }
}

proof fn lemma_first_deleted(
    names: Seq<Seq<char>>,
    stored: Seq<ItemView>,
    incoming: Seq<ItemView>,
    viewer: Seq<char>,
)
    ensures
        first_deleted(names, stored, incoming, viewer) is None <==> forall|i: int|
            0 <= i < names.len() ==> !is_deleted(stored, incoming, viewer, #[trigger] names[i]),
    decreases names.len(),
{
    if names.len() > 0 {
        let rest = names.drop_last();
        lemma_first_deleted(rest, stored, incoming, viewer);
        assert(names.last() == names[names.len() - 1]);
        if first_deleted(rest, stored, incoming, viewer) is None {
            assert forall|i: int| 0 <= i < rest.len() implies !is_deleted(
                stored,
                incoming,
                viewer,
                #[trigger] names[i],
            ) by {
                assert(rest[i] == names[i]);
            }
        } else {
            let i = choose|i: int|
                0 <= i < rest.len() && is_deleted(stored, incoming, viewer, #[trigger] rest[i]);
            assert(names[i] == rest[i]);
        }
    }
}

/// Whether an item leans on something that a save takes away.
pub open spec fn loses(
    item: ItemView,
    stored: Seq<ItemView>,
    incoming: Seq<ItemView>,
    viewer: Seq<char>,
) -> bool {
    exists|i: int|
        0 <= i < dependencies_of(stored, item.id).len() && is_deleted(
            stored,
            incoming,
            viewer,
            #[trigger] dependencies_of(stored, item.id)[i],
        )
}

proof fn lemma_none_orphaned(
    items: Seq<ItemView>,
    stored: Seq<ItemView>,
    incoming: Seq<ItemView>,
    viewer: Seq<char>,
)
    ensures
        orphaned(items, stored, incoming, viewer) is None <==> forall|i: int|
            0 <= i < items.len() ==> !loses(#[trigger] items[i], stored, incoming, viewer),
        orphaned(items, stored, incoming, viewer) is Some ==> orphaned(
            items,
            stored,
            incoming,
            viewer,
        )->0.status == 409 && orphaned(items, stored, incoming, viewer)->0.code
            == "derived_item_in_use"@,
    decreases items.len(),
{
    if items.len() > 0 {
        let rest = items.drop_last();
        lemma_none_orphaned(rest, stored, incoming, viewer);
        assert(items.last() == items[items.len() - 1]);
        lemma_first_deleted(dependencies_of(stored, items.last().id), stored, incoming, viewer);
        if orphaned(rest, stored, incoming, viewer) is None {
            assert forall|i: int| 0 <= i < rest.len() implies !loses(
                #[trigger] items[i],
                stored,
                incoming,
                viewer,
            ) by {
                assert(rest[i] == items[i]);
            }
        } else {
            let i = choose|i: int|
                0 <= i < rest.len() && loses(#[trigger] rest[i], stored, incoming, viewer);
            assert(items[i] == rest[i]);
        }
    }
}

/// A save goes through exactly where the caller may save each of the items,
/// there is a project, no id is one that an item out of sight has, and nothing
/// that stays leans on something that goes.
pub proof fn a_save_goes_through_exactly_where_it_may(
    caller: Caller,
    has_project: bool,
    incoming: Seq<ItemView>,
    stored: Seq<ItemView>,
)
    ensures
        ({
            let viewer = caller.shown_name();
            let kept = stored.filter(|item: ItemView| !item.is_visible_to(viewer));
            let refused = save_refusal(caller, has_project, incoming, stored);
            let allowed = forall|i: int|
                0 <= i < incoming.len() ==> may_save(caller, #[trigger] incoming[i]);
            let free = forall|i: int|
                0 <= i < incoming.len() ==> !has_item(kept, (#[trigger] incoming[i]).id);
            let whole = forall|i: int|
                0 <= i < (incoming + kept).len() ==> !loses(
                    #[trigger] (incoming + kept)[i],
                    stored,
                    incoming,
                    viewer,
                );
            &&& refused is None <==> allowed && has_project && free && whole
            &&& allowed && !has_project ==> refused->0.status == 409 && refused->0.code
                == "not_a_project"@
            &&& allowed && has_project && !free ==> refused->0.status == 409 && refused->0.code
                == "derived_id_taken"@
            &&& allowed && has_project && free && !whole ==> refused->0.status == 409
                && refused->0.code == "derived_item_in_use"@
        }),
{
    let viewer = caller.shown_name();
    let kept = preserved(stored, viewer);
    lemma_all_allowed(caller, incoming);
    lemma_no_clash(incoming, kept);
    lemma_none_orphaned(incoming + kept, stored, incoming, viewer);
}

/// What is stored after a save is what was sent, in order and unchanged, and
/// behind it what the caller could not see: nothing else, and nothing less.
pub proof fn a_save_stores_what_was_sent(
    caller: Caller,
    incoming: Seq<ItemView>,
    stored: Seq<ItemView>,
    item: ItemView,
)
    ensures
        ({
            let after = incoming + preserved(stored, caller.shown_name());
            let hidden = item.scope is Private && item.scope->Private_0 != caller.shown_name();
            &&& after.take(incoming.len() as int) == incoming
            &&& after.skip(incoming.len() as int).contains(item) <==> stored.contains(item)
                && hidden
        }),
{
    let kept = preserved(stored, caller.shown_name());
    let after = incoming + kept;
    assert(after.take(incoming.len() as int) =~= incoming);
    assert(after.skip(incoming.len() as int) =~= kept);
    lemma_kept(stored, |item: ItemView| !item.is_visible_to(caller.shown_name()), item);
}

/// Something is deleted by a save exactly where the caller could see it in what
/// was stored, and sent nothing of that id.
pub proof fn what_was_seen_and_not_sent_is_deleted(
    stored: Seq<ItemView>,
    incoming: Seq<ItemView>,
    viewer: Seq<char>,
    id: Seq<char>,
)
    ensures
        is_deleted(stored, incoming, viewer, id) <==> (exists|i: int|
            0 <= i < stored.len() && (#[trigger] stored[i]).id == id && (stored[i].scope is Project
                || stored[i].scope->Private_0 == viewer)) && forall|i: int|
            0 <= i < incoming.len() ==> (#[trigger] incoming[i]).id != id,
{
    let keep = |item: ItemView| item.is_visible_to(viewer);
    let seen = stored.filter(keep);
    if has_item(seen, id) {
        let j = choose|j: int| 0 <= j < seen.len() && (#[trigger] seen[j]).id == id;
        assert(seen.contains(seen[j]));
        lemma_kept(stored, keep, seen[j]);
        let i = choose|i: int| 0 <= i < stored.len() && stored[i] == seen[j];
        assert(stored[i].id == id);
    }
    if exists|i: int|
        0 <= i < stored.len() && (#[trigger] stored[i]).id == id && (stored[i].scope is Project
            || stored[i].scope->Private_0 == viewer) {
        let i = choose|i: int|
            0 <= i < stored.len() && (#[trigger] stored[i]).id == id && (stored[i].scope is Project
                || stored[i].scope->Private_0 == viewer);
        stored.lemma_filter_contains(keep, i);
        let j = choose|j: int| 0 <= j < seen.len() && seen[j] == stored[i];
        assert(seen[j].id == id);
    }
}

// ---------------------------------------------------------------------------
// Whose picks
// ---------------------------------------------------------------------------

/// Everybody's own picks feed what they evaluate; where nobody has to sign in,
/// and for an operator, everybody's do; and otherwise somebody else's do only
/// where the item was released.
pub proof fn whose_picks_feed_an_item(caller: Caller, audience: Audience, user: Seq<char>)
    ensures
        feeds(caller, audience, user) <==> caller.user.deep_view() == Some(user)
            || !caller.authentication_configured || caller.allowed(Role::Operator) || audience
            == Audience::Released,
{
}

/// Everybody is shown their own interpretation, marked as theirs; the others
/// only to whoever may see across users and download picks, marked as not
/// theirs.
pub proof fn who_is_shown_as_contributing(caller: Caller, users: Seq<Seq<char>>, user: Seq<char>)
    ensures
        ({
            let own = caller.user.deep_view() == Some(user);
            let across = (caller.allowed(Role::Operator) || !caller.authentication_configured)
                && caller.allowed_download(DownloadScope::Picks);
            &&& contributors_shown(caller, users).contains((ContributorView { user, own }))
                <==> users.contains(user) && (own || across)
            &&& !contributors_shown(caller, users).contains((ContributorView { user, own: !own }))
        }),
{
    let own = caller.user.deep_view() == Some(user);
    let keep = |user: Seq<char>|
        crate::derived::sees_contributors(caller) || caller.user.deep_view() == Some(user);
    let kept = users.filter(keep);
    let shown = contributors_shown(caller, users);
    lemma_kept(users, keep, user);
    if kept.contains(user) {
        let i = choose|i: int| 0 <= i < kept.len() && kept[i] == user;
        assert(shown[i] == (ContributorView { user, own }));
    }
    if shown.contains((ContributorView { user, own })) {
        let i = choose|i: int|
            0 <= i < shown.len() && shown[i] == (ContributorView { user, own });
        assert(kept[i] == user);
    }
    if shown.contains((ContributorView { user, own: !own })) {
        let i = choose|i: int|
            0 <= i < shown.len() && shown[i] == (ContributorView { user, own: !own });
        assert(kept[i] == user);
    }
}

// ---------------------------------------------------------------------------
// Values and errors
// ---------------------------------------------------------------------------

/// Values are given exactly to those who may download results, of something
/// that can be an id.
pub proof fn values_are_for_those_who_may_download(
    caller: Caller,
    what: Seq<char>,
    radargram_id: Seq<char>,
)
    ensures
        ({
            let refused = values_refusal(caller, what, radargram_id);
            let may = caller.allowed_download(DownloadScope::Results);
            &&& refused is None <==> may && is_slug(radargram_id)
            &&& !may && caller.user is None ==> refused->0.status == 401
            &&& !may && caller.user is Some ==> refused->0.status == 403
            &&& may && !is_slug(radargram_id) ==> refused->0.status == 400
        }),
{
}

/// The values of one item are given where values may be given at all, the item
/// is there, and it is the project's or the caller's own.
pub proof fn an_items_values_are_for_those_who_see_it(
    caller: Caller,
    radargram_id: Seq<char>,
    items: Seq<ItemView>,
    item_id: Seq<char>,
)
    ensures
        ({
            let refused = item_values_refusal(caller, radargram_id, items, item_id);
            let barred = values_refusal(caller, "derived results"@, radargram_id);
            let found = item_with_id(items, item_id);
            let seen = found is Some && (found->0.scope is Project || found->0.scope->Private_0
                == caller.shown_name());
            &&& refused is None <==> barred is None && seen
            &&& barred is Some ==> refused == barred
            &&& barred is None && found is None ==> refused->0.status == 404
            &&& barred is None && found is Some && !seen ==> refused->0.status == 403
        }),
{
}

/// An item's values are those that the evaluation for its audience has under
/// its own id, and none where it has none.
pub proof fn an_items_values_are_its_own<T>(
    item: ItemView,
    own: Map<Seq<char>, T>,
    released: Map<Seq<char>, T>,
)
    ensures
        item.audience == Audience::Released && released.contains_key(item.id) ==> result_for(
            item,
            own,
            released,
        ) == Some(released[item.id]),
        item.audience == Audience::OwnPicks && own.contains_key(item.id) ==> result_for(
            item,
            own,
            released,
        ) == Some(own[item.id]),
        item.audience == Audience::Released && !released.contains_key(item.id) ==> result_for(
            item,
            own,
            released,
        ) is None,
        item.audience == Audience::OwnPicks && !own.contains_key(item.id) ==> result_for(
            item,
            own,
            released,
        ) is None,
{
}

/// A lost race is told apart from a store that failed, and both from items that
/// are wrong.
pub proof fn errors_are_told_apart(error: DerivedError)
    ensures
        error is Conflict <==> derived_refusal(error).status == 412,
        error is Store <==> derived_refusal(error).status == 500,
        !(error is Conflict) && !(error is Store) <==> derived_refusal(error).status == 400,
        error is Conflict ==> derived_refusal(error).message == error->Conflict_0@,
        error is Store ==> derived_refusal(error).message == error->Store_0@,
        error is Cycle ==> derived_refusal(error).message == error->Cycle_0@,
        error is InvalidId ==> derived_refusal(error).message == error->InvalidId_0@,
        error is DuplicateId ==> derived_refusal(error).message == error->DuplicateId_0@,
        error is InvalidColor ==> derived_refusal(error).message == error->InvalidColor_0@,
        error is ReservedProperty ==> derived_refusal(error).message
            == error->ReservedProperty_0@,
        error is PropertyCollision ==> derived_refusal(error).message
            == error->PropertyCollision_0@,
        error is UnitMismatch ==> derived_refusal(error).message == error->UnitMismatch_0@,
        error is Malformed ==> derived_refusal(error).message == error->Malformed_0@,
        error is Derive ==> derived_refusal(error).message == error->Derive_0@,
{
}

proof fn lemma_same_kept(
    row: Seq<ItemView>,
    one: spec_fn(ItemView) -> bool,
    other: spec_fn(ItemView) -> bool,
)
    requires
        forall|i: int| 0 <= i < row.len() ==> one(#[trigger] row[i]) == other(row[i]),
    ensures
        row.filter(one) == row.filter(other),
    decreases row.len(),
{
    reveal_with_fuel(Seq::filter, 1);
    if row.len() > 0 {
        let rest = row.drop_last();
        assert forall|i: int| 0 <= i < rest.len() implies one(#[trigger] rest[i]) == other(
            rest[i],
        ) by {
            assert(rest[i] == row[i]);
        }
        lemma_same_kept(rest, one, other);
        assert(row.last() == row[row.len() - 1]);
    }
}

/// An item is used by as many items as mention it.
pub proof fn an_item_is_used_by_as_many_as_mention_it(items: Seq<ItemView>, k: int)
    requires
        0 <= k < items.len(),
        forall|a: int, b: int|
            0 <= a < b < items.len() ==> (#[trigger] items[a]).id != (#[trigger] items[b]).id,
    ensures
        used_by(items, items[k].id) == items.filter(
            |item: ItemView| item.references.contains(items[k].id),
        ).len(),
{
    let id = items[k].id;
    let depends = |item: ItemView| dependencies_of(items, item.id).contains(id);
    let mentions = |item: ItemView| item.references.contains(id);
    assert forall|i: int| 0 <= i < items.len() implies depends(#[trigger] items[i]) == mentions(
        items[i],
    ) by {
        an_item_depends_on_what_it_mentions(items, i, id);
        assert(items[k].id == id);
    }
    lemma_same_kept(items, depends, mentions);
}

} // verus!
