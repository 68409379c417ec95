//! What holds of every download of derived values.
use vstd::prelude::*;

use crate::derived::{Audience, ItemView};
use crate::derived_values::{
    csv_body, csv_row, csv_rows, preview_item, preview_items, result_for, EvaluatedView,
};
use crate::text::{decimal, joined};

verus! {

broadcast use vstd::string::group_string_axioms;

/// A line of six fields.
pub open spec fn line(fields: Seq<Seq<char>>) -> Seq<char> {
    joined(fields, ","@).push('\n')
}

/// What stands where a value does: the value itself, or nothing for a gap.
pub open spec fn shown_value(value: Option<Seq<char>>) -> Seq<char> {
    if value is Some {
        value->0
    } else {
        Seq::empty()
    }
}

/// Whether a text holds this part.
pub open spec fn holds(text: Seq<char>, part: Seq<char>) -> bool {
    exists|before: Seq<char>, after: Seq<char>| text == #[trigger] (before + part + after)
}

proof fn lemma_six(a: Seq<char>, b: Seq<char>, c: Seq<char>, d: Seq<char>, e: Seq<char>, f: Seq<char>)
    ensures
        joined(seq![a, b, c, d, e, f], ","@) == a + ","@ + b + ","@ + c + ","@ + d + ","@ + e
            + ","@ + f,
{
    assert(seq![a, b, c, d, e, f].drop_last() =~= seq![a, b, c, d, e]);
    assert(seq![a, b, c, d, e].drop_last() =~= seq![a, b, c, d]);
    assert(seq![a, b, c, d].drop_last() =~= seq![a, b, c]);
    assert(seq![a, b, c].drop_last() =~= seq![a, b]);
    assert(seq![a, b].drop_last() =~= seq![a]);
    assert(joined(seq![a], ","@) == a);
    assert(joined(seq![a, b], ","@) == a + ","@ + b);
    assert(joined(seq![a, b, c], ","@) == a + ","@ + b + ","@ + c);
    assert(joined(seq![a, b, c, d], ","@) == a + ","@ + b + ","@ + c + ","@ + d);
    assert(joined(seq![a, b, c, d, e], ","@) == a + ","@ + b + ","@ + c + ","@ + d + ","@ + e);
}

/// The row of a trace names the radargram, the item, the kind, the unit and the
/// trace, and ends in the value of that very trace: exactly its text where
/// there is one, and nothing in a gap.
pub proof fn a_row_ends_in_the_value_of_its_trace(
    radargram_id: Seq<char>,
    item: Seq<char>,
    result: EvaluatedView,
    trace: nat,
)
    requires
        trace < result.values.len(),
    ensures
        csv_row(radargram_id, item, result, trace) == line(
            seq![
                radargram_id,
                item,
                result.kind,
                result.unit,
                decimal(trace),
                shown_value(result.values[trace as int]),
            ],
        ),
        result.values[trace as int] is Some ==> exists|front: Seq<char>|
            csv_row(radargram_id, item, result, trace) == #[trigger] (front + ","@
                + result.values[trace as int]->0 + "\n"@),
        result.values[trace as int] is None ==> exists|front: Seq<char>|
            csv_row(radargram_id, item, result, trace) == #[trigger] (front + ","@ + "\n"@),
{
    reveal_strlit("\n");
    reveal_strlit("");
    let value = shown_value(result.values[trace as int]);
    lemma_six(radargram_id, item, result.kind, result.unit, decimal(trace), value);
    let front = radargram_id + ","@ + item + ","@ + result.kind + ","@ + result.unit + ","@
        + decimal(trace);
    let row = csv_row(radargram_id, item, result, trace);
    assert(row =~= line(
        seq![radargram_id, item, result.kind, result.unit, decimal(trace), value],
    ));
    if result.values[trace as int] is Some {
        assert(row =~= front + ","@ + result.values[trace as int]->0 + "\n"@);
    } else {
        assert(row =~= front + ","@ + "\n"@);
    }
}

/// The row of a trace depends on no other trace: two evaluations that agree on
/// one trace have the same row for it, and two that differ there do not.
pub proof fn a_row_depends_on_no_other_trace(
    radargram_id: Seq<char>,
    item: Seq<char>,
    one: EvaluatedView,
    other: EvaluatedView,
    trace: nat,
)
    requires
        one.kind == other.kind,
        one.unit == other.unit,
        trace < one.values.len(),
        trace < other.values.len(),
    ensures
        one.values[trace as int] == other.values[trace as int] ==> csv_row(
            radargram_id,
            item,
            one,
            trace,
        ) == csv_row(radargram_id, item, other, trace),
        shown_value(one.values[trace as int]) != shown_value(other.values[trace as int])
            ==> csv_row(radargram_id, item, one, trace) != csv_row(
            radargram_id,
            item,
            other,
            trace,
        ),
{
    reveal_strlit("\n");
    reveal_strlit("");
    let a = shown_value(one.values[trace as int]);
    let b = shown_value(other.values[trace as int]);
    let front = radargram_id + ","@ + item + ","@ + one.kind + ","@ + one.unit + ","@ + decimal(
        trace,
    ) + ","@;
    let x = csv_row(radargram_id, item, one, trace);
    let y = csv_row(radargram_id, item, other, trace);
    assert(x =~= front + a + "\n"@);
    assert(y =~= front + b + "\n"@);
    if x == y {
        assert(a.len() == b.len());
        assert(a =~= x.subrange(front.len() as int, (front.len() + a.len()) as int));
        assert(b =~= y.subrange(front.len() as int, (front.len() + b.len()) as int));
    }
}

/// The rows of an item are those of its traces one after another, from the
/// first.
pub proof fn the_rows_of_an_item_follow_its_traces(
    radargram_id: Seq<char>,
    item: Seq<char>,
    result: EvaluatedView,
    n: nat,
)
    requires
        n < result.values.len(),
    ensures
        csv_rows(radargram_id, item, result, 0) == Seq::<char>::empty(),
        csv_rows(radargram_id, item, result, (n + 1) as int) == csv_rows(radargram_id, item, result, n as int)
            + line(
            seq![
                radargram_id,
                item,
                result.kind,
                result.unit,
                decimal(n),
                shown_value(result.values[n as int]),
            ],
        ),
{
    a_row_ends_in_the_value_of_its_trace(radargram_id, item, result, n);
}

/// Every item adds the rows of all its traces behind those of the items before
/// it, from the evaluation for its own audience; one that was not evaluated
/// adds nothing.
pub proof fn an_item_adds_its_rows(
    radargram_id: Seq<char>,
    items: Seq<ItemView>,
    item: ItemView,
    own: Map<Seq<char>, EvaluatedView>,
    released: Map<Seq<char>, EvaluatedView>,
)
    ensures
        csv_body(radargram_id, Seq::empty(), own, released) == Seq::<char>::empty(),
        ({
            let results = if item.audience == Audience::Released {
                released
            } else {
                own
            };
            csv_body(radargram_id, items.push(item), own, released) == csv_body(
                radargram_id,
                items,
                own,
                released,
            ) + (if results.contains_key(item.id) {
                csv_rows(
                    radargram_id,
                    item.id,
                    results[item.id],
                    results[item.id].values.len() as int,
                )
            } else {
                Seq::<char>::empty()
            })
        }),
{
    let longer = items.push(item);
    assert(longer.drop_last() =~= items);
    assert(longer.last() == item);
    assert(csv_body(radargram_id, longer, own, released) =~= csv_body(
        radargram_id,
        items,
        own,
        released,
    ) + (match result_for(item, own, released) {
        Some(result) => csv_rows(radargram_id, item.id, result, result.values.len() as int),
        None => Seq::<char>::empty(),
    }));
}

proof fn lemma_row_among_rows(
    radargram_id: Seq<char>,
    item: Seq<char>,
    result: EvaluatedView,
    trace: nat,
    n: int,
) -> (around: (Seq<char>, Seq<char>))
    requires
        trace < n,
    ensures
        csv_rows(radargram_id, item, result, n) == around.0 + csv_row(
            radargram_id,
            item,
            result,
            trace,
        ) + around.1,
    decreases n,
{
    let row = csv_row(radargram_id, item, result, trace);
    let shorter = csv_rows(radargram_id, item, result, n - 1);
    if trace == n - 1 {
        assert(csv_rows(radargram_id, item, result, n) =~= shorter + row + Seq::<char>::empty());
        (shorter, Seq::empty())
    } else {
        let around = lemma_row_among_rows(radargram_id, item, result, trace, n - 1);
        let last = csv_row(radargram_id, item, result, (n - 1) as nat);
        assert(csv_rows(radargram_id, item, result, n) =~= around.0 + row + (around.1 + last));
        (around.0, around.1 + last)
    }
}

proof fn lemma_rows_among_all(
    radargram_id: Seq<char>,
    items: Seq<ItemView>,
    own: Map<Seq<char>, EvaluatedView>,
    released: Map<Seq<char>, EvaluatedView>,
    i: int,
) -> (around: (Seq<char>, Seq<char>))
    requires
        0 <= i < items.len(),
        result_for(items[i], own, released) is Some,
    ensures
        csv_body(radargram_id, items, own, released) == around.0 + csv_rows(
            radargram_id,
            items[i].id,
            result_for(items[i], own, released)->0,
            result_for(items[i], own, released)->0.values.len() as int,
        ) + around.1,
    decreases items.len(),
{
    let shorter = csv_body(radargram_id, items.drop_last(), own, released);
    let result = result_for(items[i], own, released)->0;
    let rows = csv_rows(radargram_id, items[i].id, result, result.values.len() as int);
    let whole = csv_body(radargram_id, items, own, released);
    if i == items.len() - 1 {
        assert(whole =~= shorter + rows + Seq::<char>::empty());
        (shorter, Seq::empty())
    } else {
        assert(items.drop_last()[i] == items[i]);
        let around = lemma_rows_among_all(radargram_id, items.drop_last(), own, released, i);
        match result_for(items.last(), own, released) {
            Some(last) => {
                let more = csv_rows(radargram_id, items.last().id, last, last.values.len() as int);
                assert(whole =~= around.0 + rows + (around.1 + more));
                (around.0, around.1 + more)
            },
            None => around,
        }
    }
}

/// Every trace of every item that a viewer may see has its row in the viewer's
/// download, with its own value, from the evaluation for the item's own
/// audience.
pub proof fn every_trace_has_its_row(
    radargram_id: Seq<char>,
    set: Seq<ItemView>,
    viewer: Seq<char>,
    own: Map<Seq<char>, EvaluatedView>,
    released: Map<Seq<char>, EvaluatedView>,
    i: int,
    trace: nat,
)
    requires
        0 <= i < set.len(),
        set[i].is_visible_to(viewer),
        ({
            let results = if set[i].audience == Audience::Released {
                released
            } else {
                own
            };
            results.contains_key(set[i].id) && trace < results[set[i].id].values.len()
        }),
    ensures
        ({
            let results = if set[i].audience == Audience::Released {
                released
            } else {
                own
            };
            let result = results[set[i].id];
            holds(
                csv_body(
                    radargram_id,
                    set.filter(|item: ItemView| item.is_visible_to(viewer)),
                    own,
                    released,
                ),
                line(
                    seq![
                        radargram_id,
                        set[i].id,
                        result.kind,
                        result.unit,
                        decimal(trace),
                        shown_value(result.values[trace as int]),
                    ],
                ),
            )
        }),
{
    let keep = |item: ItemView| item.is_visible_to(viewer);
    let kept = set.filter(keep);
    set.lemma_filter_contains(keep, i);
    let k = choose|k: int| 0 <= k < kept.len() && kept[k] == set[i];
    let result = result_for(set[i], own, released)->0;
    let outer = lemma_rows_among_all(radargram_id, kept, own, released, k);
    let inner = lemma_row_among_rows(
        radargram_id,
        set[i].id,
        result,
        trace,
        result.values.len() as int,
    );
    a_row_ends_in_the_value_of_its_trace(radargram_id, set[i].id, result, trace);
    let row = csv_row(radargram_id, set[i].id, result, trace);
    let body = csv_body(radargram_id, kept, own, released);
    assert(body =~= (outer.0 + inner.0) + row + (inner.1 + outer.1));
}

/// A download holds nothing of an item that the viewer may not see: with or
/// without such an item it is the same.
pub proof fn what_is_not_visible_adds_nothing(
    radargram_id: Seq<char>,
    set: Seq<ItemView>,
    hidden: ItemView,
    viewer: Seq<char>,
    own: Map<Seq<char>, EvaluatedView>,
    released: Map<Seq<char>, EvaluatedView>,
)
    requires
        hidden.scope is Private,
        hidden.scope->Private_0 != viewer,
    ensures
        csv_body(
            radargram_id,
            set.push(hidden).filter(|item: ItemView| item.is_visible_to(viewer)),
            own,
            released,
        ) == csv_body(
            radargram_id,
            set.filter(|item: ItemView| item.is_visible_to(viewer)),
            own,
            released,
        ),
{
    reveal_with_fuel(Seq::filter, 2);
    assert(set.push(hidden).drop_last() =~= set);
}

/// A preview evaluates exactly the expression and the unit of the request, over
/// the caller's own picks, behind every stored item of another id and in the
/// stored order.
pub proof fn a_preview_evaluates_the_request(
    stored: Seq<ItemView>,
    expression: Seq<char>,
    unit: Option<crate::derived::Unit>,
    references: Seq<Seq<char>>,
)
    ensures
        ({
            let items = preview_items(stored, preview_item(expression, unit, references));
            let last = items.last();
            &&& items.len() > 0
            &&& last.id == "preview"@
            &&& last.expression == expression
            &&& last.references == references
            &&& unit is Some ==> last.unit == unit->0
            &&& unit is None ==> last.unit == crate::derived::Unit::Meters
            &&& last.audience == Audience::OwnPicks
            &&& last.scope == crate::derived::ScopeView::Project
            &&& items.drop_last() == stored.filter(|item: ItemView| item.id != "preview"@)
            &&& forall|i: int|
                0 <= i < items.len() - 1 ==> (#[trigger] items[i]).id != "preview"@
                    && stored.contains(items[i])
            &&& forall|i: int|
                0 <= i < stored.len() && (#[trigger] stored[i]).id != "preview"@
                    ==> items.drop_last().contains(stored[i])
        }),
{
    let preview = preview_item(expression, unit, references);
    let items = preview_items(stored, preview);
    let keep = |item: ItemView| item.id != "preview"@;
    let kept = stored.filter(keep);
    assert(items.drop_last() =~= kept);
    assert forall|i: int| 0 <= i < items.len() - 1 implies (#[trigger] items[i]).id != "preview"@
        && stored.contains(items[i]) by {
        assert(items[i] == kept[i]);
        stored.lemma_filter_pred(keep, i);
        assert(kept.contains(kept[i]));
        stored.lemma_filter_contains_rev(keep, kept[i]);
    }
    assert forall|i: int|
        0 <= i < stored.len() && (#[trigger] stored[i]).id
            != "preview"@ implies items.drop_last().contains(stored[i]) by {
        stored.lemma_filter_contains(keep, i);
    }
}

} // verus!
