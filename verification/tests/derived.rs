//! Derived items: who may save them, and over whose picks they are shown.
use ridal_server::auth::{Caller, DownloadScope, Role};
use ridal_server::derived::{
    check_users, derived_error, evaluable_users, get_contributors, may_see_cross_user,
    visible_documents, Audience, DerivedError, DerivedItem, DerivedSet, EvaluableUsers, Scope,
    Unit,
};
use ridal_server::derived_routes::{get_derived, put_derived, readable_project};
use ridal_server::derived_values::{
    csv_disposition, derived_level2, download_derived, export_derived_points, exported_results,
    get_derived_item,
    points_spacing, preview_derived, require_values, spacing_in_metres, write_csv, DerivedPointsQuery,
    EvaluatedItem, OutputCrs, PointsFormat, PreviewBody, Spacing,
};
use ridal_server::identity::{RadargramId, UserId};
use ridal_server::text_map::TextMap;

const RADARGRAM: &str = "line-01";

fn account(name: &str, role: Role, download: DownloadScope) -> Caller {
    Caller {
        user: Some(UserId::new(name).unwrap()),
        role,
        download,
        read_only: false,
        authentication_configured: true,
    }
}

fn reader() -> Caller {
    Caller {
        user: None,
        role: Role::Viewer,
        download: DownloadScope::All,
        read_only: false,
        authentication_configured: true,
    }
}

fn item(id: &str, expression: &str, references: &[&str], scope: Scope) -> DerivedItem {
    DerivedItem {
        id: id.to_string(),
        name: id.to_string(),
        expression: expression.to_string(),
        unit: Unit::Meters,
        color: None,
        show: true,
        listed: true,
        fill_to: None,
        scope,
        audience: Audience::OwnPicks,
        references: references.iter().map(|name| name.to_string()).collect(),
        extra: TextMap::new(),
    }
}

fn consensus(id: &str) -> DerivedItem {
    item(id, "median(bed)", &["bed"], Scope::Project)
}

fn released(id: &str) -> DerivedItem {
    DerivedItem { audience: Audience::Released, ..consensus(id) }
}

fn private(id: &str, user: &str) -> DerivedItem {
    item(id, "median(bed)", &["bed"], Scope::Private(user.to_string()))
}

fn set(items: Vec<DerivedItem>) -> DerivedSet {
    DerivedSet { items }
}

fn ids(set: &DerivedSet) -> Vec<&str> {
    set.items.iter().map(|item| item.id.as_str()).collect()
}

/// The depth at a sample.
fn depth(sample: f64) -> f64 {
    sample * 0.02
}

/// What everybody picked, by user: one sample for the whole radargram.
type Picks<'a> = &'a [(&'a str, f64)];

fn users(picks: Picks) -> Vec<UserId> {
    picks.iter().map(|(name, _)| UserId::new(name).unwrap()).collect()
}

/// The median depth of what a caller's item is evaluated over.
fn median(caller: &Caller, audience: Audience, picks: Picks) -> f64 {
    let chosen = visible_documents(caller, audience, &users(picks));
    let mut samples: Vec<f64> = picks
        .iter()
        .filter(|(name, _)| chosen.iter().any(|user| user.as_str() == *name))
        .map(|(_, sample)| depth(*sample))
        .collect();
    samples.sort_by(|a, b| a.total_cmp(b));
    let n = samples.len();
    if n % 2 == 1 {
        samples[n / 2]
    } else {
        (samples[n / 2 - 1] + samples[n / 2]) / 2.0
    }
}

/// One item's value, as this caller sees it.
fn value(caller: &Caller, stored: &DerivedSet, id: &str, picks: Picks) -> f64 {
    let (_, found, audience) = get_derived_item(caller, RADARGRAM, stored, id).unwrap();
    assert_eq!(found.id, id);
    median(caller, audience, picks)
}

const PICKS: [(&str, f64); 2] = [("alice", 2.0), ("bob", 4.0)];

#[test]
fn an_operator_sees_the_consensus_where_a_picker_sees_their_own() {
    let op = account("op", Role::Operator, DownloadScope::Derived);
    let alice = account("alice", Role::Picker, DownloadScope::Derived);
    let stored =
        put_derived(&op, true, set(vec![consensus("bed_median")]), &set(vec![])).unwrap();
    let op_value = value(&op, &stored, "bed_median", &PICKS);
    assert!((op_value - depth(3.0)).abs() < 1e-6);
    let alice_value = value(&alice, &stored, "bed_median", &PICKS);
    assert!((alice_value - depth(2.0)).abs() < 1e-6);
    assert!(alice_value < op_value);
}

#[test]
fn a_picker_cannot_save_a_project_wide_item() {
    let alice = account("alice", Role::Picker, DownloadScope::Derived);
    let refused = put_derived(&alice, true, set(vec![consensus("shared")]), &set(vec![]));
    let error = refused.unwrap_err();
    assert_eq!((error.status, error.code), (403, "insufficient_role"));
}

#[test]
fn a_cycle_is_a_400_not_a_500() {
    let error = derived_error(DerivedError::Cycle("a → b → a".to_string()));
    assert_eq!((error.status, error.code), (400, "invalid_derived_items"));
    assert!(error.message.contains("a → b → a"));
}

#[test]
fn every_mistake_of_an_author_is_a_bad_request() {
    let text = || "why".to_string();
    for mistake in [
        DerivedError::InvalidId(text()),
        DerivedError::DuplicateId(text()),
        DerivedError::InvalidColor(text()),
        DerivedError::Malformed(text()),
        DerivedError::ReservedProperty(text()),
        DerivedError::PropertyCollision(text()),
        DerivedError::UnitMismatch(text()),
        DerivedError::Derive(text()),
    ] {
        let error = derived_error(mistake);
        assert_eq!((error.status, error.code), (400, "invalid_derived_items"));
        assert_eq!(error.message, "why");
    }
    let error = derived_error(DerivedError::Conflict(text()));
    assert_eq!((error.status, error.code), (412, "version_conflict"));
    let error = derived_error(DerivedError::Store(text()));
    assert_eq!((error.status, error.code), (500, "store_failed"));
}

#[test]
fn derived_results_need_the_derived_download_scope() {
    let alice = account("alice", Role::Picker, DownloadScope::Derived);
    let none = account("none", Role::Picker, DownloadScope::Nothing);
    assert!(download_derived(&alice, RADARGRAM, &set(vec![])).is_ok());
    let error = download_derived(&none, RADARGRAM, &set(vec![])).unwrap_err();
    assert_eq!(error.status, 403);
    let error = download_derived(&alice, "Line 1", &set(vec![])).unwrap_err();
    assert_eq!((error.status, error.code), (400, "invalid_radargram_id"));
    assert!(alice.may_download(DownloadScope::Picks));
}

#[test]
fn releasing_an_item_is_what_lets_a_picker_see_the_consensus() {
    let boss = account("boss", Role::Admin, DownloadScope::Derived);
    let alice = account("alice", Role::Picker, DownloadScope::Derived);
    let stored =
        put_derived(&boss, true, set(vec![consensus("bed_median")]), &set(vec![])).unwrap();
    let before = value(&alice, &stored, "bed_median", &PICKS);
    assert!((before - depth(2.0)).abs() < 1e-6);
    let stored = put_derived(&boss, true, set(vec![released("bed_median")]), &stored).unwrap();
    let after = value(&alice, &stored, "bed_median", &PICKS);
    assert!((after - depth(3.0)).abs() < 1e-6);
}

#[test]
fn an_operator_cannot_release_a_cross_user_result() {
    let op = account("op", Role::Operator, DownloadScope::Derived);
    let boss = account("boss", Role::Admin, DownloadScope::Derived);
    let refused = put_derived(&op, true, set(vec![released("bed_median")]), &set(vec![]));
    let error = refused.unwrap_err();
    assert_eq!(error.status, 403);
    assert!(error.message.contains("release a cross-user derived result"));
    let stored =
        put_derived(&op, true, set(vec![consensus("bed_median")]), &set(vec![])).unwrap();
    assert!(put_derived(&boss, true, set(vec![released("bed_median")]), &stored).is_ok());
}

fn evaluated(value: Option<f64>) -> EvaluatedItem {
    EvaluatedItem {
        kind: "layer".to_string(),
        unit: "meters".to_string(),
        values: vec![value.map(|v| format!("{v:.6}")), None],
    }
}

#[test]
fn a_mixed_download_keeps_each_item_to_its_own_pick_set() {
    let boss = account("boss", Role::Admin, DownloadScope::Derived);
    let alice = account("alice", Role::Picker, DownloadScope::Derived);
    let stored = put_derived(
        &boss,
        true,
        set(vec![consensus("mine"), released("ours")]),
        &set(vec![]),
    )
    .unwrap();
    let (id, audiences) = download_derived(&alice, RADARGRAM, &stored).unwrap();
    assert_eq!(audiences, vec![Audience::OwnPicks, Audience::Released]);

    // Every evaluation has a value for every item, as the evaluation of a
    // whole set does; what is written comes from the right one.
    let mut results: Vec<TextMap<String, EvaluatedItem>> = Vec::new();
    for audience in audiences {
        let value = median(&alice, audience, &PICKS);
        let mut map = TextMap::new();
        map.insert("mine".to_string(), evaluated(Some(value)));
        map.insert("ours".to_string(), evaluated(Some(value)));
        results.push(map);
    }
    let csv = write_csv(&id, &stored, alice.display_name(), &results[0], &results[1]);
    assert_eq!(
        csv,
        "radargram_id,item,kind,unit,trace,value\n\
         line-01,mine,layer,meters,0,0.040000\n\
         line-01,mine,layer,meters,1,\n\
         line-01,ours,layer,meters,0,0.060000\n\
         line-01,ours,layer,meters,1,\n"
    );
    assert_eq!(csv_disposition(&id), "attachment; filename=\"line-01-derived.csv\"");
}

#[test]
fn only_the_audiences_that_are_there_are_evaluated() {
    let alice = account("alice", Role::Picker, DownloadScope::Derived);
    let needed = |items: Vec<DerivedItem>| download_derived(&alice, RADARGRAM, &set(items)).unwrap().1;
    assert!(needed(vec![]).is_empty());
    assert_eq!(needed(vec![released("a")]), vec![Audience::Released]);
    assert_eq!(needed(vec![consensus("a")]), vec![Audience::OwnPicks]);
    // What she cannot see is not evaluated for her.
    assert!(needed(vec![private("a", "bob")]).is_empty());
    let csv = write_csv(
        &RadargramId::new(RADARGRAM).unwrap(),
        &set(vec![private("a", "bob"), consensus("b")]),
        "alice",
        &TextMap::new(),
        &TextMap::new(),
    );
    assert_eq!(csv, "radargram_id,item,kind,unit,trace,value\n");
}

#[test]
fn the_results_scope_releases_a_consensus_without_the_picks_behind_it() {
    let boss = account("boss", Role::Admin, DownloadScope::All);
    let alice = account("alice", Role::Picker, DownloadScope::Results);
    let bob = account("bob", Role::Picker, DownloadScope::Picks);
    let stored =
        put_derived(&boss, true, set(vec![released("bed_median")]), &set(vec![])).unwrap();
    let consensus = value(&alice, &stored, "bed_median", &PICKS);
    assert!((consensus - depth(3.0)).abs() < 1e-6);
    let refused = alice.require_download(DownloadScope::Picks, "raw picks").unwrap_err();
    assert_eq!(refused.status, 403);
    assert!(bob.require_download(DownloadScope::Picks, "raw picks").is_ok());
}

#[test]
fn the_contributor_route_respects_visibility() {
    let op = account("op", Role::Operator, DownloadScope::Derived);
    let alice = account("alice", Role::Picker, DownloadScope::Derived);
    let (others, shown) = get_contributors(&op, RADARGRAM, &users(&PICKS)).unwrap();
    assert!(others);
    assert_eq!(shown.len(), 2);
    let (others, shown) = get_contributors(&alice, RADARGRAM, &users(&PICKS)).unwrap();
    assert!(!others);
    assert_eq!(shown.len(), 1);
    assert_eq!(shown[0].user.as_str(), "alice");
    assert!(shown[0].own);
    let error = get_contributors(&alice, "Line 1", &users(&PICKS)).unwrap_err();
    assert_eq!(error.code, "invalid_radargram_id");
    assert!(get_contributors(&reader(), RADARGRAM, &users(&PICKS)).unwrap().1.is_empty());
}

#[test]
fn a_picker_cannot_ask_the_preview_route_for_a_cross_user_evaluation() {
    let alice = account("alice", Role::Picker, DownloadScope::Results);
    let op = account("op", Role::Operator, DownloadScope::All);
    let stored = set(vec![released("base"), consensus("preview")]);
    let ask = |caller: &Caller| {
        let body = PreviewBody { expression: "median(bed)".to_string(), unit: Some(Unit::Meters) };
        let (_, evaluated, audience) =
            preview_derived(caller, RADARGRAM, &stored, body, vec!["bed".to_string()]).unwrap();
        // The stored items are there to be referred to, and the expression
        // takes the place of anything that was called the same.
        assert_eq!(ids(&evaluated), vec!["base", "preview"]);
        assert_eq!(evaluated.items[1].expression, "median(bed)");
        assert_eq!(evaluated.items[1].audience, Audience::OwnPicks);
        median(caller, audience, &PICKS)
    };
    assert!((ask(&alice) - depth(2.0)).abs() < 1e-6);
    assert!((ask(&op) - depth(3.0)).abs() < 1e-6);
}

#[test]
fn a_preview_is_in_metres_unless_it_says_otherwise() {
    let alice = account("alice", Role::Picker, DownloadScope::Results);
    let unit = |unit: Option<Unit>| {
        let body = PreviewBody { expression: "bed".to_string(), unit };
        let (_, set, _) =
            preview_derived(&alice, RADARGRAM, &set(vec![]), body, vec![]).unwrap();
        set.items[0].unit
    };
    assert_eq!(unit(None), Unit::Meters);
    assert_eq!(unit(Some(Unit::Nanoseconds)), Unit::Nanoseconds);
    assert_eq!(Unit::Samples.as_str(), "samples");

    let nothing = account("alice", Role::Picker, DownloadScope::Nothing);
    let body = PreviewBody { expression: "bed".to_string(), unit: None };
    let refused = preview_derived(&nothing, RADARGRAM, &set(vec![]), body, vec![]);
    assert_eq!(refused.unwrap_err().code, "insufficient_download_scope");
}

#[test]
fn the_contributor_overlay_needs_the_picks_download_scope() {
    let picks: [(&str, f64); 2] = [("restricted", 2.0), ("bob", 4.0)];
    let restricted = account("restricted", Role::Operator, DownloadScope::Results);
    let op = account("op", Role::Operator, DownloadScope::Picks);
    let (others, shown) = get_contributors(&restricted, RADARGRAM, &users(&picks)).unwrap();
    assert!(!others);
    assert_eq!(shown.len(), 1);
    assert_eq!(shown[0].user.as_str(), "restricted");
    assert!(shown[0].own);
    let (others, shown) = get_contributors(&op, RADARGRAM, &users(&picks)).unwrap();
    assert!(others);
    assert_eq!(shown.len(), 2);
    assert!(!shown[0].own);
}

#[test]
fn saving_preserves_items_the_caller_cannot_see() {
    let alice = account("alice", Role::Picker, DownloadScope::All);
    let op = account("op", Role::Operator, DownloadScope::All);
    let stored =
        put_derived(&alice, true, set(vec![private("alice_only", "alice")]), &set(vec![]))
            .unwrap();
    let kinds = vec![Ok("layer".to_string())];
    assert!(get_derived(&op, &stored, &kinds).items.is_empty());
    let stored = put_derived(&op, true, set(vec![consensus("shared")]), &stored).unwrap();
    assert_eq!(ids(&stored), vec!["shared", "alice_only"]);

    let kinds = vec![Ok("layer".to_string()), Err("no such layer".to_string())];
    let listing = get_derived(&alice, &stored, &kinds);
    let seen: Vec<&str> = listing.items.iter().map(|entry| entry.item.id.as_str()).collect();
    assert_eq!(seen, vec!["shared", "alice_only"]);
    assert_eq!(listing.items[0].kind, "layer");
    assert_eq!(listing.items[1].kind, "error: no such layer");
    assert!(!listing.can_author && !listing.can_release);
    let listing = get_derived(&op, &stored, &kinds);
    assert!(listing.can_author && !listing.can_release);
}

#[test]
fn an_id_taken_by_an_invisible_item_is_refused() {
    let op = account("op", Role::Operator, DownloadScope::All);
    let stored = set(vec![private("shared_name", "alice")]);
    let error =
        put_derived(&op, true, set(vec![consensus("shared_name")]), &stored).unwrap_err();
    assert_eq!((error.status, error.code), (409, "derived_id_taken"));
    assert!(!error.message.contains("alice"), "the refusal must not name the owner");
    assert!(error.message.contains("shared_name"));
}

#[test]
fn deleting_an_item_another_depends_on_is_refused() {
    let op = account("op", Role::Operator, DownloadScope::All);
    let base = || consensus("base");
    let dependent = || item("dependent", "median(base) + 1.0", &["base"], Scope::Project);
    let stored =
        put_derived(&op, true, set(vec![base(), dependent()]), &set(vec![])).unwrap();
    assert_eq!(stored.dependencies("dependent"), vec!["base"]);
    assert!(stored.dependencies("base").is_empty(), "a layer is no item");
    assert!(stored.dependencies("missing").is_empty());

    let error = put_derived(&op, true, set(vec![dependent()]), &stored).unwrap_err();
    assert_eq!((error.status, error.code), (409, "derived_item_in_use"));
    assert_eq!(
        error.message,
        "Cannot delete 'base': the derived item 'dependent' depends on it. Delete or change \
         'dependent' first."
    );
    // Deleting both together is fine.
    let both = put_derived(&op, true, set(vec![]), &stored).unwrap();
    assert!(both.items.is_empty());

    // The dependent may be somebody's private item.
    let hidden = item("hers", "base", &["base"], Scope::Private("alice".to_string()));
    let stored = set(vec![base(), hidden]);
    let error = put_derived(&op, true, set(vec![]), &stored).unwrap_err();
    assert_eq!(error.code, "derived_item_in_use");
    let kinds = vec![Ok("layer".to_string()), Ok("layer".to_string())];
    let listing = get_derived(&op, &stored, &kinds);
    assert_eq!(listing.items.len(), 1);
    assert_eq!(listing.items[0].used_by, 1, "counted though it cannot be seen");
}

#[test]
fn a_private_item_belongs_to_one_user() {
    let alice = account("alice", Role::Picker, DownloadScope::All);
    let boss = account("boss", Role::Admin, DownloadScope::All);
    let hers = || set(vec![private("p", "alice")]);
    assert!(put_derived(&alice, true, hers(), &set(vec![])).is_ok());
    let error = put_derived(&boss, true, hers(), &set(vec![])).unwrap_err();
    assert_eq!((error.status, error.code), (403, "not_your_item"));
    assert_eq!(error.message, "The private derived item 'p' belongs to 'alice'.");
    let error = put_derived(&reader(), true, hers(), &set(vec![])).unwrap_err();
    assert_eq!((error.status, error.code), (401, "authentication_required"));

    let stored = hers();
    assert!(get_derived_item(&alice, RADARGRAM, &stored, "p").is_ok());
    let error = get_derived_item(&boss, RADARGRAM, &stored, "p").unwrap_err();
    assert_eq!((error.status, error.code), (403, "not_your_item"));
    assert!(get_derived_item(&reader(), RADARGRAM, &stored, "p").is_err());
    let error = get_derived_item(&alice, RADARGRAM, &stored, "q").unwrap_err();
    assert_eq!((error.status, error.code), (404, "derived_item_not_found"));
}

#[test]
fn nothing_is_saved_to_a_catalog_that_is_no_project() {
    let op = account("op", Role::Operator, DownloadScope::All);
    let error = put_derived(&op, false, set(vec![]), &set(vec![])).unwrap_err();
    assert_eq!((error.status, error.code), (409, "not_a_project"));
    assert!(readable_project(true).is_ok());
    assert_eq!(readable_project(false).unwrap_err(), error);
}

#[test]
fn one_unreadable_filename_does_not_hide_the_readable_ones() {
    let op = account("op", Role::Operator, DownloadScope::All);
    let stems = vec!["NotAUserId".to_string(), "op".to_string()];
    let (users, unreadable) = check_users(&stems);
    assert_eq!(unreadable, vec!["NotAUserId"]);
    let (_, shown) = get_contributors(&op, RADARGRAM, &users).unwrap();
    assert_eq!(shown.len(), 1, "the good pick survives");
    assert_eq!(shown[0].user.as_str(), "op");
    // The consensus is still computed, over the readable picks.
    assert!((median(&op, Audience::OwnPicks, &[("op", 2.0)]) - depth(2.0)).abs() < 1e-6);
}

#[test]
fn derived_points_are_wide_and_skip_unlisted_layers_by_default() {
    let hidden = DerivedItem { listed: false, ..consensus("hidden_a") };
    let count = item("count_a", "count(bed)", &["bed"], Scope::Project);
    let stored = set(vec![consensus("line_a"), count, hidden, private("hers", "alice")]);
    let exported = |unlisted: bool| {
        let (items, audiences) = export_derived_points(&stored, "op", unlisted);
        assert_eq!(audiences, vec![Audience::OwnPicks]);
        items.iter().map(|item| item.id.clone()).collect::<Vec<String>>()
    };
    assert_eq!(exported(false), vec!["line_a", "count_a"]);
    assert_eq!(exported(true), vec!["line_a", "count_a", "hidden_a"]);
}

/// One item's value in an export of points, as this caller gets it.
fn exported_value(caller: &Caller, stored: &DerivedSet, id: &str, picks: Picks) -> Option<f64> {
    let (items, audiences) = export_derived_points(stored, caller.display_name(), false);
    let mut own = TextMap::new();
    let mut released = TextMap::new();
    for audience in audiences {
        let mut results = TextMap::new();
        for item in &stored.items {
            results.insert(item.id.clone(), median(caller, audience, picks));
        }
        match audience {
            Audience::OwnPicks => own = results,
            Audience::Released => released = results,
        }
    }
    let results = exported_results(&items, &own, &released);
    let at = items.iter().position(|item| item.id == id)?;
    results[at].copied()
}

#[test]
fn exported_points_are_over_what_each_items_audience_permits() {
    let alice = account("alice", Role::Picker, DownloadScope::All);
    let op = account("op", Role::Operator, DownloadScope::All);
    let hidden = DerivedItem { listed: false, ..released("hidden") };
    let stored = set(vec![consensus("mine"), released("ours"), hidden]);
    let (items, audiences) = export_derived_points(&stored, "alice", false);
    assert_eq!(items.len(), 2);
    assert_eq!(audiences, vec![Audience::OwnPicks, Audience::Released]);

    // A picker: their own pick, and everybody's where an admin released it.
    assert_eq!(exported_value(&alice, &stored, "mine", &PICKS), Some(depth(2.0)));
    assert_eq!(exported_value(&alice, &stored, "ours", &PICKS), Some(depth(3.0)));
    // An operator: everybody's either way.
    assert_eq!(exported_value(&op, &stored, "mine", &PICKS), Some(depth(3.0)));
    assert_eq!(exported_value(&op, &stored, "ours", &PICKS), Some(depth(3.0)));
    // What one item is exported as is what it is shown as.
    for caller in [&alice, &op] {
        for id in ["mine", "ours"] {
            assert_eq!(
                exported_value(caller, &stored, id, &PICKS),
                Some(value(caller, &stored, id, &PICKS))
            );
        }
    }

    // Only what is exported is evaluated.
    let stored = set(vec![consensus("mine"), DerivedItem { listed: false, ..released("ours") }]);
    assert_eq!(export_derived_points(&stored, "alice", false).1, vec![Audience::OwnPicks]);
    let stored = set(vec![released("ours"), private("hers", "bob")]);
    assert_eq!(export_derived_points(&stored, "alice", true).1, vec![Audience::Released]);
    assert!(export_derived_points(&set(vec![]), "alice", true).1.is_empty());
}

#[test]
fn a_save_keeps_whatever_else_an_item_says() {
    let op = account("op", Role::Operator, DownloadScope::All);
    let mut hers = private("alice_only", "alice");
    hers.extra.insert("dash".to_string(), "[4,2]".to_string());
    let mut shared = consensus("shared");
    shared.extra.insert("note".to_string(), "\"first\"".to_string());
    let stored = put_derived(&op, true, set(vec![shared.clone()]), &set(vec![hers])).unwrap();
    assert_eq!(ids(&stored), vec!["shared", "alice_only"]);
    assert_eq!(stored.items[0], shared);
    assert_eq!(stored.items[1].extra.get("dash"), Some(&"[4,2]".to_string()));
    assert_eq!(stored.items[1].extra.len(), 1);

    let body = PreviewBody { expression: "shared".to_string(), unit: None };
    let (_, previewed, _) =
        preview_derived(&op, RADARGRAM, &stored, body, vec!["shared".to_string()]).unwrap();
    assert_eq!(previewed.items[0], shared);
    assert_eq!(previewed.items[2].extra.len(), 0);
}

#[test]
fn values_are_refused_before_anything_is_read() {
    let nothing = account("alice", Role::Picker, DownloadScope::Nothing);
    let error = require_values(&nothing, "derived results", RADARGRAM).unwrap_err();
    assert_eq!(error.code, "insufficient_download_scope");
    let alice = account("alice", Role::Picker, DownloadScope::Results);
    let error = require_values(&alice, "derived results", "No Id").unwrap_err();
    assert_eq!((error.status, error.code), (400, "invalid_radargram_id"));
    assert_eq!(require_values(&alice, "derived results", RADARGRAM).unwrap().as_str(), RADARGRAM);
}

#[test]
fn derived_points_are_asked_for_in_two_formats() {
    let op = account("op", Role::Operator, DownloadScope::All);
    let ask = |format: Option<&str>, crs: Option<&str>| {
        let query = DerivedPointsQuery {
            spacing: None,
            format: format.map(|f| f.to_string()),
            crs: crs.map(|c| c.to_string()),
            include_unlisted: true,
        };
        derived_level2(&op, RADARGRAM, &query).unwrap()
    };
    let plan = ask(Some("csv"), None);
    assert_eq!(plan.format, PointsFormat::Csv);
    assert_eq!(plan.content_type, "text/csv; charset=utf-8");
    assert_eq!(
        plan.disposition,
        "attachment; filename=\"line-01-derived-layer-points.csv\""
    );
    assert_eq!(plan.spacing, "auto");
    assert!(plan.include_unlisted);
    let plan = ask(None, None);
    assert_eq!(plan.format, PointsFormat::GeoJson(OutputCrs::Wgs84));
    assert_eq!(plan.content_type, "application/geo+json");
    assert_eq!(
        plan.disposition,
        "attachment; filename=\"line-01-derived-layer-points.geojson\""
    );
    assert_eq!(ask(Some("CSV"), Some("")).format, PointsFormat::GeoJson(OutputCrs::Wgs84));
    assert_eq!(
        ask(None, Some("EPSG:32633")).format,
        PointsFormat::GeoJson(OutputCrs::Named("EPSG:32633".to_string()))
    );
}

#[test]
fn a_drawn_lines_vertices_mean_every_trace() {
    let five = Spacing::ArcLength(5.0f64.to_bits());
    assert_eq!(points_spacing(Spacing::Vertices), Spacing::PerTrace);
    assert_eq!(points_spacing(five), five);
    assert_eq!(points_spacing(Spacing::Auto), Spacing::Auto);
    let auto = 2.5f64.to_bits();
    assert_eq!(spacing_in_metres(five, auto), Some(5.0f64.to_bits()));
    assert_eq!(spacing_in_metres(Spacing::Auto, auto), Some(auto));
    assert_eq!(spacing_in_metres(Spacing::PerTrace, auto), None);
}

#[test]
fn whose_picks_depends_on_role_release_and_accounts() {
    let alice = account("alice", Role::Picker, DownloadScope::All);
    let op = account("op", Role::Operator, DownloadScope::All);
    assert_eq!(
        evaluable_users(&alice, Audience::OwnPicks),
        EvaluableUsers::Only(Some(UserId::new("alice").unwrap()))
    );
    assert_eq!(evaluable_users(&alice, Audience::Released), EvaluableUsers::All);
    assert_eq!(evaluable_users(&op, Audience::OwnPicks), EvaluableUsers::All);
    assert_eq!(evaluable_users(&reader(), Audience::OwnPicks), EvaluableUsers::Only(None));
    assert!(visible_documents(&reader(), Audience::OwnPicks, &users(&PICKS)).is_empty());
    // Without accounts everybody sees everything.
    let open = Caller { authentication_configured: false, ..reader() };
    assert!(may_see_cross_user(&open));
    assert_eq!(visible_documents(&open, Audience::OwnPicks, &users(&PICKS)).len(), 2);
}
