//! What a running server holds, where it finds radargrams, who may do what,
//! and which request goes where.
use ridal_server::api_error::ApiError;
use ridal_server::app_state::{
    confine, lookup_dataset, resolve_absolute_path, validate_radargram_id, AppState, KeyRequest,
    Lookup, OpenRadargram, SessionKey,
};
use ridal_server::auth::{AccessOptions, Caller, DownloadScope, Role};
use ridal_server::catalog::{Catalog, CatalogEntry, CatalogRoot};
use ridal_server::discovery::{discover_candidates, WalkedFile};
use ridal_server::identity::{RadargramId, UserId};
use ridal_server::launch::{discovered, url, LaunchOptions};
use ridal_server::overrides::{CatalogOverrides, RadargramOverride};
use ridal_server::paths::FilePath;
use ridal_server::roots::{served_roots, DeclaredRoot, Located, ProjectPlaces};
use ridal_server::routing::{endpoints, routes, Endpoint, Method, ENDPOINTS};
use ridal_server::selection::{Inspected, Inspection, RadargramMeta};
use ridal_server::text_map::TextMap;

const THEN: &str = "2025-06-01T12:00:00Z";

fn path(text: &str) -> FilePath {
    let mut parts: Vec<String> = Vec::new();
    if text.starts_with('/') {
        parts.push("/".to_string());
    }
    for part in text.split('/') {
        if !part.is_empty() {
            parts.push(part.to_string());
        }
    }
    FilePath { parts }
}

fn supported(id: &str, at: &str) -> Inspection {
    Inspection::Supported(RadargramMeta {
        radargram_id: RadargramId::new(id).unwrap(),
        processing_datetime: at.to_string(),
        display_name: None,
        group_name: None,
        group_id: None,
        shape: (50, 40),
    })
}

/// What is found in each root: for each the names and what they turn out to be.
fn catalog_of(roots: &[CatalogRoot], files: &[&[(&str, Inspection)]]) -> Catalog {
    let found = roots
        .iter()
        .zip(files)
        .enumerate()
        .map(|(i, (root, files))| {
            let walked: Vec<WalkedFile> = files
                .iter()
                .map(|(name, _)| WalkedFile {
                    path: if root.is_file { root.path.clone() } else { root.path.child(name) },
                    is_file: true,
                })
                .collect();
            discover_candidates(root, i, &walked)
                .into_iter()
                .map(|candidate| {
                    let (_, kind) = files
                        .iter()
                        .find(|(name, _)| *name == candidate.relative_path)
                        .unwrap();
                    let inspection = match kind {
                        Inspection::Supported(meta) => {
                            supported(meta.radargram_id.as_str(), &meta.processing_datetime)
                        }
                        Inspection::Unreadable(reason) => Inspection::Unreadable(reason.clone()),
                        _ => Inspection::Foreign,
                    };
                    Inspected { candidate, inspection }
                })
                .collect()
        })
        .collect();
    Catalog::discover_roots(roots, found, &CatalogOverrides::default())
}

fn data() -> Vec<CatalogRoot> {
    vec![CatalogRoot::single(path("/data"), false)]
}

fn opened(catalog: &Catalog, service: u64) -> Vec<Option<OpenRadargram>> {
    catalog
        .entries
        .iter()
        .map(|entry| Some(OpenRadargram { service, shape: entry.shape }))
        .collect()
}

fn serving(files: &[(&str, Inspection)]) -> AppState {
    let roots = data();
    let catalog = catalog_of(&roots, &[files]);
    let services = opened(&catalog, 1);
    AppState::build_with_project(roots, catalog, services, false, AccessOptions::default(), 1)
}

fn ids(state: &AppState) -> Vec<String> {
    state.catalog().catalog.entries.iter().map(|e| e.radargram_id.to_text()).collect()
}

#[test]
fn a_replaced_catalog_is_what_later_requests_see() {
    let mut state = serving(&[("a.nc", supported("first", THEN))]);
    assert_eq!(ids(&state), vec!["first"]);
    let catalog = catalog_of(
        &state.roots,
        &[&[("a.nc", supported("first", THEN)), ("b.nc", supported("second", THEN))]],
    );
    assert_eq!(catalog.entries.len(), 2, "the rediscovery found both");
    let services = state.catalog().open_radargrams();
    state.replace_catalog(catalog, services);
    assert_eq!(ids(&state), vec!["first", "second"]);
}

#[test]
fn one_snapshot_answers_for_both_the_entry_and_its_render_service() {
    let mut state = serving(&[("a.nc", supported("first", THEN))]);
    let before = state.catalog();
    assert!(before.catalog.find_entry("first").is_some());
    assert!(before.radargram("first").is_some());
    state.replace_catalog(Catalog::default(), TextMap::new());
    // The old snapshot still agrees with itself.
    assert!(before.catalog.find_entry("first").is_some());
    assert!(before.radargram("first").is_some());
    // And so does the new one.
    let after = state.catalog();
    assert!(after.catalog.find_entry("first").is_none());
    assert!(after.radargram("first").is_none());
}

#[test]
fn a_snapshot_taken_before_a_swap_stays_usable_after_it() {
    let mut state = serving(&[("a.nc", supported("first", THEN))]);
    let before = state.catalog();
    state.replace_catalog(Catalog::default(), TextMap::new());
    assert_eq!(before.catalog.entries.len(), 1, "the old snapshot is intact");
    assert!(state.catalog().catalog.entries.is_empty(), "the new one is empty");
}

#[test]
fn one_unreadable_file_does_not_break_the_whole_catalog_at_startup() {
    let state = serving(&[
        ("garbage.nc", Inspection::Unreadable("not a netcdf file".to_string())),
        ("good.nc", supported("still-works", THEN)),
    ]);
    let snapshot = state.catalog();
    assert_eq!(snapshot.catalog.entries.len(), 1);
    assert!(!snapshot.catalog.warnings.is_empty());
    assert!(snapshot.radargram("still-works").is_some());
}

#[test]
fn a_file_that_cannot_be_opened_is_served_but_not_rendered() {
    let roots = data();
    let catalog = catalog_of(
        &roots,
        &[&[("a.nc", supported("a", THEN)), ("b.nc", supported("b", THEN))]],
    );
    let services = vec![None, Some(OpenRadargram { service: 7, shape: (50, 40) })];
    let state =
        AppState::build_with_project(roots, catalog, services, false, AccessOptions::default(), 4);
    let snapshot = state.catalog();
    assert_eq!(snapshot.catalog.entries.len(), 2);
    assert!(snapshot.radargram("a").is_none());
    assert_eq!(snapshot.radargram("b").unwrap().service, 7);
    assert_eq!(snapshot.radargram("b").unwrap().shape, (50, 40));
    assert_eq!(state.render_permits, 4);
}

#[test]
fn there_is_always_a_render_permit() {
    let roots = data();
    let catalog = Catalog::default();
    let state =
        AppState::build_with_project(roots, catalog, vec![], false, AccessOptions::default(), 0);
    assert_eq!(state.render_permits, 1);
}

#[test]
fn rediscovery_reopens_only_what_changed() {
    let mut state =
        serving(&[("a.nc", supported("a", THEN)), ("b.nc", supported("b", THEN))]);
    let catalog = catalog_of(
        &state.roots,
        &[&[
            ("a.nc", supported("a", THEN)),
            ("b.nc", supported("b", "2026-01-01T00:00:00Z")),
            ("c.nc", supported("c", THEN)),
        ]],
    );
    assert_eq!(state.needs_opening(&catalog), vec![false, true, true]);
    let services = opened(&catalog, 2);
    state.rediscover(catalog, services);
    let snapshot = state.catalog();
    assert_eq!(snapshot.radargram("a").unwrap().service, 1, "the warm one is kept");
    assert_eq!(snapshot.radargram("b").unwrap().service, 2, "the stale one is not");
    assert_eq!(snapshot.radargram("c").unwrap().service, 2);

    // What is gone from disk is gone from both.
    let catalog = catalog_of(&state.roots, &[&[("c.nc", supported("c", THEN))]]);
    state.rediscover(catalog, vec![]);
    let snapshot = state.catalog();
    assert!(snapshot.radargram("a").is_none());
    assert_eq!(snapshot.radargram("c").unwrap().service, 2);
}

#[test]
fn closing_a_radargram_drops_its_service_and_nothing_else() {
    let mut state =
        serving(&[("a.nc", supported("a", THEN)), ("b.nc", supported("b", THEN))]);
    state.close_radargram("a");
    let snapshot = state.catalog();
    assert!(snapshot.radargram("a").is_none());
    assert!(snapshot.radargram("b").is_some());
    assert_eq!(snapshot.catalog.entries.len(), 2);
}

#[test]
fn an_edit_keeps_every_render_service() {
    let mut state = serving(&[("a.nc", supported("a", THEN))]);
    let mut stored = CatalogOverrides::default();
    let over = RadargramOverride { unlisted: true, ..Default::default() };
    stored.radargrams.insert(RadargramId::new("a").unwrap(), over);
    state.refresh_catalog(&stored);
    let snapshot = state.catalog();
    assert!(snapshot.catalog.entries[0].unlisted);
    assert_eq!(snapshot.radargram("a").unwrap().service, 1);
}

fn entry_at(state: &AppState, relative: &str, root: usize) -> CatalogEntry {
    let mut entry = state.catalog().catalog.entries[0].clone();
    entry.relative_path = relative.to_string();
    entry.root = root;
    entry
}

#[test]
fn a_path_that_goes_up_is_not_followed() {
    let state = serving(&[("a.nc", supported("a", THEN))]);
    let at = |relative: &str| state.absolute_path(&entry_at(&state, relative, 0));
    assert_eq!(at("x/a.nc"), Ok(Lookup::Below(path("/data/x/a.nc"))));
    assert_eq!(at("x//./a.nc"), Ok(Lookup::Below(path("/data/x/a.nc"))));
    for bad in ["../a.nc", "x/../../a.nc", "/etc/a.nc", "./a.nc", ".."] {
        assert_eq!(at(bad), Err(format!("path contains a disallowed component: {bad}")));
    }
    // Names that merely look like it are names.
    assert_eq!(at("..a/b.nc"), Ok(Lookup::Below(path("/data/..a/b.nc"))));
    assert_eq!(
        state.absolute_path(&entry_at(&state, "a.nc", 3)),
        Err("entry names root 3, which is not served".to_string())
    );
    let file = CatalogRoot::single(path("/data/one.nc"), true);
    let entry = entry_at(&state, "one.nc", 0);
    assert_eq!(resolve_absolute_path(&file, &entry), Ok(Lookup::Exact(path("/data/one.nc"))));
}

#[test]
fn a_link_out_of_the_root_is_refused() {
    let root = CatalogRoot::single(path("/data"), false);
    assert_eq!(confine(&root, path("/data/x/a.nc")), Ok(path("/data/x/a.nc")));
    assert_eq!(
        confine(&root, path("/data-old/a.nc")),
        Err("resolved path escapes catalog root: /data-old/a.nc".to_string())
    );
}

#[test]
fn a_radargram_is_looked_up_by_a_checked_id() {
    let state = serving(&[("a.nc", supported("route-test-a", THEN))]);
    let snapshot = state.catalog();
    let found = lookup_dataset(&snapshot.catalog, "route-test-a").unwrap();
    assert_eq!(found.radargram_id.as_str(), "route-test-a");
    let error = lookup_dataset(&snapshot.catalog, "does-not-exist").unwrap_err();
    assert_eq!((error.status, error.code), (404, "dataset_not_found"));
    assert_eq!(error.message, "No radargram with id 'does-not-exist'");
    let error = lookup_dataset(&snapshot.catalog, "Not-Valid").unwrap_err();
    assert_eq!((error.status, error.code), (400, "invalid_radargram_id"));
    assert!(validate_radargram_id("Not-Valid").is_err());
}

#[test]
fn a_session_key_is_loaded_once_and_a_failure_is_not_kept() {
    let mut state = serving(&[]);
    assert_eq!(
        state.session_key(),
        Err("this catalog is not a project, so it has no sessions".to_string())
    );
    state.has_project = true;
    assert_eq!(state.session_key(), Ok(KeyRequest::Load));
    assert_eq!(state.keep_session_key(Err("no".to_string())), Err("no".to_string()));
    assert_eq!(state.session_key(), Ok(KeyRequest::Load));
    let key = |text: &str| SessionKey { secret: text.to_string() };
    assert_eq!(state.keep_session_key(Ok(key("k"))), Ok(key("k")));
    assert_eq!(state.session_key(), Ok(KeyRequest::Known(key("k"))));
    assert_eq!(state.keep_session_key(Ok(key("other"))), Ok(key("k")));
}

fn located(text: &str, is_file: bool) -> Located {
    Located { path: path(text), is_file }
}

fn declared(text: &str, resolved: Option<&str>) -> DeclaredRoot {
    DeclaredRoot {
        declared: path(text),
        resolved: resolved.map(|found| located(found, false)),
    }
}

#[test]
fn a_radargram_from_an_external_root_says_it_is_not_in_the_project() {
    let project = ProjectPlaces {
        root: Some(path("/project")),
        radargram_roots: vec![
            declared("/project/radargrams", Some("/project/radargrams")),
            declared("/archive", Some("/archive")),
        ],
    };
    let (roots, skipped) = served_roots(&located("/project", false), &Some(project));
    assert!(skipped.is_empty());
    assert_eq!(roots.len(), 2, "the project's own directory is covered by the served tree");
    assert_eq!(roots[0].group_bases, vec![path("/project/radargrams")]);
    let catalog = catalog_of(
        &roots,
        &[&[("ours.nc", supported("ours", THEN))], &[("theirs.nc", supported("theirs", THEN))]],
    );
    let state =
        AppState::build_with_project(roots, catalog, vec![], true, AccessOptions::default(), 1);
    let snapshot = state.catalog();
    let in_project = |id: &str| state.is_writable(snapshot.catalog.find_entry(id).unwrap());
    assert!(in_project("ours"), "the project's own is writable");
    assert!(!in_project("theirs"), "the archive's is served and never written to");
}

#[test]
fn serving_one_file_inside_a_project_still_knows_it_is_the_project() {
    let project = ProjectPlaces {
        root: Some(path("/project")),
        radargram_roots: vec![declared("/project/radargrams", Some("/project/radargrams"))],
    };
    let (roots, _) =
        served_roots(&located("/project/radargrams/ours.nc", true), &Some(project));
    let catalog = catalog_of(
        &roots,
        &[
            &[("ours.nc", supported("ours", THEN))],
            &[("ours.nc", supported("ours", THEN)), ("theirs.nc", supported("theirs", THEN))],
        ],
    );
    assert_eq!(catalog.entries.len(), 2, "both are found");
    let state =
        AppState::build_with_project(roots, catalog, vec![], true, AccessOptions::default(), 1);
    for entry in &state.catalog().catalog.entries {
        assert!(state.is_writable(entry), "{} is in the project", entry.radargram_id.as_str());
    }
}

#[test]
fn a_declared_root_that_is_not_there_is_skipped_with_a_word() {
    let project = ProjectPlaces {
        root: Some(path("/project")),
        radargram_roots: vec![declared("/gone", None), declared("/link", Some("/project/x"))],
    };
    let (roots, skipped) = served_roots(&located("/project", false), &Some(project));
    assert_eq!(roots.len(), 1);
    assert_eq!(
        skipped,
        vec!["Warning: radargram root /gone does not exist and was skipped."]
    );
    let (roots, skipped) = served_roots(&located("/data", false), &None);
    assert_eq!(roots.len(), 1);
    assert!(!roots[0].writable, "without a project nothing is writable");
    assert!(skipped.is_empty());
}

fn account(role: Role, read_only: bool) -> Caller {
    Caller {
        user: Some(UserId::new("erik").unwrap()),
        role,
        download: DownloadScope::All,
        read_only,
        authentication_configured: true,
    }
}

fn anonymous(read_only: bool) -> Caller {
    Caller { user: None, ..account(Role::Viewer, read_only) }
}

#[test]
fn a_read_only_server_tells_an_anonymous_caller_the_truth() {
    let refused = anonymous(true).require(Role::Picker, "save picks").unwrap_err();
    assert_eq!((refused.status, refused.code), (403, "read_only"));
    assert!(anonymous(true).require(Role::Viewer, "read").is_ok());
    // Elsewhere signing in is what would help.
    let refused = anonymous(false).require(Role::Picker, "save picks").unwrap_err();
    assert_eq!((refused.status, refused.code), (401, "authentication_required"));
}

#[test]
fn a_read_only_server_caps_even_an_administrator() {
    let erik = account(Role::Admin, true);
    assert_eq!(erik.role, Role::Admin, "the account is unchanged");
    assert!(!erik.may(Role::Picker), "what they may do here is not");
    let refused = erik.require(Role::Picker, "save picks").unwrap_err();
    assert_eq!((refused.status, refused.code), (403, "read_only"));
    assert!(erik.require(Role::Viewer, "read").is_ok());
    assert!(account(Role::Admin, false).may(Role::Picker));
}

#[test]
fn each_role_and_scope_covers_the_lesser_ones() {
    let roles = [Role::Viewer, Role::Picker, Role::Operator, Role::Admin];
    let scopes = [
        DownloadScope::Nothing,
        DownloadScope::Results,
        DownloadScope::Picks,
        DownloadScope::Derived,
        DownloadScope::All,
    ];
    for (i, role) in roles.iter().enumerate() {
        for (j, other) in roles.iter().enumerate() {
            assert_eq!(role.includes(*other), i >= j);
            assert_eq!(account(*role, false).may(*other), i >= j);
        }
    }
    for (i, scope) in scopes.iter().enumerate() {
        for (j, other) in scopes.iter().enumerate() {
            assert_eq!(scope.includes(*other), i >= j);
        }
    }
    let names: Vec<&str> = roles.iter().map(|role| role.as_str()).collect();
    assert_eq!(names, vec!["viewer", "picker", "operator", "admin"]);
    let refused = account(Role::Picker, false).require(Role::Admin, "manage users").unwrap_err();
    assert_eq!(refused.code, "insufficient_role");
    assert_eq!(refused.message, "You need the admin role to manage users.");
}

#[test]
fn a_project_without_accounts_has_a_local_user() {
    let local = Caller::local(false);
    assert_eq!(local.display_name(), "default");
    assert!(local.may(Role::Operator) && !local.may(Role::Admin));
    assert!(local.may_download(DownloadScope::All));
    assert!(!Caller::local(true).may(Role::Picker));
    assert_eq!(anonymous(false).display_name(), "(anonymous)");
    assert!(UserId::new("(anonymous)").is_err(), "so nobody is called that");
    let access = AccessOptions::default();
    assert!(!access.read_only && access.allow_password_login && access.persist_sessions);
    let nothing = Caller { download: DownloadScope::Nothing, ..anonymous(false) };
    let refused = nothing.require_download(DownloadScope::Results, "results").unwrap_err();
    assert_eq!((refused.status, refused.code), (401, "authentication_required"));
}

#[test]
fn every_refusal_has_its_status() {
    let text = || "why".to_string();
    let statuses: Vec<u16> = [
        ApiError::bad_request("c", text()),
        ApiError::unauthorized("c", text()),
        ApiError::forbidden("c", text()),
        ApiError::not_found("c", text()),
        ApiError::conflict("c", text()),
        ApiError::precondition_failed("c", text()),
        ApiError::payload_too_large("c", text()),
        ApiError::internal("c", text()),
    ]
    .iter()
    .map(|error| {
        assert_eq!((error.code, error.message.as_str()), ("c", "why"));
        error.status
    })
    .collect();
    assert_eq!(statuses, vec![400, 401, 403, 404, 409, 412, 413, 500]);
}

#[test]
fn every_request_goes_to_one_place() {
    let list = routes();
    assert_eq!(list.len(), ENDPOINTS);
    for (i, a) in list.iter().enumerate() {
        assert!(a.path.starts_with('/'));
        for b in &list[i + 1..] {
            assert_ne!(a.endpoint, b.endpoint);
            assert!(a.method != b.method || a.path != b.path, "{:?} {:?}", a, b);
        }
    }
    assert_eq!(endpoints().len(), list.len());
    let at = |endpoint: Endpoint| (endpoint.method(), endpoint.path());
    assert_eq!(at(Endpoint::Health), (Method::Get, "/api/v1/health"));
    assert_eq!(at(Endpoint::UploadDataset), (Method::Post, "/api/v1/datasets"));
    assert_eq!(at(Endpoint::ListDatasets), (Method::Get, "/api/v1/datasets"));
    assert_eq!(
        at(Endpoint::RemoveDataset),
        (Method::Delete, "/api/v1/datasets/{radargram_id}")
    );
    assert_eq!(at(Endpoint::ListIgnored), (Method::Get, "/api/v1/catalog/ignored"));
    assert_eq!(at(Endpoint::PutDerived), (Method::Put, "/api/v1/derived"));
}

#[test]
fn what_is_static_is_served_as_what_it_is() {
    for route in routes() {
        let is_file = route.path.starts_with("/static/") || route.path == "/favicon.ico";
        assert_eq!(route.endpoint.asset().is_some(), is_file, "{}", route.path);
        if let Some(asset) = route.endpoint.asset() {
            let expected = match asset.file.rsplit('.').next().unwrap() {
                "js" => "text/javascript",
                "css" => "text/css",
                "png" => "image/png",
                "svg" => "image/svg+xml",
                other => panic!("{other}"),
            };
            assert_eq!(asset.content_type, expected);
        }
    }
    assert_eq!(Endpoint::LeafletJs.asset().unwrap().file, "vendor/leaflet.js");
    assert_eq!(Endpoint::Favicon.asset().unwrap().file, "images/logo.png");
}

#[test]
fn a_server_says_where_it_is() {
    let gui = LaunchOptions::gui();
    assert_eq!((gui.host.as_str(), gui.port, gui.open_browser), ("127.0.0.1", 0, true));
    let server = LaunchOptions::server("0.0.0.0".to_string(), 8080, false);
    assert_eq!((server.host.as_str(), server.port, server.open_browser), ("0.0.0.0", 8080, false));
    assert_eq!(discovered(12, "/data"), "Discovered 12 radargram(s) under /data");
    assert_eq!(url("127.0.0.1:8080"), "http://127.0.0.1:8080");
}
