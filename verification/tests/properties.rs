//! What a project says over its files, and what callers are shown of it.
use ridal_server::app_state::AppState;
use ridal_server::auth::{AccessOptions, Caller, DownloadScope, Role};
use ridal_server::catalog::{Catalog, CatalogRoot};
use ridal_server::discovery::{discover_candidates, WalkedFile};
use ridal_server::elevation::Elevation;
use ridal_server::identity::{RadargramId, UserId};
use ridal_server::listing::{shown_entries, shown_warnings};
use ridal_server::merge_scope::MergeScope;
use ridal_server::overrides::{CatalogOverrides, IgnoredRadargram, RadargramOverride};
use ridal_server::paths::FilePath;
use ridal_server::properties::{
    apply, apply_group, get_group_properties, get_properties, group_for, put_group_properties,
    put_properties, resolve_grouping, GroupProperties, GroupPropertiesBody, Grouping, Properties,
    PropertiesBody,
};
use ridal_server::selection::{Inspected, Inspection, RadargramMeta};

fn account(name: &str, role: Role) -> Caller {
    Caller {
        user: Some(UserId::new(name).unwrap()),
        role,
        download: DownloadScope::All,
        read_only: false,
        authentication_configured: true,
    }
}

fn erik() -> Caller {
    account("erik", Role::Operator)
}

fn student() -> Caller {
    account("student", Role::Picker)
}

fn metres(value: f64) -> Option<Elevation> {
    Some(Elevation { bits: value.to_bits() })
}

/// A project with `line-01` and the unlisted `line-02`.
struct Project {
    state: AppState,
    overrides: CatalogOverrides,
}

fn file(parts: &[&str]) -> FilePath {
    FilePath { parts: parts.iter().map(|part| part.to_string()).collect() }
}

fn discover(files: &[(&str, &str)], overrides: &CatalogOverrides) -> (Vec<CatalogRoot>, Catalog) {
    let base = ["/", "project", "radargrams"];
    let root = CatalogRoot {
        path: file(&["/", "project"]),
        is_file: false,
        writable: true,
        group_bases: vec![file(&base)],
    };
    let walked: Vec<WalkedFile> = files
        .iter()
        .map(|(name, _)| WalkedFile {
            path: file(&[base[0], base[1], base[2], name]),
            is_file: true,
        })
        .collect();
    let found: Vec<Inspected> = discover_candidates(&root, 0, &walked)
        .into_iter()
        .map(|candidate| {
            let (_, id) = files
                .iter()
                .find(|(name, _)| candidate.relative_path == format!("radargrams/{name}"))
                .unwrap();
            let meta = RadargramMeta {
                radargram_id: RadargramId::new(id).unwrap(),
                processing_datetime: "2025-06-01T12:00:00Z".to_string(),
                display_name: None,
                group_name: None,
                group_id: None,
                shape: (8, 40),
            };
            Inspected { candidate, inspection: Inspection::Supported(meta) }
        })
        .collect();
    let roots = vec![root];
    let catalog = Catalog::discover_roots(&roots, vec![found], overrides);
    (roots, catalog)
}

fn unlist(overrides: &mut CatalogOverrides, id: &str) {
    let over = RadargramOverride { unlisted: true, ..Default::default() };
    overrides.radargrams.insert(RadargramId::new(id).unwrap(), over);
}

impl Project {
    fn new() -> Project {
        Project::with(&[("line-01.nc", "line-01"), ("line-02.nc", "line-02")])
    }

    fn with(files: &[(&str, &str)]) -> Project {
        let mut overrides = CatalogOverrides::default();
        unlist(&mut overrides, "line-02");
        let (roots, catalog) = discover(files, &overrides);
        let state = AppState::build_with_project(
            roots,
            catalog,
            Vec::new(),
            true,
            AccessOptions::default(),
            1,
        );
        Project { state, overrides }
    }

    fn read(&self, caller: &Caller, id: &str) -> Result<Properties, (u16, &'static str)> {
        let snapshot = self.state.catalog();
        get_properties(caller, true, &snapshot.catalog, id, Ok(self.overrides.clone()))
            .map_err(|error| (error.status, error.code))
    }

    fn save(
        &mut self,
        caller: &Caller,
        id: &str,
        body: &PropertiesBody,
    ) -> Result<(), (u16, &'static str)> {
        let snapshot = self.state.catalog();
        let edit = put_properties(caller, true, &snapshot.catalog, id, body)
            .map_err(|error| (error.status, error.code))?;
        apply(&mut self.overrides, &edit.id, &edit.over, &edit.group_name);
        self.state.refresh_catalog(&self.overrides);
        Ok(())
    }

    fn read_group(&self, caller: &Caller, id: &str) -> Result<GroupProperties, (u16, &'static str)> {
        let snapshot = self.state.catalog();
        get_group_properties(caller, true, id, &snapshot.catalog, Ok(self.overrides.clone()))
            .map_err(|error| (error.status, error.code))
    }

    fn save_group(
        &mut self,
        caller: &Caller,
        id: &str,
        name: Option<&str>,
    ) -> Result<(), (u16, &'static str)> {
        let body = GroupPropertiesBody { display_name: name.map(|n| n.to_string()) };
        let edit = put_group_properties(caller, true, id, &body)
            .map_err(|error| (error.status, error.code))?;
        apply_group(&mut self.overrides, &edit);
        self.state.refresh_catalog(&self.overrides);
        Ok(())
    }

    fn seen(&self, caller: &Caller) -> Vec<String> {
        self.seen_in(caller, &MergeScope::Catalog)
    }

    fn seen_in(&self, caller: &Caller, scope: &MergeScope) -> Vec<String> {
        let snapshot = self.state.catalog();
        shown_entries(caller, scope, &snapshot.catalog)
            .iter()
            .map(|entry| entry.radargram_id.to_text())
            .collect()
    }

    fn warned(&self, caller: &Caller) -> Vec<String> {
        let snapshot = self.state.catalog();
        shown_warnings(caller, &snapshot.catalog).iter().map(|w| w.message.clone()).collect()
    }

    fn label(&self, id: &str) -> String {
        let snapshot = self.state.catalog();
        snapshot.catalog.find_entry(id).unwrap().effective_label().to_string()
    }
}

fn nothing() -> PropertiesBody {
    PropertiesBody {
        display_name: None,
        grouping: Grouping::default(),
        group_id: None,
        group_name: None,
        unlisted: false,
        elevation_min: None,
        elevation_max: None,
    }
}

fn into_group(name: &str) -> PropertiesBody {
    PropertiesBody {
        grouping: Grouping::Group,
        group_name: Some(name.to_string()),
        ..nothing()
    }
}

#[test]
fn an_operator_can_rename_a_radargram_without_restarting_the_server() {
    let mut project = Project::new();
    let before = project.read(&erik(), "line-01").unwrap();
    assert_eq!(before.effective.display_name, None);
    assert!(!before.overridden.display_name);

    let named = PropertiesBody { display_name: Some("A better name".to_string()), ..nothing() };
    project.save(&erik(), "line-01", &named).unwrap();
    assert_eq!(project.label("line-01"), "A better name");

    let after = project.read(&erik(), "line-01").unwrap();
    assert!(after.overridden.display_name);
    assert_eq!(after.effective.display_name, Some("A better name".to_string()));
    assert_eq!(after.from_file.display_name, None);

    // Reverting leaves no trace, rather than an empty entry.
    project.save(&erik(), "line-01", &nothing()).unwrap();
    assert_eq!(project.label("line-01"), "line-01");
    assert!(!project.overrides.radargrams.contains_key("line-01"));
    assert_eq!(project.overrides.radargrams.len(), 1);
}

#[test]
fn an_operator_can_set_and_revert_an_elevation_range() {
    let mut project = Project::new();
    let before = project.read(&erik(), "line-01").unwrap();
    assert_eq!(before.effective.elevation_min, None);
    assert!(!before.overridden.elevation);

    let invalid = PropertiesBody {
        elevation_min: metres(100.0),
        elevation_max: metres(100.0),
        ..nothing()
    };
    assert_eq!(
        project.save(&erik(), "line-01", &invalid),
        Err((400, "invalid_elevation_range"))
    );

    let range = PropertiesBody {
        elevation_min: metres(50.0),
        elevation_max: metres(150.0),
        ..nothing()
    };
    project.save(&erik(), "line-01", &range).unwrap();
    let after = project.read(&erik(), "line-01").unwrap();
    assert_eq!(after.effective.elevation_min, metres(50.0));
    assert_eq!(after.effective.elevation_max, metres(150.0));
    assert!(after.overridden.elevation);

    project.save(&erik(), "line-01", &nothing()).unwrap();
    let reverted = project.read(&erik(), "line-01").unwrap();
    assert_eq!(reverted.effective.elevation_min, None);
    assert!(!reverted.overridden.elevation);
}

#[test]
fn a_floor_is_compared_with_its_cap_as_numbers_are() {
    let mut project = Project::new();
    let mut range = |min: f64, max: f64| {
        let body =
            PropertiesBody { elevation_min: metres(min), elevation_max: metres(max), ..nothing() };
        project.save(&erik(), "line-01", &body).is_ok()
    };
    assert!(range(-20.0, -10.0));
    assert!(!range(-10.0, -20.0));
    assert!(range(-1.0, 0.5));
    assert!(!range(0.0, -0.0));
    assert!(!range(9000.0, 1.0));
    assert!(range(-0.0, 1e-300));
}

#[test]
fn a_picker_cannot_edit_properties() {
    let mut project = Project::new();
    let body = PropertiesBody { display_name: Some("Mine now".to_string()), ..nothing() };
    assert_eq!(project.save(&student(), "line-01", &body).unwrap_err().0, 403);
    assert_eq!(project.read(&student(), "line-01").unwrap_err().0, 403);
}

#[test]
fn what_cannot_be_saved_is_refused() {
    let mut project = Project::new();
    let save = |project: &mut Project, id: &str, body: PropertiesBody| {
        project.save(&erik(), id, &body).unwrap_err()
    };
    assert_eq!(save(&mut project, "line-09", nothing()), (404, "dataset_not_found"));
    assert_eq!(save(&mut project, "Line 9", nothing()), (400, "invalid_radargram_id"));
    let blank = PropertiesBody { display_name: Some("   ".to_string()), ..nothing() };
    assert_eq!(save(&mut project, "line-01", blank), (400, "invalid_display_name"));
    assert_eq!(save(&mut project, "line-01", into_group("  ")), (400, "invalid_group"));
    let misspelled = PropertiesBody { group_id: Some("Not One".to_string()), ..into_group("x") };
    assert_eq!(save(&mut project, "line-01", misspelled), (400, "invalid_group"));

    let snapshot = project.state.catalog();
    let no_project = put_properties(&erik(), false, &snapshot.catalog, "line-01", &nothing());
    let error = no_project.unwrap_err();
    assert_eq!((error.status, error.code), (409, "not_a_project"));
    assert!(error.message.contains("nowhere to save its properties"));
    let unreadable = get_properties(
        &erik(),
        true,
        &snapshot.catalog,
        "line-01",
        Err("not toml".to_string()),
    );
    let error = unreadable.unwrap_err();
    assert_eq!((error.status, error.code), (500, "overrides_read_failed"));
    assert_eq!(error.message, "not toml");
}

#[test]
fn an_unusable_group_name_is_quoted() {
    let error = resolve_grouping(&into_group(" !! ")).unwrap_err();
    assert_eq!(error.code, "invalid_group");
    assert!(error.message.starts_with("'!!' does not give a usable group id: "));
}

#[test]
fn moving_a_radargram_into_a_named_group_takes_effect_at_once() {
    let mut project = Project::new();
    project.save(&erik(), "line-01", &into_group("Drønbreen 2022")).unwrap();
    let properties = project.read(&erik(), "line-01").unwrap();
    assert_eq!(properties.effective.group_name, Some("Drønbreen 2022".to_string()));
    assert_eq!(properties.effective.group_id, Some("dronbreen-2022".to_string()));
    assert_eq!(properties.from_file.group_id, None);
    assert!(properties.overridden.group);
    assert_eq!(properties.groups.len(), 1);
    assert_eq!(properties.groups[0].id, "dronbreen-2022");
    assert_eq!(properties.groups[0].name, "Drønbreen 2022");
}

#[test]
fn groups_are_offered_in_the_order_of_their_names() {
    let mut project = Project::new();
    let spelled = PropertiesBody { group_id: Some("a-group".to_string()), ..into_group("Zulu") };
    project.save(&erik(), "line-01", &spelled).unwrap();
    project.save(&erik(), "line-02", &into_group("Alpha")).unwrap();
    let properties = project.read(&erik(), "line-01").unwrap();
    let names: Vec<&str> = properties.groups.iter().map(|g| g.name.as_str()).collect();
    assert_eq!(names, vec!["Alpha", "Zulu"]);
    assert_eq!(properties.effective.group_id, Some("a-group".to_string()));
}

#[test]
fn an_unlisted_radargram_is_absent_from_a_pickers_listing_and_present_for_an_operator() {
    let project = Project::new();
    assert_eq!(project.seen(&student()), vec!["line-01"]);
    assert_eq!(project.seen(&erik()), vec!["line-01", "line-02"]);
    // Curation, not access control: it can still be opened by its id.
    assert!(project.state.catalog().catalog.find_entry("line-02").is_some());
}

#[test]
fn an_unlisted_radargram_is_off_the_group_map_too() {
    let mut project = Project::new();
    for id in ["line-01", "line-02"] {
        let body = PropertiesBody { unlisted: id == "line-02", ..into_group("Shared") };
        project.save(&erik(), id, &body).unwrap();
    }
    let shared = MergeScope::Group("shared".to_string());
    assert_eq!(project.seen_in(&student(), &shared), vec!["line-01"]);
    assert_eq!(project.seen_in(&erik(), &shared), vec!["line-01", "line-02"]);
}

#[test]
fn unlisting_takes_a_radargram_out_of_a_pickers_listing_at_once() {
    let mut project = Project::new();
    assert_eq!(project.seen(&student()).len(), 1);
    let body = PropertiesBody { unlisted: true, ..nothing() };
    project.save(&erik(), "line-01", &body).unwrap();
    assert_eq!(project.seen(&student()).len(), 0, "the picker's listing empties");
    assert_eq!(project.seen(&erik()).len(), 2, "the operator still sees both");
}

#[test]
fn an_operator_can_rename_a_group_in_one_place() {
    let mut project = Project::new();
    for id in ["line-01", "line-02"] {
        project.save(&erik(), id, &into_group("Kroppbreen")).unwrap();
    }
    let before = project.read_group(&erik(), "kroppbreen").unwrap();
    assert_eq!(before.name, Some("Kroppbreen".to_string()));
    assert_eq!(before.member_count, 2);
    assert!(before.overridden);
    assert_eq!(before.from_file, None);

    project.save_group(&erik(), "kroppbreen", Some("Kroppbreen, spring 2022")).unwrap();
    let snapshot = project.state.catalog();
    for entry in &snapshot.catalog.entries {
        assert_eq!(entry.group_name.as_ref().unwrap().as_str(), "Kroppbreen, spring 2022");
    }

    project.save_group(&erik(), "kroppbreen", None).unwrap();
    let after = project.read_group(&erik(), "kroppbreen").unwrap();
    assert!(!after.overridden);
    assert_ne!(after.name, Some("Kroppbreen, spring 2022".to_string()));
    assert_eq!(project.overrides.groups.len(), 0);
}

#[test]
fn ungrouped_is_not_a_group_to_rename() {
    let mut project = Project::new();
    assert_eq!(
        project.save_group(&erik(), "_none", Some("Everything else")),
        Err((400, "not_a_group"))
    );
    assert!(group_for("_none").unwrap_err().message.starts_with("\"Ungrouped\" is not a group"));
    assert_eq!(project.save_group(&erik(), "No Group", None), Err((400, "invalid_group")));
    assert_eq!(
        project.save_group(&erik(), "kroppbreen", Some("  ")),
        Err((400, "invalid_group_name"))
    );
    assert_eq!(project.read_group(&erik(), "kroppbreen"), Err((404, "group_not_found")));
}

#[test]
fn a_picker_cannot_rename_a_group() {
    let mut project = Project::new();
    project.save(&erik(), "line-01", &into_group("Kroppbreen")).unwrap();
    assert_eq!(
        project.save_group(&student(), "kroppbreen", Some("Mine now")).unwrap_err().0,
        403
    );
    assert_eq!(project.read_group(&student(), "kroppbreen").unwrap_err().0, 403);
}

#[test]
fn merged_downloads_leave_unlisted_members_out_and_say_how_many() {
    let mut project = Project::new();
    let snapshot = project.state.catalog();
    let (listed, omitted) = MergeScope::Catalog.listed_entries(&snapshot.catalog);
    let ids: Vec<&str> = listed.iter().map(|e| e.radargram_id.as_str()).collect();
    assert_eq!(ids, vec!["line-01"]);
    assert_eq!(omitted, 1);
    assert_eq!(MergeScope::Catalog.slug(), "catalog");
    assert_eq!(MergeScope::Catalog.describe(), "this catalog");

    // A group counts only its own members.
    project.save(&erik(), "line-01", &into_group("Shared")).unwrap();
    let shared = MergeScope::Group("shared".to_string());
    let snapshot = project.state.catalog();
    let (listed, omitted) = shared.listed_entries(&snapshot.catalog);
    assert_eq!((listed.len(), omitted), (1, 0));
    assert_eq!(shared.slug(), "shared");
    assert_eq!(shared.describe(), "group 'shared'");
    assert_eq!(shared.entries(&snapshot.catalog).len(), 1);
    assert_eq!(MergeScope::Catalog.entries(&snapshot.catalog).len(), 2);
    assert_ne!(shared.empty_code(), MergeScope::Catalog.empty_code());
}

#[test]
fn a_warning_naming_an_unlisted_radargram_is_not_shown_to_a_picker() {
    let project = Project::with(&[
        ("line-01.nc", "line-01"),
        ("line-02.nc", "line-02"),
        ("duplicate.nc", "line-02"),
    ]);
    assert!(project.warned(&erik()).iter().any(|w| w.contains("line-02")), "the operator is told");
    assert!(!project.warned(&student()).iter().any(|w| w.contains("line-02")));
}

#[test]
fn a_warning_about_what_is_not_served_is_for_operators() {
    let mut project = Project::new();
    project.overrides.ignored.insert(
        RadargramId::new("line-01").unwrap(),
        IgnoredRadargram { since: None, revision_id: Some("another".to_string()) },
    );
    project.state.refresh_catalog(&project.overrides);
    assert_eq!(project.warned(&erik()).len(), 1);
    assert!(project.warned(&student()).is_empty());
}
