//! Finding radargrams, choosing one file per id, and applying what a project
//! says.
use ridal_server::catalog::{
    Catalog, CatalogEntry, CatalogRoot, CatalogWarning, FileMetadata, NO_GROUP_ID,
};
use ridal_server::discovery::{
    discover_candidates, is_excluded_dir_name, should_descend, WalkedFile,
};
use ridal_server::elevation::Elevation;
use ridal_server::identity::{DisplayName, GroupId, GroupName, RadargramId, RevisionId};
use ridal_server::overrides::{
    CatalogOverrides, GroupMembership, GroupOverride, IgnoredRadargram, RadargramOverride,
};
use ridal_server::paths::FilePath;
use ridal_server::selection::{Inspected, Inspection, RadargramMeta};

const NOW: &str = "2025-06-01T12:00:00Z";

/// A file as a test describes it.
#[derive(Clone)]
enum Kind {
    Radargram { id: &'static str, at: &'static str, group: Option<(&'static str, &'static str)> },
    Garbage,
    Foreign,
    Legacy,
}

fn plain(id: &'static str) -> Kind {
    Kind::Radargram { id, at: NOW, group: None }
}

fn at(id: &'static str, at: &'static str) -> Kind {
    Kind::Radargram { id, at, group: None }
}

fn grouped(id: &'static str, name: &'static str, group: &'static str) -> Kind {
    Kind::Radargram { id, at: NOW, group: Some((name, group)) }
}

fn inspect(kind: &Kind) -> Inspection {
    match kind {
        Kind::Garbage => Inspection::Unreadable("not a netcdf file".to_string()),
        Kind::Foreign => Inspection::Foreign,
        Kind::Legacy => Inspection::Legacy("ridal version 0.5.0".to_string()),
        Kind::Radargram { id, at, group } => Inspection::Supported(RadargramMeta {
            radargram_id: RadargramId::new(id).unwrap(),
            processing_datetime: at.to_string(),
            display_name: None,
            group_name: group.and_then(|g| GroupName::from_input(g.0)),
            group_id: group.map(|g| GroupId::new(g.1).unwrap()),
            shape: (50, 40),
        }),
    }
}

fn path(text: &str) -> FilePath {
    let mut parts: Vec<String> = Vec::new();
    if text.starts_with('/') {
        parts.push("/".to_string());
    }
    for part in text.split('/') {
        if !part.is_empty() {
            parts.push(part.to_string());
        }
    }
    FilePath { parts }
}

/// What scanning `root` finds, given the files below it in any order.
fn scan(root: &CatalogRoot, index: usize, files: &[(&str, Kind)]) -> Vec<Inspected> {
    let walked: Vec<WalkedFile> = files
        .iter()
        .map(|(name, _)| {
            let mut parts = root.path.parts.clone();
            parts.extend(path(name).parts);
            WalkedFile { path: FilePath { parts }, is_file: true }
        })
        .collect();
    discover_candidates(root, index, &walked)
        .into_iter()
        .map(|candidate| {
            let kind = files
                .iter()
                .find(|(name, _)| *name == candidate.relative_path)
                .map(|(_, kind)| kind.clone())
                .unwrap_or_else(|| files[0].1.clone());
            Inspected { candidate, inspection: inspect(&kind) }
        })
        .collect()
}

fn root() -> CatalogRoot {
    CatalogRoot::single(path("/data"), false)
}

fn discover(files: &[(&str, Kind)]) -> Catalog {
    let root = root();
    let found = scan(&root, 0, files);
    Catalog::discover(root, found)
}

fn discover_with(files: &[(&str, Kind)], overrides: &CatalogOverrides) -> Catalog {
    let root = root();
    let found = scan(&root, 0, files);
    Catalog::discover_with_overrides(root, found, overrides)
}

fn discover_all(
    roots: &[CatalogRoot],
    files: &[&[(&str, Kind)]],
    overrides: &CatalogOverrides,
) -> Catalog {
    let found: Vec<Vec<Inspected>> =
        roots.iter().zip(files).enumerate().map(|(i, (root, files))| scan(root, i, files)).collect();
    Catalog::discover_roots(roots, found, overrides)
}

fn writable(text: &str) -> CatalogRoot {
    CatalogRoot { path: path(text), is_file: false, writable: true, group_bases: Vec::new() }
}

fn read_only(text: &str) -> CatalogRoot {
    CatalogRoot { path: path(text), is_file: false, writable: false, group_bases: Vec::new() }
}

fn radargram(name: &str) -> RadargramId {
    RadargramId::new(name).unwrap()
}

fn group(name: &str) -> GroupId {
    GroupId::new(name).unwrap()
}

fn named(display: &str) -> RadargramOverride {
    RadargramOverride { display_name: DisplayName::from_input(display), ..Default::default() }
}

fn called(name: &str) -> GroupOverride {
    GroupOverride { name: GroupName::from_input(name) }
}

fn group_name(entry: &CatalogEntry) -> Option<&str> {
    entry.group_name.as_ref().map(|g| g.as_str())
}

fn group_id(entry: &CatalogEntry) -> Option<&str> {
    entry.group_id.as_ref().map(|g| g.as_str())
}

fn ids(catalog: &Catalog) -> Vec<&str> {
    catalog.entries.iter().map(|e| e.radargram_id.as_str()).collect()
}

#[test]
fn single_file_is_a_one_entry_catalog() {
    let root = CatalogRoot::single(path("/data/one.nc"), true);
    let found = scan(&root, 0, &[("one.nc", plain("single-file-test"))]);
    let catalog = Catalog::discover(root, found);
    assert_eq!(catalog.entries.len(), 1);
    assert_eq!(catalog.entries[0].radargram_id.as_str(), "single-file-test");
    assert_eq!(catalog.entries[0].relative_path, "one.nc");
    assert!(catalog.warnings.is_empty());
}

#[test]
fn directory_is_scanned_recursively_with_deterministic_order() {
    let catalog = discover(&[
        ("b/second.nc", plain("dir-b-second")),
        ("a/nested/first.nc", plain("dir-a-nested-first")),
    ]);
    assert_eq!(catalog.entries.len(), 2);
    // "a/..." comes before "b/...".
    assert_eq!(catalog.entries[0].relative_path, "a/nested/first.nc");
    assert_eq!(catalog.entries[1].relative_path, "b/second.nc");
    assert!(catalog.warnings.is_empty());
}

#[test]
fn nested_radargrams_with_recurring_filenames_remain_separate() {
    let catalog = discover(&[
        ("x/processed.nc", plain("recurring-x")),
        ("y/processed.nc", plain("recurring-y")),
    ]);
    assert_eq!(catalog.entries.len(), 2);
    let ids = ids(&catalog);
    assert!(ids.contains(&"recurring-x"));
    assert!(ids.contains(&"recurring-y"));
}

#[test]
fn duplicate_radargram_ids_resolve_to_the_newest() {
    let catalog = discover(&[
        ("older.nc", at("dup-id", "2000-01-01T00:00:00Z")),
        ("newer.nc", plain("dup-id")),
    ]);
    assert_eq!(catalog.entries.len(), 1);
    assert_eq!(catalog.entries[0].relative_path, "newer.nc");
    assert_eq!(catalog.warnings.len(), 1);
    assert!(catalog.warnings[0].message.contains("Duplicate radargram ID"));
    assert_eq!(
        catalog.warnings[0].message,
        "Duplicate radargram ID 'dup-id': 'older.nc' and 'newer.nc'. Selected the entry with the \
         most recent processing datetime."
    );
    assert_eq!(catalog.warnings[0].about, vec![radargram("dup-id")]);
}

#[test]
fn duplicate_ids_equal_datetime_breaks_tie_by_path() {
    let catalog = discover(&[
        ("z.nc", at("dup-tie", "2020-01-01T00:00:00Z")),
        ("a.nc", at("dup-tie", "2020-01-01T00:00:00Z")),
    ]);
    assert_eq!(catalog.entries.len(), 1);
    // "a.nc" comes before "z.nc".
    assert_eq!(catalog.entries[0].relative_path, "a.nc");
    assert_eq!(
        catalog.warnings[0].message,
        "Duplicate radargram ID 'dup-tie': 'a.nc' and 'z.nc'. Selected the entry with the most \
         recent processing datetime (datetimes equal; broke the tie by path order)."
    );
}

#[test]
fn one_unreadable_candidate_does_not_abort_discovery() {
    let catalog = discover(&[("garbage.nc", Kind::Garbage), ("good.nc", plain("good-one"))]);
    assert_eq!(catalog.entries.len(), 1);
    assert_eq!(catalog.entries[0].radargram_id.as_str(), "good-one");
    assert_eq!(catalog.warnings.len(), 1);
    assert_eq!(catalog.warnings[0].message, "garbage.nc: not a netcdf file");
    assert!(catalog.warnings[0].about.is_empty());
}

#[test]
fn unrelated_and_invalid_files_are_silently_ignored_not_warned() {
    let catalog = discover(&[("readme.txt", Kind::Garbage)]);
    assert!(catalog.entries.is_empty());
    assert!(catalog.warnings.is_empty());

    let catalog = discover(&[("other.nc", Kind::Foreign), ("old.nc", Kind::Legacy)]);
    assert!(catalog.entries.is_empty());
    assert!(catalog.warnings.is_empty());
}

#[test]
fn excluded_directories_are_not_descended_into() {
    let catalog =
        discover(&[(".git/pretend.nc", Kind::Garbage), (".hidden/pretend.nc", Kind::Garbage)]);
    // Nothing below an excluded directory is even tried, so nothing is said.
    assert!(catalog.entries.is_empty());
    assert!(catalog.warnings.is_empty());
}

#[test]
fn an_override_renames_a_radargram_without_touching_the_file() {
    let files = [("a.nc", grouped("line-01", "Old group", "old-group"))];
    let mut overrides = CatalogOverrides::default();
    overrides.radargrams.insert(radargram("line-01"), named("A better name"));

    let catalog = discover_with(&files, &overrides);
    assert_eq!(catalog.entries[0].effective_label(), "A better name");
    // Only the label: the group was not set, so it is still the file's.
    assert_eq!(group_name(&catalog.entries[0]), Some("Old group"));

    let plain = discover(&files);
    assert_eq!(plain.entries[0].effective_label(), "line-01");
}

#[test]
fn a_radargram_moved_between_groups_does_not_bring_its_old_name() {
    let files = [("a.nc", grouped("line-01", "Kroppbreen 2022", "kroppbreen-2022"))];
    let mut overrides = CatalogOverrides::default();
    overrides.radargrams.insert(
        radargram("line-01"),
        RadargramOverride {
            group: Some(GroupMembership::Group(group("dronbreen-2022"))),
            ..Default::default()
        },
    );
    overrides.groups.insert(group("dronbreen-2022"), called("Drønbreen 2022"));

    let catalog = discover_with(&files, &overrides);
    let entry = &catalog.entries[0];
    assert_eq!(group_id(entry), Some("dronbreen-2022"));
    assert_eq!(group_name(entry), Some("Drønbreen 2022"));
    assert_eq!(catalog.group_names.get("dronbreen-2022").unwrap().as_str(), "Drønbreen 2022");
}

#[test]
fn naming_a_group_settles_a_disagreement_instead_of_re_reporting_it() {
    let files = [
        ("a.nc", grouped("line-01", "Kroppbreen 2022", "kroppbreen")),
        ("b.nc", grouped("line-02", "Kroppbreen twentytwentytwo", "kroppbreen")),
    ];
    let plain = discover(&files);
    assert_eq!(plain.warnings.len(), 1, "{:?}", plain.warnings);
    assert!(plain.warnings[0].message.contains("disagreeing names"));

    let mut overrides = CatalogOverrides::default();
    overrides.groups.insert(group("kroppbreen"), called("Kroppbreen 2022"));
    let settled = discover_with(&files, &overrides);
    assert!(settled.warnings.is_empty(), "{:?}", settled.warnings);
    assert_eq!(settled.group_names.get("kroppbreen").unwrap().as_str(), "Kroppbreen 2022");
}

#[test]
fn a_group_override_for_a_group_nothing_is_in_conjures_no_heading() {
    let mut overrides = CatalogOverrides::default();
    overrides.groups.insert(group("abandoned"), called("Nobody lives here"));
    let catalog = discover_with(&[("a.nc", plain("line-01"))], &overrides);
    assert!(!catalog.group_names.contains_key("abandoned"));
}

#[test]
fn an_override_for_a_radargram_that_is_not_there_changes_nothing() {
    let mut overrides = CatalogOverrides::default();
    overrides.radargrams.insert(radargram("long-gone"), named("A ghost"));
    let catalog = discover_with(&[("a.nc", plain("line-01"))], &overrides);
    assert_eq!(catalog.entries.len(), 1);
    assert_eq!(catalog.entries[0].effective_label(), "line-01");
    assert!(catalog.warnings.is_empty());
}

#[test]
fn unlisted_is_carried_onto_the_entry() {
    let mut overrides = CatalogOverrides::default();
    overrides.radargrams.insert(
        radargram("line-01"),
        RadargramOverride { unlisted: true, ..Default::default() },
    );
    let catalog = discover_with(&[("a.nc", plain("line-01"))], &overrides);
    // Still discovered: unlisted is about listings, not existence.
    assert_eq!(catalog.entries.len(), 1);
    assert!(catalog.entries[0].unlisted);
}

#[test]
fn the_project_wins_over_an_external_root_however_new_the_external_file_is() {
    let roots = [writable("/project"), read_only("/archive")];
    let catalog = discover_all(
        &roots,
        &[
            &[("ours.nc", plain("shared"))],
            &[("theirs.nc", at("shared", "2099-01-01T00:00:00Z"))],
        ],
        &CatalogOverrides::default(),
    );
    assert_eq!(catalog.entries.len(), 1);
    assert_eq!(catalog.entries[0].root, 0, "the project's copy is served");
    assert_eq!(catalog.entries[0].relative_path, "ours.nc");
    // The overlay winning is the arrangement working, not a problem.
    assert!(catalog.warnings.is_empty(), "{:?}", catalog.warnings);
}

#[test]
fn two_external_roots_holding_one_id_is_still_a_duplicate() {
    let roots = [read_only("/first"), read_only("/second")];
    let catalog = discover_all(
        &roots,
        &[&[("a.nc", plain("shared"))], &[("b.nc", plain("shared"))]],
        &CatalogOverrides::default(),
    );
    assert_eq!(catalog.entries.len(), 1);
    assert_eq!(catalog.warnings.len(), 1, "{:?}", catalog.warnings);
    assert!(catalog.warnings[0].message.contains("Duplicate radargram ID"));
}

#[test]
fn an_ignored_radargram_is_not_served_and_comes_back_when_the_decision_is_lifted() {
    let roots = [read_only("/archive")];
    let mut overrides = CatalogOverrides::default();
    overrides.ignored.insert(
        radargram("line-02"),
        IgnoredRadargram { since: Some("2026-09-13T00:00:00Z".to_string()), revision_id: None },
    );
    let catalog = discover_all(
        &roots,
        &[&[("a.nc", plain("line-01")), ("b.nc", plain("line-02"))]],
        &overrides,
    );
    assert_eq!(ids(&catalog), vec!["line-01"]);
    assert!(catalog.vestigial_ignores().is_empty(), "the file is right there");

    let lifted = catalog.reresolved(&CatalogOverrides::default());
    assert_eq!(lifted.entries.len(), 2);
}

#[test]
fn two_external_copies_still_warn_even_when_the_project_wins() {
    let roots = [writable("/project"), read_only("/first"), read_only("/second")];
    let catalog = discover_all(
        &roots,
        &[
            &[("ours.nc", plain("shared"))],
            &[("a.nc", plain("shared"))],
            &[("b.nc", plain("shared"))],
        ],
        &CatalogOverrides::default(),
    );
    assert_eq!(catalog.entries.len(), 1);
    assert_eq!(catalog.entries[0].root, 0, "the project's copy is served");
    assert_eq!(catalog.warnings.len(), 1, "{:?}", catalog.warnings);
    let message = &catalog.warnings[0].message;
    assert!(message.contains("Duplicate radargram ID"), "{message}");
    assert!(message.contains("a.nc") && message.contains("b.nc"), "{message}");
    assert!(!message.contains("ours.nc"), "{message}");
}

#[test]
fn an_ignored_radargram_whose_file_changed_says_so_without_un_ignoring_it() {
    let files: [(&str, Kind); 1] = [("a.nc", plain("line-01"))];
    let roots = [read_only("/archive")];
    let ignoring = |revision: &str| {
        let mut overrides = CatalogOverrides::default();
        overrides.ignored.insert(
            radargram("line-01"),
            IgnoredRadargram {
                since: Some("2026-09-13T00:00:00Z".to_string()),
                revision_id: Some(revision.to_string()),
            },
        );
        overrides
    };

    let catalog = discover_all(&roots, &[&files], &ignoring("a-different-revision"));
    assert!(catalog.entries.is_empty(), "still not served");
    let changed: Vec<&CatalogWarning> =
        catalog.warnings.iter().filter(|w| w.message.contains("has changed since")).collect();
    assert_eq!(changed.len(), 1, "{:?}", catalog.warnings);
    assert!(changed[0].operator_only, "only the person who decided");
    assert!(changed[0].about.is_empty());

    // And where it has not changed, nothing is said.
    let plain = discover_all(&roots, &[&files], &CatalogOverrides::default());
    let revision = plain.entries[0].revision_id.as_str();
    let quiet = discover_all(&roots, &[&files], &ignoring(revision));
    assert!(!quiet.warnings.iter().any(|w| w.message.contains("has changed since")));
}

#[test]
fn an_ignore_with_nothing_to_act_on_is_listed_rather_than_forgotten() {
    let mut overrides = CatalogOverrides::default();
    overrides.ignored.insert(
        radargram("long-gone"),
        IgnoredRadargram { since: Some("2026-01-01T00:00:00Z".to_string()), revision_id: None },
    );
    let catalog =
        discover_all(&[read_only("/archive")], &[&[("a.nc", plain("line-01"))]], &overrides);
    let vestigial = catalog.vestigial_ignores();
    assert_eq!(vestigial.len(), 1);
    assert_eq!(vestigial[0].radargram_id.as_str(), "long-gone");
    assert_eq!(vestigial[0].since.as_deref(), Some("2026-01-01T00:00:00Z"));
    assert_eq!(catalog.entries.len(), 1);
}

#[test]
fn renaming_a_group_renames_it_on_every_member_that_was_already_in_it() {
    let files = [("a.nc", grouped("line-01", "Kroppbreen", "kroppbreen"))];
    let plain = discover(&files);
    assert_eq!(group_name(&plain.entries[0]), Some("Kroppbreen"));

    let mut overrides = CatalogOverrides::default();
    overrides.groups.insert(group("kroppbreen"), called("Kroppbreen, spring 2022"));
    let renamed = discover_with(&files, &overrides);
    assert_eq!(group_name(&renamed.entries[0]), Some("Kroppbreen, spring 2022"));
    // What the file called it is still there.
    assert_eq!(
        renamed.entries[0].from_file.group_name.as_ref().map(|g| g.as_str()),
        Some("Kroppbreen")
    );
}

#[test]
fn re_resolving_gives_what_rediscovery_would_have() {
    let files = [
        ("a.nc", grouped("line-01", "Kroppbreen 2022", "kroppbreen")),
        ("b.nc", grouped("line-02", "Kroppbreen 2022", "kroppbreen")),
    ];
    let mut overrides = CatalogOverrides::default();
    overrides.radargrams.insert(radargram("line-01"), named("A better name"));
    overrides.radargrams.insert(
        radargram("line-02"),
        RadargramOverride {
            group: Some(GroupMembership::Group(group("dronbreen-2022"))),
            unlisted: true,
            ..Default::default()
        },
    );
    overrides.groups.insert(group("dronbreen-2022"), called("Drønbreen 2022"));

    let discovered = discover_with(&files, &overrides);
    let reresolved = discover(&files).reresolved(&overrides);
    assert_eq!(reresolved.entries, discovered.entries);
    assert_eq!(reresolved.group_names, discovered.group_names);
    assert_eq!(reresolved.warnings, discovered.warnings);

    let plain = discover(&files);
    let reverted = reresolved.reresolved(&CatalogOverrides::default());
    assert_eq!(reverted.entries, plain.entries);
    assert_eq!(reverted.group_names, plain.group_names);
    assert_eq!(reverted.warnings, plain.warnings);
}

#[test]
fn effective_label_prefers_display_name() {
    let entry = CatalogEntry {
        radargram_id: RadargramId::new("kroppbreen-01").unwrap(),
        revision_id: RevisionId::fingerprint_v1(
            &RadargramId::new("kroppbreen-01").unwrap(),
            "2020-01-01T00:00:00Z",
        ),
        display_name: DisplayName::from_input("Kroppbreen line 1"),
        group_name: None,
        group_id: None,
        processing_datetime: "2020-01-01T00:00:00Z".to_string(),
        shape: (10, 10),
        relative_path: "a.nc".to_string(),
        root: 0,
        unlisted: false,
        elevation_min: None,
        elevation_max: None,
        from_file: FileMetadata::default(),
    };
    assert_eq!(entry.effective_label(), "Kroppbreen line 1");

    let mut no_name = entry.clone();
    no_name.display_name = None;
    assert_eq!(no_name.effective_label(), "kroppbreen-01");
}

#[test]
fn revision_id_is_deterministic_and_ignores_path() {
    let id = RadargramId::new("a").unwrap();
    let a = RevisionId::fingerprint_v1(&id, "2020-01-01T00:00:00Z");
    let b = RevisionId::fingerprint_v1(&id, "2020-01-01T00:00:00Z");
    assert_eq!(a, b);

    let different_time = RevisionId::fingerprint_v1(&id, "2021-01-01T00:00:00Z");
    assert_ne!(a, different_time);

    let other_id = RadargramId::new("b").unwrap();
    let different_id = RevisionId::fingerprint_v1(&other_id, "2020-01-01T00:00:00Z");
    assert_ne!(a, different_id);
}

#[test]
fn group_falls_back_to_parent_directory() {
    let catalog = discover(&[("dronbreen/2022/a.nc", plain("group-fallback-test"))]);
    assert_eq!(catalog.entries.len(), 1);
    assert_eq!(group_id(&catalog.entries[0]), Some("dronbreen-2022"));
    assert_eq!(group_name(&catalog.entries[0]), Some("dronbreen/2022"));
}

#[test]
fn a_projects_own_radargram_directory_is_not_a_group() {
    let root = CatalogRoot {
        path: path("/project"),
        is_file: false,
        writable: true,
        group_bases: vec![path("/project/radargrams")],
    };
    let catalog = discover_all(
        &[root],
        &[&[
            ("radargrams/flat.nc", plain("flat-in-the-project")),
            ("radargrams/dronbreen/2022/nested.nc", plain("nested-in-the-project")),
        ]],
        &CatalogOverrides::default(),
    );
    let group_of = |id: &str| group_id(catalog.find_entry(id).unwrap()).map(str::to_string);
    assert_eq!(group_of("flat-in-the-project"), None, "structure, not a group");
    assert_eq!(group_of("nested-in-the-project"), Some("dronbreen-2022".to_string()));
}

#[test]
fn explicit_group_wins_over_directory_fallback() {
    let catalog =
        discover(&[("some/deep/path/a.nc", grouped("explicit-group-test", "real-group", "real-group"))]);
    assert_eq!(group_name(&catalog.entries[0]), Some("real-group"));
    assert_eq!(group_id(&catalog.entries[0]), Some("real-group"));
}

#[test]
fn unicode_group_name_derives_an_ascii_id() {
    let id = GroupId::from_fallback("Drønbreen").unwrap();
    assert_eq!(id.as_str(), "dronbreen");
    let catalog = discover(&[("a.nc", grouped("unicode-group-test", "Drønbreen", "dronbreen"))]);
    assert_eq!(group_name(&catalog.entries[0]), Some("Drønbreen"));
    assert_eq!(group_id(&catalog.entries[0]), Some("dronbreen"));
    assert_eq!(catalog.group_names.get("dronbreen").map(|n| n.as_str()), Some("Drønbreen"));
}

#[test]
fn unicode_directory_name_derives_an_ascii_id() {
    let catalog = discover(&[("Drønbreen/a.nc", plain("unicode-group-test"))]);
    assert_eq!(group_name(&catalog.entries[0]), Some("Drønbreen"));
    assert_eq!(group_id(&catalog.entries[0]), Some("dronbreen"));
    assert_eq!(catalog.group_names.get("dronbreen").map(|n| n.as_str()), Some("Drønbreen"));
}

#[test]
fn explicit_group_id_overrides_derivation_from_name() {
    let catalog = discover(&[("a.nc", grouped("explicit-id-test", "Drønbreen", "db"))]);
    assert_eq!(group_name(&catalog.entries[0]), Some("Drønbreen"));
    assert_eq!(group_id(&catalog.entries[0]), Some("db"));
}

#[test]
fn disagreeing_group_names_pick_the_newest_and_warn() {
    let member = |id, at, name| Kind::Radargram { id, at, group: Some((name, "shared-id")) };
    let catalog = discover(&[
        ("older.nc", member("older-member", "2020-01-01T00:00:00Z", "Old Name")),
        ("newer.nc", member("newer-member", "2021-01-01T00:00:00Z", "New Name")),
    ]);
    assert_eq!(catalog.group_names.get("shared-id").map(|n| n.as_str()), Some("New Name"));
    assert!(
        catalog.warnings.iter().any(|w| w.message.contains("disagreeing names")),
        "{:?}",
        catalog.warnings
    );
    assert_eq!(
        catalog.warnings[0].message,
        "Group 'shared-id' has disagreeing names: 'New Name' ('newer.nc') and 'Old Name' \
         ('older.nc'). Using the name from the entry with the most recent processing datetime."
    );
}

#[test]
fn a_later_member_with_the_same_name_still_counts_as_the_newest() {
    // The newest member is the one that counts, also where it agrees with the
    // one that counted before it.
    let member = |id, at, name| Kind::Radargram { id, at, group: Some((name, "shared-id")) };
    let catalog = discover(&[
        ("a.nc", member("a", "2020-01-01T00:00:00Z", "Right")),
        ("b.nc", member("b", "2024-01-01T00:00:00Z", "Right")),
        ("c.nc", member("c", "2022-01-01T00:00:00Z", "Wrong")),
    ]);
    assert_eq!(catalog.group_names.get("shared-id").map(|n| n.as_str()), Some("Right"));
    assert_eq!(catalog.warnings.len(), 1);
}

#[test]
fn a_warning_is_visible_where_everything_it_names_is_in_any_order() {
    let warning = CatalogWarning {
        message: "two of them".to_string(),
        about: vec![radargram("b"), radargram("a")],
        operator_only: false,
    };
    assert!(warning.is_visible_to(&[radargram("a"), radargram("b"), radargram("c")]));
    assert!(!warning.is_visible_to(&[radargram("a")]));
    assert!(!warning.is_visible_to(&[]));
    let nothing =
        CatalogWarning { message: String::new(), about: Vec::new(), operator_only: false };
    assert!(nothing.is_visible_to(&[]));
}

#[test]
fn hidden_directories_are_left_out_but_the_root_is_exempt() {
    assert!(is_excluded_dir_name(".git"));
    assert!(is_excluded_dir_name(".hidden"));
    assert!(!is_excluded_dir_name("data"));
    assert!(!is_excluded_dir_name(""));
    assert!(should_descend(0, true, ".tmp"));
    assert!(!should_descend(1, true, ".tmp"));
    assert!(should_descend(1, false, ".a.nc"));
    assert!(should_descend(2, true, "2022"));
}

#[test]
fn only_plain_files_with_the_extension_are_candidates() {
    let root = root();
    let walked = |name: &str, is_file: bool| {
        let mut parts = root.path.parts.clone();
        parts.extend(path(name).parts);
        WalkedFile { path: FilePath { parts }, is_file }
    };
    let files = vec![
        walked("line.nc", true),
        walked("dir.nc", false),
        walked(".nc", true),
        walked("..nc", true),
        walked("line.NC", true),
        walked("nc", true),
    ];
    let found = discover_candidates(&root, 3, &files);
    let names: Vec<&str> = found.iter().map(|c| c.relative_path.as_str()).collect();
    assert_eq!(names, vec!["..nc", "line.nc"]);
    assert!(found.iter().all(|c| c.root == 3 && c.group_hint.is_none()));
    assert_eq!(found[1].path, path("/data/line.nc"));
}

#[test]
fn the_deepest_declared_directory_decides_the_group() {
    let root = CatalogRoot {
        path: path("/project"),
        is_file: false,
        writable: true,
        group_bases: vec![path("/project/data"), path("/project/data/radargrams")],
    };
    let hint = |name: &str| {
        let file = WalkedFile { path: path(name), is_file: true };
        discover_candidates(&root, 0, &[file])[0].group_hint.clone()
    };
    assert_eq!(hint("/project/data/radargrams/a.nc"), None);
    assert_eq!(hint("/project/data/radargrams/x/a.nc"), Some("x".to_string()));
    assert_eq!(hint("/project/data/y/a.nc"), Some("y".to_string()));
    assert_eq!(hint("/project/z/w/a.nc"), Some("z/w".to_string()));
}

#[test]
fn entries_are_found_by_id_and_by_group() {
    let catalog = discover(&[
        ("a.nc", grouped("line-01", "Survey", "survey")),
        ("b.nc", grouped("line-02", "Survey", "survey")),
        ("c.nc", plain("loose-01")),
    ]);
    assert_eq!(catalog.find_entry("line-02").unwrap().relative_path, "b.nc");
    assert!(catalog.find_entry("line-03").is_none());
    assert_eq!(catalog.entries_in_group("survey").len(), 2);
    assert_eq!(catalog.entries_in_group("other").len(), 0);
    let loose = catalog.entries_in_group(NO_GROUP_ID);
    assert_eq!(loose.len(), 1);
    assert_eq!(loose[0].radargram_id.as_str(), "loose-01");
}

#[test]
fn an_ignored_duplicate_is_not_talked_about() {
    let files = [
        ("a.nc", at("twice", "2020-01-01T00:00:00Z")),
        ("b.nc", at("twice", "2021-01-01T00:00:00Z")),
    ];
    assert_eq!(discover(&files).warnings.len(), 1);
    let mut overrides = CatalogOverrides::default();
    overrides
        .ignored
        .insert(radargram("twice"), IgnoredRadargram { since: None, revision_id: None });
    let catalog = discover_with(&files, &overrides);
    assert!(catalog.entries.is_empty());
    assert!(catalog.warnings.is_empty());
    assert_eq!(catalog.file_warnings.len(), 1);
}

#[test]
fn being_put_in_no_group_beats_the_file() {
    let mut overrides = CatalogOverrides::default();
    overrides.radargrams.insert(
        radargram("line-01"),
        RadargramOverride { group: Some(GroupMembership::Ungrouped), ..Default::default() },
    );
    let catalog = discover_with(&[("a.nc", grouped("line-01", "Survey", "survey"))], &overrides);
    assert_eq!(group_id(&catalog.entries[0]), None);
    assert_eq!(group_name(&catalog.entries[0]), None);
    assert!(!catalog.group_names.contains_key("survey"));
}

#[test]
fn elevation_bounds_come_from_the_project_alone() {
    let low = Elevation { bits: 50.0f64.to_bits() };
    let mut overrides = CatalogOverrides::default();
    overrides.radargrams.insert(
        radargram("line-01"),
        RadargramOverride { elevation_min: Some(low), ..Default::default() },
    );
    let catalog = discover_with(&[("a.nc", plain("line-01"))], &overrides);
    let range = catalog.entries[0].elevation_range();
    assert_eq!(range.min, Some(low));
    assert_eq!(range.max, None);
}

#[test]
fn elevations_compare_as_the_numbers_they_are() {
    let of = |value: f64| Elevation { bits: value.to_bits() };
    let values = [
        f64::NEG_INFINITY, -1.0e9, -2.5, -0.0, 0.0, 1.0e-300, 0.1, 99.99, 100.0, 8848.86,
        f64::INFINITY, f64::NAN,
    ];
    for a in values {
        for b in values {
            assert_eq!(of(a).reaches(of(b)), a >= b, "{a} {b}");
        }
    }
}
