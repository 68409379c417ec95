//! Adding, removing and restoring radargrams, against a project in memory.
use ridal_server::api_error::ApiError;
use ridal_server::app_state::{AppState, OpenRadargram};
use ridal_server::audit::{AuditAction, AuditEntry};
use ridal_server::auth::{AccessOptions, Caller, DownloadScope, Role};
use ridal_server::catalog::{Catalog, CatalogRoot};
use ridal_server::discovery::{discover_candidates, WalkedFile};
use ridal_server::identity::{RadargramId, RevisionId, UserId};
use ridal_server::ledger::Ledger;
use ridal_server::lifecycle::{
    list_ignored, list_revisions, restore_dataset, restore_log, restored_revision, KeptAxes,
    RevisionSummary, TempFile,
};
use ridal_server::overrides::{CatalogOverrides, IgnoredRadargram};
use ridal_server::paths::FilePath;
use ridal_server::removal::{
    record_ignore, remove_dataset, RemovalAction, RemovalEvent, RemovalStage, Removed,
};
use ridal_server::selection::{Inspected, Inspection, RadargramMeta};
use ridal_server::sizes::{accept_length, human, too_large, UploadMeter, CHUNK_CHECK_BYTES};
use ridal_server::text_map::TextMap;
use ridal_server::upload::{
    judge_inspection, upload_dataset, writable_destination, Added, Upload, UploadAction,
    UploadEvent, UploadQuery, UploadStage,
};

const DISCOVERED: &str = "2025-06-01T12:00:00Z";

fn path(text: &str) -> FilePath {
    let mut parts: Vec<String> = Vec::new();
    if text.starts_with('/') {
        parts.push("/".to_string());
    }
    for part in text.split('/') {
        if !part.is_empty() {
            parts.push(part.to_string());
        }
    }
    FilePath { parts }
}

fn account(name: &str, role: Role, download: DownloadScope) -> Caller {
    Caller {
        user: Some(UserId::new(name).unwrap()),
        role,
        download,
        read_only: false,
        authentication_configured: true,
    }
}

fn erik() -> Caller {
    account("erik", Role::Operator, DownloadScope::All)
}

fn student() -> Caller {
    account("student", Role::Picker, DownloadScope::All)
}

fn radargram(id: &str, at: &str) -> Inspection {
    Inspection::Supported(RadargramMeta {
        radargram_id: RadargramId::new(id).unwrap(),
        processing_datetime: at.to_string(),
        display_name: None,
        group_name: None,
        group_id: None,
        shape: (8, 40),
    })
}

fn revision(id: &str, at: &str) -> String {
    RevisionId::fingerprint_v1(&RadargramId::new(id).unwrap(), at).to_text()
}

/// One file of the project in memory: where it is, the radargram in it and
/// when that was processed.
#[derive(Clone, Debug, PartialEq)]
struct Stored {
    path: String,
    id: String,
    at: String,
    declares_axes: bool,
}

/// A project with one radargram in it and one in an archive beside it.
struct Project {
    state: AppState,
    files: Vec<Stored>,
    overrides: CatalogOverrides,
    ledger: Ledger,
    /// The axes that were kept, by revision.
    axes: TextMap<String, KeptAxes>,
    /// Whether axes can be kept at all.
    revisions_writable: bool,
    /// Interpretations that are attached, and how many are archived.
    picks: Vec<(String, String)>,
    archived: Vec<(String, String)>,
    log: Vec<AuditEntry>,
    remarks: Vec<String>,
}

const RADARGRAMS: &str = "/project/ridal/radargrams";

impl Project {
    fn new() -> Project {
        let files = vec![
            Stored {
                path: format!("{RADARGRAMS}/ours.nc"),
                id: "ours".to_string(),
                at: DISCOVERED.to_string(),
                declares_axes: true,
            },
            Stored {
                path: "/archive/theirs.nc".to_string(),
                id: "theirs".to_string(),
                at: DISCOVERED.to_string(),
                declares_axes: true,
            },
        ];
        let roots = vec![
            CatalogRoot {
                path: path("/project"),
                is_file: false,
                writable: true,
                group_bases: vec![path(RADARGRAMS)],
            },
            CatalogRoot {
                path: path("/archive"),
                is_file: false,
                writable: false,
                group_bases: vec![path("/archive")],
            },
        ];
        let overrides = CatalogOverrides::default();
        let catalog = discovered(&roots, &files, &overrides);
        let opened = catalog
            .entries
            .iter()
            .map(|entry| Some(OpenRadargram { service: 1, shape: entry.shape }))
            .collect();
        let mut ledger = Ledger::new();
        ledger.register(&catalog);
        let state = AppState::build_with_project(
            roots,
            catalog,
            opened,
            true,
            AccessOptions::default(),
            2,
        );
        Project {
            state,
            files,
            overrides,
            ledger,
            axes: TextMap::new(),
            revisions_writable: true,
            picks: Vec::new(),
            archived: Vec::new(),
            log: Vec::new(),
            remarks: Vec::new(),
        }
    }

    fn rediscover(&mut self) {
        let catalog = discovered(&self.state.roots, &self.files, &self.overrides);
        let opened = catalog
            .entries
            .iter()
            .map(|entry| Some(OpenRadargram { service: 2, shape: entry.shape }))
            .collect();
        self.ledger.register(&catalog);
        self.state.rediscover(catalog, opened);
    }

    fn ids(&self) -> Vec<String> {
        let snapshot = self.state.catalog();
        snapshot.catalog.entries.iter().map(|e| e.radargram_id.to_text()).collect()
    }

    fn has_file(&self, at: &str) -> bool {
        self.files.iter().any(|file| file.path == at)
    }

    /// Uploads a file of `bytes` bytes that turns out to be `inspection`.
    fn upload(
        &mut self,
        caller: &Caller,
        filename: Option<&str>,
        inspection: Inspection,
        bytes: u64,
        cap: u64,
    ) -> Result<Added, ApiError> {
        let (destination, mut meter) = upload_dataset(
            caller,
            self.state.has_project,
            Ok(path(RADARGRAMS)),
            cap,
            4096,
            &Some(bytes.to_string()),
        )?;
        meter.take(bytes)?;
        let written = meter.finish()?;
        let temporary = format!("{RADARGRAMS}/upload-1.tmp.nc");
        let (id, at) = match &inspection {
            Inspection::Supported(meta) => {
                (meta.radargram_id.to_text(), meta.processing_datetime.clone())
            }
            _ => (String::new(), String::new()),
        };
        self.files.push(Stored { path: temporary.clone(), id, at, declares_axes: true });
        let query = UploadQuery { filename: filename.map(|name| name.to_string()) };
        let mut upload = Upload::begin(destination, query, caller, written);
        let mut event = UploadEvent::Inspected(inspection);
        loop {
            let snapshot = self.state.catalog();
            let (action, remark) = upload.step(event, &snapshot.catalog);
            self.remarks.extend(remark);
            event = match action {
                UploadAction::ReadOverrides => {
                    UploadEvent::OverridesRead(Ok(self.overrides.clone()))
                }
                UploadAction::CountArchive => {
                    let meta = upload.meta.as_ref().unwrap();
                    let id = meta.radargram_id.as_str();
                    UploadEvent::ArchiveCounted(Ok(
                        self.archived.iter().filter(|(of, _)| of == id).count()
                    ))
                }
                UploadAction::Install(name) => {
                    for file in self.files.iter_mut() {
                        if file.path == temporary {
                            file.path = name.to_text();
                        }
                    }
                    UploadEvent::Installed(Ok(()))
                }
                UploadAction::RecordRevision(id, revision) => {
                    self.ledger.note_current_again(&id, &revision, &None);
                    UploadEvent::Recorded(Ok(()))
                }
                UploadAction::Rediscover => {
                    self.rediscover();
                    UploadEvent::Rediscovered(Ok(()), "2025-07-01T00:00:00Z".to_string())
                }
                UploadAction::Answer(entry, added) => {
                    self.log.push(entry);
                    return Ok(added);
                }
                UploadAction::Refuse(error) => {
                    self.files.retain(|file| file.path != temporary);
                    return Err(error);
                }
            };
        }
    }

    fn remove(&mut self, caller: &Caller, id: &str) -> Result<Removed, ApiError> {
        let file = self.files.iter().find(|file| file.id == id).cloned();
        let found = match &file {
            Some(file) => Ok(path(&file.path)),
            None => Err("no such file".to_string()),
        };
        let at = "2025-08-01T00:00:00Z".to_string();
        let mut removal = remove_dataset(&self.state, caller, id, found, at)?;
        let file = file.unwrap();
        let mut event = RemovalEvent::AxesRead(Some(file.at.clone()), file.declares_axes);
        loop {
            let (action, remark) = removal.step(event);
            self.remarks.extend(remark);
            event = match action {
                RemovalAction::KeepAxes => {
                    if self.revisions_writable {
                        let axes = KeptAxes {
                            n_traces: 40,
                            n_samples: 8,
                            y_anchor: Some("twtt".to_string()),
                        };
                        self.axes.insert(removal.revision.clone(), axes);
                        RemovalEvent::AxesKept(Ok(()))
                    } else {
                        RemovalEvent::AxesKept(Err("not a directory".to_string()))
                    }
                }
                RemovalAction::RecordChecksum => {
                    self.ledger.note_current(
                        removal.id.as_str(),
                        &removal.revision,
                        &Some("checksum".to_string()),
                    );
                    RemovalEvent::ChecksumRecorded(Ok(()))
                }
                RemovalAction::Archive => {
                    let (moved, kept): (Vec<_>, Vec<_>) =
                        self.picks.drain(..).partition(|(of, _)| of == id);
                    self.picks = kept;
                    let count = moved.len();
                    self.archived.extend(moved);
                    RemovalEvent::Archived(Ok(count))
                }
                RemovalAction::CloseAndDelete(doomed) => {
                    self.state.close_radargram(id);
                    assert!(self.state.catalog().radargram(id).is_none());
                    let doomed = doomed.to_text();
                    self.files.retain(|file| file.path != doomed);
                    RemovalEvent::Deleted(Ok(()))
                }
                RemovalAction::RecordIgnore(decision) => {
                    record_ignore(&mut self.overrides, &removal.id, decision);
                    RemovalEvent::Ignored(Ok(()))
                }
                RemovalAction::RecordSupersession => {
                    self.ledger.supersede(
                        removal.id.as_str(),
                        &removal.revision,
                        &None,
                        &removal.at,
                    );
                    RemovalEvent::Superseded(Ok(()))
                }
                RemovalAction::Rediscover => {
                    self.rediscover();
                    RemovalEvent::Rediscovered(Ok(()))
                }
                RemovalAction::Answer(entry, removed) => {
                    self.log.push(entry);
                    return Ok(removed);
                }
                RemovalAction::Refuse(error) => return Err(error),
            };
        }
    }

    fn restore(&mut self, caller: &Caller, raw: &str) -> Result<(), ApiError> {
        let id = restore_dataset(caller, self.state.has_project, raw, &mut self.overrides)?;
        self.rediscover();
        let snapshot = self.state.catalog();
        if let Some(revision) = restored_revision(&snapshot.catalog, &id) {
            self.ledger.note_current_again(id.as_str(), &revision, &None);
        }
        self.log.push(restore_log(caller, &id, "2025-09-01T00:00:00Z".to_string()));
        Ok(())
    }

    fn revisions(&self, caller: &Caller, id: &str) -> Result<Vec<RevisionSummary>, ApiError> {
        list_revisions(caller, self.state.has_project, id, Ok(self.ledger.clone()), &self.axes)
    }
}

fn discovered(roots: &[CatalogRoot], files: &[Stored], overrides: &CatalogOverrides) -> Catalog {
    let found: Vec<Vec<Inspected>> = roots
        .iter()
        .enumerate()
        .map(|(i, root)| {
            let walked: Vec<WalkedFile> = files
                .iter()
                .map(|file| WalkedFile { path: path(&file.path), is_file: true })
                .filter(|file| file.path.starts_with(&root.path))
                .collect();
            discover_candidates(root, i, &walked)
                .into_iter()
                .map(|candidate| {
                    let whole = format!("{}/{}", root.path.to_text(), candidate.relative_path);
                    let file = files.iter().find(|file| file.path == whole).unwrap();
                    Inspected { inspection: radargram(&file.id, &file.at), candidate }
                })
                .collect()
        })
        .collect();
    Catalog::discover_roots(roots, found, overrides)
}

const ROOMY: u64 = 1024 * 1024 * 1024;

#[test]
fn sizes_read_as_sizes() {
    assert_eq!(human(0), "0 bytes");
    assert_eq!(human(512), "512 bytes");
    assert_eq!(human(2048), "2.0 kB");
    assert_eq!(human(5 * 1024 * 1024), "5.0 MB");
    assert_eq!(human(3 * 1024 * 1024 * 1024), "3.0 GB");
}

#[test]
fn sizes_are_rounded_as_doubles_are_written() {
    let mut sizes: Vec<u64> = vec![
        1,
        1023,
        1024,
        1025,
        1076,
        1126,
        1536,
        1048575,
        1048576,
        1073741823,
        1073741824,
        (1 << 53) - 1,
        1 << 53,
        (1 << 53) + 1,
        u64::MAX - 1,
        u64::MAX,
    ];
    let mut n: u64 = 0x9e37_79b9_7f4a_7c15;
    for shift in 0..64 {
        for _ in 0..50 {
            n = n.wrapping_mul(6364136223846793005).wrapping_add(1442695040888963407);
            sizes.push(n >> shift);
        }
    }
    for bytes in sizes {
        let expected = if bytes >= 1 << 30 {
            format!("{:.1} GB", bytes as f64 / (1u64 << 30) as f64)
        } else if bytes >= 1 << 20 {
            format!("{:.1} MB", bytes as f64 / (1u64 << 20) as f64)
        } else if bytes >= 1 << 10 {
            format!("{:.1} kB", bytes as f64 / (1u64 << 10) as f64)
        } else {
            format!("{bytes} bytes")
        };
        assert_eq!(human(bytes), expected);
    }
}

#[test]
fn a_temporary_file_removes_itself_unless_it_was_installed() {
    let name = path("/project/upload.tmp.nc");
    let refused = TempFile::new(name.clone());
    assert_eq!(refused.leftover(), Some(name.clone()));
    let installed = TempFile::new(name).installed();
    assert_eq!(installed.leftover(), None);
}

#[test]
fn a_full_project_says_how_much_there_is() {
    let error = too_large(2048, 512, 5 * 1024 * 1024);
    assert_eq!(error.status, 413);
    assert_eq!(error.code, "project_full");
    assert_eq!(
        error.message,
        "That radargram is 2.0 kB and the project has 512 bytes left of its 5.0 MB limit. Remove \
         something, or raise the limit with `max_bytes` under [radargrams] in ridal.toml."
    );
}

#[test]
fn a_declared_length_is_believed_only_where_it_reads() {
    assert_eq!(accept_length(100, 40, &None), Ok(60));
    assert_eq!(accept_length(100, 40, &Some("60".to_string())), Ok(60));
    assert_eq!(accept_length(100, 40, &Some("+60".to_string())), Ok(60));
    assert_eq!(accept_length(100, 40, &Some("sixty one".to_string())), Ok(60));
    assert_eq!(accept_length(100, 40, &Some("99999999999999999999".to_string())), Ok(60));
    assert_eq!(
        accept_length(100, 40, &Some("61".to_string())).unwrap_err().code,
        "project_full"
    );
    // A project that is over its cap has no room at all.
    assert_eq!(accept_length(100, 140, &None), Ok(0));
    assert_eq!(accept_length(100, 140, &Some("1".to_string())).unwrap_err().status, 413);
}

#[test]
fn the_running_total_enforces_the_cap() {
    // Refused at once while nothing was checked before.
    let mut meter = UploadMeter::new(10, 100);
    assert!(meter.take(10).is_ok());
    assert_eq!(meter.finish(), Ok(10));
    assert!(meter.take(1).is_err());
    assert!(meter.finish().is_err());

    // After a check it is looked at again a whole check later, and at the end.
    let mut meter = UploadMeter::new(CHUNK_CHECK_BYTES, CHUNK_CHECK_BYTES * 2);
    assert!(meter.take(CHUNK_CHECK_BYTES).is_ok());
    assert_eq!(meter.since_check, 0);
    assert!(meter.take(5).is_ok());
    assert_eq!(meter.finish().unwrap_err().code, "project_full");
    assert!(meter.take(CHUNK_CHECK_BYTES - 5).is_err());
    assert_eq!(meter.written, CHUNK_CHECK_BYTES * 2);
}

#[test]
fn an_uploaded_radargram_appears_without_a_restart() {
    let mut project = Project::new();
    let added = project
        .upload(&erik(), Some("new.nc"), radargram("arrived", DISCOVERED), 9000, ROOMY)
        .unwrap();
    assert_eq!(added.radargram_id, "arrived");
    assert_eq!(added.revision_id, revision("arrived", DISCOVERED));
    assert_eq!(added.bytes, 9000);
    assert_eq!(added.archived_interpretations, 0);

    // In the catalog immediately, and under its id rather than the name the
    // client happened to use.
    assert!(project.ids().contains(&"arrived".to_string()));
    assert!(project.has_file("/project/ridal/radargrams/arrived.nc"));
    assert!(!project.has_file("/project/ridal/radargrams/new.nc"));

    // And it is recorded.
    let last = project.log.last().unwrap();
    assert_eq!(last.action, AuditAction::Added);
    assert_eq!(last.user, "erik");
    assert_eq!(last.note, Some("new.nc".to_string()));
    let history = project.revisions(&erik(), "arrived").unwrap();
    assert_eq!(history.len(), 1);
    assert!(history[0].current);
}

#[test]
fn an_upload_that_is_not_a_ridal_radargram_leaves_nothing_behind() {
    let mut project = Project::new();
    let before = project.files.clone();
    let error = project
        .upload(
            &erik(),
            Some("notes.nc"),
            Inspection::Unreadable("bad magic".to_string()),
            20,
            ROOMY,
        )
        .unwrap_err();
    assert_eq!(error.status, 400);
    assert_eq!(error.code, "not_a_radargram");
    assert_eq!(error.message, "notes.nc is not readable as a NetCDF file: bad magic");
    assert_eq!(project.files, before);
    assert!(project.log.is_empty());
}

#[test]
fn an_upload_of_a_legacy_ridal_file_is_refused_with_a_reprocess_message() {
    let mut project = Project::new();
    let before = project.files.clone();
    let error = project
        .upload(
            &erik(),
            None,
            Inspection::Legacy("ridal version 0.5.0".to_string()),
            20,
            ROOMY,
        )
        .unwrap_err();
    assert_eq!(error.status, 400);
    assert_eq!(error.code, "ridal_file_too_old");
    assert!(error.message.starts_with("the upload was processed by ridal version 0.5.0"));
    assert!(error.message.contains("Process it again"));
    assert_eq!(project.files, before);
}

#[test]
fn an_upload_of_a_valid_but_unrelated_netcdf_is_refused_as_not_ridal() {
    let mut project = Project::new();
    let before = project.files.clone();
    let error =
        project.upload(&erik(), Some("sst.nc"), Inspection::Foreign, 20, ROOMY).unwrap_err();
    assert_eq!(error.status, 400);
    assert_eq!(error.code, "not_a_ridal_radargram");
    assert_eq!(project.files, before);
}

#[test]
fn only_a_supported_file_is_taken() {
    assert!(judge_inspection(radargram("a", DISCOVERED), &None).is_ok());
    assert!(judge_inspection(Inspection::Foreign, &None).is_err());
}

#[test]
fn an_upload_colliding_with_an_existing_id_is_refused() {
    let mut project = Project::new();
    let before = project.files.clone();
    let error =
        project.upload(&erik(), None, radargram("ours", DISCOVERED), 9000, ROOMY).unwrap_err();
    assert_eq!(error.status, 409);
    assert_eq!(error.code, "radargram_exists");
    assert_eq!(project.files, before, "the existing one is untouched");
}

#[test]
fn removing_a_project_radargram_deletes_the_file_and_keeps_the_picks() {
    let mut project = Project::new();
    project.picks.push(("ours".to_string(), "erik".to_string()));
    let removed = project.remove(&erik(), "ours").unwrap();
    assert_eq!(removed.outcome, "removed");
    assert_eq!(removed.archived, 1);
    assert!(!project.has_file("/project/ridal/radargrams/ours.nc"));
    assert!(project.picks.is_empty(), "nothing is left to reattach");
    assert_eq!(project.archived.len(), 1, "and nothing authored was destroyed");
    assert!(!project.ids().contains(&"ours".to_string()));
    let last = project.log.last().unwrap();
    assert_eq!(last.action, AuditAction::Removed);
    assert_eq!(last.note, Some("1 interpretation(s) archived".to_string()));

    // Uploading the id again says that the archive has something under it.
    let added =
        project.upload(&erik(), None, radargram("ours", DISCOVERED), 9000, ROOMY).unwrap();
    assert_eq!(added.archived_interpretations, 1);
    assert_eq!(
        project.log.last().unwrap().note,
        Some("1 archived interpretation(s) already under this id".to_string())
    );
    // The same revision is current once more.
    let history = project.revisions(&erik(), "ours").unwrap();
    assert_eq!(history.len(), 1);
    assert!(history[0].current);
    assert_eq!(history[0].superseded_at, None);
}

#[test]
fn removing_an_external_radargram_ignores_it_and_leaves_the_file_alone() {
    let mut project = Project::new();
    let removed = project.remove(&erik(), "theirs").unwrap();
    assert_eq!(removed.outcome, "ignored");
    assert!(project.has_file("/archive/theirs.nc"), "the archive is not to be changed");
    assert_eq!(project.ids(), vec!["ours"]);
    assert_eq!(project.log.last().unwrap().action, AuditAction::Ignored);

    // Listed as ignored rather than simply absent, and restorable.
    let snapshot = project.state.catalog();
    let listing =
        list_ignored(&erik(), true, Ok(project.overrides.clone()), &snapshot.catalog).unwrap();
    assert_eq!(listing.ignored.len(), 1);
    assert_eq!(listing.ignored[0].radargram_id, "theirs");
    assert_eq!(listing.ignored[0].since, Some("2025-08-01T00:00:00Z".to_string()));
    assert!(listing.vestigial.is_empty());

    project.restore(&erik(), "theirs").unwrap();
    assert_eq!(project.ids().len(), 2);
    assert_eq!(project.log.last().unwrap().action, AuditAction::Unignored);
    assert_eq!(project.overrides, CatalogOverrides::default());
}

#[test]
fn a_decision_with_nothing_to_act_on_is_listed_apart() {
    let mut project = Project::new();
    record_ignore(
        &mut project.overrides,
        &RadargramId::new("gone").unwrap(),
        IgnoredRadargram { since: Some("2024".to_string()), revision_id: None },
    );
    project.rediscover();
    project.remove(&erik(), "theirs").unwrap();
    let snapshot = project.state.catalog();
    let listing =
        list_ignored(&erik(), true, Ok(project.overrides.clone()), &snapshot.catalog).unwrap();
    assert_eq!(listing.ignored.len(), 1);
    assert_eq!(listing.ignored[0].radargram_id, "theirs");
    assert_eq!(listing.vestigial.len(), 1);
    assert_eq!(listing.vestigial[0].radargram_id, "gone");
    assert_eq!(listing.vestigial[0].since, Some("2024".to_string()));

    let error =
        list_ignored(&erik(), true, Err("broken".to_string()), &snapshot.catalog).unwrap_err();
    assert_eq!((error.status, error.code), (500, "overrides_read_failed"));
    let error = list_ignored(&student(), true, Ok(CatalogOverrides::default()), &snapshot.catalog)
        .unwrap_err();
    assert_eq!(error.status, 403);
}

#[test]
fn an_upload_past_the_project_cap_is_refused_before_it_is_written() {
    let mut project = Project::new();
    let before = project.files.clone();
    let error =
        project.upload(&erik(), None, radargram("big", DISCOVERED), 9000, 1024).unwrap_err();
    assert_eq!(error.status, 413);
    assert_eq!(error.code, "project_full");
    assert!(error.message.contains("max_bytes"), "the message says how to fix it");
    assert_eq!(project.files, before);
}

#[test]
fn an_interrupted_upload_leaves_no_temporary_file_behind() {
    // No declared length, so the total is what stops it.
    let (_, mut meter) =
        upload_dataset(&erik(), true, Ok(path(RADARGRAMS)), 1024, 4096, &None).unwrap();
    let error = meter.take(64 * 1024).unwrap_err();
    assert_eq!(error.status, 413);
    // And the temporary file is what is left to delete.
    let cleanup = TempFile::new(path("/project/ridal/radargrams/upload-1.tmp.nc"));
    assert!(cleanup.leftover().is_some());
}

#[test]
fn a_picker_can_neither_add_nor_remove() {
    let mut project = Project::new();
    let refused = project.upload(&student(), None, radargram("a", DISCOVERED), 8, ROOMY);
    assert_eq!(refused.unwrap_err().status, 403);
    assert_eq!(project.remove(&student(), "ours").unwrap_err().status, 403);
    assert_eq!(project.restore(&student(), "ours").unwrap_err().status, 403);
}

#[test]
fn nothing_is_added_to_a_catalog_that_is_no_project() {
    let mut project = Project::new();
    project.state.has_project = false;
    let refused = project.upload(&erik(), None, radargram("a", DISCOVERED), 8, ROOMY).unwrap_err();
    assert_eq!((refused.status, refused.code), (409, "not_a_project"));
    assert!(refused.message.contains("ridal project init"));
    assert_eq!(project.remove(&erik(), "ours").unwrap_err().code, "not_a_project");
    assert_eq!(project.restore(&erik(), "ours").unwrap_err().code, "not_a_project");
    let refused = project.revisions(&erik(), "ours").unwrap_err();
    assert_eq!((refused.status, refused.code), (404, "not_a_project"));
}

#[test]
fn an_upload_of_an_ignored_id_is_refused_rather_than_installed_and_hidden() {
    let mut project = Project::new();
    assert_eq!(project.remove(&erik(), "theirs").unwrap().outcome, "ignored");
    let error =
        project.upload(&erik(), None, radargram("theirs", DISCOVERED), 9000, ROOMY).unwrap_err();
    assert_eq!(error.status, 409);
    assert_eq!(error.code, "radargram_ignored");
    assert!(!project.has_file("/project/ridal/radargrams/theirs.nc"), "nothing was installed");
}

#[test]
fn an_upload_will_not_follow_a_symlinked_radargram_directory_out_of_the_project() {
    let root = path("/project");
    let destination = path("/project/ridal/radargrams");
    let error = writable_destination(&root, &destination, path("/elsewhere")).unwrap_err();
    assert_eq!(error.status, 409);
    assert_eq!(error.code, "destination_outside_project");
    assert_eq!(
        error.message,
        "/project/ridal/radargrams resolves to /elsewhere, which is outside the project. Ridal \
         does not write outside the project, so this upload was refused."
    );
    // A name that merely starts the same is outside too.
    assert!(writable_destination(&root, &destination, path("/project-2/x")).is_err());
    let inside = writable_destination(&root, &destination, path("/project/moved")).unwrap();
    assert_eq!(inside, path("/project/moved"));

    let refused = upload_dataset(&erik(), true, Err(error), ROOMY, 0, &None).unwrap_err();
    assert_eq!(refused.code, "destination_outside_project");
}

#[test]
fn removing_a_radargram_keeps_its_axes_so_the_picks_stay_carryable() {
    let mut project = Project::new();
    let before = project.revisions(&erik(), "ours").unwrap();
    assert_eq!(before.len(), 1);
    assert!(before[0].current);
    assert_eq!(before[0].superseded_at, None);
    assert!(!before[0].has_axes);
    assert_eq!(before[0].n_traces, None);

    project.remove(&erik(), "ours").unwrap();
    assert!(!project.has_file("/project/ridal/radargrams/ours.nc"));

    let after = project.revisions(&erik(), "ours").unwrap();
    assert_eq!(after.len(), 1);
    assert!(after[0].has_axes, "the mapping outlived the file");
    assert!(!after[0].current, "nothing is current now");
    assert!(after[0].superseded_at.is_some());
    assert_eq!(after[0].superseded_by, None);
    assert_eq!(after[0].y_anchor, Some("twtt".to_string()));
    assert_eq!(after[0].n_traces, Some(40));
    assert_eq!(after[0].n_samples, Some(8));
}

#[test]
fn a_viewer_can_read_the_history_but_not_change_it() {
    let mut project = Project::new();
    let reader = account("reader", Role::Viewer, DownloadScope::Nothing);
    assert!(project.revisions(&reader, "ours").is_ok());
    assert_eq!(project.remove(&reader, "ours").unwrap_err().status, 403);
    assert_eq!(project.revisions(&reader, "Not Valid").unwrap_err().code, "invalid_radargram_id");
    assert!(project.revisions(&reader, "unheard-of").unwrap().is_empty());
    let failed = list_revisions(&reader, true, "ours", Err("broken".to_string()), &project.axes);
    assert_eq!(failed.unwrap_err().code, "ledger_read_failed");
}

#[test]
fn a_radargram_that_has_never_been_removed_still_has_a_current_revision() {
    let project = Project::new();
    let revisions = project.revisions(&erik(), "ours").unwrap();
    assert_eq!(revisions.len(), 1, "discovery registered it");
    assert_eq!(revisions[0].revision_id, revision("ours", DISCOVERED));
    assert!(revisions[0].current);
    assert_eq!(revisions[0].superseded_at, None);
    assert!(!revisions[0].has_axes, "no snapshot yet: nothing has superseded it");
}

#[test]
fn restoring_an_ignored_radargram_stops_its_history_saying_it_is_gone() {
    let mut project = Project::new();
    assert_eq!(project.remove(&erik(), "theirs").unwrap().outcome, "ignored");
    let while_ignored = project.revisions(&erik(), "theirs").unwrap();
    assert_eq!(while_ignored.len(), 1);
    assert!(!while_ignored[0].current);
    assert!(while_ignored[0].superseded_at.is_some());

    project.restore(&erik(), "theirs").unwrap();
    let after = project.revisions(&erik(), "theirs").unwrap();
    assert_eq!(after.len(), 1);
    assert!(after[0].current, "current again");
    assert_eq!(after[0].superseded_at, None, "and no longer says it is gone");
}

#[test]
fn the_history_never_contradicts_what_is_served() {
    let mut project = Project::new();
    let put = |project: &mut Project, at: &str| {
        for file in project.files.iter_mut() {
            if file.id == "theirs" {
                file.at = at.to_string();
            }
        }
        project.rediscover();
    };
    // The file is replaced behind the server's back, and put back again.
    put(&mut project, "2026-01-01T00:00:00Z");
    assert_eq!(
        project.ledger.current("theirs"),
        Some(revision("theirs", "2026-01-01T00:00:00Z"))
    );
    put(&mut project, DISCOVERED);
    assert_eq!(project.ledger.current("theirs"), Some(revision("theirs", DISCOVERED)));
    assert_eq!(project.ledger.history("theirs").len(), 2);

    // Ignoring and restoring it ends where it began, whatever came in between.
    project.remove(&erik(), "theirs").unwrap();
    assert_ne!(project.ledger.current("theirs"), Some(revision("theirs", DISCOVERED)));
    project.restore(&erik(), "theirs").unwrap();
    assert!(project.ids().contains(&"theirs".to_string()));
    let history = project.revisions(&erik(), "theirs").unwrap();
    let served: Vec<&RevisionSummary> =
        history.iter().filter(|r| r.revision_id == revision("theirs", DISCOVERED)).collect();
    assert_eq!(served.len(), 1);
    assert!(served[0].current);
    assert_eq!(served[0].superseded_at, None);
    assert_eq!(history.iter().filter(|r| r.current).count(), 1);
}

#[test]
fn what_comes_back_may_be_another_revision() {
    let mut project = Project::new();
    project.remove(&erik(), "theirs").unwrap();
    // Reprocessed while it was out of sight.
    for file in project.files.iter_mut() {
        if file.id == "theirs" {
            file.at = "2026-01-01T00:00:00Z".to_string();
        }
    }
    project.restore(&erik(), "theirs").unwrap();
    let history = project.revisions(&erik(), "theirs").unwrap();
    assert_eq!(history.len(), 2);
    assert!(!history[0].current);
    assert!(history[0].superseded_at.is_some());
    assert!(history[1].current);
    assert_eq!(history[1].revision_id, revision("theirs", "2026-01-01T00:00:00Z"));
}

#[test]
fn only_what_is_ignored_can_be_restored() {
    let mut project = Project::new();
    let error = project.restore(&erik(), "ours").unwrap_err();
    assert_eq!((error.status, error.code), (404, "not_ignored"));
    assert_eq!(error.message, "'ours' is not ignored, so there is nothing to restore.");
    let error = project.restore(&erik(), "Not Valid").unwrap_err();
    assert_eq!((error.status, error.code), (400, "invalid_radargram_id"));
}

#[test]
fn a_removal_is_refused_when_the_axes_it_declares_cannot_be_kept() {
    let mut project = Project::new();
    project.revisions_writable = false;
    let refused = project.remove(&erik(), "ours").unwrap_err();
    assert_eq!(refused.status, 500);
    assert_eq!(refused.code, "snapshot_failed");
    assert!(project.has_file("/project/ridal/radargrams/ours.nc"), "the file is still there");
    assert!(project.revisions(&erik(), "ours").unwrap()[0].current);

    // An archive keeps its file, so there it is only remarked on.
    assert_eq!(project.remove(&erik(), "theirs").unwrap().outcome, "ignored");
    assert_eq!(
        project.remarks,
        vec!["Warning: 'theirs' declares axes but they could not be kept: not a directory"]
    );

    // Once they can be kept, the same removal goes through.
    project.revisions_writable = true;
    assert_eq!(project.remove(&erik(), "ours").unwrap().outcome, "removed");
    assert!(!project.has_file("/project/ridal/radargrams/ours.nc"));
}

#[test]
fn a_file_that_changed_on_disk_is_not_removed() {
    let mut project = Project::new();
    for file in project.files.iter_mut() {
        file.at = "2026-01-01T00:00:00Z".to_string();
    }
    let refused = project.remove(&erik(), "ours").unwrap_err();
    assert_eq!(refused.code, "snapshot_failed");
    assert!(refused.message.starts_with("'ours' on disk is not the revision the catalog has ("));
    assert!(refused.message.ends_with("carries its interpretations forward."));
    assert!(project.has_file("/project/ridal/radargrams/ours.nc"));
}

#[test]
fn a_file_without_axes_has_nothing_to_keep() {
    let mut project = Project::new();
    for file in project.files.iter_mut() {
        file.declares_axes = false;
    }
    assert_eq!(project.remove(&erik(), "ours").unwrap().outcome, "removed");
    assert!(project.remarks[0].starts_with("Note: 'ours' does not declare its axes"));
    assert_eq!(project.axes.len(), 0);
}

#[test]
fn each_failing_step_of_a_removal_is_answered() {
    let project = Project::new();
    let begin = |id: &str| {
        remove_dataset(&project.state, &erik(), id, Ok(path("/x/y.nc")), "now".to_string()).unwrap()
    };
    let read = |id: &str| RemovalEvent::AxesRead(Some(DISCOVERED.to_string()), id == "axes");
    let code = |action: RemovalAction| match action {
        RemovalAction::Refuse(error) => (error.status, error.code, error.message),
        other => panic!("not refused: {other:?}"),
    };
    let failed = || Err("no".to_string());

    let mut removal = begin("ours");
    removal.step(read("none"));
    assert_eq!(
        code(removal.step(RemovalEvent::Archived(Err("no".to_string()))).0),
        (500, "archive_failed", "no".to_string())
    );
    assert_eq!(removal.stage, RemovalStage::Over);

    let mut removal = begin("ours");
    removal.step(read("none"));
    removal.step(RemovalEvent::Archived(Ok(0)));
    assert_eq!(
        code(removal.step(RemovalEvent::Deleted(failed())).0),
        (500, "remove_failed", "Could not remove the file: no".to_string())
    );

    let mut removal = begin("theirs");
    removal.step(read("none"));
    removal.step(RemovalEvent::Archived(Ok(0)));
    assert_eq!(
        code(removal.step(RemovalEvent::Ignored(failed())).0),
        (500, "overrides_write_failed", "no".to_string())
    );

    // What only concerns the history is remarked on and does not refuse.
    let mut removal = begin("ours");
    removal.step(RemovalEvent::AxesRead(Some(DISCOVERED.to_string()), true));
    removal.step(RemovalEvent::AxesKept(Ok(())));
    let (action, remark) = removal.step(RemovalEvent::ChecksumRecorded(failed()));
    assert_eq!(action, RemovalAction::Archive);
    assert_eq!(
        remark,
        Some("Warning: could not record the axis checksum of 'ours': no".to_string())
    );
    removal.step(RemovalEvent::Archived(Ok(0)));
    removal.step(RemovalEvent::Deleted(Ok(())));
    let (action, remark) = removal.step(RemovalEvent::Superseded(failed()));
    assert_eq!(action, RemovalAction::Rediscover);
    assert_eq!(remark, Some("Warning: could not record the supersession: no".to_string()));
    assert_eq!(
        code(removal.step(RemovalEvent::Rediscovered(failed())).0),
        (500, "rediscover_failed", "no".to_string())
    );

    let refuse = |id: &str, found: Result<FilePath, String>| {
        remove_dataset(&project.state, &erik(), id, found, "now".to_string()).unwrap_err()
    };
    assert_eq!(refuse("missing", Ok(path("/x"))).code, "dataset_not_found");
    assert_eq!(refuse("Not Valid", Ok(path("/x"))).code, "invalid_radargram_id");
    assert_eq!(refuse("ours", Err("lost".to_string())).code, "path_resolve_failed");
}

#[test]
fn each_failing_step_of_an_upload_is_answered() {
    let catalog = Catalog::default();
    let begin = || {
        let mut upload = Upload::begin(
            path("/project/r"),
            UploadQuery { filename: Some("n.nc".to_string()) },
            &erik(),
            7,
        );
        let (action, _) =
            upload.step(UploadEvent::Inspected(radargram("new", DISCOVERED)), &catalog);
        assert_eq!(action, UploadAction::ReadOverrides);
        upload
    };
    let code = |action: UploadAction| match action {
        UploadAction::Refuse(error) => (error.status, error.code, error.message),
        other => panic!("not refused: {other:?}"),
    };

    let mut upload = begin();
    assert_eq!(
        code(upload.step(UploadEvent::OverridesRead(Err("no".to_string())), &catalog).0),
        (500, "overrides_read_failed", "no".to_string())
    );
    assert_eq!(upload.stage, UploadStage::Over);

    let nothing = || UploadEvent::OverridesRead(Ok(CatalogOverrides::default()));
    let mut upload = begin();
    upload.step(nothing(), &catalog);
    assert_eq!(
        code(upload.step(UploadEvent::ArchiveCounted(Err("no".to_string())), &catalog).0),
        (500, "archive_read_failed", "no".to_string())
    );

    let mut upload = begin();
    upload.step(nothing(), &catalog);
    let (action, _) = upload.step(UploadEvent::ArchiveCounted(Ok(2)), &catalog);
    assert_eq!(action, UploadAction::Install(path("/project/r/new.nc")));
    assert_eq!(
        code(upload.step(UploadEvent::Installed(Err("no".to_string())), &catalog).0),
        (500, "install_failed", "Could not install /project/r/new.nc: no".to_string())
    );

    let mut upload = begin();
    upload.step(nothing(), &catalog);
    upload.step(UploadEvent::ArchiveCounted(Ok(2)), &catalog);
    let (action, _) = upload.step(UploadEvent::Installed(Ok(())), &catalog);
    assert_eq!(
        action,
        UploadAction::RecordRevision("new".to_string(), revision("new", DISCOVERED))
    );
    let (action, remark) = upload.step(UploadEvent::Recorded(Err("no".to_string())), &catalog);
    assert_eq!(action, UploadAction::Rediscover);
    assert_eq!(
        remark,
        Some("Warning: could not record the revision of 'new': no".to_string())
    );
    let failed = UploadEvent::Rediscovered(Err("no".to_string()), "now".to_string());
    assert_eq!(
        code(upload.step(failed, &catalog).0),
        (500, "rediscover_failed", "no".to_string())
    );

    let mut upload = begin();
    upload.step(nothing(), &catalog);
    upload.step(UploadEvent::ArchiveCounted(Ok(2)), &catalog);
    upload.step(UploadEvent::Installed(Ok(())), &catalog);
    upload.step(UploadEvent::Recorded(Ok(())), &catalog);
    let done = UploadEvent::Rediscovered(Ok(()), "now".to_string());
    match upload.step(done, &catalog).0 {
        UploadAction::Answer(entry, added) => {
            assert_eq!(entry.at, "now");
            assert_eq!(
                entry.note,
                Some("n.nc; 2 archived interpretation(s) already under this id".to_string())
            );
            assert_eq!(added.archived_interpretations, 2);
            assert_eq!(added.bytes, 7);
        }
        other => panic!("not answered: {other:?}"),
    }
}

#[test]
fn a_history_marks_and_unmarks() {
    let mut ledger = Ledger::new();
    assert_eq!(ledger.current("a"), None);
    ledger.note_current("a", "r1", &None);
    assert_eq!(ledger.current("a"), Some("r1".to_string()));
    ledger.supersede("a", "r1", &Some("r2".to_string()), "t1");
    assert_eq!(ledger.current("a"), None);
    // Merely being there does not undo it.
    ledger.note_current("a", "r1", &Some("sum".to_string()));
    assert_eq!(ledger.current("a"), None);
    let records = ledger.history("a");
    assert_eq!(records.len(), 1);
    assert_eq!(records[0].checksum, Some("sum".to_string()));
    assert_eq!(records[0].superseded_by, Some("r2".to_string()));
    // Coming back does, and keeps the checksum that is known.
    ledger.note_current_again("a", "r1", &None);
    assert_eq!(ledger.current("a"), Some("r1".to_string()));
    assert_eq!(ledger.history("a")[0].checksum, Some("sum".to_string()));
    assert_eq!(ledger.history("a")[0].superseded_by, None);
    // Also where another came after it: the others stay as they were.
    ledger.note_current_again("a", "r2", &None);
    assert_eq!(ledger.current("a"), Some("r2".to_string()));
    ledger.note_current_again("a", "r1", &None);
    assert_eq!(ledger.current("a"), Some("r1".to_string()));
    let order: Vec<String> =
        ledger.history("a").into_iter().map(|record| record.revision_id).collect();
    assert_eq!(order, vec!["r2", "r1"]);
    assert_eq!(ledger.history("a")[1].checksum, Some("sum".to_string()));
    // Superseding something unheard of records it.
    ledger.supersede("b", "q", &None, "t2");
    assert_eq!(ledger.history("b").len(), 1);
    assert_eq!(ledger.current("b"), None);
}
