//! Adding a radargram while the server runs.
//!
//! An upload is a row of steps that the server takes one at a time: each tells
//! what the step before it came to, and is told what to do next. Nothing in
//! the project changes before the file is installed, so a refused upload
//! leaves the catalog as it was.
use vstd::prelude::*;

use crate::api_error::{refusal, ApiError, ErrorView};
use crate::audit::{AuditAction, AuditEntry, AuditView};
use crate::auth::{project_refusal, require_project, Caller};
use crate::catalog::{entry_with_id, Catalog, CatalogView};
use crate::identity::{is_slug, revision_of, RevisionId};
use crate::overrides::{copy_text, CatalogOverrides, OverridesView};
use crate::paths::{lies_under, path_text, FilePath};
use crate::selection::{Inspection, InspectionView, MetaView, RadargramMeta};
use crate::sizes::{accept_length, declared_length, project_full, room_left, UploadMeter};
use crate::text;
use crate::text::decimal;

verus! {

broadcast use vstd::string::group_string_axioms;

/// What a request to upload says beside the file itself.
#[derive(Debug, PartialEq, Eq)]
pub struct UploadQuery {
    /// What the file was called where it came from. For messages only: no path
    /// is ever built from it.
    pub filename: Option<String>,
}

/// What an upload is answered with.
#[derive(Debug, PartialEq, Eq)]
pub struct Added {
    pub radargram_id: String,
    pub revision_id: String,
    pub display_name: Option<String>,
    pub group_name: Option<String>,
    pub bytes: u64,
    /// How many interpretations an earlier removal left in the archive under
    /// this id.
    pub archived_interpretations: usize,
}

/// What an upload is answered with, as plain values.
#[verifier::ext_equal]
pub struct AddedView {
    pub radargram_id: Seq<char>,
    pub revision_id: Seq<char>,
    pub display_name: Option<Seq<char>>,
    pub group_name: Option<Seq<char>>,
    pub bytes: u64,
    pub archived_interpretations: usize,
}

impl View for Added {
    type V = AddedView;

    open spec fn view(&self) -> AddedView {
        AddedView {
            radargram_id: self.radargram_id@,
            revision_id: self.revision_id@,
            display_name: self.display_name.deep_view(),
            group_name: self.group_name.deep_view(),
            bytes: self.bytes,
            archived_interpretations: self.archived_interpretations,
        }
    }
}

/// Why nothing can be added to a catalog that is no project.
pub open spec fn nowhere_to_put() -> Seq<char> {
    "This catalog is not a Ridal project, so there is nowhere to put a radargram. Run `ridal project init` in the directory you are serving, then restart."@
}

/// Refuses a caller who may not change which radargrams there are.
pub fn project_for(caller: &Caller, has_project: bool, action: &str) -> (verdict: Result<
    (),
    ApiError,
>)
    ensures
        match verdict {
            Ok(_) => project_refusal(*caller, has_project, action@, nowhere_to_put()) is None,
            Err(error) => project_refusal(*caller, has_project, action@, nowhere_to_put()) == Some(
                error@,
            ),
        },
{
    require_project(
        caller,
        has_project,
        action,
        "This catalog is not a Ridal project, so there is nowhere to put a radargram. Run `ridal project init` in the directory you are serving, then restart.",
    )
}

/// How a destination outside the project is answered.
pub open spec fn outside_project(
    destination: Seq<Seq<char>>,
    resolved: Seq<Seq<char>>,
) -> ErrorView {
    refusal(
        409,
        "destination_outside_project"@,
        path_text(destination) + " resolves to "@ + path_text(resolved)
            + ", which is outside the project. Ridal does not write outside the project, so this upload was refused."@,
    )
}

/// The directory uploads go to, with links resolved, where it lies in the
/// project. One that was replaced by a link to somewhere else is refused.
pub fn writable_destination(root: &FilePath, destination: &FilePath, resolved: FilePath) -> (path:
    Result<FilePath, ApiError>)
    ensures
        match path {
            Ok(path) => lies_under(resolved@, root@) && path@ == resolved@,
            Err(error) => !lies_under(resolved@, root@) && error@ == outside_project(
                destination@,
                resolved@,
            ),
        },
{
    if resolved.starts_with(root) {
        Ok(resolved)
    } else {
        let mut message = destination.to_text();
        message.append(" resolves to ");
        message.append(resolved.to_text().as_str());
        message.append(
            ", which is outside the project. Ridal does not write outside the project, so this upload was refused.",
        );
        Err(ApiError::conflict("destination_outside_project", message))
    }
}

/// Takes up an upload: refuses a caller who may not add a radargram, a
/// destination that cannot be written to and a declared length that does not
/// fit, and otherwise says where the file goes and counts it as it arrives.
pub fn upload_dataset(
    caller: &Caller,
    has_project: bool,
    destination: Result<FilePath, ApiError>,
    cap: u64,
    used: u64,
    content_length: &Option<String>,
) -> (begun: Result<(FilePath, UploadMeter), ApiError>)
    ensures
        ({
            let barred = project_refusal(
                *caller,
                has_project,
                "add a radargram"@,
                nowhere_to_put(),
            );
            let left = room_left(cap, used);
            let declared = declared_length(content_length.deep_view());
            match begun {
                Ok((path, meter)) => {
                    &&& barred is None
                    &&& destination is Ok && path@ == destination->Ok_0@
                    &&& declared is Some ==> declared->0 <= left
                    &&& meter == (UploadMeter { room: left, cap, written: 0, since_check: 0 })
                    &&& meter.well_formed()
                },
                Err(error) => if barred is Some {
                    barred == Some(error@)
                } else if destination is Err {
                    error@ == destination->Err_0@
                } else {
                    declared is Some && declared->0 > left && error@ == project_full(
                        declared->0,
                        left,
                        cap,
                    )
                },
            }
        }),
{
    match project_for(caller, has_project, "add a radargram") {
        Ok(_) => {},
        Err(error) => {
            return Err(error);
        },
    }
    match destination {
        Err(error) => Err(error),
        Ok(path) => match accept_length(cap, used, content_length) {
            Err(error) => Err(error),
            Ok(room) => Ok((path, UploadMeter::new(room, cap))),
        },
    }
}

/// How the upload is spoken of.
pub open spec fn spoken_name(filename: Option<Seq<char>>) -> Seq<char> {
    match filename {
        Some(name) => name,
        None => "the upload"@,
    }
}

/// Why a radargram from before ids is not served.
pub open spec fn legacy_reason(version: Seq<char>) -> Seq<char> {
    "processed by "@ + version
        + ", which is too old to be served: it has no radargram id. Process it again with `ridal process`."@
}

/// How a file that is no radargram is answered.
pub open spec fn inspection_refusal(
    inspection: InspectionView,
    filename: Option<Seq<char>>,
) -> Option<ErrorView> {
    match inspection {
        InspectionView::Unreadable(reason) => Some(
            refusal(
                400,
                "not_a_radargram"@,
                spoken_name(filename) + " is not readable as a NetCDF file: "@ + reason,
            ),
        ),
        InspectionView::Legacy(version) => Some(
            refusal(
                400,
                "ridal_file_too_old"@,
                spoken_name(filename) + " was "@ + legacy_reason(version),
            ),
        ),
        InspectionView::Foreign => Some(
            refusal(
                400,
                "not_a_ridal_radargram"@,
                spoken_name(filename)
                    + " is a NetCDF file but not one Ridal processed: it has no radargram id. Process it with `ridal process` first."@,
            ),
        ),
        InspectionView::Supported(_) => None,
    }
}

/// How an id that is already served is answered.
pub open spec fn already_served(id: Seq<char>) -> ErrorView {
    refusal(
        409,
        "radargram_exists"@,
        "This catalog already has a radargram called '"@ + id
            + "'. Give the new one a different id with `ridal process --radargram-id`, or remove the existing one first."@,
    )
}

/// How an id that the project does not serve is answered: an ignored id is not
/// a free id.
pub open spec fn id_ignored(id: Seq<char>) -> ErrorView {
    refusal(
        409,
        "radargram_ignored"@,
        "'"@ + id
            + "' is on this project's ignore list, so adding it would install a file the catalog then hides. Restore that id first if this is meant to replace it."@,
    )
}

/// How a file that could not be installed is answered.
pub open spec fn install_failed(path: Seq<Seq<char>>, reason: Seq<char>) -> ErrorView {
    refusal(
        500,
        "install_failed"@,
        "Could not install "@ + path_text(path) + ": "@ + reason,
    )
}

/// The name a radargram is installed under.
pub open spec fn installed_name(id: Seq<char>) -> Seq<char> {
    id + ".nc"@
}

/// What is noted where the history could not be written.
pub open spec fn unrecorded_revision(id: Seq<char>, reason: Seq<char>) -> Seq<char> {
    "Warning: could not record the revision of '"@ + id + "': "@ + reason
}

/// What the log says of an upload: its file name, and interpretations that
/// were already in the archive under its id.
pub open spec fn upload_note(filename: Option<Seq<char>>, archived: usize) -> Option<Seq<char>> {
    if archived == 0 {
        filename
    } else {
        match filename {
            Some(name) => Some(
                name + "; "@ + decimal(archived as nat)
                    + " archived interpretation(s) already under this id"@,
            ),
            None => Some(
                decimal(archived as nat) + " archived interpretation(s) already under this id"@,
            ),
        }
    }
}

fn write_note(filename: &Option<String>, archived: usize) -> (note: Option<String>)
    ensures
        note.deep_view() == upload_note(filename.deep_view(), archived),
{
    if archived == 0 {
        return copy_text(filename);
    }
    match filename {
        Some(name) => {
            let mut note = name.clone();
            note.append("; ");
            note.append(text::decimal_usize(archived).as_str());
            note.append(" archived interpretation(s) already under this id");
            Some(note)
        },
        None => {
            let mut note = text::decimal_usize(archived);
            note.append(" archived interpretation(s) already under this id");
            Some(note)
        },
    }
}

/// How far an upload has come.
#[derive(Clone, Copy, Debug, PartialEq, Eq, Structural)]
pub enum UploadStage {
    /// The file is in, under a temporary name, and is being read.
    Inspecting,
    /// It is a radargram with a free id; what the project says is being read.
    ReadingOverrides,
    /// The archive is being searched for interpretations under its id.
    CountingArchive,
    /// It is being given its name.
    Installing,
    /// Its revision is being recorded.
    Recording,
    /// The catalog is being rebuilt.
    Rediscovering,
    /// It was answered.
    Over,
}

/// An upload under way.
#[derive(Debug, PartialEq)]
pub struct Upload {
    /// The directory it goes to, with links resolved.
    pub destination: FilePath,
    pub filename: Option<String>,
    /// Who is uploading.
    pub user: String,
    /// How much was written.
    pub bytes: u64,
    pub stage: UploadStage,
    /// What the file says about itself, once it was read.
    pub meta: Option<RadargramMeta>,
    /// How many interpretations the archive holds under its id.
    pub archived: usize,
}

/// An upload under way, as plain values.
#[verifier::ext_equal]
pub struct UploadView {
    pub destination: Seq<Seq<char>>,
    pub filename: Option<Seq<char>>,
    pub user: Seq<char>,
    pub bytes: u64,
    pub stage: UploadStage,
    pub meta: Option<MetaView>,
    pub archived: usize,
}

impl View for Upload {
    type V = UploadView;

    open spec fn view(&self) -> UploadView {
        UploadView {
            destination: self.destination@,
            filename: self.filename.deep_view(),
            user: self.user@,
            bytes: self.bytes,
            stage: self.stage,
            meta: match self.meta {
                Some(meta) => Some(meta@),
                None => None,
            },
            archived: self.archived,
        }
    }
}

/// What a step came to.
#[derive(Debug, PartialEq)]
pub enum UploadEvent {
    /// The file was read.
    Inspected(Inspection),
    /// What the project says was read.
    OverridesRead(Result<CatalogOverrides, String>),
    /// The archive was searched.
    ArchiveCounted(Result<usize, String>),
    /// The file was given its name.
    Installed(Result<(), String>),
    /// The revision was recorded.
    Recorded(Result<(), String>),
    /// The catalog was rebuilt, and what time it is.
    Rediscovered(Result<(), String>, String),
}

/// What a step came to, as plain values.
#[verifier::ext_equal]
pub enum UploadEventView {
    Inspected(InspectionView),
    OverridesRead(Result<OverridesView, Seq<char>>),
    ArchiveCounted(Result<usize, Seq<char>>),
    Installed(Result<(), Seq<char>>),
    Recorded(Result<(), Seq<char>>),
    Rediscovered(Result<(), Seq<char>>, Seq<char>),
}

/// A result with its error as plain text.
pub open spec fn result_view<T>(result: Result<T, String>) -> Result<T, Seq<char>> {
    match result {
        Ok(value) => Ok(value),
        Err(reason) => Err(reason@),
    }
}

impl View for UploadEvent {
    type V = UploadEventView;

    open spec fn view(&self) -> UploadEventView {
        match self {
            UploadEvent::Inspected(inspection) => UploadEventView::Inspected(inspection@),
            UploadEvent::OverridesRead(read) => UploadEventView::OverridesRead(
                match *read {
                    Ok(overrides) => Ok(overrides@),
                    Err(reason) => Err(reason@),
                },
            ),
            UploadEvent::ArchiveCounted(counted) => UploadEventView::ArchiveCounted(
                result_view(*counted),
            ),
            UploadEvent::Installed(done) => UploadEventView::Installed(result_view(*done)),
            UploadEvent::Recorded(done) => UploadEventView::Recorded(result_view(*done)),
            UploadEvent::Rediscovered(done, at) => UploadEventView::Rediscovered(
                result_view(*done),
                at@,
            ),
        }
    }
}

/// What to do next.
#[derive(Debug, PartialEq)]
pub enum UploadAction {
    /// Read what the project says.
    ReadOverrides,
    /// Search the archive for interpretations under the id.
    CountArchive,
    /// Give the file this name.
    Install(FilePath),
    /// Record that this revision is the current one of this radargram.
    RecordRevision(String, String),
    /// Rebuild the catalog.
    Rediscover,
    /// Write this to the log and answer.
    Answer(AuditEntry, Added),
    /// Drop the temporary file, where it was not installed, and answer.
    Refuse(ApiError),
}

/// What to do next, as plain values.
#[verifier::ext_equal]
pub enum UploadActionView {
    ReadOverrides,
    CountArchive,
    Install(Seq<Seq<char>>),
    RecordRevision(Seq<char>, Seq<char>),
    Rediscover,
    Answer(AuditView, AddedView),
    Refuse(ErrorView),
}

impl View for UploadAction {
    type V = UploadActionView;

    open spec fn view(&self) -> UploadActionView {
        match self {
            UploadAction::ReadOverrides => UploadActionView::ReadOverrides,
            UploadAction::CountArchive => UploadActionView::CountArchive,
            UploadAction::Install(path) => UploadActionView::Install(path@),
            UploadAction::RecordRevision(id, revision) => UploadActionView::RecordRevision(
                id@,
                revision@,
            ),
            UploadAction::Rediscover => UploadActionView::Rediscover,
            UploadAction::Answer(entry, added) => UploadActionView::Answer(entry@, added@),
            UploadAction::Refuse(error) => UploadActionView::Refuse(error@),
        }
    }
}

impl UploadView {
    /// The revision of the uploaded file.
    pub open spec fn revision(self) -> Seq<char> {
        revision_of(self.meta->0.radargram_id, self.meta->0.processing_datetime)
    }

    /// Where the file is installed: directly in the destination, under its id.
    pub open spec fn installed_at(self) -> Seq<Seq<char>> {
        self.destination.push(installed_name(self.meta->0.radargram_id))
    }

    /// Whether this is what the upload is waiting for.
    pub open spec fn expects(self, event: UploadEventView) -> bool {
        match self.stage {
            UploadStage::Inspecting => event is Inspected,
            UploadStage::ReadingOverrides => event is OverridesRead && self.meta is Some,
            UploadStage::CountingArchive => event is ArchiveCounted && self.meta is Some,
            UploadStage::Installing => event is Installed && self.meta is Some,
            UploadStage::Recording => event is Recorded && self.meta is Some,
            UploadStage::Rediscovering => event is Rediscovered && self.meta is Some,
            UploadStage::Over => false,
        }
    }

    /// What the log says once it is done.
    pub open spec fn log_line(self, at: Seq<char>) -> AuditView {
        AuditView {
            at,
            user: self.user,
            action: AuditAction::Added,
            radargram_id: self.meta->0.radargram_id,
            revision_id: Some(self.revision()),
            note: upload_note(self.filename, self.archived),
        }
    }

    /// What it is answered with once it is done.
    pub open spec fn answer(self) -> AddedView {
        AddedView {
            radargram_id: self.meta->0.radargram_id,
            revision_id: self.revision(),
            display_name: self.meta->0.display_name,
            group_name: self.meta->0.group_name,
            bytes: self.bytes,
            archived_interpretations: self.archived,
        }
    }

    /// The upload, at another stage.
    pub open spec fn at(self, stage: UploadStage) -> UploadView {
        UploadView { stage, ..self }
    }

    /// The upload after a step, and what to do next.
    pub open spec fn after(self, event: UploadEventView, catalog: CatalogView) -> (
        UploadView,
        UploadActionView,
    ) {
        match event {
            UploadEventView::Inspected(inspection) => match inspection {
                InspectionView::Supported(meta) => {
                    let read = UploadView { meta: Some(meta), ..self };
                    if entry_with_id(catalog.entries, meta.radargram_id) is Some {
                        (
                            read.at(UploadStage::Over),
                            UploadActionView::Refuse(already_served(meta.radargram_id)),
                        )
                    } else {
                        (read.at(UploadStage::ReadingOverrides), UploadActionView::ReadOverrides)
                    }
                },
                _ => (
                    self.at(UploadStage::Over),
                    UploadActionView::Refuse(inspection_refusal(inspection, self.filename)->0),
                ),
            },
            UploadEventView::OverridesRead(read) => match read {
                Err(reason) => (
                    self.at(UploadStage::Over),
                    UploadActionView::Refuse(refusal(500, "overrides_read_failed"@, reason)),
                ),
                Ok(stored) => if stored.ignored.contains_key(self.meta->0.radargram_id) {
                    (
                        self.at(UploadStage::Over),
                        UploadActionView::Refuse(id_ignored(self.meta->0.radargram_id)),
                    )
                } else {
                    (self.at(UploadStage::CountingArchive), UploadActionView::CountArchive)
                },
            },
            UploadEventView::ArchiveCounted(counted) => match counted {
                Err(reason) => (
                    self.at(UploadStage::Over),
                    UploadActionView::Refuse(refusal(500, "archive_read_failed"@, reason)),
                ),
                Ok(archived) => (
                    UploadView { archived, ..self }.at(UploadStage::Installing),
                    UploadActionView::Install(self.installed_at()),
                ),
            },
            UploadEventView::Installed(done) => match done {
                Err(reason) => (
                    self.at(UploadStage::Over),
                    UploadActionView::Refuse(install_failed(self.installed_at(), reason)),
                ),
                Ok(_) => (
                    self.at(UploadStage::Recording),
                    UploadActionView::RecordRevision(self.meta->0.radargram_id, self.revision()),
                ),
            },
            UploadEventView::Recorded(_) => (
                self.at(UploadStage::Rediscovering),
                UploadActionView::Rediscover,
            ),
            UploadEventView::Rediscovered(done, at) => match done {
                Err(reason) => (
                    self.at(UploadStage::Over),
                    UploadActionView::Refuse(refusal(500, "rediscover_failed"@, reason)),
                ),
                Ok(_) => (
                    self.at(UploadStage::Over),
                    UploadActionView::Answer(self.log_line(at), self.answer()),
                ),
            },
        }
    }

    /// What is said along the way: only that the history could not be written.
    /// The file is installed by then, so it is no reason to refuse.
    pub open spec fn remark(self, event: UploadEventView) -> Option<Seq<char>> {
        match event {
            UploadEventView::Recorded(Err(reason)) => Some(
                unrecorded_revision(self.meta->0.radargram_id, reason),
            ),
            _ => None,
        }
    }
}

fn spoken(filename: &Option<String>) -> (name: String)
    ensures
        name@ == spoken_name(filename.deep_view()),
{
    match filename {
        Some(name) => name.clone(),
        None => "the upload".to_owned(),
    }
}

/// What a file that was uploaded says about itself, or why it is not taken.
pub fn judge_inspection(inspection: Inspection, filename: &Option<String>) -> (meta: Result<
    RadargramMeta,
    ApiError,
>)
    ensures
        match meta {
            Ok(meta) => inspection@ == InspectionView::Supported(meta@),
            Err(error) => inspection_refusal(inspection@, filename.deep_view()) == Some(error@),
        },
{
    match inspection {
        Inspection::Supported(meta) => Ok(meta),
        Inspection::Unreadable(reason) => {
            let mut message = spoken(filename);
            message.append(" is not readable as a NetCDF file: ");
            message.append(reason.as_str());
            Err(ApiError::bad_request("not_a_radargram", message))
        },
        Inspection::Legacy(version) => {
            let mut reason = "processed by ".to_owned();
            reason.append(version.as_str());
            reason.append(
                ", which is too old to be served: it has no radargram id. Process it again with `ridal process`.",
            );
            let mut message = spoken(filename);
            message.append(" was ");
            message.append(reason.as_str());
            Err(ApiError::bad_request("ridal_file_too_old", message))
        },
        Inspection::Foreign => {
            let mut message = spoken(filename);
            message.append(
                " is a NetCDF file but not one Ridal processed: it has no radargram id. Process it with `ridal process` first.",
            );
            Err(ApiError::bad_request("not_a_ridal_radargram", message))
        },
    }
}

fn refuse_served(id: &str) -> (error: ApiError)
    ensures
        error@ == already_served(id@),
{
    let mut message = "This catalog already has a radargram called '".to_owned();
    message.append(id);
    message.append(
        "'. Give the new one a different id with `ridal process --radargram-id`, or remove the existing one first.",
    );
    ApiError::conflict("radargram_exists", message)
}

fn refuse_ignored(id: &str) -> (error: ApiError)
    ensures
        error@ == id_ignored(id@),
{
    let mut message = "'".to_owned();
    message.append(id);
    message.append(
        "' is on this project's ignore list, so adding it would install a file the catalog then hides. Restore that id first if this is meant to replace it.",
    );
    ApiError::conflict("radargram_ignored", message)
}

fn install_path(destination: &FilePath, id: &str) -> (path: FilePath)
    ensures
        path@ == destination@.push(installed_name(id@)),
{
    let mut name = id.to_owned();
    name.append(".nc");
    destination.child(name.as_str())
}

impl Upload {
    /// An upload whose file is in, under a temporary name.
    pub fn begin(destination: FilePath, query: UploadQuery, caller: &Caller, bytes: u64) -> (upload:
        Upload)
        ensures
            upload@ == (UploadView {
                destination: destination@,
                filename: query.filename.deep_view(),
                user: caller.shown_name(),
                bytes,
                stage: UploadStage::Inspecting,
                meta: None,
                archived: 0,
            }),
    {
        Upload {
            destination,
            filename: query.filename,
            user: caller.display_name().to_owned(),
            bytes,
            stage: UploadStage::Inspecting,
            meta: None,
            archived: 0,
        }
    }

    /// Takes what a step came to, and says what to do next and what to remark.
    pub fn step(&mut self, event: UploadEvent, catalog: &Catalog) -> (next: (
        UploadAction,
        Option<String>,
    ))
        requires
            old(self)@.expects(event@),
        ensures
            (final(self)@, next.0@) == old(self)@.after(event@, catalog@),
            next.1.deep_view() == old(self)@.remark(event@),
    {
        match event {
            UploadEvent::Inspected(inspection) => {
                match judge_inspection(inspection, &self.filename) {
                    Err(error) => {
                        self.stage = UploadStage::Over;
                        (UploadAction::Refuse(error), None)
                    },
                    Ok(meta) => {
                        if catalog.find_entry(meta.radargram_id.as_str()).is_some() {
                            let error = refuse_served(meta.radargram_id.as_str());
                            self.meta = Some(meta);
                            self.stage = UploadStage::Over;
                            (UploadAction::Refuse(error), None)
                        } else {
                            self.meta = Some(meta);
                            self.stage = UploadStage::ReadingOverrides;
                            (UploadAction::ReadOverrides, None)
                        }
                    },
                }
            },
            UploadEvent::OverridesRead(read) => match read {
                Err(reason) => {
                    self.stage = UploadStage::Over;
                    (
                        UploadAction::Refuse(ApiError::internal("overrides_read_failed", reason)),
                        None,
                    )
                },
                Ok(stored) => {
                    let ignored = match &self.meta {
                        Some(meta) => stored.ignores(&meta.radargram_id),
                        None => false,
                    };
                    if ignored {
                        self.stage = UploadStage::Over;
                        let error = refuse_ignored(self.id().as_str());
                        (UploadAction::Refuse(error), None)
                    } else {
                        self.stage = UploadStage::CountingArchive;
                        (UploadAction::CountArchive, None)
                    }
                },
            },
            UploadEvent::ArchiveCounted(counted) => match counted {
                Err(reason) => {
                    self.stage = UploadStage::Over;
                    (
                        UploadAction::Refuse(ApiError::internal("archive_read_failed", reason)),
                        None,
                    )
                },
                Ok(archived) => {
                    self.archived = archived;
                    self.stage = UploadStage::Installing;
                    let path = install_path(&self.destination, self.id().as_str());
                    (UploadAction::Install(path), None)
                },
            },
            UploadEvent::Installed(done) => match done {
                Err(reason) => {
                    self.stage = UploadStage::Over;
                    let path = install_path(&self.destination, self.id().as_str());
                    let mut message = "Could not install ".to_owned();
                    message.append(path.to_text().as_str());
                    message.append(": ");
                    message.append(reason.as_str());
                    (UploadAction::Refuse(ApiError::internal("install_failed", message)), None)
                },
                Ok(_) => {
                    self.stage = UploadStage::Recording;
                    (UploadAction::RecordRevision(self.id(), self.revision()), None)
                },
            },
            UploadEvent::Recorded(done) => {
                self.stage = UploadStage::Rediscovering;
                let remark = match done {
                    Ok(_) => None,
                    Err(reason) => {
                        let mut remark = "Warning: could not record the revision of '".to_owned();
                        remark.append(self.id().as_str());
                        remark.append("': ");
                        remark.append(reason.as_str());
                        Some(remark)
                    },
                };
                (UploadAction::Rediscover, remark)
            },
            UploadEvent::Rediscovered(done, at) => {
                self.stage = UploadStage::Over;
                match done {
                    Err(reason) => (
                        UploadAction::Refuse(ApiError::internal("rediscover_failed", reason)),
                        None,
                    ),
                    Ok(_) => {
                        let entry = AuditEntry {
                            at,
                            user: self.user.clone(),
                            action: AuditAction::Added,
                            radargram_id: self.id(),
                            revision_id: Some(self.revision()),
                            note: write_note(&self.filename, self.archived),
                        };
                        (UploadAction::Answer(entry, self.added()), None)
                    },
                }
            },
        }
    }

    fn id(&self) -> (id: String)
        requires
            self@.meta is Some,
        ensures
            id@ == self@.meta->0.radargram_id,
            is_slug(id@),
    {
        match &self.meta {
            Some(meta) => meta.radargram_id.to_text(),
            None => String::new(),
        }
    }

    fn revision(&self) -> (revision: String)
        requires
            self@.meta is Some,
        ensures
            revision@ == self@.revision(),
    {
        match &self.meta {
            Some(meta) => RevisionId::fingerprint_v1(
                &meta.radargram_id,
                meta.processing_datetime.as_str(),
            ).to_text(),
            None => String::new(),
        }
    }

    fn added(&self) -> (added: Added)
        requires
            self@.meta is Some,
        ensures
            added@ == self@.answer(),
    {
        let display_name = match &self.meta {
            Some(meta) => match &meta.display_name {
                Some(name) => Some(name.to_text()),
                None => None,
            },
            None => None,
        };
        let group_name = match &self.meta {
            Some(meta) => match &meta.group_name {
                Some(name) => Some(name.to_text()),
                None => None,
            },
            None => None,
        };
        Added {
            radargram_id: self.id(),
            revision_id: self.revision(),
            display_name,
            group_name,
            bytes: self.bytes,
            archived_interpretations: self.archived,
        }
    }
}

// ---------------------------------------------------------------------------
// What holds of every upload
// ---------------------------------------------------------------------------

/// An upload after a row of steps, where each was what it was waiting for.
pub open spec fn upload_run(
    start: UploadView,
    events: Seq<UploadEventView>,
    catalog: CatalogView,
) -> Option<UploadView>
    decreases events.len(),
{
    if events.len() == 0 {
        Some(start)
    } else {
        match upload_run(start, events.drop_last(), catalog) {
            Some(upload) => if upload.expects(events.last()) {
                Some(upload.after(events.last(), catalog).0)
            } else {
                None
            },
            None => None,
        }
    }
}

/// Whether an upload has not read its file yet.
pub open spec fn is_fresh(upload: UploadView) -> bool {
    upload.stage == UploadStage::Inspecting && upload.meta is None
}

/// A file is given its name only after it was read and found to be a
/// radargram, its id is neither served nor ignored, and the archive could be
/// searched: nothing refused before that has changed the project.
pub proof fn only_a_valid_free_radargram_is_installed(
    start: UploadView,
    events: Seq<UploadEventView>,
    catalog: CatalogView,
)
    requires
        is_fresh(start),
        upload_run(start, events, catalog) is Some,
        upload_run(start, events, catalog)->0.stage == UploadStage::Installing,
    ensures
        events.len() == 3,
        events[0] matches UploadEventView::Inspected(InspectionView::Supported(meta)) && {
            &&& entry_with_id(catalog.entries, meta.radargram_id) is None
            &&& events[1] matches UploadEventView::OverridesRead(Ok(stored))
                && !stored.ignored.contains_key(meta.radargram_id)
            &&& events[2] matches UploadEventView::ArchiveCounted(Ok(_))
        },
{
    lemma_upload_shape(start, events, catalog);
}

/// A revision is recorded, and the catalog rebuilt, only once the file was
/// installed.
pub proof fn nothing_is_recorded_before_the_file_is_installed(
    start: UploadView,
    events: Seq<UploadEventView>,
    catalog: CatalogView,
)
    requires
        is_fresh(start),
        upload_run(start, events, catalog) is Some,
        upload_run(start, events, catalog)->0.stage == UploadStage::Recording || upload_run(
            start,
            events,
            catalog,
        )->0.stage == UploadStage::Rediscovering,
    ensures
        events.len() >= 4,
        events[3] matches UploadEventView::Installed(Ok(_)),
{
    lemma_upload_shape(start, events, catalog);
}

/// Whether a row of steps starts with reading a radargram whose id is free.
spec fn was_read(events: Seq<UploadEventView>, meta: Option<MetaView>, catalog: CatalogView) -> bool {
    &&& events.len() >= 1
    &&& meta is Some
    &&& events[0] == UploadEventView::Inspected(InspectionView::Supported(meta->0))
    &&& entry_with_id(catalog.entries, meta->0.radargram_id) is None
}

/// Whether it goes on to find that its id is not ignored.
spec fn was_unignored(events: Seq<UploadEventView>, meta: Option<MetaView>) -> bool {
    &&& events.len() >= 2
    &&& events[1] matches UploadEventView::OverridesRead(Ok(stored))
    &&& !stored.ignored.contains_key(meta->0.radargram_id)
}

/// What each stage says of the steps that led to it.
spec fn upload_shape(
    upload: UploadView,
    events: Seq<UploadEventView>,
    catalog: CatalogView,
) -> bool {
    let read = was_read(events, upload.meta, catalog);
    let free = read && was_unignored(events, upload.meta);
    let counted = free && events.len() >= 3 && (events[2] matches UploadEventView::ArchiveCounted(
        Ok(_),
    ));
    let installed = counted && events.len() >= 4 && (events[3] matches UploadEventView::Installed(
        Ok(_),
    ));
    match upload.stage {
        UploadStage::Inspecting => events.len() == 0,
        UploadStage::ReadingOverrides => events.len() == 1 && read,
        UploadStage::CountingArchive => events.len() == 2 && free,
        UploadStage::Installing => events.len() == 3 && counted,
        UploadStage::Recording => events.len() == 4 && installed,
        UploadStage::Rediscovering => events.len() == 5 && installed,
        UploadStage::Over => true,
    }
}

proof fn lemma_upload_shape(
    start: UploadView,
    events: Seq<UploadEventView>,
    catalog: CatalogView,
)
    requires
        is_fresh(start),
        upload_run(start, events, catalog) is Some,
    ensures
        upload_shape(upload_run(start, events, catalog)->0, events, catalog),
    decreases events.len(),
{
    if events.len() > 0 {
        let rest = events.drop_last();
        lemma_upload_shape(start, rest, catalog);
        let before = upload_run(start, rest, catalog)->0;
        let now = upload_run(start, events, catalog)->0;
        assert(events.last() == events[events.len() - 1]);
        assert(rest.len() >= 1 ==> rest[0] == events[0]);
        assert(rest.len() >= 2 ==> rest[1] == events[1]);
        assert(rest.len() >= 3 ==> rest[2] == events[2]);
        assert(rest.len() >= 4 ==> rest[3] == events[3]);
        assert(before.expects(events.last()));
    }
}

/// A file is installed directly in the destination: an id holds no separator
/// and no dot, so it cannot name anything else.
pub proof fn an_upload_lands_in_its_destination(upload: UploadView)
    requires
        upload.meta is Some,
        is_slug(upload.meta->0.radargram_id),
    ensures
        upload.installed_at().drop_last() == upload.destination,
        forall|i: int|
            0 <= i < upload.installed_at().last().len() ==> #[trigger] upload.installed_at().last()[i]
                != '/',
        upload.installed_at().last() != ".."@,
        upload.installed_at().last() != "."@,
{
    let id = upload.meta->0.radargram_id;
    let name = installed_name(id);
    reveal_strlit(".nc");
    reveal_strlit("..");
    reveal_strlit(".");
    assert(upload.installed_at().drop_last() =~= upload.destination);
    assert forall|i: int| 0 <= i < name.len() implies #[trigger] name[i] != '/' by {
        if i < id.len() {
            assert(name[i] == id[i]);
            assert(crate::identity::is_slug_char(id[i]));
        }
    }
    assert(name[0] == id[0]);
    assert(crate::identity::is_slug_char(id[0]));
    assert(name.len() >= 4);
}

} // verus!
