//! Removing a radargram while the server runs.
//!
//! Removing means two things. A radargram in the project is a file that can be
//! deleted. One in an archive is not: nothing is written outside the project,
//! so the most that can be done is to stop serving it. Either way, nothing
//! that anybody authored is destroyed: the mapping of the revision's axes is
//! kept and its interpretations are archived before the file goes.
//!
//! A removal is a row of steps that the server takes one at a time, as an
//! upload is.
use vstd::prelude::*;

use crate::api_error::{refusal, ApiError, ErrorView};
use crate::app_state::{lookup_dataset, lookup_refusal, AppState};
use crate::audit::{AuditAction, AuditEntry, AuditView};
use crate::auth::{project_refusal, Caller};
use crate::catalog::{entry_with_id, root_writable};
use crate::identity::{revision_of, RadargramId, RevisionId};
use crate::overrides::{CatalogOverrides, IgnoredRadargram, IgnoredView, OverridesView};
use crate::paths::FilePath;
use crate::text;
use crate::text::decimal;
use crate::upload::{nowhere_to_put, project_for, result_view};

verus! {

broadcast use vstd::string::group_string_axioms;

/// What a removal is answered with.
#[derive(Debug, PartialEq, Eq)]
pub struct Removed {
    pub radargram_id: String,
    /// `removed` where the file was deleted, `ignored` where it lies in an
    /// archive and is only no longer served.
    pub outcome: &'static str,
    /// How many interpretations were archived.
    pub archived: usize,
}

/// What a removal is answered with, as plain values.
#[verifier::ext_equal]
pub struct RemovedView {
    pub radargram_id: Seq<char>,
    pub outcome: Seq<char>,
    pub archived: usize,
}

impl View for Removed {
    type V = RemovedView;

    open spec fn view(&self) -> RemovedView {
        RemovedView {
            radargram_id: self.radargram_id@,
            outcome: self.outcome@,
            archived: self.archived,
        }
    }
}

/// How far a removal has come.
#[derive(Clone, Copy, Debug, PartialEq, Eq, Structural)]
pub enum RemovalStage {
    /// The axes that the file declares are being read.
    ReadingAxes,
    /// The axes are being kept.
    KeepingAxes,
    /// It is being recorded that they were kept.
    RecordingChecksum,
    /// The interpretations are being archived.
    Archiving,
    /// The file is being deleted.
    Deleting,
    /// The decision not to serve it is being recorded.
    Ignoring,
    /// It is being recorded that its revision is no longer current.
    Superseding,
    /// The catalog is being rebuilt.
    Rediscovering,
    /// It was answered.
    Over,
}

/// A removal under way.
#[derive(Debug, PartialEq)]
pub struct Removal {
    pub id: RadargramId,
    /// The revision the catalog has.
    pub revision: String,
    /// Where the file is.
    pub path: FilePath,
    /// Whether the file lies in the project.
    pub in_project: bool,
    /// When the removal began.
    pub at: String,
    /// Who is removing it.
    pub user: String,
    pub stage: RemovalStage,
    /// How many interpretations were archived.
    pub archived: usize,
}

/// A removal under way, as plain values.
#[verifier::ext_equal]
pub struct RemovalView {
    pub id: Seq<char>,
    pub revision: Seq<char>,
    pub path: Seq<Seq<char>>,
    pub in_project: bool,
    pub at: Seq<char>,
    pub user: Seq<char>,
    pub stage: RemovalStage,
    pub archived: usize,
}

impl View for Removal {
    type V = RemovalView;

    open spec fn view(&self) -> RemovalView {
        RemovalView {
            id: self.id@,
            revision: self.revision@,
            path: self.path@,
            in_project: self.in_project,
            at: self.at@,
            user: self.user@,
            stage: self.stage,
            archived: self.archived,
        }
    }
}

/// What a step came to.
#[derive(Debug, PartialEq)]
pub enum RemovalEvent {
    /// The file was read: when it was processed, where it could be read at
    /// all, and whether it declares its axes.
    AxesRead(Option<String>, bool),
    /// The axes were kept.
    AxesKept(Result<(), String>),
    /// That they were kept was recorded.
    ChecksumRecorded(Result<(), String>),
    /// The interpretations were archived, and how many there were.
    Archived(Result<usize, String>),
    /// The file was deleted.
    Deleted(Result<(), String>),
    /// The decision not to serve it was recorded.
    Ignored(Result<(), String>),
    /// That its revision is no longer current was recorded.
    Superseded(Result<(), String>),
    /// The catalog was rebuilt.
    Rediscovered(Result<(), String>),
}

/// What a step came to, as plain values.
#[verifier::ext_equal]
pub enum RemovalEventView {
    AxesRead(Option<Seq<char>>, bool),
    AxesKept(Result<(), Seq<char>>),
    ChecksumRecorded(Result<(), Seq<char>>),
    Archived(Result<usize, Seq<char>>),
    Deleted(Result<(), Seq<char>>),
    Ignored(Result<(), Seq<char>>),
    Superseded(Result<(), Seq<char>>),
    Rediscovered(Result<(), Seq<char>>),
}

impl View for RemovalEvent {
    type V = RemovalEventView;

    open spec fn view(&self) -> RemovalEventView {
        match self {
            RemovalEvent::AxesRead(when, declared) => RemovalEventView::AxesRead(
                when.deep_view(),
                *declared,
            ),
            RemovalEvent::AxesKept(done) => RemovalEventView::AxesKept(result_view(*done)),
            RemovalEvent::ChecksumRecorded(done) => RemovalEventView::ChecksumRecorded(
                result_view(*done),
            ),
            RemovalEvent::Archived(done) => RemovalEventView::Archived(result_view(*done)),
            RemovalEvent::Deleted(done) => RemovalEventView::Deleted(result_view(*done)),
            RemovalEvent::Ignored(done) => RemovalEventView::Ignored(result_view(*done)),
            RemovalEvent::Superseded(done) => RemovalEventView::Superseded(result_view(*done)),
            RemovalEvent::Rediscovered(done) => RemovalEventView::Rediscovered(result_view(*done)),
        }
    }
}

/// What to do next.
#[derive(Debug, PartialEq)]
pub enum RemovalAction {
    /// Keep the axes under the revision.
    KeepAxes,
    /// Record the checksum of what was kept.
    RecordChecksum,
    /// Archive the interpretations.
    Archive,
    /// Let go of the file, then delete it.
    CloseAndDelete(FilePath),
    /// Record this decision not to serve it.
    RecordIgnore(IgnoredRadargram),
    /// Record that the revision is no longer current.
    RecordSupersession,
    /// Rebuild the catalog.
    Rediscover,
    /// Write this to the log and answer.
    Answer(AuditEntry, Removed),
    /// Answer that it was not done.
    Refuse(ApiError),
}

/// What to do next, as plain values.
#[verifier::ext_equal]
pub enum RemovalActionView {
    KeepAxes,
    RecordChecksum,
    Archive,
    CloseAndDelete(Seq<Seq<char>>),
    RecordIgnore(IgnoredView),
    RecordSupersession,
    Rediscover,
    Answer(AuditView, RemovedView),
    Refuse(ErrorView),
}

impl View for RemovalAction {
    type V = RemovalActionView;

    open spec fn view(&self) -> RemovalActionView {
        match self {
            RemovalAction::KeepAxes => RemovalActionView::KeepAxes,
            RemovalAction::RecordChecksum => RemovalActionView::RecordChecksum,
            RemovalAction::Archive => RemovalActionView::Archive,
            RemovalAction::CloseAndDelete(path) => RemovalActionView::CloseAndDelete(path@),
            RemovalAction::RecordIgnore(decision) => RemovalActionView::RecordIgnore(
                decision.deep_view(),
            ),
            RemovalAction::RecordSupersession => RemovalActionView::RecordSupersession,
            RemovalAction::Rediscover => RemovalActionView::Rediscover,
            RemovalAction::Answer(entry, removed) => RemovalActionView::Answer(entry@, removed@),
            RemovalAction::Refuse(error) => RemovalActionView::Refuse(error@),
        }
    }
}

/// Why the axes of a file cannot be kept: it is not the revision that the
/// catalog has.
pub open spec fn changed_on_disk(id: Seq<char>, revision: Seq<char>) -> Seq<char> {
    "'"@ + id + "' on disk is not the revision the catalog has ("@ + revision
        + "); it was changed or became unreadable since it was discovered, so its axes cannot be kept under that id"@
}

/// Why the axes of a file were not kept.
pub open spec fn axes_not_kept(id: Seq<char>, reason: Seq<char>) -> Seq<char> {
    "'"@ + id + "' declares axes but they could not be kept: "@ + reason
}

/// What is said of a file without axes.
pub open spec fn no_axes(id: Seq<char>) -> Seq<char> {
    "Note: '"@ + id
        + "' does not declare its axes, so no snapshot was kept. Interpretations drawn on it cannot be carried onto a later revision."@
}

/// How a removal that would lose the only copy of the axes is answered.
pub open spec fn snapshot_failed(problem: Seq<char>) -> ErrorView {
    refusal(
        500,
        "snapshot_failed"@,
        problem
            + ". The removal was refused, because deleting the file now would lose the only copy of the mapping that carries its interpretations forward."@,
    )
}

/// What the log says of archived interpretations.
pub open spec fn archive_note(archived: usize) -> Option<Seq<char>> {
    if archived > 0 {
        Some(decimal(archived as nat) + " interpretation(s) archived"@)
    } else {
        None
    }
}

impl RemovalView {
    /// Whether the file on disk is the revision that the catalog has. A file
    /// that could not be read tells no time, and is not.
    pub open spec fn is_same_revision(self, processed: Option<Seq<char>>) -> bool {
        processed is Some && revision_of(self.id, processed->0) == self.revision
    }

    /// Whether this is what the removal is waiting for.
    pub open spec fn expects(self, event: RemovalEventView) -> bool {
        match self.stage {
            RemovalStage::ReadingAxes => event is AxesRead,
            RemovalStage::KeepingAxes => event is AxesKept,
            RemovalStage::RecordingChecksum => event is ChecksumRecorded,
            RemovalStage::Archiving => event is Archived,
            RemovalStage::Deleting => event is Deleted,
            RemovalStage::Ignoring => event is Ignored,
            RemovalStage::Superseding => event is Superseded,
            RemovalStage::Rediscovering => event is Rediscovered,
            RemovalStage::Over => false,
        }
    }

    /// The removal, at another stage.
    pub open spec fn at_stage(self, stage: RemovalStage) -> RemovalView {
        RemovalView { stage, ..self }
    }

    /// Why the axes are not safe after a step, if they are not.
    pub open spec fn axes_problem(self, event: RemovalEventView) -> Option<Seq<char>> {
        match event {
            RemovalEventView::AxesRead(processed, _) => if self.is_same_revision(processed) {
                None
            } else {
                Some(changed_on_disk(self.id, self.revision))
            },
            RemovalEventView::AxesKept(Err(reason)) => Some(axes_not_kept(self.id, reason)),
            _ => None,
        }
    }

    /// What the log says once it is done.
    pub open spec fn log_line(self) -> AuditView {
        AuditView {
            at: self.at,
            user: self.user,
            action: if self.in_project {
                AuditAction::Removed
            } else {
                AuditAction::Ignored
            },
            radargram_id: self.id,
            revision_id: Some(self.revision),
            note: archive_note(self.archived),
        }
    }

    /// What it is answered with once it is done.
    pub open spec fn answer(self) -> RemovedView {
        RemovedView {
            radargram_id: self.id,
            outcome: if self.in_project {
                "removed"@
            } else {
                "ignored"@
            },
            archived: self.archived,
        }
    }

    /// The decision that is recorded about a radargram in an archive.
    pub open spec fn decision(self) -> IgnoredView {
        IgnoredView { since: Some(self.at), revision_id: Some(self.revision) }
    }

    /// The removal after a step, and what to do next.
    pub open spec fn after(self, event: RemovalEventView) -> (RemovalView, RemovalActionView) {
        match self.axes_problem(event) {
            // Fatal only where the file is about to be deleted. An archive
            // keeps its file, so there is nothing to protect.
            Some(problem) => if self.in_project {
                (
                    self.at_stage(RemovalStage::Over),
                    RemovalActionView::Refuse(snapshot_failed(problem)),
                )
            } else {
                (self.at_stage(RemovalStage::Archiving), RemovalActionView::Archive)
            },
            None => match event {
                RemovalEventView::AxesRead(_, declared) => if declared {
                    (self.at_stage(RemovalStage::KeepingAxes), RemovalActionView::KeepAxes)
                } else {
                    (self.at_stage(RemovalStage::Archiving), RemovalActionView::Archive)
                },
                RemovalEventView::AxesKept(_) => (
                    self.at_stage(RemovalStage::RecordingChecksum),
                    RemovalActionView::RecordChecksum,
                ),
                RemovalEventView::ChecksumRecorded(_) => (
                    self.at_stage(RemovalStage::Archiving),
                    RemovalActionView::Archive,
                ),
                RemovalEventView::Archived(Err(reason)) => (
                    self.at_stage(RemovalStage::Over),
                    RemovalActionView::Refuse(refusal(500, "archive_failed"@, reason)),
                ),
                RemovalEventView::Archived(Ok(archived)) => {
                    let done = RemovalView { archived, ..self };
                    if self.in_project {
                        (
                            done.at_stage(RemovalStage::Deleting),
                            RemovalActionView::CloseAndDelete(self.path),
                        )
                    } else {
                        (
                            done.at_stage(RemovalStage::Ignoring),
                            RemovalActionView::RecordIgnore(self.decision()),
                        )
                    }
                },
                RemovalEventView::Deleted(Err(reason)) => (
                    self.at_stage(RemovalStage::Over),
                    RemovalActionView::Refuse(
                        refusal(500, "remove_failed"@, "Could not remove the file: "@ + reason),
                    ),
                ),
                RemovalEventView::Ignored(Err(reason)) => (
                    self.at_stage(RemovalStage::Over),
                    RemovalActionView::Refuse(refusal(500, "overrides_write_failed"@, reason)),
                ),
                RemovalEventView::Deleted(Ok(_)) => (
                    self.at_stage(RemovalStage::Superseding),
                    RemovalActionView::RecordSupersession,
                ),
                RemovalEventView::Ignored(Ok(_)) => (
                    self.at_stage(RemovalStage::Superseding),
                    RemovalActionView::RecordSupersession,
                ),
                RemovalEventView::Superseded(_) => (
                    self.at_stage(RemovalStage::Rediscovering),
                    RemovalActionView::Rediscover,
                ),
                RemovalEventView::Rediscovered(Err(reason)) => (
                    self.at_stage(RemovalStage::Over),
                    RemovalActionView::Refuse(refusal(500, "rediscover_failed"@, reason)),
                ),
                RemovalEventView::Rediscovered(Ok(_)) => (
                    self.at_stage(RemovalStage::Over),
                    RemovalActionView::Answer(self.log_line(), self.answer()),
                ),
            },
        }
    }

    /// What is said along the way.
    pub open spec fn remark(self, event: RemovalEventView) -> Option<Seq<char>> {
        match self.axes_problem(event) {
            Some(problem) => if self.in_project {
                None
            } else {
                Some("Warning: "@ + problem)
            },
            None => match event {
                RemovalEventView::AxesRead(_, false) => Some(no_axes(self.id)),
                RemovalEventView::ChecksumRecorded(Err(reason)) => Some(
                    "Warning: could not record the axis checksum of '"@ + self.id + "': "@ + reason,
                ),
                RemovalEventView::Superseded(Err(reason)) => Some(
                    "Warning: could not record the supersession: "@ + reason,
                ),
                _ => None,
            },
        }
    }
}

/// How a request to remove a radargram is refused before anything is done.
pub open spec fn removal_refusal(
    state: crate::app_state::StateView,
    caller: Caller,
    raw: Seq<char>,
    path: Result<Seq<Seq<char>>, Seq<char>>,
) -> Option<ErrorView> {
    match project_refusal(caller, state.has_project, "remove a radargram"@, nowhere_to_put()) {
        Some(error) => Some(error),
        None => match lookup_refusal(state.snapshot.catalog, raw) {
            Some(error) => Some(error),
            None => match path {
                Err(reason) => Some(refusal(500, "path_resolve_failed"@, reason)),
                Ok(_) => None,
            },
        },
    }
}

/// Begins the removal of the radargram that a URL names. `path` is where
/// its file is, or why that could not be found out.
pub fn remove_dataset(
    state: &AppState,
    caller: &Caller,
    raw: &str,
    path: Result<FilePath, String>,
    at: String,
) -> (removal: Result<Removal, ApiError>)
    ensures
        ({
            let found = match path {
                Ok(path) => Ok(path@),
                Err(reason) => Err(reason@),
            };
            match removal {
                Ok(removal) => {
                    &&& removal_refusal(state@, *caller, raw@, found) is None
                    &&& entry_with_id(state@.snapshot.catalog.entries, raw@) matches Some(entry)
                    &&& removal@ == (RemovalView {
                        id: entry.radargram_id,
                        revision: entry.revision_id,
                        path: found->Ok_0,
                        in_project: root_writable(state@.roots, entry.root),
                        at: at@,
                        user: caller.shown_name(),
                        stage: RemovalStage::ReadingAxes,
                        archived: 0,
                    })
                },
                Err(error) => removal_refusal(state@, *caller, raw@, found) == Some(error@),
            }
        }),
{
    match project_for(caller, state.has_project, "remove a radargram") {
        Ok(_) => {},
        Err(error) => {
            return Err(error);
        },
    }
    let snapshot = state.catalog();
    match lookup_dataset(&snapshot.catalog, raw) {
        Err(error) => Err(error),
        Ok(entry) => match path {
            Err(reason) => Err(ApiError::internal("path_resolve_failed", reason)),
            Ok(path) => Ok(
                Removal {
                    id: entry.radargram_id.clone(),
                    revision: entry.revision_id.to_text(),
                    path,
                    in_project: state.is_writable(entry),
                    at,
                    user: caller.display_name().to_owned(),
                    stage: RemovalStage::ReadingAxes,
                    archived: 0,
                },
            ),
        },
    }
}

impl Removal {
    fn describe_change(&self) -> (problem: String)
        ensures
            problem@ == changed_on_disk(self@.id, self@.revision),
    {
        let mut problem = "'".to_owned();
        problem.append(self.id.as_str());
        problem.append("' on disk is not the revision the catalog has (");
        problem.append(self.revision.as_str());
        problem.append(
            "); it was changed or became unreadable since it was discovered, so its axes cannot be kept under that id",
        );
        problem
    }

    /// The axes are not safe: fatal where the file is about to be deleted.
    fn meet_problem(&mut self, problem: String) -> (next: (RemovalAction, Option<String>))
        ensures
            final(self)@ == old(self)@.at_stage(
                if old(self)@.in_project {
                    RemovalStage::Over
                } else {
                    RemovalStage::Archiving
                },
            ),
            next.0@ == (if old(self)@.in_project {
                RemovalActionView::Refuse(snapshot_failed(problem@))
            } else {
                RemovalActionView::Archive
            }),
            next.1.deep_view() == (if old(self)@.in_project {
                None
            } else {
                Some("Warning: "@ + problem@)
            }),
    {
        if self.in_project {
            self.stage = RemovalStage::Over;
            let mut message = problem;
            message.append(
                ". The removal was refused, because deleting the file now would lose the only copy of the mapping that carries its interpretations forward.",
            );
            (RemovalAction::Refuse(ApiError::internal("snapshot_failed", message)), None)
        } else {
            self.stage = RemovalStage::Archiving;
            let mut remark = "Warning: ".to_owned();
            remark.append(problem.as_str());
            (RemovalAction::Archive, Some(remark))
        }
    }

    /// Takes what reading the file came to. The axes have to belong to the
    /// revision they are filed under, so a file that was rewritten since the
    /// catalog was built has none that could be kept.
    pub fn snapshot_axes(&mut self, processed: Option<String>, declared: bool) -> (next: (
        RemovalAction,
        Option<String>,
    ))
        requires
            old(self)@.stage == RemovalStage::ReadingAxes,
        ensures
            (final(self)@, next.0@) == old(self)@.after(
                RemovalEventView::AxesRead(processed.deep_view(), declared),
            ),
            next.1.deep_view() == old(self)@.remark(
                RemovalEventView::AxesRead(processed.deep_view(), declared),
            ),
    {
        let same = match &processed {
            Some(when) => text::equal(
                RevisionId::fingerprint_v1(&self.id, when.as_str()).as_str(),
                self.revision.as_str(),
            ),
            None => false,
        };
        if !same {
            let problem = self.describe_change();
            return self.meet_problem(problem);
        }
        if declared {
            self.stage = RemovalStage::KeepingAxes;
            (RemovalAction::KeepAxes, None)
        } else {
            self.stage = RemovalStage::Archiving;
            let mut remark = "Note: '".to_owned();
            remark.append(self.id.as_str());
            remark.append(
                "' does not declare its axes, so no snapshot was kept. Interpretations drawn on it cannot be carried onto a later revision.",
            );
            (RemovalAction::Archive, Some(remark))
        }
    }

    fn finish(&self) -> (answer: (AuditEntry, Removed))
        ensures
            answer.0@ == self@.log_line(),
            answer.1@ == self@.answer(),
    {
        let note = if self.archived > 0 {
            let mut note = text::decimal_usize(self.archived);
            note.append(" interpretation(s) archived");
            Some(note)
        } else {
            None
        };
        let entry = AuditEntry {
            at: self.at.clone(),
            user: self.user.clone(),
            action: if self.in_project {
                AuditAction::Removed
            } else {
                AuditAction::Ignored
            },
            radargram_id: self.id.to_text(),
            revision_id: Some(self.revision.clone()),
            note,
        };
        let removed = Removed {
            radargram_id: self.id.to_text(),
            outcome: if self.in_project {
                "removed"
            } else {
                "ignored"
            },
            archived: self.archived,
        };
        (entry, removed)
    }

    /// Takes what a step came to, and says what to do next and what to remark.
    pub fn step(&mut self, event: RemovalEvent) -> (next: (RemovalAction, Option<String>))
        requires
            old(self)@.expects(event@),
        ensures
            (final(self)@, next.0@) == old(self)@.after(event@),
            next.1.deep_view() == old(self)@.remark(event@),
    {
        match event {
            RemovalEvent::AxesRead(processed, declared) => self.snapshot_axes(processed, declared),
            RemovalEvent::AxesKept(done) => match done {
                Err(reason) => {
                    let mut problem = "'".to_owned();
                    problem.append(self.id.as_str());
                    problem.append("' declares axes but they could not be kept: ");
                    problem.append(reason.as_str());
                    self.meet_problem(problem)
                },
                Ok(_) => {
                    self.stage = RemovalStage::RecordingChecksum;
                    (RemovalAction::RecordChecksum, None)
                },
            },
            RemovalEvent::ChecksumRecorded(done) => {
                self.stage = RemovalStage::Archiving;
                let remark = match done {
                    Ok(_) => None,
                    Err(reason) => {
                        let mut remark =
                            "Warning: could not record the axis checksum of '".to_owned();
                        remark.append(self.id.as_str());
                        remark.append("': ");
                        remark.append(reason.as_str());
                        Some(remark)
                    },
                };
                (RemovalAction::Archive, remark)
            },
            RemovalEvent::Archived(done) => match done {
                Err(reason) => {
                    self.stage = RemovalStage::Over;
                    (RemovalAction::Refuse(ApiError::internal("archive_failed", reason)), None)
                },
                Ok(archived) => {
                    self.archived = archived;
                    if self.in_project {
                        self.stage = RemovalStage::Deleting;
                        (RemovalAction::CloseAndDelete(self.path.clone()), None)
                    } else {
                        self.stage = RemovalStage::Ignoring;
                        (
                            RemovalAction::RecordIgnore(
                                IgnoredRadargram {
                                    since: Some(self.at.clone()),
                                    revision_id: Some(self.revision.clone()),
                                },
                            ),
                            None,
                        )
                    }
                },
            },
            RemovalEvent::Deleted(done) => match done {
                Err(reason) => {
                    self.stage = RemovalStage::Over;
                    let mut message = "Could not remove the file: ".to_owned();
                    message.append(reason.as_str());
                    (RemovalAction::Refuse(ApiError::internal("remove_failed", message)), None)
                },
                Ok(_) => {
                    self.stage = RemovalStage::Superseding;
                    (RemovalAction::RecordSupersession, None)
                },
            },
            RemovalEvent::Ignored(done) => match done {
                Err(reason) => {
                    self.stage = RemovalStage::Over;
                    (
                        RemovalAction::Refuse(ApiError::internal("overrides_write_failed", reason)),
                        None,
                    )
                },
                Ok(_) => {
                    self.stage = RemovalStage::Superseding;
                    (RemovalAction::RecordSupersession, None)
                },
            },
            RemovalEvent::Superseded(done) => {
                self.stage = RemovalStage::Rediscovering;
                let remark = match done {
                    Ok(_) => None,
                    Err(reason) => {
                        let mut remark =
                            "Warning: could not record the supersession: ".to_owned();
                        remark.append(reason.as_str());
                        Some(remark)
                    },
                };
                (RemovalAction::Rediscover, remark)
            },
            RemovalEvent::Rediscovered(done) => {
                self.stage = RemovalStage::Over;
                match done {
                    Err(reason) => (
                        RemovalAction::Refuse(ApiError::internal("rediscover_failed", reason)),
                        None,
                    ),
                    Ok(_) => {
                        let (entry, removed) = self.finish();
                        (RemovalAction::Answer(entry, removed), None)
                    },
                }
            },
        }
    }
}

/// Records a decision not to serve a radargram. It is about the id: if the
/// file is replaced, the decision stands.
pub fn record_ignore(stored: &mut CatalogOverrides, id: &RadargramId, decision: IgnoredRadargram)
    ensures
        final(stored)@ == (OverridesView {
            ignored: old(stored)@.ignored.insert(id@, decision.deep_view()),
            ..old(stored)@
        }),
{
    stored.ignored.insert(id.clone(), decision);
    assert(stored@.ignored =~= old(stored)@.ignored.insert(id@, decision.deep_view()));
}

// ---------------------------------------------------------------------------
// What holds of every removal
// ---------------------------------------------------------------------------

/// A removal after a row of steps, where each was what it was waiting for.
pub open spec fn removal_run(start: RemovalView, events: Seq<RemovalEventView>) -> Option<
    RemovalView,
>
    decreases events.len(),
{
    if events.len() == 0 {
        Some(start)
    } else {
        match removal_run(start, events.drop_last()) {
            Some(removal) => if removal.expects(events.last()) {
                Some(removal.after(events.last()).0)
            } else {
                None
            },
            None => None,
        }
    }
}

/// Whether the axes are safe after these steps: the file on disk was the
/// revision the catalog has, and either it declares none or they were kept.
pub open spec fn axes_are_safe(removal: RemovalView, events: Seq<RemovalEventView>) -> bool {
    &&& events.len() > 0
    &&& events[0] matches RemovalEventView::AxesRead(processed, declared)
    &&& removal.is_same_revision(processed)
    &&& declared ==> events.len() > 1 && (events[1] matches RemovalEventView::AxesKept(Ok(_)))
}

/// Whether a removal is what it was but for how far it has come.
spec fn same_subject(a: RemovalView, b: RemovalView) -> bool {
    &&& a.id == b.id
    &&& a.revision == b.revision
    &&& a.path == b.path
    &&& a.in_project == b.in_project
}

/// What each stage says of the steps that led to it.
spec fn removal_shape(removal: RemovalView, events: Seq<RemovalEventView>) -> bool {
    let safe = removal.in_project ==> axes_are_safe(removal, events);
    let archived = events.len() > 0 && (events.last() matches RemovalEventView::Archived(Ok(_)));
    match removal.stage {
        RemovalStage::ReadingAxes => events.len() == 0,
        RemovalStage::KeepingAxes => events.len() == 1 && (
        events[0] matches RemovalEventView::AxesRead(processed, true)
            && removal.is_same_revision(processed)),
        RemovalStage::RecordingChecksum => events.len() == 2 && axes_are_safe(removal, events),
        RemovalStage::Archiving => events.len() > 0 && safe,
        RemovalStage::Deleting => removal.in_project && safe && archived,
        RemovalStage::Ignoring => !removal.in_project && archived,
        RemovalStage::Superseding => safe && events.len() > 0 && (if removal.in_project {
            events.last() matches RemovalEventView::Deleted(Ok(_))
        } else {
            events.last() matches RemovalEventView::Ignored(Ok(_))
        }),
        RemovalStage::Rediscovering => safe,
        RemovalStage::Over => true,
    }
}

proof fn lemma_removal_shape(start: RemovalView, events: Seq<RemovalEventView>)
    requires
        start.stage == RemovalStage::ReadingAxes,
        removal_run(start, events) is Some,
    ensures
        removal_shape(removal_run(start, events)->0, events),
        same_subject(removal_run(start, events)->0, start),
    decreases events.len(),
{
    if events.len() > 0 {
        let rest = events.drop_last();
        lemma_removal_shape(start, rest);
        let before = removal_run(start, rest)->0;
        let now = removal_run(start, events)->0;
        assert(events.last() == events[events.len() - 1]);
        assert(rest.len() >= 1 ==> rest[0] == events[0]);
        assert(rest.len() >= 2 ==> rest[1] == events[1]);
        assert(before.expects(events.last()));
        assert(axes_are_safe(before, rest) ==> axes_are_safe(now, events));
    }
}

/// A file is deleted only if it lies in the project, and only after its axes
/// are safe and its interpretations were archived: nothing authored is lost.
pub proof fn a_file_is_deleted_only_once_nothing_is_lost(
    start: RemovalView,
    events: Seq<RemovalEventView>,
)
    requires
        start.stage == RemovalStage::ReadingAxes,
        removal_run(start, events) is Some,
        removal_run(start, events)->0.stage == RemovalStage::Deleting,
    ensures
        start.in_project,
        axes_are_safe(start, events),
        events.last() matches RemovalEventView::Archived(Ok(_)),
{
    lemma_removal_shape(start, events);
}

/// A file in an archive is never deleted.
pub proof fn an_archived_file_is_never_deleted(start: RemovalView, events: Seq<RemovalEventView>)
    requires
        start.stage == RemovalStage::ReadingAxes,
        !start.in_project,
        removal_run(start, events) is Some,
    ensures
        removal_run(start, events)->0.stage != RemovalStage::Deleting,
{
    lemma_removal_shape(start, events);
}

/// A revision is recorded as no longer current only once it is not served any
/// more: the file was deleted, or the decision not to serve it was recorded.
pub proof fn history_follows_the_removal(start: RemovalView, events: Seq<RemovalEventView>)
    requires
        start.stage == RemovalStage::ReadingAxes,
        removal_run(start, events) is Some,
        removal_run(start, events)->0.stage == RemovalStage::Superseding,
    ensures
        events.len() > 0,
        (events.last() matches RemovalEventView::Deleted(Ok(_))) || (
        events.last() matches RemovalEventView::Ignored(Ok(_))),
{
    lemma_removal_shape(start, events);
}

/// A file in an archive stays where it is, so axes that cannot be kept are no
/// reason to refuse.
pub proof fn an_ignore_is_not_refused_over_axes(removal: RemovalView, event: RemovalEventView)
    requires
        !removal.in_project,
        removal.axes_problem(event) is Some,
    ensures
        removal.after(event).1 == RemovalActionView::Archive,
{
}

} // verus!
