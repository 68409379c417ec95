//! What holds of every upload and every removal, from the first step to the
//! answer.
use vstd::prelude::*;

use crate::audit::{AuditAction, AuditView};
use crate::catalog::{has_id, lemma_entry_with_id, CatalogView};
use crate::identity::revision_of;
use crate::overrides::IgnoredView;
use crate::removal::{
    removal_run, RemovalActionView, RemovalEventView, RemovalStage, RemovalView, RemovedView,
};
use crate::selection::{InspectionView, MetaView};
use crate::text::decimal;
use crate::upload::{
    inspection_refusal, is_fresh, upload_run, AddedView, UploadActionView, UploadEventView,
    UploadStage, UploadView,
};

verus! {

// ---------------------------------------------------------------------------
// Removals
// ---------------------------------------------------------------------------

/// What a removal is about: everything but how far it has come.
spec fn about_the_same(a: RemovalView, b: RemovalView) -> bool {
    &&& a.id == b.id
    &&& a.revision == b.revision
    &&& a.path == b.path
    &&& a.in_project == b.in_project
    &&& a.at == b.at
    &&& a.user == b.user
}

/// Whether the last of these steps made sure that the radargram is no longer
/// served.
spec fn was_taken_out(in_project: bool, event: RemovalEventView) -> bool {
    if in_project {
        event == RemovalEventView::Deleted(Ok(()))
    } else {
        event == RemovalEventView::Ignored(Ok(()))
    }
}

/// What each of the later stages says of the steps that led to it.
spec fn led_to(removal: RemovalView, events: Seq<RemovalEventView>) -> bool {
    let n = events.len();
    let archived = RemovalEventView::Archived(Ok(removal.archived));
    match removal.stage {
        RemovalStage::Deleting => removal.in_project && n >= 1 && events[n - 1] == archived,
        RemovalStage::Ignoring => !removal.in_project && n >= 1 && events[n - 1] == archived,
        RemovalStage::Superseding => n >= 2 && events[n - 2] == archived && was_taken_out(
            removal.in_project,
            events[n - 1],
        ),
        RemovalStage::Rediscovering => n >= 3 && events[n - 3] == archived && was_taken_out(
            removal.in_project,
            events[n - 2],
        ) && events[n - 1] is Superseded,
        _ => true,
    }
}

proof fn lemma_led_to(start: RemovalView, events: Seq<RemovalEventView>)
    requires
        start.stage == RemovalStage::ReadingAxes,
        removal_run(start, events) is Some,
    ensures
        led_to(removal_run(start, events)->0, events),
        about_the_same(removal_run(start, events)->0, start),
    decreases events.len(),
{
    if events.len() > 0 {
        let rest = events.drop_last();
        lemma_led_to(start, rest);
        let n = events.len();
        assert(events.last() == events[n - 1]);
        assert(n >= 2 ==> rest[n - 2] == events[n - 2]);
        assert(n >= 3 ==> rest[n - 3] == events[n - 3]);
        assert(n >= 4 ==> rest[n - 4] == events[n - 4]);
        let before = removal_run(start, rest)->0;
        assert(before.expects(events.last()));
        match events.last() {
            RemovalEventView::Deleted(Ok(done)) => {
                assert(done == ());
            },
            RemovalEventView::Ignored(Ok(done)) => {
                assert(done == ());
            },
            _ => {},
        }
    }
}

/// A removal is answered as done only once it was: its interpretations were
/// archived, then the file was deleted, or, for one in an archive, the decision
/// not to serve it was recorded; its history was told, and the catalog was
/// rebuilt. The answer and the log say which of the two it was, what it was
/// about, and how many interpretations were archived.
pub proof fn a_removal_is_answered_only_once_it_was_done(
    start: RemovalView,
    events: Seq<RemovalEventView>,
    log: AuditView,
    removed: RemovedView,
)
    requires
        start.stage == RemovalStage::ReadingAxes,
        events.len() > 0,
        removal_run(start, events.drop_last()) is Some,
        removal_run(start, events.drop_last())->0.expects(events.last()),
        removal_run(start, events.drop_last())->0.after(events.last()).1
            == RemovalActionView::Answer(log, removed),
    ensures
        ({
            let n = events.len();
            &&& n >= 4
            &&& events[n - 4] == RemovalEventView::Archived(Ok(removed.archived))
            &&& start.in_project ==> events[n - 3] == RemovalEventView::Deleted(Ok(()))
            &&& !start.in_project ==> events[n - 3] == RemovalEventView::Ignored(Ok(()))
            &&& events[n - 2] is Superseded
            &&& events[n - 1] == RemovalEventView::Rediscovered(Ok(()))
        }),
        removed.radargram_id == start.id,
        start.in_project ==> removed.outcome == "removed"@ && log.action == AuditAction::Removed,
        !start.in_project ==> removed.outcome == "ignored"@ && log.action == AuditAction::Ignored,
        log.at == start.at,
        log.user == start.user,
        log.radargram_id == start.id,
        log.revision_id == Some(start.revision),
        removed.archived == 0 ==> log.note is None,
        removed.archived > 0 ==> log.note == Some(
            decimal(removed.archived as nat) + " interpretation(s) archived"@,
        ),
{
    let rest = events.drop_last();
    lemma_led_to(start, rest);
    let n = events.len();
    assert(events.last() == events[n - 1]);
    assert(n >= 2 ==> rest[n - 2] == events[n - 2]);
    assert(n >= 3 ==> rest[n - 3] == events[n - 3]);
    assert(n >= 4 ==> rest[n - 4] == events[n - 4]);
    let before = removal_run(start, rest)->0;
    match events.last() {
        RemovalEventView::Rediscovered(Ok(done)) => {
            assert(done == ());
        },
        _ => {},
    }
}

/// Where every step succeeds, a removal goes on: what is archived is followed
/// by deleting the project's own file, or by recording since when which
/// revision of an archive's is not served, however many interpretations there
/// were; that by telling the history; and that by rebuilding the catalog, which
/// is what a failure to tell the history does not prevent either.
pub proof fn a_removal_goes_on(removal: RemovalView, archived: usize, told: Result<(), Seq<char>>)
    ensures
        ({
            let (next, action) = removal.after(RemovalEventView::Archived(Ok(archived)));
            &&& next.archived == archived
            &&& removal.in_project ==> next.stage == RemovalStage::Deleting && action
                == RemovalActionView::CloseAndDelete(removal.path)
            &&& !removal.in_project ==> next.stage == RemovalStage::Ignoring && action
                == RemovalActionView::RecordIgnore(
                IgnoredView { since: Some(removal.at), revision_id: Some(removal.revision) },
            )
        }),
        removal.after(RemovalEventView::Deleted(Ok(()))).1 == RemovalActionView::RecordSupersession,
        removal.after(RemovalEventView::Ignored(Ok(()))).1 == RemovalActionView::RecordSupersession,
        removal.after(RemovalEventView::Deleted(Ok(()))).0.stage == RemovalStage::Superseding,
        removal.after(RemovalEventView::Ignored(Ok(()))).0.stage == RemovalStage::Superseding,
        removal.after(RemovalEventView::Superseded(told)).1 == RemovalActionView::Rediscover,
        removal.after(RemovalEventView::Superseded(told)).0.stage == RemovalStage::Rediscovering,
        removal.after(RemovalEventView::Rediscovered(Ok(()))).1 is Answer,
{
}

/// The axes come first. Those a file declares are kept, with their checksum,
/// before anything is archived; a file without any goes straight on; and a file
/// that is not the revision the catalog has, or whose axes could not be kept,
/// is not removed if that would delete it.
pub proof fn the_axes_come_first(
    removal: RemovalView,
    processed: Seq<char>,
    reason: Seq<char>,
    told: Result<(), Seq<char>>,
)
    ensures
        revision_of(removal.id, processed) == removal.revision ==> {
            &&& removal.after(RemovalEventView::AxesRead(Some(processed), true)).1
                == RemovalActionView::KeepAxes
            &&& removal.after(RemovalEventView::AxesRead(Some(processed), false)).1
                == RemovalActionView::Archive
        },
        removal.after(RemovalEventView::AxesKept(Ok(()))).1 == RemovalActionView::RecordChecksum,
        removal.after(RemovalEventView::ChecksumRecorded(told)).1 == RemovalActionView::Archive,
        removal.in_project ==> forall|declared: bool|
            {
                let gone = #[trigger] removal.after(RemovalEventView::AxesRead(None, declared));
                &&& gone.0.stage == RemovalStage::Over
                &&& gone.1 matches RemovalActionView::Refuse(error)
                &&& error.status == 500
                &&& error.code == "snapshot_failed"@
            },
        removal.in_project && revision_of(removal.id, processed) != removal.revision ==> forall|
            declared: bool,
        |
            {
                let changed = #[trigger] removal.after(
                    RemovalEventView::AxesRead(Some(processed), declared),
                );
                &&& changed.0.stage == RemovalStage::Over
                &&& changed.1 matches RemovalActionView::Refuse(error)
                &&& error.status == 500
                &&& error.code == "snapshot_failed"@
            },
        removal.in_project ==> {
            let lost = removal.after(RemovalEventView::AxesKept(Err(reason)));
            &&& lost.0.stage == RemovalStage::Over
            &&& lost.1 matches RemovalActionView::Refuse(error)
            &&& error.status == 500
            &&& error.code == "snapshot_failed"@
        },
{
}

/// A step that fails ends the removal and is answered with its reason: what
/// could not be archived, deleted, recorded or rebuilt.
pub proof fn a_failed_removal_is_refused(removal: RemovalView, reason: Seq<char>)
    ensures
        ({
            let (next, action) = removal.after(RemovalEventView::Archived(Err(reason)));
            &&& next.stage == RemovalStage::Over
            &&& action matches RemovalActionView::Refuse(error)
            &&& error.status == 500 && error.code == "archive_failed"@ && error.message == reason
        }),
        ({
            let (next, action) = removal.after(RemovalEventView::Deleted(Err(reason)));
            &&& next.stage == RemovalStage::Over
            &&& action matches RemovalActionView::Refuse(error)
            &&& error.status == 500 && error.code == "remove_failed"@ && error.message
                == "Could not remove the file: "@ + reason
        }),
        ({
            let (next, action) = removal.after(RemovalEventView::Ignored(Err(reason)));
            &&& next.stage == RemovalStage::Over
            &&& action matches RemovalActionView::Refuse(error)
            &&& error.status == 500 && error.code == "overrides_write_failed"@ && error.message
                == reason
        }),
        ({
            let (next, action) = removal.after(RemovalEventView::Rediscovered(Err(reason)));
            &&& next.stage == RemovalStage::Over
            &&& action matches RemovalActionView::Refuse(error)
            &&& error.status == 500 && error.code == "rediscover_failed"@ && error.message == reason
        }),
{
}

/// No step changes what a removal is about, and only archiving changes how much
/// was archived.
pub proof fn a_step_of_a_removal_keeps_its_subject(removal: RemovalView, event: RemovalEventView)
    ensures
        ({
            let next = removal.after(event).0;
            &&& next.id == removal.id
            &&& next.revision == removal.revision
            &&& next.path == removal.path
            &&& next.in_project == removal.in_project
            &&& next.at == removal.at
            &&& next.user == removal.user
            &&& !(event is Archived) ==> next.archived == removal.archived
        }),
{
}

/// What could not be recorded is remarked on with its reason, and so is what
/// cannot be kept of a file that stays where it is. A removal that does what it
/// should is silent.
pub proof fn a_removal_remarks_on_what_was_lost(removal: RemovalView, reason: Seq<char>)
    ensures
        removal.remark(RemovalEventView::Superseded(Err(reason))) == Some(
            "Warning: could not record the supersession: "@ + reason,
        ),
        removal.remark(RemovalEventView::ChecksumRecorded(Err(reason))) == Some(
            "Warning: could not record the axis checksum of '"@ + removal.id + "': "@ + reason,
        ),
        removal.in_project ==> removal.remark(RemovalEventView::AxesKept(Err(reason))) is None,
        !removal.in_project ==> removal.remark(RemovalEventView::AxesKept(Err(reason))) is Some,
        removal.remark(RemovalEventView::AxesKept(Ok(()))) is None,
        removal.remark(RemovalEventView::ChecksumRecorded(Ok(()))) is None,
        removal.remark(RemovalEventView::Deleted(Ok(()))) is None,
        removal.remark(RemovalEventView::Ignored(Ok(()))) is None,
        removal.remark(RemovalEventView::Superseded(Ok(()))) is None,
        removal.remark(RemovalEventView::Rediscovered(Ok(()))) is None,
{
}

// ---------------------------------------------------------------------------
// Uploads
// ---------------------------------------------------------------------------

/// What each stage says of the steps that led to it.
spec fn brought_to(
    upload: UploadView,
    start: UploadView,
    events: Seq<UploadEventView>,
) -> bool {
    let n = events.len();
    let read = n >= 1 && upload.meta is Some && events[0] == UploadEventView::Inspected(
        InspectionView::Supported(upload.meta->0),
    );
    let counted = read && n >= 3 && events[2] == UploadEventView::ArchiveCounted(
        Ok(upload.archived),
    );
    &&& upload.destination == start.destination
    &&& upload.filename == start.filename
    &&& upload.user == start.user
    &&& upload.bytes == start.bytes
    &&& match upload.stage {
        UploadStage::Inspecting => n == 0,
        UploadStage::ReadingOverrides => n == 1 && read,
        UploadStage::CountingArchive => n == 2 && read,
        UploadStage::Installing => n == 3 && counted,
        UploadStage::Recording => n == 4 && counted && events[3] == UploadEventView::Installed(
            Ok(()),
        ),
        UploadStage::Rediscovering => n == 5 && counted && events[3]
            == UploadEventView::Installed(Ok(())) && events[4] is Recorded,
        UploadStage::Over => true,
    }
}

proof fn lemma_brought_to(start: UploadView, events: Seq<UploadEventView>, catalog: CatalogView)
    requires
        is_fresh(start),
        upload_run(start, events, catalog) is Some,
    ensures
        brought_to(upload_run(start, events, catalog)->0, start, events),
    decreases events.len(),
{
    if events.len() > 0 {
        let rest = events.drop_last();
        lemma_brought_to(start, rest, catalog);
        let n = events.len();
        assert(events.last() == events[n - 1]);
        assert(n >= 2 ==> rest[0] == events[0]);
        assert(n >= 4 ==> rest[2] == events[2]);
        assert(n >= 5 ==> rest[3] == events[3]);
        assert(upload_run(start, rest, catalog)->0.expects(events.last()));
        match events.last() {
            UploadEventView::Installed(Ok(done)) => {
                assert(done == ());
            },
            _ => {},
        }
    }
}

/// An upload is answered with what was uploaded: the id, the display name and
/// the group name that the file itself carries, each in its own place, the
/// revision that its id and its time make, as many bytes as were written, and
/// as many interpretations as the archive was found to hold. By then the file
/// was installed and the catalog rebuilt, and the log names whoever did it.
pub proof fn an_upload_is_answered_with_what_was_uploaded(
    start: UploadView,
    events: Seq<UploadEventView>,
    catalog: CatalogView,
    meta: MetaView,
    log: AuditView,
    added: AddedView,
)
    requires
        is_fresh(start),
        events.len() > 0,
        events[0] == UploadEventView::Inspected(InspectionView::Supported(meta)),
        upload_run(start, events.drop_last(), catalog) is Some,
        upload_run(start, events.drop_last(), catalog)->0.expects(events.last()),
        upload_run(start, events.drop_last(), catalog)->0.after(events.last(), catalog).1
            == UploadActionView::Answer(log, added),
    ensures
        events.len() == 6,
        events[2] == UploadEventView::ArchiveCounted(Ok(added.archived_interpretations)),
        events[3] == UploadEventView::Installed(Ok(())),
        events[5] == UploadEventView::Rediscovered(Ok(()), log.at),
        added.radargram_id == meta.radargram_id,
        added.revision_id == revision_of(meta.radargram_id, meta.processing_datetime),
        added.display_name == meta.display_name,
        added.group_name == meta.group_name,
        added.bytes == start.bytes,
        log.user == start.user,
        log.action == AuditAction::Added,
        log.radargram_id == meta.radargram_id,
        log.revision_id == Some(revision_of(meta.radargram_id, meta.processing_datetime)),
        added.archived_interpretations == 0 ==> log.note == start.filename,
        added.archived_interpretations > 0 ==> {
            let found = decimal(added.archived_interpretations as nat)
                + " archived interpretation(s) already under this id"@;
            &&& start.filename is None ==> log.note == Some(found)
            &&& start.filename matches Some(name) ==> log.note == Some(name + "; "@ + found)
        },
{
    let rest = events.drop_last();
    lemma_brought_to(start, rest, catalog);
    let n = events.len();
    assert(events.last() == events[n - 1]);
    assert(n >= 2 ==> rest[0] == events[0]);
    assert(n >= 4 ==> rest[2] == events[2]);
    assert(n >= 5 ==> rest[3] == events[3]);
    let before = upload_run(start, rest, catalog)->0;
    match events.last() {
        UploadEventView::Rediscovered(Ok(done), at) => {
            assert(done == ());
        },
        _ => {},
    }
    if added.archived_interpretations > 0 && start.filename is Some {
        let name = start.filename->0;
        let count = decimal(added.archived_interpretations as nat);
        let words = " archived interpretation(s) already under this id"@;
        assert(name + "; "@ + count + words =~= name + "; "@ + (count + words));
    }
}

/// A radargram whose id is neither served nor ignored gets through: it is
/// installed in the destination under its id, its revision is recorded, whether
/// or not that succeeds the catalog is rebuilt, and it is answered.
pub proof fn a_free_radargram_gets_through(
    upload: UploadView,
    catalog: CatalogView,
    meta: MetaView,
    stored: crate::overrides::OverridesView,
    archived: usize,
    recorded: Result<(), Seq<char>>,
    at: Seq<char>,
)
    requires
        is_fresh(upload),
        forall|i: int|
            0 <= i < catalog.entries.len() ==> (#[trigger] catalog.entries[i]).radargram_id
                != meta.radargram_id,
        !stored.ignored.contains_key(meta.radargram_id),
    ensures
        ({
            let inspected = UploadEventView::Inspected(InspectionView::Supported(meta));
            let (one, first) = upload.after(inspected, catalog);
            let (two, second) = one.after(UploadEventView::OverridesRead(Ok(stored)), catalog);
            let (three, third) = two.after(UploadEventView::ArchiveCounted(Ok(archived)), catalog);
            let (four, fourth) = three.after(UploadEventView::Installed(Ok(())), catalog);
            let (five, fifth) = four.after(UploadEventView::Recorded(recorded), catalog);
            let (six, sixth) = five.after(UploadEventView::Rediscovered(Ok(()), at), catalog);
            &&& first == UploadActionView::ReadOverrides
            &&& second == UploadActionView::CountArchive
            &&& third == UploadActionView::Install(
                upload.destination.push(meta.radargram_id + ".nc"@),
            )
            &&& fourth == UploadActionView::RecordRevision(
                meta.radargram_id,
                revision_of(meta.radargram_id, meta.processing_datetime),
            )
            &&& fifth == UploadActionView::Rediscover
            &&& sixth is Answer
        }),
{
    lemma_entry_with_id(catalog.entries, meta.radargram_id);
}

/// An id that is served is not free, and neither is one that is ignored: either
/// ends the upload with a conflict before anything was installed.
pub proof fn a_taken_id_is_refused(
    upload: UploadView,
    catalog: CatalogView,
    meta: MetaView,
    stored: crate::overrides::OverridesView,
)
    ensures
        has_id(catalog.entries, meta.radargram_id) ==> {
            let (next, action) = upload.after(
                UploadEventView::Inspected(InspectionView::Supported(meta)),
                catalog,
            );
            &&& next.stage == UploadStage::Over
            &&& action matches UploadActionView::Refuse(error)
            &&& error.status == 409
            &&& error.code == "radargram_exists"@
        },
        upload.meta == Some(meta) && stored.ignored.contains_key(meta.radargram_id) ==> {
            let (next, action) = upload.after(UploadEventView::OverridesRead(Ok(stored)), catalog);
            &&& next.stage == UploadStage::Over
            &&& action matches UploadActionView::Refuse(error)
            &&& error.status == 409
            &&& error.code == "radargram_ignored"@
        },
{
    lemma_entry_with_id(catalog.entries, meta.radargram_id);
}

/// A file that is no radargram is refused by what it is, and spoken of by the
/// name it came with; and a step that fails ends the upload with its reason.
pub proof fn a_failed_upload_is_refused(
    upload: UploadView,
    catalog: CatalogView,
    inspection: InspectionView,
    reason: Seq<char>,
    at: Seq<char>,
)
    ensures
        !(inspection is Supported) ==> {
            let (next, action) = upload.after(UploadEventView::Inspected(inspection), catalog);
            &&& next.stage == UploadStage::Over
            &&& action matches UploadActionView::Refuse(error)
            &&& error.status == 400
            &&& inspection is Unreadable ==> error.code == "not_a_radargram"@
            &&& inspection is Legacy ==> error.code == "ridal_file_too_old"@
            &&& inspection is Foreign ==> error.code == "not_a_ridal_radargram"@
            &&& upload.filename matches Some(name) ==> name.len() <= error.message.len()
                && error.message.take(name.len() as int) == name
        },
        ({
            let (next, action) = upload.after(
                UploadEventView::OverridesRead(Err(reason)),
                catalog,
            );
            &&& next.stage == UploadStage::Over
            &&& action matches UploadActionView::Refuse(error)
            &&& error.status == 500 && error.code == "overrides_read_failed"@ && error.message
                == reason
        }),
        ({
            let (next, action) = upload.after(
                UploadEventView::ArchiveCounted(Err(reason)),
                catalog,
            );
            &&& next.stage == UploadStage::Over
            &&& action matches UploadActionView::Refuse(error)
            &&& error.status == 500 && error.code == "archive_read_failed"@ && error.message
                == reason
        }),
        ({
            let (next, action) = upload.after(UploadEventView::Installed(Err(reason)), catalog);
            &&& next.stage == UploadStage::Over
            &&& action matches UploadActionView::Refuse(error)
            &&& error.status == 500 && error.code == "install_failed"@
        }),
        ({
            let (next, action) = upload.after(
                UploadEventView::Rediscovered(Err(reason), at),
                catalog,
            );
            &&& next.stage == UploadStage::Over
            &&& action matches UploadActionView::Refuse(error)
            &&& error.status == 500 && error.code == "rediscover_failed"@ && error.message == reason
        }),
{
    if !(inspection is Supported) && upload.filename is Some {
        let name = upload.filename->0;
        let error = inspection_refusal(inspection, upload.filename)->0;
        assert(error.message.take(name.len() as int) =~= name);
    }
}

/// An upload that goes well is silent; one whose revision could not be recorded
/// says so, and why.
pub proof fn an_upload_remarks_on_what_was_lost(
    upload: UploadView,
    meta: MetaView,
    event: UploadEventView,
    reason: Seq<char>,
)
    requires
        upload.meta == Some(meta),
    ensures
        upload.remark(UploadEventView::Recorded(Err(reason))) == Some(
            "Warning: could not record the revision of '"@ + meta.radargram_id + "': "@ + reason,
        ),
        !(event is Recorded) ==> upload.remark(event) is None,
        upload.remark(UploadEventView::Recorded(Ok(()))) is None,
{
}

// ---------------------------------------------------------------------------
// What is said on the way
// ---------------------------------------------------------------------------

/// A removal waits for exactly what it asked for: every step that asks for
/// something is followed by the answer to it.
pub proof fn a_removal_waits_for_what_it_asked(removal: RemovalView, event: RemovalEventView)
    requires
        removal.expects(event),
    ensures
        ({
            let (next, action) = removal.after(event);
            &&& action is KeepAxes <==> next.stage == RemovalStage::KeepingAxes
            &&& action is RecordChecksum <==> next.stage == RemovalStage::RecordingChecksum
            &&& action is Archive <==> next.stage == RemovalStage::Archiving
            &&& action is CloseAndDelete <==> next.stage == RemovalStage::Deleting
            &&& action is RecordIgnore <==> next.stage == RemovalStage::Ignoring
            &&& action is RecordSupersession <==> next.stage == RemovalStage::Superseding
            &&& action is Rediscover <==> next.stage == RemovalStage::Rediscovering
            &&& action is Answer || action is Refuse <==> next.stage == RemovalStage::Over
        }),
        removal.stage == RemovalStage::KeepingAxes <==> event is AxesKept,
        removal.stage == RemovalStage::RecordingChecksum <==> event is ChecksumRecorded,
        removal.stage == RemovalStage::Archiving <==> event is Archived,
        removal.stage == RemovalStage::Deleting <==> event is Deleted,
        removal.stage == RemovalStage::Ignoring <==> event is Ignored,
        removal.stage == RemovalStage::Superseding <==> event is Superseded,
        removal.stage == RemovalStage::Rediscovering <==> event is Rediscovered,
{
}

/// An upload waits for exactly what it asked for.
pub proof fn an_upload_waits_for_what_it_asked(
    upload: UploadView,
    event: UploadEventView,
    catalog: CatalogView,
)
    requires
        upload.expects(event),
    ensures
        ({
            let (next, action) = upload.after(event, catalog);
            &&& action is ReadOverrides <==> next.stage == UploadStage::ReadingOverrides
            &&& action is CountArchive <==> next.stage == UploadStage::CountingArchive
            &&& action is Install <==> next.stage == UploadStage::Installing
            &&& action is RecordRevision <==> next.stage == UploadStage::Recording
            &&& action is Rediscover <==> next.stage == UploadStage::Rediscovering
            &&& action is Answer || action is Refuse <==> next.stage == UploadStage::Over
            &&& next.destination == upload.destination
            &&& next.filename == upload.filename
            &&& next.user == upload.user
            &&& next.bytes == upload.bytes
        }),
        upload.stage == UploadStage::Inspecting <==> event is Inspected,
        upload.stage == UploadStage::ReadingOverrides <==> event is OverridesRead,
        upload.stage == UploadStage::CountingArchive <==> event is ArchiveCounted,
        upload.stage == UploadStage::Installing <==> event is Installed,
        upload.stage == UploadStage::Recording <==> event is Recorded,
        upload.stage == UploadStage::Rediscovering <==> event is Rediscovered,
{
}

/// Where the axes of a file in an archive cannot be kept, the removal goes on
/// and says why; one of the project's own is refused with the same reason.
pub proof fn lost_axes_are_told_of(
    removal: RemovalView,
    processed: Option<Seq<char>>,
    declared: bool,
    reason: Seq<char>,
)
    ensures
        ({
            let read = RemovalEventView::AxesRead(processed, declared);
            let same = processed is Some && revision_of(removal.id, processed->0)
                == removal.revision;
            let changed = "'"@ + removal.id + "' on disk is not the revision the catalog has ("@
                + removal.revision
                + "); it was changed or became unreadable since it was discovered, so its axes cannot be kept under that id"@;
            &&& same && declared ==> removal.remark(read) is None
            &&& same && !declared ==> removal.remark(read) == Some(
                "Note: '"@ + removal.id
                    + "' does not declare its axes, so no snapshot was kept. Interpretations drawn on it cannot be carried onto a later revision."@,
            )
            &&& !same && !removal.in_project ==> removal.after(read).1
                == RemovalActionView::Archive && removal.remark(read) == Some(
                "Warning: "@ + changed,
            )
            &&& !same && removal.in_project ==> removal.remark(read) is None && (removal.after(
                read,
            ).1 matches RemovalActionView::Refuse(error) && error.message == changed
                + ". The removal was refused, because deleting the file now would lose the only copy of the mapping that carries its interpretations forward."@)
        }),
        ({
            let lost = RemovalEventView::AxesKept(Err(reason));
            let told = "'"@ + removal.id + "' declares axes but they could not be kept: "@ + reason;
            &&& !removal.in_project ==> removal.after(lost).1 == RemovalActionView::Archive
                && removal.remark(lost) == Some("Warning: "@ + told)
            &&& removal.in_project ==> (removal.after(lost).1 matches RemovalActionView::Refuse(
                error,
            ) && error.message == told
                + ". The removal was refused, because deleting the file now would lose the only copy of the mapping that carries its interpretations forward."@)
        }),
{
}

/// A refused upload says which file or which id is at fault, and why.
pub proof fn a_refused_upload_says_why(
    upload: UploadView,
    catalog: CatalogView,
    meta: MetaView,
    reason: Seq<char>,
    stored: crate::overrides::OverridesView,
)
    ensures
        ({
            let name = if upload.filename is Some {
                upload.filename->0
            } else {
                "the upload"@
            };
            let unreadable = upload.after(
                UploadEventView::Inspected(InspectionView::Unreadable(reason)),
                catalog,
            ).1;
            let old_file = upload.after(
                UploadEventView::Inspected(InspectionView::Legacy(reason)),
                catalog,
            ).1;
            let foreign = upload.after(
                UploadEventView::Inspected(InspectionView::Foreign),
                catalog,
            ).1;
            &&& unreadable matches UploadActionView::Refuse(error) && error.message == name
                + " is not readable as a NetCDF file: "@ + reason
            &&& old_file matches UploadActionView::Refuse(error) && error.message == name
                + " was "@ + ("processed by "@ + reason
                + ", which is too old to be served: it has no radargram id. Process it again with `ridal process`."@)
            &&& foreign matches UploadActionView::Refuse(error) && error.message == name
                + " is a NetCDF file but not one Ridal processed: it has no radargram id. Process it with `ridal process` first."@
        }),
        has_id(catalog.entries, meta.radargram_id) ==> (upload.after(
            UploadEventView::Inspected(InspectionView::Supported(meta)),
            catalog,
        ).1 matches UploadActionView::Refuse(error) && error.message
            == "This catalog already has a radargram called '"@ + meta.radargram_id
            + "'. Give the new one a different id with `ridal process --radargram-id`, or remove the existing one first."@),
        upload.meta == Some(meta) && stored.ignored.contains_key(meta.radargram_id) ==> (
        upload.after(
            UploadEventView::OverridesRead(Ok(stored)),
            catalog,
        ).1 matches UploadActionView::Refuse(error) && error.message == "'"@ + meta.radargram_id
            + "' is on this project's ignore list, so adding it would install a file the catalog then hides. Restore that id first if this is meant to replace it."@),
        upload.meta == Some(meta) ==> (upload.after(
            UploadEventView::Installed(Err(reason)),
            catalog,
        ).1 matches UploadActionView::Refuse(error) && error.message == "Could not install "@
            + crate::paths::path_text(upload.destination.push(meta.radargram_id + ".nc"@)) + ": "@
            + reason),
{
    lemma_entry_with_id(catalog.entries, meta.radargram_id);
}

/// A removal is taken up exactly where an operator asks for something that is
/// served, in a project, and its path can be found.
pub proof fn a_removal_is_taken_up_exactly_where_it_may(
    state: crate::app_state::StateView,
    caller: crate::auth::Caller,
    raw: Seq<char>,
    path: Result<Seq<Seq<char>>, Seq<char>>,
)
    ensures
        ({
            let refused = crate::removal::removal_refusal(state, caller, raw, path);
            let operator = caller.allowed(crate::auth::Role::Operator);
            let there = crate::identity::is_slug(raw) && has_id(state.snapshot.catalog.entries, raw);
            &&& refused is None <==> operator && state.has_project && there && path is Ok
            &&& operator && !state.has_project ==> refused->0.status == 409
            &&& operator && state.has_project && !there ==> refused->0.status == 400
                || refused->0.status == 404
            &&& operator && state.has_project && there && path is Err ==> refused->0.status == 500
                && refused->0.message == path->Err_0
        }),
{
    crate::edit_laws::an_id_finds_its_radargram_or_says_why(state.snapshot.catalog, raw);
}

/// A decision is lifted exactly where an operator of a project asks it of
/// something that is ignored; and lifting it changes nothing else.
pub proof fn a_decision_is_lifted_exactly_where_there_is_one(
    caller: crate::auth::Caller,
    has_project: bool,
    raw: Seq<char>,
    stored: crate::overrides::OverridesView,
    other: Seq<char>,
)
    requires
        other != raw,
    ensures
        ({
            let refused = crate::lifecycle::restore_refusal(caller, has_project, raw, stored);
            let operator = caller.allowed(crate::auth::Role::Operator);
            &&& refused is None <==> operator && has_project && crate::identity::is_slug(raw)
                && stored.ignored.contains_key(raw)
            &&& operator && !has_project ==> refused->0.status == 409
            &&& operator && has_project && !crate::identity::is_slug(raw) ==> refused->0.status
                == 400
            &&& operator && has_project && crate::identity::is_slug(raw)
                && !stored.ignored.contains_key(raw) ==> refused->0.status == 404
                && refused->0.code == "not_ignored"@
        }),
        ({
            let after = crate::lifecycle::without_ignore(stored, raw);
            &&& !after.ignored.contains_key(raw)
            &&& after.ignored.contains_key(other) == stored.ignored.contains_key(other)
            &&& stored.ignored.contains_key(other) ==> after.ignored[other]
                == stored.ignored[other]
            &&& after.radargrams == stored.radargrams
            &&& after.groups == stored.groups
        }),
{
}

/// A history is read by whoever may look, of a project, by an id.
pub proof fn a_history_is_for_everybody(
    caller: crate::auth::Caller,
    has_project: bool,
    raw: Seq<char>,
)
    ensures
        ({
            let refused = crate::lifecycle::revisions_refusal(caller, has_project, raw);
            &&& refused is None <==> has_project && crate::identity::is_slug(raw)
            &&& !has_project ==> refused->0.status == 404 && refused->0.code == "not_a_project"@
            &&& has_project && !crate::identity::is_slug(raw) ==> refused->0.status == 400
        }),
{
}

} // verus!
