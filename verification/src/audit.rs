//! What is written down about changes to a catalog.
use vstd::prelude::*;

verus! {

/// What was done.
#[derive(Clone, Copy, Debug, PartialEq, Eq, Structural)]
pub enum AuditAction {
    Added,
    Removed,
    Ignored,
    Unignored,
}

/// One line of the log.
#[derive(Debug, PartialEq, Eq)]
pub struct AuditEntry {
    pub at: String,
    pub user: String,
    pub action: AuditAction,
    pub radargram_id: String,
    pub revision_id: Option<String>,
    pub note: Option<String>,
}

/// One line of the log, as plain values.
#[verifier::ext_equal]
pub struct AuditView {
    pub at: Seq<char>,
    pub user: Seq<char>,
    pub action: AuditAction,
    pub radargram_id: Seq<char>,
    pub revision_id: Option<Seq<char>>,
    pub note: Option<Seq<char>>,
}

impl View for AuditEntry {
    type V = AuditView;

    open spec fn view(&self) -> AuditView {
        AuditView {
            at: self.at@,
            user: self.user@,
            action: self.action,
            radargram_id: self.radargram_id@,
            revision_id: self.revision_id.deep_view(),
            note: self.note.deep_view(),
        }
    }
}

} // verus!
