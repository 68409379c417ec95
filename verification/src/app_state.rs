//! What one running server holds.
//!
//! A server serves one generation of a catalog at a time, together with the
//! render services that go with it. An edit builds a whole new generation and
//! swaps it in, so a request finishes against the generation it started with.
use std::sync::Arc;

use vstd::prelude::*;

use crate::api_error::{refusal, ApiError, ErrorView};
use crate::auth::AccessOptions;
use crate::catalog::{
    entry_with_id, root_writable, writable_root, Catalog, CatalogEntry, CatalogRoot, CatalogView,
    EntryView, RootView,
};
use crate::identity::{is_slug, not_a_slug, RadargramId};
use crate::overrides::CatalogOverrides;
use crate::paths;
use crate::paths::{
    copy_parts, is_plain_relative, lies_under, path_text, relative_names, FilePath,
};
use crate::resolution::resolved;
use crate::text;
use crate::text::decimal;
use crate::text_map::TextMap;

verus! {

broadcast use vstd::string::group_string_axioms;

// ---------------------------------------------------------------------------
// Snapshots
// ---------------------------------------------------------------------------

/// One open radargram: the number of its render service, and its shape.
#[derive(Clone, Copy, Debug, PartialEq, Eq)]
pub struct OpenRadargram {
    /// Which of the server's render services reads the file.
    pub service: u64,
    pub shape: (usize, usize),
}

/// One generation of what the server is serving.
///
/// The catalog and the render services are one value because they only make
/// sense together: an entry describes a file and the service is what reads it.
#[derive(Debug)]
pub struct CatalogSnapshot {
    pub catalog: Catalog,
    pub radargrams: TextMap<String, OpenRadargram>,
}

/// One generation, as plain values.
#[verifier::ext_equal]
pub struct SnapshotView {
    pub catalog: CatalogView,
    pub radargrams: Map<Seq<char>, OpenRadargram>,
}

impl View for CatalogSnapshot {
    type V = SnapshotView;

    open spec fn view(&self) -> SnapshotView {
        SnapshotView { catalog: self.catalog@, radargrams: self.radargrams@ }
    }
}

/// What a map says of a key.
pub open spec fn looked_up<V>(map: Map<Seq<char>, V>, key: Seq<char>) -> Option<V> {
    if map.contains_key(key) {
        Some(map[key])
    } else {
        None
    }
}

impl CatalogSnapshot {
    /// The open radargram of this generation, where there is one.
    pub fn radargram(&self, radargram_id: &str) -> (open: Option<OpenRadargram>)
        ensures
            open == looked_up(self@.radargrams, radargram_id@),
    {
        match self.radargrams.get(radargram_id) {
            Some(open) => Some(*open),
            None => None,
        }
    }

    /// Every open radargram, for carrying across a swap that changes no file.
    pub fn open_radargrams(&self) -> (open: TextMap<String, OpenRadargram>)
        ensures
            open@ == self@.radargrams,
    {
        let open = self.radargrams.clone();
        assert(open@ =~= self.radargrams@);
        open
    }
}

// ---------------------------------------------------------------------------
// Which render services a generation has
// ---------------------------------------------------------------------------

/// What the caller opened for the `i`-th entry, if anything.
pub open spec fn opened_at(opened: Seq<Option<OpenRadargram>>, i: int) -> Option<OpenRadargram> {
    if 0 <= i < opened.len() {
        opened[i]
    } else {
        None
    }
}

/// The open radargram that is carried over for an entry: that of the former
/// generation, where it had one and the entry is the revision it was.
pub open spec fn carried_over(former: SnapshotView, entry: EntryView) -> Option<OpenRadargram> {
    match entry_with_id(former.catalog.entries, entry.radargram_id) {
        Some(old) => if old.revision_id == entry.revision_id {
            looked_up(former.radargrams, entry.radargram_id)
        } else {
            None
        },
        None => None,
    }
}

/// The open radargram an entry has: the one carried over, or the one opened
/// for it, where the root it names is served.
pub open spec fn service_for(
    former: SnapshotView,
    entry: EntryView,
    n_roots: nat,
    opened: Option<OpenRadargram>,
) -> Option<OpenRadargram> {
    match carried_over(former, entry) {
        Some(open) => Some(open),
        None => if entry.root < n_roots {
            opened
        } else {
            None
        },
    }
}

/// The open radargrams of the first `n` entries.
pub open spec fn services(
    former: SnapshotView,
    entries: Seq<EntryView>,
    n_roots: nat,
    opened: Seq<Option<OpenRadargram>>,
    n: int,
) -> Map<Seq<char>, OpenRadargram>
    decreases n,
{
    if n <= 0 {
        Map::empty()
    } else {
        let before = services(former, entries, n_roots, opened, n - 1);
        let entry = entries[n - 1];
        match service_for(former, entry, n_roots, opened_at(opened, n - 1)) {
            Some(open) => before.insert(entry.radargram_id, open),
            None => before,
        }
    }
}

/// Nothing served yet.
pub open spec fn nothing_served() -> SnapshotView {
    SnapshotView { catalog: CatalogView::nothing(), radargrams: Map::empty() }
}

fn carry_over(former: &CatalogSnapshot, entry: &CatalogEntry) -> (open: Option<OpenRadargram>)
    ensures
        open == carried_over(former@, entry@),
{
    match former.catalog.find_entry(entry.radargram_id.as_str()) {
        Some(old) => if old.revision_id.same(&entry.revision_id) {
            former.radargram(entry.radargram_id.as_str())
        } else {
            None
        },
        None => None,
    }
}

fn gather_services(
    former: &CatalogSnapshot,
    catalog: &Catalog,
    n_roots: usize,
    opened: &Vec<Option<OpenRadargram>>,
) -> (radargrams: TextMap<String, OpenRadargram>)
    ensures
        radargrams@ == services(
            former@,
            catalog@.entries,
            n_roots as nat,
            opened@,
            catalog@.entries.len() as int,
        ),
{
    let ghost all = catalog@.entries;
    let mut radargrams: TextMap<String, OpenRadargram> = TextMap::new();
    let mut i: usize = 0;
    while i < catalog.entries.len()
        invariant
            i <= catalog.entries.len(),
            all == catalog.entries.deep_view(),
            radargrams@ == services(former@, all, n_roots as nat, opened@, i as int),
        decreases catalog.entries.len() - i,
    {
        let entry = &catalog.entries[i];
        assert(all[i as int] == entry@);
        let fresh = if i < opened.len() {
            opened[i]
        } else {
            None
        };
        let service = match carry_over(former, entry) {
            Some(open) => Some(open),
            None => if entry.root < n_roots {
                fresh
            } else {
                None
            },
        };
        if let Some(open) = service {
            radargrams.insert(entry.radargram_id.to_text(), open);
        }
        i = i + 1;
    }
    radargrams
}

// ---------------------------------------------------------------------------
// The state
// ---------------------------------------------------------------------------

/// The key that signs session cookies.
#[derive(Debug, PartialEq, Eq)]
pub struct SessionKey {
    pub secret: String,
}

impl DeepView for SessionKey {
    type V = Seq<char>;

    open spec fn deep_view(&self) -> Seq<char> {
        self.secret@
    }
}

impl Clone for SessionKey {
    fn clone(&self) -> (copy: Self)
        ensures
            copy == *self,
    {
        SessionKey { secret: self.secret.clone() }
    }
}

/// What one running server holds.
pub struct AppState {
    /// Every place radargrams are found, the served tree first.
    pub roots: Vec<CatalogRoot>,
    /// What is being served.
    pub snapshot: Arc<CatalogSnapshot>,
    /// Whether the catalog belongs to a project, which is what there is to
    /// write to.
    pub has_project: bool,
    /// What this server permits regardless of who is asking.
    pub access: AccessOptions,
    /// The key that signs sessions, once it was needed.
    pub session_key: Option<SessionKey>,
    /// How many renders may be in flight at once.
    pub render_permits: usize,
}

/// The state, as plain values.
#[verifier::ext_equal]
pub struct StateView {
    pub roots: Seq<RootView>,
    pub snapshot: SnapshotView,
    pub has_project: bool,
    pub access: AccessOptions,
    pub session_key: Option<Seq<char>>,
    pub render_permits: usize,
}

impl View for AppState {
    type V = StateView;

    open spec fn view(&self) -> StateView {
        StateView {
            roots: self.roots.deep_view(),
            snapshot: (*self.snapshot)@,
            has_project: self.has_project,
            access: self.access,
            session_key: self.session_key.deep_view(),
            render_permits: self.render_permits,
        }
    }
}

/// Where an entry's file is to be looked for.
#[derive(Debug, PartialEq)]
pub enum Lookup {
    /// Here: the root is the file.
    Exact(FilePath),
    /// Here, once links are resolved and it is certain that they stay below
    /// the root.
    Below(FilePath),
}

/// Where an entry's file is to be looked for, as plain values.
#[verifier::ext_equal]
pub enum LookupView {
    Exact(Seq<Seq<char>>),
    Below(Seq<Seq<char>>),
}

impl View for Lookup {
    type V = LookupView;

    open spec fn view(&self) -> LookupView {
        match self {
            Lookup::Exact(path) => LookupView::Exact(path@),
            Lookup::Below(path) => LookupView::Below(path@),
        }
    }
}

/// Why a path is not followed.
pub open spec fn disallowed_component(relative: Seq<char>) -> Seq<char> {
    "path contains a disallowed component: "@ + relative
}

/// Why a resolved path is refused.
pub open spec fn escapes_root(path: Seq<Seq<char>>) -> Seq<char> {
    "resolved path escapes catalog root: "@ + path_text(path)
}

/// Why an entry has no path.
pub open spec fn root_not_served(root: usize) -> Seq<char> {
    "entry names root "@ + decimal(root as nat) + ", which is not served"@
}

/// Where an entry's file is to be looked for below its root. A path that is
/// absolute, starts with `.` or goes up is not followed.
pub fn resolve_absolute_path(root: &CatalogRoot, entry: &CatalogEntry) -> (lookup: Result<
    Lookup,
    String,
>)
    ensures
        match lookup {
            Ok(lookup) => if root.is_file {
                lookup@ == LookupView::Exact(root@.path)
            } else {
                is_plain_relative(entry@.relative_path) && lookup@ == LookupView::Below(
                    root@.path + relative_names(entry@.relative_path),
                )
            },
            Err(message) => !root.is_file && !is_plain_relative(entry@.relative_path) && message@
                == disallowed_component(entry@.relative_path),
        },
{
    if root.is_file {
        return Ok(Lookup::Exact(root.path.clone()));
    }
    match paths::plain_relative(entry.relative_path.as_str()) {
        Some(mut names) => {
            let mut parts = copy_parts(&root.path.parts);
            let ghost above = parts.deep_view();
            let ghost below = names.deep_view();
            parts.append(&mut names);
            assert(parts.deep_view() =~= above + below);
            Ok(Lookup::Below(FilePath { parts }))
        },
        None => {
            let mut message = "path contains a disallowed component: ".to_owned();
            message.append(entry.relative_path.as_str());
            Err(message)
        },
    }
}

/// A resolved path, where it lies below its root, whatever links led to it.
pub fn confine(root: &CatalogRoot, resolved: FilePath) -> (path: Result<FilePath, String>)
    ensures
        match path {
            Ok(path) => lies_under(resolved@, root@.path) && path@ == resolved@,
            Err(message) => !lies_under(resolved@, root@.path) && message@ == escapes_root(
                resolved@,
            ),
        },
{
    if resolved.starts_with(&root.path) {
        Ok(resolved)
    } else {
        let mut message = "resolved path escapes catalog root: ".to_owned();
        message.append(resolved.to_text().as_str());
        Err(message)
    }
}

/// What is asked for of a key that signs sessions.
#[derive(Debug, PartialEq)]
pub enum KeyRequest {
    /// This is the key.
    Known(SessionKey),
    /// It has to be loaded, and kept with [`AppState::keep_session_key`].
    Load,
}

impl AppState {
    /// A server over a discovered catalog. `opened` is what could be opened
    /// for rendering, entry by entry; what could not be is still served, only
    /// not rendered.
    pub fn build_with_project(
        roots: Vec<CatalogRoot>,
        catalog: Catalog,
        opened: Vec<Option<OpenRadargram>>,
        has_project: bool,
        access: AccessOptions,
        n_workers: usize,
    ) -> (state: AppState)
        ensures
            state@ == (StateView {
                roots: roots.deep_view(),
                snapshot: SnapshotView {
                    catalog: catalog@,
                    radargrams: services(
                        nothing_served(),
                        catalog@.entries,
                        roots.deep_view().len(),
                        opened@,
                        catalog@.entries.len() as int,
                    ),
                },
                has_project,
                access,
                session_key: None,
                render_permits: if n_workers == 0 {
                    1
                } else {
                    n_workers
                },
            }),
    {
        let former = CatalogSnapshot { catalog: Catalog::default(), radargrams: TextMap::new() };
        let radargrams = gather_services(&former, &catalog, roots.len(), &opened);
        AppState {
            roots,
            snapshot: Arc::new(CatalogSnapshot { catalog, radargrams }),
            has_project,
            access,
            session_key: None,
            // Without a permit nothing would ever be rendered.
            render_permits: if n_workers == 0 {
                1
            } else {
                n_workers
            },
        }
    }

    /// Which entries of a newly discovered catalog need their file opened:
    /// those whose root is served and whose service is not carried over.
    pub fn needs_opening(&self, catalog: &Catalog) -> (needs: Vec<bool>)
        ensures
            needs.len() == catalog@.entries.len(),
            forall|i: int|
                0 <= i < needs.len() ==> #[trigger] needs[i] == (carried_over(
                    self@.snapshot,
                    catalog@.entries[i],
                ) is None && catalog@.entries[i].root < self@.roots.len()),
    {
        let mut needs: Vec<bool> = Vec::new();
        let mut i: usize = 0;
        while i < catalog.entries.len()
            invariant
                i <= catalog.entries.len(),
                needs.len() == i,
                forall|j: int|
                    0 <= j < i ==> #[trigger] needs[j] == (carried_over(
                        self@.snapshot,
                        catalog@.entries[j],
                    ) is None && catalog@.entries[j].root < self@.roots.len()),
            decreases catalog.entries.len() - i,
        {
            let entry = &catalog.entries[i];
            assert(catalog@.entries[i as int] == entry@);
            let former: &CatalogSnapshot = &self.snapshot;
            needs.push(carry_over(former, entry).is_none() && entry.root < self.roots.len());
            i = i + 1;
        }
        needs
    }

    /// Takes up a newly discovered catalog. A service is carried over for
    /// every radargram whose revision is unchanged, and for the others comes
    /// from `opened`.
    pub fn rediscover(&mut self, catalog: Catalog, opened: Vec<Option<OpenRadargram>>)
        ensures
            final(self)@ == (StateView {
                snapshot: SnapshotView {
                    catalog: catalog@,
                    radargrams: services(
                        old(self)@.snapshot,
                        catalog@.entries,
                        old(self)@.roots.len(),
                        opened@,
                        catalog@.entries.len() as int,
                    ),
                },
                ..old(self)@
            }),
    {
        let former = self.catalog();
        let radargrams = gather_services(&former, &catalog, self.roots.len(), &opened);
        self.replace_catalog(catalog, radargrams);
    }

    /// The generation being served right now. Ask once and keep it: it stays
    /// what it is, whatever is swapped in meanwhile.
    pub fn catalog(&self) -> (snapshot: Arc<CatalogSnapshot>)
        ensures
            (*snapshot)@ == self@.snapshot,
    {
        self.snapshot.clone()
    }

    /// Replaces the catalog and the render services that go with it, both in
    /// one step.
    pub fn replace_catalog(&mut self, catalog: Catalog, radargrams: TextMap<String, OpenRadargram>)
        ensures
            final(self)@ == (StateView {
                snapshot: SnapshotView { catalog: catalog@, radargrams: radargrams@ },
                ..old(self)@
            }),
    {
        self.snapshot = Arc::new(CatalogSnapshot { catalog, radargrams });
    }

    /// Drops the render service of one radargram, so that its file can be
    /// deleted.
    pub fn close_radargram(&mut self, radargram_id: &str)
        ensures
            final(self)@ == (StateView {
                snapshot: SnapshotView {
                    catalog: old(self)@.snapshot.catalog,
                    radargrams: old(self)@.snapshot.radargrams.remove(radargram_id@),
                },
                ..old(self)@
            }),
    {
        let existing = self.catalog();
        let mut radargrams = existing.open_radargrams();
        radargrams.remove(radargram_id);
        self.replace_catalog(existing.catalog.clone(), radargrams);
    }

    /// Resolves the catalog against what the project says now. No file
    /// changed, so every render service is carried over.
    pub fn refresh_catalog(&mut self, stored: &CatalogOverrides)
        ensures
            final(self)@ == (StateView {
                snapshot: SnapshotView {
                    catalog: resolved(
                        old(self)@.snapshot.catalog.unresolved,
                        old(self)@.snapshot.catalog.file_warnings,
                        stored@,
                    ),
                    radargrams: old(self)@.snapshot.radargrams,
                },
                ..old(self)@
            }),
    {
        let existing = self.catalog();
        self.replace_catalog(existing.catalog.reresolved(stored), existing.open_radargrams());
    }

    /// Whether the root an entry came from may be written to. Never, for an
    /// archive outside the project.
    pub fn is_writable(&self, entry: &CatalogEntry) -> (writable: bool)
        ensures
            writable == root_writable(self@.roots, entry@.root),
    {
        writable_root(self.roots.as_slice(), entry.root)
    }

    /// Where an entry's file is to be looked for.
    pub fn absolute_path(&self, entry: &CatalogEntry) -> (lookup: Result<Lookup, String>)
        ensures
            match lookup {
                Ok(lookup) => entry.root < self@.roots.len() && (if self@.roots[entry.root as int].is_file {
                    lookup@ == LookupView::Exact(self@.roots[entry.root as int].path)
                } else {
                    is_plain_relative(entry@.relative_path) && lookup@ == LookupView::Below(
                        self@.roots[entry.root as int].path + relative_names(entry@.relative_path),
                    )
                }),
                Err(message) => if entry.root < self@.roots.len() {
                    !self@.roots[entry.root as int].is_file && !is_plain_relative(
                        entry@.relative_path,
                    ) && message@ == disallowed_component(entry@.relative_path)
                } else {
                    message@ == root_not_served(entry.root)
                },
            },
    {
        if entry.root < self.roots.len() {
            assert(self@.roots[entry.root as int] == self.roots[entry.root as int]@);
            resolve_absolute_path(&self.roots[entry.root], entry)
        } else {
            let mut message = "entry names root ".to_owned();
            message.append(text::decimal_usize(entry.root).as_str());
            message.append(", which is not served");
            Err(message)
        }
    }

    /// The key that signs this project's sessions. A catalog that is no
    /// project has none, and saying so is an error rather than an answer.
    pub fn session_key(&self) -> (request: Result<KeyRequest, String>)
        ensures
            match request {
                Ok(KeyRequest::Known(key)) => self@.has_project && self@.session_key == Some(
                    key.secret@,
                ),
                Ok(KeyRequest::Load) => self@.has_project && self@.session_key is None,
                Err(message) => !self@.has_project && message@
                    == "this catalog is not a project, so it has no sessions"@,
            },
    {
        if !self.has_project {
            return Err("this catalog is not a project, so it has no sessions".to_owned());
        }
        match &self.session_key {
            Some(key) => Ok(KeyRequest::Known(key.clone())),
            None => Ok(KeyRequest::Load),
        }
    }

    /// Keeps the key that was loaded. A failure is not kept, so that the next
    /// request tries again; a key that is known stays.
    pub fn keep_session_key(&mut self, loaded: Result<SessionKey, String>) -> (key: Result<
        SessionKey,
        String,
    >)
        ensures
            match (old(self)@.session_key, loaded) {
                (Some(known), _) => {
                    &&& key is Ok && key->Ok_0.secret@ == known
                    &&& final(self)@ == old(self)@
                },
                (None, Ok(fresh)) => {
                    &&& key is Ok && key->Ok_0.secret@ == fresh.secret@
                    &&& final(self)@ == (StateView {
                        session_key: Some(fresh.secret@),
                        ..old(self)@
                    })
                },
                (None, Err(message)) => {
                    &&& key is Err && key->Err_0 == message
                    &&& final(self)@ == old(self)@
                },
            },
    {
        if let Some(known) = &self.session_key {
            return Ok(known.clone());
        }
        match loaded {
            Ok(fresh) => {
                self.session_key = Some(fresh.clone());
                Ok(fresh)
            },
            Err(message) => Err(message),
        }
    }
}

// ---------------------------------------------------------------------------
// Looking radargrams up by what a URL says
// ---------------------------------------------------------------------------

/// A radargram id from a URL, checked as one typed anywhere else would be, so
/// that one that cannot exist fails with its reason rather than as not found.
pub fn validate_radargram_id(raw: &str) -> (id: Result<RadargramId, String>)
    ensures
        match id {
            Ok(id) => is_slug(raw@) && id@ == raw@,
            Err(message) => !is_slug(raw@) && message@ == not_a_slug(raw@),
        },
{
    RadargramId::new(raw)
}

/// How a request for a radargram that is not served is answered.
pub open spec fn lookup_refusal(catalog: CatalogView, raw: Seq<char>) -> Option<ErrorView> {
    if !is_slug(raw) {
        Some(refusal(400, "invalid_radargram_id"@, not_a_slug(raw)))
    } else if entry_with_id(catalog.entries, raw) is None {
        Some(refusal(404, "dataset_not_found"@, "No radargram with id '"@ + raw + "'"@))
    } else {
        None
    }
}

/// The entry that a URL names.
pub fn lookup_dataset<'a>(catalog: &'a Catalog, raw: &str) -> (entry: Result<
    &'a CatalogEntry,
    ApiError,
>)
    ensures
        match entry {
            Ok(entry) => lookup_refusal(catalog@, raw@) is None && entry_with_id(
                catalog@.entries,
                raw@,
            ) == Some(entry@),
            Err(error) => lookup_refusal(catalog@, raw@) == Some(error@),
        },
{
    match validate_radargram_id(raw) {
        Ok(_) => {},
        Err(message) => {
            return Err(ApiError::bad_request("invalid_radargram_id", message));
        },
    }
    match catalog.find_entry(raw) {
        Some(entry) => Ok(entry),
        None => {
            let mut message = "No radargram with id '".to_owned();
            message.append(raw);
            message.append("'");
            Err(ApiError::not_found("dataset_not_found", message))
        },
    }
}

// ---------------------------------------------------------------------------
// What holds of every state
// ---------------------------------------------------------------------------

/// Every render service belongs to an entry of its generation.
pub proof fn services_belong_to_entries(
    former: SnapshotView,
    entries: Seq<EntryView>,
    n_roots: nat,
    opened: Seq<Option<OpenRadargram>>,
    n: int,
    id: Seq<char>,
)
    requires
        0 <= n <= entries.len(),
        services(former, entries, n_roots, opened, n).contains_key(id),
    ensures
        exists|i: int| 0 <= i < n && (#[trigger] entries[i]).radargram_id == id,
    decreases n,
{
    if n > 0 {
        let before = services(former, entries, n_roots, opened, n - 1);
        if before.contains_key(id) {
            services_belong_to_entries(former, entries, n_roots, opened, n - 1, id);
        } else {
            assert(entries[n - 1].radargram_id == id);
        }
    }
}

/// An entry whose revision is unchanged keeps the service it had, and one that
/// changed gets the one opened for it: nothing warm is thrown away, and
/// nothing stale is kept.
pub proof fn an_entry_has_its_own_service(
    former: SnapshotView,
    entries: Seq<EntryView>,
    n_roots: nat,
    opened: Seq<Option<OpenRadargram>>,
    n: int,
    i: int,
)
    requires
        0 <= i < n <= entries.len(),
        forall|a: int, b: int|
            0 <= a < b < entries.len() ==> (#[trigger] entries[a]).radargram_id != (
            #[trigger] entries[b]).radargram_id,
    ensures
        looked_up(services(former, entries, n_roots, opened, n), entries[i].radargram_id)
            == service_for(former, entries[i], n_roots, opened_at(opened, i)),
    decreases n,
{
    if i < n - 1 {
        an_entry_has_its_own_service(former, entries, n_roots, opened, n - 1, i);
        assert(entries[i].radargram_id != entries[n - 1].radargram_id);
    } else {
        let before = services(former, entries, n_roots, opened, n - 1);
        if before.contains_key(entries[i].radargram_id) {
            services_belong_to_entries(
                former,
                entries,
                n_roots,
                opened,
                n - 1,
                entries[i].radargram_id,
            );
            let k = choose|k: int|
                0 <= k < n - 1 && (#[trigger] entries[k]).radargram_id == entries[i].radargram_id;
            assert(false);
        }
    }
}

/// A path that is followed at all lies below its root and never goes up on the
/// way.
pub proof fn a_followed_path_stays_below_its_root(root: Seq<Seq<char>>, relative: Seq<char>)
    requires
        is_plain_relative(relative),
    ensures
        lies_under(root + relative_names(relative), root),
        forall|i: int|
            0 <= i < relative_names(relative).len() ==> #[trigger] relative_names(relative)[i]
                != ".."@ && relative_names(relative)[i] != "."@ && relative_names(relative)[i].len()
                > 0,
{
    let names = relative_names(relative);
    let all = paths::segments(relative);
    let named = |segment: Seq<char>| paths::is_named(segment);
    assert((root + names).take(root.len() as int) =~= root);
    assert forall|i: int| 0 <= i < names.len() implies #[trigger] names[i] != ".."@ && names[i]
        != "."@ && names[i].len() > 0 by {
        all.lemma_filter_pred(named, i);
        assert(names.contains(names[i]));
        all.lemma_filter_contains_rev(named, names[i]);
        let k = choose|k: int| 0 <= k < all.len() && all[k] == names[i];
        assert(all[k] != ".."@);
    }
}

} // verus!
