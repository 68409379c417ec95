//! Where radargrams are found.
//!
//! The tree a server was pointed at comes first, then whatever the project
//! declares outside it. What makes a root writable is lying inside the
//! project, not being the path the server was started with.
use vstd::prelude::*;

use crate::catalog::{CatalogRoot, RootView};
use crate::paths::{lies_under, path_text, FilePath};
use crate::rows::{lemma_filter_none, lemma_filter_step};

verus! {

broadcast use vstd::string::group_string_axioms;

/// A path that was found on disk, with links resolved.
#[derive(Debug, PartialEq)]
pub struct Located {
    pub path: FilePath,
    pub is_file: bool,
}

/// A directory a project declares radargrams in, and where it really is.
#[derive(Debug, PartialEq)]
pub struct DeclaredRoot {
    /// As it is written in the project's settings.
    pub declared: FilePath,
    /// Where it is, if it is there.
    pub resolved: Option<Located>,
}

/// Where a project is and where it keeps its radargrams.
#[derive(Debug, PartialEq)]
pub struct ProjectPlaces {
    /// Where the project is, with links resolved.
    pub root: Option<FilePath>,
    pub radargram_roots: Vec<DeclaredRoot>,
}

/// A path that was found on disk, as plain values.
#[verifier::ext_equal]
pub struct LocatedView {
    pub path: Seq<Seq<char>>,
    pub is_file: bool,
}

impl DeepView for Located {
    type V = LocatedView;

    open spec fn deep_view(&self) -> LocatedView {
        LocatedView { path: self.path@, is_file: self.is_file }
    }
}

/// A declared directory, as plain values.
#[verifier::ext_equal]
pub struct DeclaredView {
    pub declared: Seq<Seq<char>>,
    pub resolved: Option<LocatedView>,
}

impl DeepView for DeclaredRoot {
    type V = DeclaredView;

    open spec fn deep_view(&self) -> DeclaredView {
        DeclaredView { declared: self.declared@, resolved: self.resolved.deep_view() }
    }
}

/// The places of a project, as plain values.
#[verifier::ext_equal]
pub struct PlacesView {
    pub root: Option<Seq<Seq<char>>>,
    pub radargram_roots: Seq<DeclaredView>,
}

impl DeepView for ProjectPlaces {
    type V = PlacesView;

    open spec fn deep_view(&self) -> PlacesView {
        PlacesView {
            root: self.root.deep_view(),
            radargram_roots: self.radargram_roots.deep_view(),
        }
    }
}

/// Whether a path lies inside the project. Nothing does where there is none.
pub open spec fn owned(project: Option<PlacesView>, path: Seq<Seq<char>>) -> bool {
    project is Some && project->0.root is Some && lies_under(path, project->0.root->0)
}

/// The declared directories that are there, in order.
pub open spec fn declared_paths(roots: Seq<DeclaredView>) -> Seq<Seq<Seq<char>>>
    decreases roots.len(),
{
    if roots.len() == 0 {
        Seq::empty()
    } else {
        let before = declared_paths(roots.drop_last());
        match roots.last().resolved {
            Some(found) => before.push(found.path),
            None => before,
        }
    }
}

/// The declared directories of a project.
pub open spec fn project_declares(project: Option<PlacesView>) -> Seq<Seq<Seq<char>>> {
    match project {
        Some(places) => declared_paths(places.radargram_roots),
        None => Seq::empty(),
    }
}

/// The declared directories in or at a root: their names are structure.
pub open spec fn bases_under(declared: Seq<Seq<Seq<char>>>, root: Seq<Seq<char>>) -> Seq<
    Seq<Seq<char>>,
> {
    declared.filter(|path: Seq<Seq<char>>| lies_under(path, root))
}

/// The root that a place makes: writable exactly if it lies in the project.
pub open spec fn root_at(project: Option<PlacesView>, place: LocatedView) -> RootView {
    RootView {
        path: place.path,
        is_file: place.is_file,
        writable: owned(project, place.path),
        group_bases: bases_under(project_declares(project), place.path),
    }
}

/// The roots beside the served one: each declared directory that is there and
/// not already covered by the served tree.
pub open spec fn extra_roots(
    project: Option<PlacesView>,
    served: Seq<Seq<char>>,
    roots: Seq<DeclaredView>,
) -> Seq<RootView>
    decreases roots.len(),
{
    if roots.len() == 0 {
        Seq::empty()
    } else {
        let before = extra_roots(project, served, roots.drop_last());
        match roots.last().resolved {
            Some(found) => if lies_under(found.path, served) {
                before
            } else {
                before.push(root_at(project, found))
            },
            None => before,
        }
    }
}

/// All roots: the served tree first.
pub open spec fn all_roots(served: LocatedView, project: Option<PlacesView>) -> Seq<RootView> {
    seq![root_at(project, served)] + (match project {
        Some(places) => extra_roots(project, served.path, places.radargram_roots),
        None => Seq::empty(),
    })
}

/// What is said of a declared directory that is not there.
pub open spec fn skipped_root(declared: Seq<Seq<char>>) -> Seq<char> {
    "Warning: radargram root "@ + path_text(declared) + " does not exist and was skipped."@
}

/// One message for each declared directory that is not there.
pub open spec fn skipped_roots(roots: Seq<DeclaredView>) -> Seq<Seq<char>>
    decreases roots.len(),
{
    if roots.len() == 0 {
        Seq::empty()
    } else {
        let before = skipped_roots(roots.drop_last());
        if roots.last().resolved is None {
            before.push(skipped_root(roots.last().declared))
        } else {
            before
        }
    }
}

fn is_owned(project: &Option<ProjectPlaces>, path: &FilePath) -> (inside: bool)
    ensures
        inside == owned(project.deep_view(), path@),
{
    match project {
        Some(places) => match &places.root {
            Some(root) => path.starts_with(root),
            None => false,
        },
        None => false,
    }
}

fn find_declared(project: &Option<ProjectPlaces>) -> (declared: Vec<FilePath>)
    ensures
        declared.deep_view() == project_declares(project.deep_view()),
{
    let mut declared: Vec<FilePath> = Vec::new();
    assert(declared.deep_view() =~= Seq::empty());
    if let Some(places) = project {
        let ghost all = places.radargram_roots.deep_view();
        let mut i: usize = 0;
        proof {
            assert(all.take(0) =~= Seq::empty());
        }
        while i < places.radargram_roots.len()
            invariant
                i <= places.radargram_roots.len(),
                all == places.radargram_roots.deep_view(),
                declared.deep_view() == declared_paths(all.take(i as int)),
            decreases places.radargram_roots.len() - i,
        {
            let here = &places.radargram_roots[i];
            proof {
                assert(all.take(i + 1).drop_last() =~= all.take(i as int));
                assert(all.take(i + 1).last() == here.deep_view());
            }
            if let Some(found) = &here.resolved {
                let ghost so_far = declared.deep_view();
                let path = found.path.clone();
                declared.push(path);
                assert(declared.deep_view() =~= so_far.push(path@));
            }
            i = i + 1;
        }
        assert(all.take(i as int) =~= all);
    }
    declared
}

fn find_bases(declared: &Vec<FilePath>, root: &FilePath) -> (bases: Vec<FilePath>)
    ensures
        bases.deep_view() == bases_under(declared.deep_view(), root@),
{
    let ghost all = declared.deep_view();
    let ghost keep = |path: Seq<Seq<char>>| lies_under(path, root@);
    let mut bases: Vec<FilePath> = Vec::new();
    let mut i: usize = 0;
    proof {
        lemma_filter_none(all, keep);
        assert(bases.deep_view() =~= Seq::empty());
    }
    while i < declared.len()
        invariant
            i <= declared.len(),
            all == declared.deep_view(),
            keep == (|path: Seq<Seq<char>>| lies_under(path, root@)),
            bases.deep_view() == all.take(i as int).filter(keep),
        decreases declared.len() - i,
    {
        proof {
            lemma_filter_step(all, i as int, keep);
            assert(all[i as int] == declared[i as int]@);
        }
        if declared[i].starts_with(root) {
            let ghost so_far = bases.deep_view();
            let path = declared[i].clone();
            bases.push(path);
            assert(bases.deep_view() =~= so_far.push(path@));
        }
        i = i + 1;
    }
    assert(all.take(i as int) =~= all);
    bases
}

fn make_root(project: &Option<ProjectPlaces>, declared: &Vec<FilePath>, place: &Located) -> (root:
    CatalogRoot)
    requires
        declared.deep_view() == project_declares(project.deep_view()),
    ensures
        root@ == root_at(project.deep_view(), place.deep_view()),
{
    CatalogRoot {
        path: place.path.clone(),
        is_file: place.is_file,
        writable: is_owned(project, &place.path),
        group_bases: find_bases(declared, &place.path),
    }
}

/// Every place radargrams are found, the served tree first, and what is to be
/// said of declared places that are not there.
pub fn served_roots(served: &Located, project: &Option<ProjectPlaces>) -> (found: (
    Vec<CatalogRoot>,
    Vec<String>,
))
    ensures
        found.0.deep_view() == all_roots(served.deep_view(), project.deep_view()),
        found.1.deep_view() == (match project.deep_view() {
            Some(places) => skipped_roots(places.radargram_roots),
            None => Seq::empty(),
        }),
{
    let declared = find_declared(project);
    let mut roots: Vec<CatalogRoot> = Vec::new();
    let mut skipped: Vec<String> = Vec::new();
    let ghost view = project.deep_view();
    let first = make_root(project, &declared, served);
    roots.push(first);
    let ghost head = seq![root_at(view, served.deep_view())];
    proof {
        assert(roots.deep_view() =~= head);
        assert(skipped.deep_view() =~= Seq::empty());
    }
    if let Some(places) = project {
        let ghost all = places.radargram_roots.deep_view();
        let mut i: usize = 0;
        proof {
            assert(all.take(0) =~= Seq::empty());
            assert(roots.deep_view() =~= head + extra_roots(view, served.path@, all.take(0)));
        }
        while i < places.radargram_roots.len()
            invariant
                i <= places.radargram_roots.len(),
                all == places.radargram_roots.deep_view(),
                view == project.deep_view(),
                declared.deep_view() == project_declares(view),
                roots.deep_view() == head + extra_roots(view, served.path@, all.take(i as int)),
                skipped.deep_view() == skipped_roots(all.take(i as int)),
            decreases places.radargram_roots.len() - i,
        {
            let here = &places.radargram_roots[i];
            proof {
                assert(all.take(i + 1).drop_last() =~= all.take(i as int));
                assert(all.take(i + 1).last() == here.deep_view());
            }
            match &here.resolved {
                Some(found) => {
                    if !found.path.starts_with(&served.path) {
                        let ghost so_far = roots.deep_view();
                        let root = make_root(project, &declared, found);
                        roots.push(root);
                        proof {
                            assert(roots.deep_view() =~= so_far.push(root@));
                            assert(roots.deep_view() =~= head + extra_roots(
                                view,
                                served.path@,
                                all.take(i + 1),
                            ));
                        }
                    }
                },
                None => {
                    let ghost so_far = skipped.deep_view();
                    let mut message = "Warning: radargram root ".to_owned();
                    message.append(here.declared.to_text().as_str());
                    message.append(" does not exist and was skipped.");
                    skipped.push(message);
                    assert(skipped.deep_view() =~= so_far.push(message@));
                },
            }
            i = i + 1;
        }
        assert(all.take(i as int) =~= all);
    } else {
        assert(roots.deep_view() =~= all_roots(served.deep_view(), view));
    }
    (roots, skipped)
}

/// A root is writable exactly if it lies inside the project, whichever path
/// the server was started with: an archive never is.
pub proof fn exactly_the_projects_own_roots_are_writable(
    served: LocatedView,
    project: Option<PlacesView>,
    i: int,
)
    requires
        0 <= i < all_roots(served, project).len(),
    ensures
        all_roots(served, project)[i].writable == owned(project, all_roots(served, project)[i].path),
{
    if i > 0 {
        let roots = project->0.radargram_roots;
        assert(all_roots(served, project)[i] == extra_roots(project, served.path, roots)[i - 1]);
        lemma_extra_root(project, served.path, roots, i - 1);
    }
}

proof fn lemma_extra_root(
    project: Option<PlacesView>,
    served: Seq<Seq<char>>,
    roots: Seq<DeclaredView>,
    i: int,
)
    requires
        0 <= i < extra_roots(project, served, roots).len(),
    ensures
        ({
            let root = extra_roots(project, served, roots)[i];
            &&& root.writable == owned(project, root.path)
            &&& !lies_under(root.path, served)
        }),
    decreases roots.len(),
{
    let before = extra_roots(project, served, roots.drop_last());
    if i < before.len() {
        lemma_extra_root(project, served, roots.drop_last(), i);
    }
}

/// Nothing is scanned twice on account of the served tree: no other root lies
/// in it.
pub proof fn no_root_lies_in_the_served_tree(
    served: LocatedView,
    project: Option<PlacesView>,
    i: int,
)
    requires
        0 < i < all_roots(served, project).len(),
    ensures
        !lies_under(all_roots(served, project)[i].path, served.path),
{
    let roots = project->0.radargram_roots;
    assert(all_roots(served, project)[i] == extra_roots(project, served.path, roots)[i - 1]);
    lemma_extra_root(project, served.path, roots, i - 1);
}

} // verus!
