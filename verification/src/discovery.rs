//! Finding the files that may be radargrams.
//!
//! Walking a directory is the caller's work. Which of the files it met are
//! candidates, what each one is called below its root, and which group its
//! directory suggests, is decided here.
use vstd::prelude::*;

use crate::catalog::{CatalogRoot, RootView};
use crate::paths::{lies_under, FilePath};
use crate::rows::{lemma_filter_none, lemma_filter_step};
use crate::sorting;
use crate::sorting::{rank_of, sorted, Ranked};
use crate::text;
use crate::text::{joined, text_less};

verus! {

broadcast use vstd::string::group_string_axioms;

/// A name that starts with a dot: hidden directories and caches.
pub open spec fn is_hidden(name: Seq<char>) -> bool {
    name.len() > 0 && name[0] == '.'
}

/// Whether recursive discovery stays out of a directory of this name.
pub fn is_excluded_dir_name(name: &str) -> (excluded: bool)
    ensures
        excluded == is_hidden(name@),
{
    !name.is_empty() && name.get_char(0) == '.'
}

/// Whether a walk goes into, or takes up, what it meets. The root itself is
/// exempt: the caller chose to scan it, whatever it is called. Below it, a
/// hidden directory is pruned with everything beneath it.
pub fn should_descend(depth: usize, is_dir: bool, name: &str) -> (descend: bool)
    ensures
        descend == (depth == 0 || !is_dir || !is_hidden(name@)),
{
    depth == 0 || !is_dir || !is_excluded_dir_name(name)
}

/// Whether a file name has the extension `nc`: something, then `.nc`.
pub open spec fn is_netcdf_name(name: Seq<char>) -> bool {
    name.len() > 3 && name.skip(name.len() - 3) == ".nc"@
}

fn has_netcdf_extension(name: &str) -> (netcdf: bool)
    ensures
        netcdf == is_netcdf_name(name@),
{
    let n = name.unicode_len();
    if n <= 3 {
        return false;
    }
    let tail = name.substring_char(n - 3, n);
    assert(tail@ =~= name@.skip(name@.len() - 3));
    text::equal(tail, ".nc")
}

/// Something a walk met.
#[derive(Debug, PartialEq)]
pub struct WalkedFile {
    pub path: FilePath,
    /// Whether it is a plain file.
    pub is_file: bool,
}

/// Something a walk met, as plain values.
#[verifier::ext_equal]
pub struct WalkedView {
    pub path: Seq<Seq<char>>,
    pub is_file: bool,
}

impl DeepView for WalkedFile {
    type V = WalkedView;

    open spec fn deep_view(&self) -> WalkedView {
        WalkedView { path: self.path@, is_file: self.is_file }
    }
}

/// A file that may be a radargram.
#[derive(Debug, PartialEq)]
pub struct Candidate {
    pub path: FilePath,
    /// Path below the root, with `/` between its components.
    pub relative_path: String,
    /// The directory it lies in, for want of a group of its own.
    pub group_hint: Option<String>,
    /// Index of the root this was found under.
    pub root: usize,
}

/// A candidate, as plain values.
#[verifier::ext_equal]
pub struct CandidateView {
    pub path: Seq<Seq<char>>,
    pub relative_path: Seq<char>,
    pub group_hint: Option<Seq<char>>,
    pub root: usize,
}

impl View for Candidate {
    type V = CandidateView;

    open spec fn view(&self) -> CandidateView {
        CandidateView {
            path: self.path@,
            relative_path: self.relative_path@,
            group_hint: self.group_hint.deep_view(),
            root: self.root,
        }
    }
}

impl DeepView for Candidate {
    type V = CandidateView;

    open spec fn deep_view(&self) -> CandidateView {
        self@
    }
}

impl Ranked for Candidate {
    /// Candidates stand in the order of their paths below the root.
    open spec fn ranks_before(a: CandidateView, b: CandidateView) -> bool {
        text_less(a.relative_path, b.relative_path)
    }

    fn comes_before(&self, other: &Self) -> (before: bool) {
        text::less(self.relative_path.as_str(), other.relative_path.as_str())
    }
}

/// A path below a root. What is not below it stays as it is.
pub open spec fn below(root: Seq<Seq<char>>, path: Seq<Seq<char>>) -> Seq<Seq<char>> {
    if lies_under(path, root) {
        path.skip(root.len() as int)
    } else {
        path
    }
}

/// Whether a walked file is a candidate: a plain file whose name ends in
/// `.nc`, with no hidden directory between it and the root.
pub open spec fn is_candidate(root: RootView, file: WalkedView) -> bool {
    let names = below(root.path, file.path);
    &&& file.is_file
    &&& names.len() > 0
    &&& is_netcdf_name(names.last())
    &&& forall|i: int| 0 <= i < names.len() - 1 ==> !is_hidden(#[trigger] names[i])
}

/// How many components the deepest of `bases` that contains `path` has.
pub open spec fn deepest_base(bases: Seq<Seq<Seq<char>>>, path: Seq<Seq<char>>) -> Option<nat>
    decreases bases.len(),
{
    if bases.len() == 0 {
        None
    } else {
        let before = deepest_base(bases.drop_last(), path);
        if lies_under(path, bases.last()) && (before is None || before->0 <= bases.last().len()) {
            Some(bases.last().len())
        } else {
            before
        }
    }
}

/// The directory part of a path.
pub open spec fn directory_text(names: Seq<Seq<char>>) -> Option<Seq<char>> {
    if names.len() >= 2 {
        Some(joined(names.drop_last(), "/"@))
    } else {
        None
    }
}

/// The group that a file's directory suggests: the directories between the
/// file and the deepest declared directory it lies in, or the root where no
/// declared directory contains it. A file directly in either suggests none.
pub open spec fn suggested_group(root: RootView, path: Seq<Seq<char>>) -> Option<Seq<char>> {
    match deepest_base(root.group_bases, path) {
        Some(n) => directory_text(path.skip(n as int)),
        None => directory_text(below(root.path, path)),
    }
}

/// The candidate that a walked file is.
pub open spec fn candidate_from(root: RootView, index: usize, file: WalkedView) -> CandidateView {
    CandidateView {
        path: file.path,
        relative_path: joined(below(root.path, file.path), "/"@),
        group_hint: suggested_group(root, file.path),
        root: index,
    }
}

/// The candidate that a root naming a single file is.
pub open spec fn single_candidate(root: RootView, index: usize) -> CandidateView {
    CandidateView {
        path: root.path,
        relative_path: if root.path.len() > 0 {
            root.path.last()
        } else {
            Seq::empty()
        },
        group_hint: None,
        root: index,
    }
}

/// The candidates among the files a walk met, in the order it met them.
pub open spec fn candidates_met(
    root: RootView,
    index: usize,
    walked: Seq<WalkedView>,
) -> Seq<CandidateView> {
    walked.filter(|file: WalkedView| is_candidate(root, file)).map_values(
        |file: WalkedView| candidate_from(root, index, file),
    )
}

/// The candidates under a root, in the order of their paths whatever order the
/// file system gave them in.
pub open spec fn candidates_under(
    root: RootView,
    index: usize,
    walked: Seq<WalkedView>,
) -> Seq<CandidateView> {
    if root.is_file {
        seq![single_candidate(root, index)]
    } else {
        sorted(candidates_met(root, index, walked), rank_of::<Candidate>())
    }
}

fn directory_of(names: &FilePath) -> (directory: Option<String>)
    ensures
        directory.deep_view() == directory_text(names@),
{
    if names.parts.len() >= 2 {
        Some(names.parent().joined_text())
    } else {
        None
    }
}

fn find_deepest_base(bases: &Vec<FilePath>, path: &FilePath) -> (deepest: Option<usize>)
    ensures
        match deepest {
            Some(i) => i < bases.len() && lies_under(path@, bases[i as int]@) && deepest_base(
                bases.deep_view(),
                path@,
            ) == Some(bases[i as int]@.len()),
            None => deepest_base(bases.deep_view(), path@) is None,
        },
{
    let ghost all = bases.deep_view();
    let mut deepest: Option<usize> = None;
    let mut i: usize = 0;
    proof {
        assert(all.take(0) =~= Seq::empty());
    }
    while i < bases.len()
        invariant
            i <= bases.len(),
            all == bases.deep_view(),
            match deepest {
                Some(k) => k < i && lies_under(path@, bases[k as int]@) && deepest_base(
                    all.take(i as int),
                    path@,
                ) == Some(bases[k as int]@.len()),
                None => deepest_base(all.take(i as int), path@) is None,
            },
        decreases bases.len() - i,
    {
        proof {
            assert(all.take(i + 1).drop_last() =~= all.take(i as int));
            assert(all.take(i + 1).last() == bases[i as int]@);
        }
        if path.starts_with(&bases[i]) {
            let deeper = match deepest {
                None => true,
                Some(k) => bases[k].parts.len() <= bases[i].parts.len(),
            };
            if deeper {
                deepest = Some(i);
            }
        }
        i = i + 1;
    }
    proof {
        assert(all.take(i as int) =~= all);
    }
    deepest
}

fn stays_visible(names: &FilePath) -> (visible: bool)
    ensures
        visible == (forall|i: int| 0 <= i < names@.len() - 1 ==> !is_hidden(#[trigger] names@[i])),
{
    let mut i: usize = 0;
    while i < names.parts.len() && i < names.parts.len() - 1
        invariant
            i <= names.parts.len(),
            forall|j: int| 0 <= j < i ==> !is_hidden(#[trigger] names@[j]),
        decreases names.parts.len() - i,
    {
        assert(names@[i as int] == names.parts[i as int]@);
        if is_excluded_dir_name(names.parts[i].as_str()) {
            return false;
        }
        i = i + 1;
    }
    true
}

fn consider(root: &CatalogRoot, index: usize, file: &WalkedFile) -> (candidate: Option<Candidate>)
    ensures
        match candidate {
            Some(candidate) => is_candidate(root@, file.deep_view()) && candidate@
                == candidate_from(root@, index, file.deep_view()),
            None => !is_candidate(root@, file.deep_view()),
        },
{
    if !file.is_file {
        return None;
    }
    let names = match file.path.strip_prefix(&root.path) {
        Some(rest) => rest,
        None => file.path.clone(),
    };
    let n = names.parts.len();
    if n == 0 {
        return None;
    }
    assert(names@.last() == names.parts[n - 1]@);
    if !has_netcdf_extension(names.parts[n - 1].as_str()) || !stays_visible(&names) {
        return None;
    }
    let group_hint = match find_deepest_base(&root.group_bases, &file.path) {
        Some(i) => match file.path.strip_prefix(&root.group_bases[i]) {
            Some(rest) => directory_of(&rest),
            None => None,
        },
        None => directory_of(&names),
    };
    Some(
        Candidate {
            path: file.path.clone(),
            relative_path: names.joined_text(),
            group_hint,
            root: index,
        },
    )
}

/// The candidates under `root`, given what a walk of it met.
pub fn discover_candidates(root: &CatalogRoot, index: usize, walked: &[WalkedFile]) -> (candidates:
    Vec<Candidate>)
    ensures
        candidates.deep_view() == candidates_under(root@, index, walked.deep_view()),
{
    if root.is_file {
        let n = root.path.parts.len();
        let name = if n > 0 {
            assert(root.path@.last() == root.path.parts[n - 1]@);
            root.path.parts[n - 1].clone()
        } else {
            String::new()
        };
        let only = Candidate {
            path: root.path.clone(),
            relative_path: name,
            group_hint: None,
            root: index,
        };
        let mut candidates: Vec<Candidate> = Vec::new();
        candidates.push(only);
        assert(candidates.deep_view() =~= seq![single_candidate(root@, index)]);
        return candidates;
    }
    let ghost all = walked.deep_view();
    let ghost keep = |file: WalkedView| is_candidate(root@, file);
    let ghost as_candidate = |file: WalkedView| candidate_from(root@, index, file);
    let mut met: Vec<Candidate> = Vec::new();
    let mut i: usize = 0;
    proof {
        lemma_filter_none(all, keep);
        assert(met.deep_view() =~= all.take(0).filter(keep).map_values(as_candidate));
    }
    while i < walked.len()
        invariant
            i <= walked@.len(),
            all == walked.deep_view(),
            keep == (|file: WalkedView| is_candidate(root@, file)),
            as_candidate == (|file: WalkedView| candidate_from(root@, index, file)),
            met.deep_view() == all.take(i as int).filter(keep).map_values(as_candidate),
        decreases walked@.len() - i,
    {
        proof {
            lemma_filter_step(all, i as int, keep);
            assert(all[i as int] == walked@[i as int].deep_view());
        }
        if let Some(candidate) = consider(root, index, &walked[i]) {
            let ghost so_far = met.deep_view();
            met.push(candidate);
            proof {
                assert(met.deep_view() =~= so_far.push(candidate@));
                assert(met.deep_view() =~= all.take(i + 1).filter(keep).map_values(as_candidate));
            }
        }
        i = i + 1;
    }
    proof {
        assert(all.take(i as int) =~= all);
    }
    sorting::sort(met)
}

/// No declared directory that contains a file is deeper than the one its group
/// is read from.
pub proof fn the_deepest_declared_directory_counts(
    bases: Seq<Seq<Seq<char>>>,
    path: Seq<Seq<char>>,
    base: Seq<Seq<char>>,
)
    requires
        bases.contains(base),
        lies_under(path, base),
    ensures
        deepest_base(bases, path) is Some,
        base.len() <= deepest_base(bases, path)->0,
    decreases bases.len(),
{
    let k = choose|k: int| 0 <= k < bases.len() && bases[k] == base;
    if k < bases.len() - 1 {
        assert(bases.drop_last()[k] == base);
        the_deepest_declared_directory_counts(bases.drop_last(), path, base);
    }
}

proof fn lemma_deepest_base_fits(bases: Seq<Seq<Seq<char>>>, path: Seq<Seq<char>>)
    ensures
        deepest_base(bases, path) is Some ==> deepest_base(bases, path)->0 <= path.len(),
    decreases bases.len(),
{
    if bases.len() > 0 {
        lemma_deepest_base_fits(bases.drop_last(), path);
    }
}

/// A file directly in a declared directory suggests no group, whatever the
/// directory is called.
pub proof fn a_declared_directory_is_not_a_group(root: RootView, path: Seq<Seq<char>>)
    requires
        path.len() > 0,
        root.group_bases.contains(path.drop_last()),
    ensures
        suggested_group(root, path) is None,
{
    let base = path.drop_last();
    assert(path.take(base.len() as int) =~= base);
    the_deepest_declared_directory_counts(root.group_bases, path, base);
    lemma_deepest_base_fits(root.group_bases, path);
    let n = deepest_base(root.group_bases, path)->0;
    assert(path.skip(n as int).len() <= 1);
}

proof fn lemma_met_by_contents(
    root: RootView,
    index: usize,
    a: Seq<WalkedView>,
    b: Seq<WalkedView>,
)
    requires
        a.to_multiset() == b.to_multiset(),
    ensures
        candidates_met(root, index, a).to_multiset() == candidates_met(
            root,
            index,
            b,
        ).to_multiset(),
    decreases a.len(),
{
    broadcast use vstd::seq_lib::group_to_multiset_ensures;

    let keep = |file: WalkedView| is_candidate(root, file);
    let as_candidate = |file: WalkedView| candidate_from(root, index, file);
    reveal_with_fuel(Seq::filter, 2);
    if a.len() == 0 {
        assert(b.len() == 0) by {
            if b.len() > 0 {
                assert(b.contains(b[0]));
                assert(b.to_multiset().count(b[0]) > 0);
                assert(a.to_multiset().count(b[0]) > 0);
                assert(a.contains(b[0]));
            }
        }
        assert(a =~= b);
    } else {
        let last = a.last();
        assert(a[a.len() - 1] == last);
        assert(a.contains(last));
        assert(a.to_multiset().count(last) > 0);
        assert(b.contains(last));
        let k = choose|k: int| 0 <= k < b.len() && b[k] == last;
        let head = b.take(k);
        let tail = b.skip(k + 1);
        let rest = head + tail;
        assert(b =~= head.push(last) + tail);
        assert(a =~= a.drop_last().push(last));
        assert(b.remove(k) =~= rest);
        assert(rest.to_multiset() =~= b.to_multiset().remove(last));
        assert(a.drop_last().to_multiset() =~= a.to_multiset().remove(last));
        lemma_met_by_contents(root, index, a.drop_last(), rest);
        let met_head = candidates_met(root, index, head);
        let met_tail = candidates_met(root, index, tail);
        Seq::<WalkedView>::filter_distributes_over_add(head, tail, keep);
        Seq::<WalkedView>::filter_distributes_over_add(head.push(last), tail, keep);
        assert(head.push(last).drop_last() =~= head);
        assert(candidates_met(root, index, rest) =~= met_head + met_tail);
        vstd::seq_lib::lemma_multiset_commutative(met_head, met_tail);
        if keep(last) {
            let met = as_candidate(last);
            assert(candidates_met(root, index, b) =~= met_head.push(met) + met_tail);
            vstd::seq_lib::lemma_multiset_commutative(met_head.push(met), met_tail);
            assert(candidates_met(root, index, a) =~= candidates_met(
                root,
                index,
                a.drop_last(),
            ).push(met));
            assert(candidates_met(root, index, a).to_multiset() =~= candidates_met(
                root,
                index,
                b,
            ).to_multiset());
        } else {
            assert(candidates_met(root, index, b) =~= met_head + met_tail);
            assert(candidates_met(root, index, a) =~= candidates_met(root, index, a.drop_last()));
        }
    }
}

/// The candidates come in the same order whatever order the file system gives
/// the files in, as long as no two of them have one path.
pub proof fn the_order_of_a_walk_does_not_matter(
    root: RootView,
    index: usize,
    a: Seq<WalkedView>,
    b: Seq<WalkedView>,
)
    requires
        a.to_multiset() == b.to_multiset(),
        forall|i: int, j: int|
            0 <= i < j < candidates_met(root, index, a).len() ==> (#[trigger] candidates_met(
                root,
                index,
                a,
            )[i]).relative_path != (#[trigger] candidates_met(root, index, a)[j]).relative_path,
    ensures
        candidates_under(root, index, a) == candidates_under(root, index, b),
{
    broadcast use vstd::seq_lib::group_to_multiset_ensures;

    let rank = rank_of::<Candidate>();
    let x = candidates_met(root, index, a);
    let y = candidates_met(root, index, b);
    let key = |candidate: CandidateView| candidate.relative_path;
    sorting::lemma_text_key_ranking(key);
    assert(rank =~= |a: CandidateView, b: CandidateView| text_less(key(a), key(b)));
    lemma_met_by_contents(root, index, a, b);
    sorting::sorting_puts_in_order(x, rank);
    sorting::sorting_puts_in_order(y, rank);
    sorting::sorting_keeps_the_contents(x, rank);
    sorting::sorting_keeps_the_contents(y, rank);
    let s = sorted(x, rank);
    let t = sorted(y, rank);
    assert forall|i: int, j: int| 0 <= i < s.len() && 0 <= j < s.len() && s[i] != s[j] implies rank(
        #[trigger] s[i],
        #[trigger] s[j],
    ) || rank(s[j], s[i]) by {
        assert(s.contains(s[i]) && s.contains(s[j]));
        assert(x.to_multiset().count(s[i]) > 0 && x.to_multiset().count(s[j]) > 0);
        assert(x.contains(s[i]) && x.contains(s[j]));
        let m = choose|m: int| 0 <= m < x.len() && x[m] == s[i];
        let n = choose|n: int| 0 <= n < x.len() && x[n] == s[j];
        assert(x[m].relative_path != x[n].relative_path);
        text::text_order_is_strict_and_total(s[i].relative_path, s[j].relative_path);
    }
    sorting::lemma_one_order(s, t, rank);
}

} // verus!
