//! Paths, as rows of components.
//!
//! Nothing here touches the disk. An absolute path starts with the component
//! `/`; containment is by component, never by text, so `/data-old` does not
//! lie under `/data`.
use vstd::prelude::*;

use crate::text;
use crate::text::joined;

verus! {

broadcast use vstd::string::group_string_axioms;

/// A path in its components.
#[derive(Debug, PartialEq, Eq)]
pub struct FilePath {
    pub parts: Vec<String>,
}

impl View for FilePath {
    type V = Seq<Seq<char>>;

    open spec fn view(&self) -> Seq<Seq<char>> {
        self.parts.deep_view()
    }
}

impl DeepView for FilePath {
    type V = Seq<Seq<char>>;

    open spec fn deep_view(&self) -> Seq<Seq<char>> {
        self@
    }
}

/// Copies a row of strings.
pub fn copy_parts(parts: &Vec<String>) -> (copy: Vec<String>)
    ensures
        copy.deep_view() == parts.deep_view(),
{
    let copy = parts.clone();
    assert(copy.deep_view() =~= parts.deep_view());
    copy
}

impl Clone for FilePath {
    fn clone(&self) -> (copy: Self)
        ensures
            copy@ == self@,
    {
        FilePath { parts: copy_parts(&self.parts) }
    }
}

/// Whether `path` is `base` or lies beneath it.
pub open spec fn lies_under(path: Seq<Seq<char>>, base: Seq<Seq<char>>) -> bool {
    base.len() <= path.len() && path.take(base.len() as int) == base
}

/// A path as text.
pub open spec fn path_text(path: Seq<Seq<char>>) -> Seq<char> {
    if path.len() > 0 && path[0] == "/"@ {
        "/"@ + joined(path.skip(1), "/"@)
    } else {
        joined(path, "/"@)
    }
}

/// The components from `from` on.
fn parts_from(parts: &Vec<String>, from: usize, to: usize) -> (rest: Vec<String>)
    requires
        from <= to <= parts.len(),
    ensures
        rest.deep_view() == parts.deep_view().subrange(from as int, to as int),
{
    let mut rest: Vec<String> = Vec::new();
    let mut i: usize = from;
    while i < to
        invariant
            from <= i <= to <= parts.len(),
            rest.deep_view() == parts.deep_view().subrange(from as int, i as int),
        decreases to - i,
    {
        let ghost before = rest.deep_view();
        rest.push(parts[i].clone());
        assert(rest.deep_view() =~= before.push(parts.deep_view()[i as int]));
        i = i + 1;
        assert(rest.deep_view() =~= parts.deep_view().subrange(from as int, i as int));
    }
    rest
}

impl FilePath {
    /// Whether this path is `base` or lies beneath it.
    pub fn starts_with(&self, base: &FilePath) -> (under: bool)
        ensures
            under == lies_under(self@, base@),
    {
        if base.parts.len() > self.parts.len() {
            return false;
        }
        let mut i: usize = 0;
        while i < base.parts.len()
            invariant
                i <= base.parts.len() <= self.parts.len(),
                forall|j: int| 0 <= j < i ==> self@[j] == base@[j],
            decreases base.parts.len() - i,
        {
            if self.parts[i] != base.parts[i] {
                assert(self@.take(base@.len() as int)[i as int] != base@[i as int]);
                return false;
            }
            i = i + 1;
        }
        assert(self@.take(base@.len() as int) =~= base@);
        true
    }

    /// What is left of this path below `base`.
    pub fn strip_prefix(&self, base: &FilePath) -> (rest: Option<FilePath>)
        ensures
            match rest {
                Some(rest) => lies_under(self@, base@) && rest@ == self@.skip(base@.len() as int),
                None => !lies_under(self@, base@),
            },
    {
        if !self.starts_with(base) {
            return None;
        }
        let rest = parts_from(&self.parts, base.parts.len(), self.parts.len());
        assert(rest.deep_view() =~= self@.skip(base@.len() as int));
        Some(FilePath { parts: rest })
    }

    /// The path without its last component. Empty for an empty path.
    pub fn parent(&self) -> (above: FilePath)
        ensures
            above@ == (if self@.len() == 0 {
                self@
            } else {
                self@.drop_last()
            }),
    {
        let n = self.parts.len();
        let kept: usize = if n == 0 {
            0
        } else {
            n - 1
        };
        let parts = parts_from(&self.parts, 0, kept);
        assert(parts.deep_view() =~= if self@.len() == 0 {
            self@
        } else {
            self@.drop_last()
        });
        FilePath { parts }
    }

    /// The path of `name` inside this directory.
    pub fn child(&self, name: &str) -> (path: FilePath)
        ensures
            path@ == self@.push(name@),
    {
        let mut parts = copy_parts(&self.parts);
        parts.push(name.to_owned());
        assert(parts.deep_view() =~= self@.push(name@));
        FilePath { parts }
    }

    /// Whether two paths are the same, component by component.
    pub fn same(&self, other: &FilePath) -> (same: bool)
        ensures
            same == (self@ == other@),
    {
        if self.parts.len() != other.parts.len() {
            return false;
        }
        let under = self.starts_with(other);
        assert(self@.take(other@.len() as int) =~= self@);
        under
    }

    /// The components with `/` between them.
    pub fn joined_text(&self) -> (path: String)
        ensures
            path@ == joined(self@, "/"@),
    {
        text::join(&self.parts, "/")
    }

    /// The path as text.
    pub fn to_text(&self) -> (path: String)
        ensures
            path@ == path_text(self@),
    {
        if self.parts.len() > 0 && text::equal(self.parts[0].as_str(), "/") {
            let rest = parts_from(&self.parts, 1, self.parts.len());
            assert(rest.deep_view() =~= self@.skip(1));
            let mut path = "/".to_owned();
            path.append(text::join(&rest, "/").as_str());
            path
        } else {
            text::join(&self.parts, "/")
        }
    }
}

/// The pieces of `s` between its slashes: one more than there are slashes,
/// some of them possibly empty.
pub open spec fn segments(s: Seq<char>) -> Seq<Seq<char>>
    decreases s.len(),
{
    if s.len() == 0 {
        seq![Seq::empty()]
    } else {
        let before = segments(s.drop_last());
        if s.last() == '/' {
            before.push(Seq::empty())
        } else {
            before.drop_last().push(before.last().push(s.last()))
        }
    }
}

proof fn lemma_segments_nonempty(s: Seq<char>)
    ensures
        segments(s).len() > 0,
    decreases s.len(),
{
    if s.len() > 0 {
        lemma_segments_nonempty(s.drop_last());
    }
}

/// A segment that names a file or a directory, rather than repeating a slash
/// or standing for the directory it is in.
pub open spec fn is_named(segment: Seq<char>) -> bool {
    segment.len() > 0 && segment != "."@
}

/// Whether `s` stays below whatever it is put behind: it is not absolute, does
/// not start with `.`, and never goes up.
pub open spec fn is_plain_relative(s: Seq<char>) -> bool {
    &&& !(s.len() > 0 && s[0] == '/')
    &&& segments(s)[0] != "."@
    &&& forall|i: int| 0 <= i < segments(s).len() ==> #[trigger] segments(s)[i] != ".."@
}

/// The names along `s`.
pub open spec fn relative_names(s: Seq<char>) -> Seq<Seq<char>> {
    segments(s).filter(|segment: Seq<char>| is_named(segment))
}

fn split_segments(relative: &str) -> (pieces: Vec<String>)
    ensures
        pieces.deep_view() == segments(relative@),
{
    let chars = text::chars_of(relative);
    let mut done: Vec<String> = Vec::new();
    let mut current = String::new();
    let mut i: usize = 0;
    proof {
        assert(relative@.take(0) =~= Seq::empty());
        assert(done.deep_view().push(current@) =~= segments(relative@.take(0)));
    }
    while i < chars.len()
        invariant
            chars@ == relative@,
            i <= chars@.len(),
            done.deep_view().push(current@) == segments(relative@.take(i as int)),
        decreases chars@.len() - i,
    {
        let ghost before = segments(relative@.take(i as int));
        proof {
            let upto = relative@.take(i + 1);
            assert(upto.drop_last() =~= relative@.take(i as int));
            assert(before.last() == current@);
            assert(before.drop_last() =~= done.deep_view());
        }
        if chars[i] == '/' {
            done.push(current);
            current = String::new();
            assert(done.deep_view() =~= before);
        } else {
            current.push(chars[i]);
        }
        i = i + 1;
    }
    proof {
        assert(relative@.take(chars@.len() as int) =~= relative@);
    }
    done.push(current);
    assert(done.deep_view() =~= segments(relative@));
    done
}

/// The names along a relative path, where it stays below whatever it is put
/// behind.
pub fn plain_relative(relative: &str) -> (names: Option<Vec<String>>)
    ensures
        match names {
            Some(names) => is_plain_relative(relative@) && names.deep_view() == relative_names(
                relative@,
            ),
            None => !is_plain_relative(relative@),
        },
{
    let pieces = split_segments(relative);
    let ghost all = segments(relative@);
    proof {
        lemma_segments_nonempty(relative@);
        reveal_strlit(".");
        reveal_strlit("..");
    }
    let chars = text::chars_of(relative);
    if chars.len() > 0 && chars[0] == '/' {
        return None;
    }
    assert(pieces[0]@ == all[0]);
    if text::equal(pieces[0].as_str(), ".") {
        return None;
    }
    let mut names: Vec<String> = Vec::new();
    let mut i: usize = 0;
    proof {
        assert(all.take(0) =~= Seq::empty());
        assert(names.deep_view() =~= all.take(0).filter(
            |segment: Seq<char>| is_named(segment),
        ));
    }
    while i < pieces.len()
        invariant
            i <= pieces.len(),
            all == segments(relative@),
            pieces.deep_view() == all,
            names.deep_view() == all.take(i as int).filter(|segment: Seq<char>| is_named(segment)),
            forall|j: int| 0 <= j < i ==> #[trigger] all[j] != ".."@,
        decreases pieces.len() - i,
    {
        let ghost upto = all.take(i + 1);
        proof {
            assert(upto.drop_last() =~= all.take(i as int));
            assert(upto.last() == pieces[i as int]@);
            reveal_with_fuel(Seq::filter, 2);
        }
        if text::equal(pieces[i].as_str(), "..") {
            assert(all[i as int] == ".."@);
            return None;
        }
        if !pieces[i].as_str().is_empty() && !text::equal(pieces[i].as_str(), ".") {
            let ghost before = names.deep_view();
            names.push(pieces[i].clone());
            assert(names.deep_view() =~= before.push(pieces[i as int]@));
        }
        i = i + 1;
    }
    proof {
        assert(all.take(pieces.len() as int) =~= all);
    }
    Some(names)
}

} // verus!
