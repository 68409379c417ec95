//! What holds of texts, numbers and paths.
use vstd::prelude::*;

use crate::paths::{is_plain_relative, lies_under, path_text, relative_names, segments};
use crate::text::{
    all_digits, bytes_less, decimal, digit, digits_value, is_white_space, joined, lemma_trimmed_end,
    lemma_trimmed_start, parsed_u64, trimmed, trimmed_start,
};

verus! {

broadcast use vstd::string::group_string_axioms;

// ---------------------------------------------------------------------------
// Trimming
// ---------------------------------------------------------------------------

/// What trimming takes away is white space, and what it leaves begins and ends
/// with something else.
pub proof fn trimming_takes_away_white_space(s: Seq<char>) -> (bounds: (int, int))
    ensures
        0 <= bounds.0 <= bounds.1 <= s.len(),
        trimmed(s) == s.subrange(bounds.0, bounds.1),
        forall|i: int|
            0 <= i < s.len() && !(bounds.0 <= i < bounds.1) ==> is_white_space(#[trigger] s[i]),
        bounds.0 < bounds.1 ==> !is_white_space(s[bounds.0]) && !is_white_space(s[bounds.1 - 1]),
{
    let from = lemma_trimmed_start(s);
    let rest = trimmed_start(s);
    let to = lemma_trimmed_end(rest);
    assert(trimmed(s) =~= s.subrange(from, from + to));
    assert forall|i: int|
        0 <= i < s.len() && !(from <= i < from + to) implies is_white_space(#[trigger] s[i]) by {
        if i >= from {
            assert(rest[i - from] == s[i]);
        }
    }
    if to > 0 {
        assert(rest[to - 1] == s[from + to - 1]);
        assert(rest.len() > 0);
    }
    (from, from + to)
}

/// Trimming what was trimmed changes nothing.
pub proof fn trimming_again_changes_nothing(s: Seq<char>)
    ensures
        trimmed(trimmed(s)) == trimmed(s),
{
    let once = trimmed(s);
    let bounds = trimming_takes_away_white_space(s);
    let again = trimming_takes_away_white_space(once);
    if once.len() > 0 {
        assert(once[0] == s[bounds.0]);
        assert(once[once.len() - 1] == s[bounds.1 - 1]);
        assert(again.0 == 0 && again.1 == once.len());
    }
    assert(trimmed(once) =~= once);
}

/// The blank, the tab and the ends of a line are white space, and no character
/// of ASCII that leaves a mark is.
pub proof fn no_mark_is_white_space(c: char)
    ensures
        '!' <= c <= '~' ==> !is_white_space(c),
        '\t' <= c <= '\r' || c == ' ' ==> is_white_space(c),
{
}

// ---------------------------------------------------------------------------
// Numbers
// ---------------------------------------------------------------------------

proof fn lemma_decimal_digits(n: nat)
    ensures
        decimal(n).len() > 0,
        all_digits(decimal(n)),
        digits_value(decimal(n)) == n,
    decreases n,
{
    reveal_with_fuel(digits_value, 2);
    if n < 10 {
        assert(decimal(n) =~= seq![digit(n)]);
        assert(decimal(n).drop_last() =~= Seq::<char>::empty());
        assert(decimal(n).last() == digit(n));
    } else {
        lemma_decimal_digits(n / 10);
        let front = decimal(n / 10);
        assert(decimal(n).drop_last() =~= front);
        assert(decimal(n).last() == digit(n % 10));
        assert forall|i: int| 0 <= i < decimal(n).len() implies '0' <= #[trigger] decimal(n)[i]
            <= '9' by {
            if i < front.len() {
                assert(decimal(n)[i] == front[i]);
            }
        }
    }
}

/// A number that is written and read back is the same number, with or without
/// a sign before it; and two numbers are never written alike.
pub proof fn a_number_is_read_as_it_was_written(n: u64, m: u64)
    ensures
        parsed_u64(decimal(n as nat)) == Some(n),
        parsed_u64(seq!['+'] + decimal(n as nat)) == Some(n),
        decimal(n as nat) == decimal(m as nat) ==> n == m,
{
    lemma_decimal_digits(n as nat);
    lemma_decimal_digits(m as nat);
    let written = decimal(n as nat);
    assert('0' <= written[0] <= '9');
    let signed = seq!['+'] + written;
    assert(signed[0] == '+');
    assert(signed.drop_first() =~= written);
}

/// A number is written without leading zeros.
pub proof fn a_number_has_no_leading_zero(n: nat)
    requires
        n > 0,
    ensures
        decimal(n)[0] != '0',
    decreases n,
{
    if n >= 10 {
        a_number_has_no_leading_zero(n / 10);
        lemma_decimal_digits(n / 10);
        assert(decimal(n)[0] == decimal(n / 10)[0]);
    }
}

/// What is read as a number holds nothing but digits behind an optional sign.
pub proof fn only_digits_are_read(s: Seq<char>, i: int)
    requires
        0 <= i < s.len(),
        !('0' <= s[i] <= '9'),
        i > 0 || s[i] != '+',
    ensures
        parsed_u64(s) is None,
{
    if s[0] == '+' {
        assert(s.drop_first()[i - 1] == s[i]);
    }
}

// ---------------------------------------------------------------------------
// Order
// ---------------------------------------------------------------------------

/// The first difference decides which of two rows of bytes comes first; and
/// what goes on comes after what it starts with.
pub proof fn the_first_difference_decides(
    common: Seq<u8>,
    x: u8,
    a: Seq<u8>,
    y: u8,
    b: Seq<u8>,
)
    ensures
        x != y ==> bytes_less(common + seq![x] + a, common + seq![y] + b) == (x < y),
        bytes_less(common, common + seq![x] + a),
        !bytes_less(common + seq![x] + a, common),
    decreases common.len(),
{
    let one = common + seq![x] + a;
    let other = common + seq![y] + b;
    if common.len() == 0 {
        assert(one[0] == x && other[0] == y);
    } else {
        let rest = common.drop_first();
        the_first_difference_decides(rest, x, a, y, b);
        assert(one.drop_first() =~= rest + seq![x] + a);
        assert(other.drop_first() =~= rest + seq![y] + b);
        assert(one[0] == common[0] && other[0] == common[0]);
    }
}

// ---------------------------------------------------------------------------
// Paths
// ---------------------------------------------------------------------------

/// A path lies under a base exactly where it is the base with something behind
/// it.
pub proof fn a_path_lies_under_what_it_starts_with(path: Seq<Seq<char>>, base: Seq<Seq<char>>)
    ensures
        lies_under(path, base) <==> exists|rest: Seq<Seq<char>>| path == #[trigger] (base + rest),
{
    if lies_under(path, base) {
        assert(path =~= base + path.skip(base.len() as int));
    }
    if exists|rest: Seq<Seq<char>>| path == #[trigger] (base + rest) {
        let rest = choose|rest: Seq<Seq<char>>| path == #[trigger] (base + rest);
        assert(path.take(base.len() as int) =~= base);
    }
}

proof fn lemma_segments_some(s: Seq<char>)
    ensures
        segments(s).len() > 0,
    decreases s.len(),
{
    if s.len() > 0 {
        lemma_segments_some(s.drop_last());
    }
}

/// A piece without a slash, put behind a text, goes on with its last segment.
proof fn lemma_segments_go_on(s: Seq<char>, piece: Seq<char>)
    requires
        !piece.contains('/'),
    ensures
        segments(s + piece) == segments(s).drop_last().push(segments(s).last() + piece),
    decreases piece.len(),
{
    lemma_segments_some(s);
    if piece.len() == 0 {
        assert(s + piece =~= s);
        assert(segments(s).last() + piece =~= segments(s).last());
        assert(segments(s).drop_last().push(segments(s).last()) =~= segments(s));
    } else {
        let shorter = piece.drop_last();
        assert forall|i: int| 0 <= i < shorter.len() implies shorter[i] != '/' by {
            assert(piece.contains(piece[i]));
        }
        lemma_segments_go_on(s, shorter);
        let whole = s + piece;
        assert(whole.drop_last() =~= s + shorter);
        assert(whole.last() == piece.last());
        assert(piece.contains(piece.last()));
        let before = segments(s + shorter);
        assert(before.drop_last() =~= segments(s).drop_last());
        assert(before.last() == segments(s).last() + shorter);
        assert((segments(s).last() + shorter).push(piece.last()) =~= segments(s).last() + piece);
    }
}

/// Names that are joined with slashes are found again between the slashes, in
/// the same order.
pub proof fn joined_names_are_found_again(names: Seq<Seq<char>>)
    requires
        names.len() > 0,
        forall|i: int| 0 <= i < names.len() ==> !(#[trigger] names[i]).contains('/'),
    ensures
        segments(joined(names, "/"@)) == names,
    decreases names.len(),
{
    reveal_strlit("/");
    if names.len() == 1 {
        let empty = Seq::<char>::empty();
        lemma_segments_go_on(empty, names[0]);
        assert(empty + names[0] =~= names[0]);
        assert(segments(empty) == seq![empty]);
        assert(segments(names[0]) =~= names);
    } else {
        let rest = names.drop_last();
        assert forall|i: int| 0 <= i < rest.len() implies !(#[trigger] rest[i]).contains('/') by {
            assert(rest[i] == names[i]);
        }
        joined_names_are_found_again(rest);
        let front = joined(rest, "/"@);
        let slashed = front + "/"@;
        assert(slashed.drop_last() =~= front);
        assert(slashed.last() == '/');
        let empty = Seq::<char>::empty();
        assert(segments(slashed) == rest.push(empty));
        assert(names.last() == names[names.len() - 1]);
        lemma_segments_go_on(slashed, names.last());
        assert(segments(slashed).drop_last() =~= rest);
        assert(empty + names.last() =~= names.last());
        assert(rest.push(names.last()) =~= names);
    }
}

/// The path that an entry is listed under leads back to the same names: nothing
/// is lost between a directory walk and opening the file.
pub proof fn a_listed_path_leads_back(names: Seq<Seq<char>>)
    requires
        names.len() > 0,
        forall|i: int|
            0 <= i < names.len() ==> !(#[trigger] names[i]).contains('/') && names[i].len() > 0
                && names[i] != "."@,
    ensures
        relative_names(joined(names, "/"@)) == names,
{
    joined_names_are_found_again(names);
    let named = |segment: Seq<char>| crate::paths::is_named(segment);
    lemma_keeps_every_name(names, named);
}

proof fn lemma_keeps_every_name(names: Seq<Seq<char>>, keep: spec_fn(Seq<char>) -> bool)
    requires
        forall|i: int| 0 <= i < names.len() ==> keep(#[trigger] names[i]),
    ensures
        names.filter(keep) == names,
    decreases names.len(),
{
    reveal_with_fuel(Seq::filter, 1);
    if names.len() > 0 {
        let rest = names.drop_last();
        assert forall|i: int| 0 <= i < rest.len() implies keep(#[trigger] rest[i]) by {
            assert(rest[i] == names[i]);
        }
        lemma_keeps_every_name(rest, keep);
        assert(keep(names[names.len() - 1]));
        assert(rest.push(names.last()) =~= names);
    } else {
        assert(names.filter(keep) =~= names);
    }
}

/// An absolute path is written with its slash in front, and any other without.
pub proof fn a_path_is_written_with_slashes(names: Seq<Seq<char>>)
    requires
        names.len() > 0,
        names[0] != "/"@,
    ensures
        path_text(names) == joined(names, "/"@),
        path_text(seq!["/"@] + names) == "/"@ + joined(names, "/"@),
{
    let path = seq!["/"@] + names;
    assert(path.skip(1) =~= names);
    assert(path[0] == "/"@);
}

/// A path that goes up anywhere is not followed, nor one that is absolute; and
/// one made of ordinary names is.
pub proof fn only_ordinary_paths_are_followed(names: Seq<Seq<char>>)
    requires
        names.len() > 0,
        forall|i: int|
            0 <= i < names.len() ==> !(#[trigger] names[i]).contains('/') && names[i].len() > 0,
    ensures
        (exists|i: int| 0 <= i < names.len() && #[trigger] names[i] == ".."@)
            ==> !is_plain_relative(joined(names, "/"@)),
        names[0] == "."@ ==> !is_plain_relative(joined(names, "/"@)),
        (forall|i: int| 0 <= i < names.len() ==> #[trigger] names[i] != ".."@) && names[0] != "."@
            ==> is_plain_relative(joined(names, "/"@)),
        !is_plain_relative("/"@ + joined(names, "/"@)),
{
    joined_names_are_found_again(names);
    lemma_joined_begins(names);
    reveal_strlit("/");
    let absolute = "/"@ + joined(names, "/"@);
    assert(absolute[0] == '/');
    assert(names[0].contains(names[0][0]));
}

proof fn lemma_joined_begins(names: Seq<Seq<char>>)
    requires
        names.len() > 0,
        names[0].len() > 0,
    ensures
        joined(names, "/"@).len() > 0,
        joined(names, "/"@)[0] == names[0][0],
    decreases names.len(),
{
    if names.len() > 1 {
        let rest = names.drop_last();
        assert(rest[0] == names[0]);
        lemma_joined_begins(rest);
    }
}

} // verus!
