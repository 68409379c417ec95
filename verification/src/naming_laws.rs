//! What holds of ids that are made out of names.
use vstd::prelude::*;

use crate::identity::{dashed, folded, group_slug, is_slug, is_slug_char, name_from_input};
use crate::text::trimmed;

verus! {

/// Whether a character is a letter or a digit that an id may hold.
pub open spec fn is_plain(c: char) -> bool {
    'a' <= c <= 'z' || '0' <= c <= '9'
}

/// Small letters and digits stand for themselves, capitals for their small
/// letters, letters of Western European languages for what they are written as
/// without their marks, and everything else for nothing.
pub proof fn each_letter_stands_for_its_plain_form(c: char)
    ensures
        is_plain(c) ==> folded(c) == seq![c],
        'A' <= c <= 'Z' ==> folded(c) == seq![(c as u32 + 32) as char],
        '\u{c0}' <= c <= '\u{de}' ==> folded(c) == folded((c as u32 + 32) as char),
        '\u{e0}' <= c <= '\u{e5}' ==> folded(c) == seq!['a'],
        '\u{e8}' <= c <= '\u{eb}' ==> folded(c) == seq!['e'],
        '\u{ec}' <= c <= '\u{ef}' ==> folded(c) == seq!['i'],
        '\u{f2}' <= c <= '\u{f6}' || c == '\u{f8}' ==> folded(c) == seq!['o'],
        '\u{f9}' <= c <= '\u{fc}' ==> folded(c) == seq!['u'],
        c == '\u{fd}' || c == '\u{ff}' ==> folded(c) == seq!['y'],
        c == '\u{e6}' ==> folded(c) == seq!['a', 'e'],
        c == '\u{e7}' ==> folded(c) == seq!['c'],
        c == '\u{f0}' ==> folded(c) == seq!['d'],
        c == '\u{f1}' ==> folded(c) == seq!['n'],
        c == '\u{fe}' ==> folded(c) == seq!['t', 'h'],
        c == '\u{df}' ==> folded(c) == seq!['s', 's'],
        c < '\u{c0}' && !is_plain(c) && !('A' <= c <= 'Z') ==> folded(c).len() == 0,
        c > '\u{ff}' || c == '\u{d7}' || c == '\u{f7}' ==> folded(c).len() == 0,
        forall|i: int| 0 <= i < folded(c).len() ==> is_plain(#[trigger] folded(c)[i]),
{
}

/// The letters of a name, one after another.
pub open spec fn letters_of(name: Seq<char>) -> Seq<char>
    decreases name.len(),
{
    if name.len() == 0 {
        Seq::empty()
    } else {
        letters_of(name.drop_last()) + folded(name.last())
    }
}

/// A text without its dashes.
pub open spec fn without_dashes(s: Seq<char>) -> Seq<char> {
    s.filter(|c: char| c != '-')
}

proof fn lemma_plain_kept(s: Seq<char>)
    requires
        forall|i: int| 0 <= i < s.len() ==> is_plain(#[trigger] s[i]),
    ensures
        without_dashes(s) == s,
    decreases s.len(),
{
    let keep = |c: char| c != '-';
    reveal_with_fuel(Seq::filter, 1);
    if s.len() > 0 {
        let rest = s.drop_last();
        assert forall|i: int| 0 <= i < rest.len() implies is_plain(#[trigger] rest[i]) by {
            assert(rest[i] == s[i]);
        }
        lemma_plain_kept(rest);
        assert(is_plain(s[s.len() - 1]));
        assert(rest.push(s.last()) =~= s);
    } else {
        assert(s.filter(keep) =~= s);
    }
}

proof fn lemma_dashed(name: Seq<char>)
    ensures
        without_dashes(dashed(name)) == letters_of(name),
        dashed(name).len() > 0 ==> is_plain(dashed(name)[0]),
        forall|i: int|
            0 <= i < dashed(name).len() ==> is_plain(#[trigger] dashed(name)[i]) || dashed(name)[i]
                == '-',
        forall|i: int|
            0 < i < dashed(name).len() && #[trigger] dashed(name)[i] == '-' ==> dashed(name)[i - 1]
                != '-',
    decreases name.len(),
{
    let keep = |c: char| c != '-';
    if name.len() == 0 {
        reveal_with_fuel(Seq::filter, 1);
        assert(without_dashes(dashed(name)) =~= letters_of(name));
    } else {
        let head = dashed(name.drop_last());
        let letters = folded(name.last());
        lemma_dashed(name.drop_last());
        if letters.len() > 0 {
            lemma_plain_kept(letters);
            Seq::filter_distributes_over_add(head, letters, keep);
            assert forall|i: int| 0 <= i < dashed(name).len() implies is_plain(
                #[trigger] dashed(name)[i],
            ) || dashed(name)[i] == '-' by {
                if i < head.len() {
                    assert(dashed(name)[i] == head[i]);
                } else {
                    assert(dashed(name)[i] == letters[i - head.len()]);
                }
            }
            assert forall|i: int| 0 < i < dashed(name).len() && #[trigger] dashed(name)[i]
                == '-' implies dashed(name)[i - 1] != '-' by {
                if i < head.len() {
                    assert(dashed(name)[i] == head[i] && dashed(name)[i - 1] == head[i - 1]);
                } else {
                    assert(dashed(name)[i] == letters[i - head.len()]);
                    assert(is_plain(letters[i - head.len()]));
                }
            }
        } else {
            assert(letters =~= Seq::<char>::empty());
            assert(letters_of(name) =~= letters_of(name.drop_last()));
            if head.len() > 0 && head.last() != '-' {
                let longer = head.push('-');
                reveal_with_fuel(Seq::filter, 1);
                assert(longer.drop_last() =~= head);
                assert(longer.last() == '-');
                assert forall|i: int| 0 <= i < longer.len() implies is_plain(
                    #[trigger] longer[i],
                ) || longer[i] == '-' by {
                    if i < head.len() {
                        assert(longer[i] == head[i]);
                    }
                }
                assert forall|i: int| 0 < i < longer.len() && #[trigger] longer[i]
                    == '-' implies longer[i - 1] != '-' by {
                    if i < head.len() {
                        assert(longer[i] == head[i] && longer[i - 1] == head[i - 1]);
                    }
                }
            }
        }
    }
}

/// The id that is made out of a name holds exactly the letters of the name, in
/// order, with single dashes between them and none at either end.
pub proof fn an_id_holds_the_letters_of_its_name(name: Seq<char>)
    ensures
        ({
            let id = group_slug(name);
            &&& without_dashes(id) == letters_of(name)
            &&& id.len() > 0 ==> id[0] != '-' && id.last() != '-'
            &&& forall|i: int| 0 < i < id.len() && #[trigger] id[i] == '-' ==> id[i - 1] != '-'
            &&& forall|i: int| 0 <= i < id.len() ==> is_plain(#[trigger] id[i]) || id[i] == '-'
            &&& id.len() == 0 <==> letters_of(name).len() == 0
        }),
{
    let keep = |c: char| c != '-';
    let all = dashed(name);
    let id = group_slug(name);
    lemma_dashed(name);
    assert forall|i: int| 0 <= i < id.len() implies #[trigger] id[i] == all[i] by {}
    if all.len() > 0 && all.last() == '-' {
        reveal_with_fuel(Seq::filter, 1);
        assert(without_dashes(all) == without_dashes(id));
        assert(all[all.len() - 1] == '-');
        assert(all.len() > 1);
        assert(all[all.len() - 2] != '-');
    }
    if id.len() > 0 {
        id.lemma_filter_contains(keep, 0);
        assert(without_dashes(id).len() > 0);
    } else {
        lemma_plain_kept(id);
    }
}

/// What comes behind a dash is turned into an id by itself.
proof fn lemma_dashed_goes_on(before: Seq<char>, after: Seq<char>)
    requires
        dashed(before).len() > 0,
        dashed(before).last() == '-',
    ensures
        dashed(before + after) == dashed(before) + dashed(after),
    decreases after.len(),
{
    if after.len() == 0 {
        assert(before + after =~= before);
        assert(dashed(before) + dashed(after) =~= dashed(before));
    } else {
        let whole = before + after;
        assert(whole.drop_last() =~= before + after.drop_last());
        assert(whole.last() == after.last());
        lemma_dashed_goes_on(before, after.drop_last());
        let head = dashed(after.drop_last());
        let letters = folded(after.last());
        assert(dashed(whole) =~= dashed(before) + dashed(after)) by {
            if letters.len() == 0 {
                if head.len() == 0 {
                    assert(dashed(before) + head =~= dashed(before));
                } else {
                    assert((dashed(before) + head).last() == head.last());
                }
            }
        }
    }
}

/// Whatever cannot stand in an id parts what is before it from what is behind
/// it by one dash.
pub proof fn what_is_no_letter_parts_an_id(before: Seq<char>, gap: char, after: Seq<char>)
    requires
        folded(gap).len() == 0,
    ensures
        group_slug(before).len() > 0 && group_slug(after).len() > 0 ==> group_slug(
            before.push(gap) + after,
        ) == group_slug(before).push('-') + group_slug(after),
        group_slug(before.push(gap)) == group_slug(before),
        group_slug(seq![gap] + after) == group_slug(after),
{
    let parted = before.push(gap);
    assert(parted.drop_last() =~= before);
    assert(parted.last() == gap);
    lemma_dashed(before);
    lemma_dashed(after);
    assert(group_slug(parted) =~= group_slug(before));
    if group_slug(before).len() > 0 {
        assert(dashed(parted) =~= group_slug(before).push('-'));
        lemma_dashed_goes_on(parted, after);
        if group_slug(after).len() > 0 {
            assert(group_slug(parted + after) =~= group_slug(before).push('-') + group_slug(after));
        }
    }
    lemma_leading_gap(gap, after);
}

proof fn lemma_leading_gap(gap: char, after: Seq<char>)
    requires
        folded(gap).len() == 0,
    ensures
        dashed(seq![gap] + after) == dashed(after),
    decreases after.len(),
{
    let whole = seq![gap] + after;
    if after.len() == 0 {
        assert(whole.drop_last() =~= Seq::<char>::empty());
        assert(whole.last() == gap);
        assert(dashed(Seq::<char>::empty()) =~= Seq::<char>::empty());
    } else {
        assert(whole.drop_last() =~= seq![gap] + after.drop_last());
        assert(whole.last() == after.last());
        lemma_leading_gap(gap, after.drop_last());
    }
}

/// Letters that stand together stay together.
pub proof fn letters_are_not_parted(before: Seq<char>, c: char)
    requires
        folded(c).len() > 0,
    ensures
        group_slug(before.push(c)) == dashed(before) + folded(c),
        dashed(before).len() > 0 && dashed(before).last() != '-' ==> group_slug(before.push(c))
            == group_slug(before) + folded(c),
{
    assert(before.push(c).drop_last() =~= before);
    assert(before.push(c).last() == c);
    each_letter_stands_for_its_plain_form(c);
    let all = dashed(before) + folded(c);
    assert(all.last() == folded(c)[folded(c).len() - 1]);
    assert(is_plain(folded(c)[folded(c).len() - 1]));
}

/// An id is made of small letters, digits, dashes and underscores, and does not
/// start with an underscore: nothing else is one, and everything else is.
pub proof fn an_id_is_made_of_plain_characters(s: Seq<char>, i: int)
    requires
        0 <= i < s.len(),
    ensures
        !is_plain(s[i]) && s[i] != '-' && s[i] != '_' ==> !is_slug(s),
        s[0] == '_' ==> !is_slug(s),
        s[0] != '_' && (forall|k: int|
            0 <= k < s.len() ==> is_plain(#[trigger] s[k]) || s[k] == '-' || s[k] == '_')
            ==> is_slug(s),
        !is_slug(Seq::empty()),
{
    if !is_plain(s[i]) && s[i] != '-' && s[i] != '_' {
        assert(!is_slug_char(s[i]));
    }
}

/// A name that is typed is kept without the spaces around it, and spaces alone
/// are no name.
pub proof fn a_typed_name_is_trimmed(raw: Seq<char>)
    ensures
        name_from_input(raw) is Some ==> name_from_input(raw)->0 == trimmed(raw)
            && name_from_input(raw)->0.len() > 0,
        name_from_input(raw) is None <==> forall|i: int|
            0 <= i < raw.len() ==> crate::text::is_white_space(raw[i]),
{
    crate::text::trimming_takes_only_outer_white_space(raw);
}

} // verus!
