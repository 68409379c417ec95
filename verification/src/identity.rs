//! What radargrams, groups and people are called.
//!
//! Ids are slugs: they appear in URLs and in file names, so their alphabet is
//! small enough to need no escaping in either. Names are what people read.
use vstd::prelude::*;
use vstd::utf8::encode_utf8;

use crate::text;
use crate::text::trimmed;
use crate::text_map::TextKey;

verus! {

broadcast use vstd::string::group_string_axioms;

/// A character a slug may hold.
pub open spec fn is_slug_char(c: char) -> bool {
    'a' <= c <= 'z' || '0' <= c <= '9' || c == '-' || c == '_'
}

/// A slug: not empty, lowercase ASCII letters, digits, `-` and `_` only, and
/// not starting with `_`.
pub open spec fn is_slug(s: Seq<char>) -> bool {
    &&& s.len() > 0
    &&& s[0] != '_'
    &&& forall|i: int| 0 <= i < s.len() ==> is_slug_char(#[trigger] s[i])
}

/// Why `raw` is not an id.
pub open spec fn not_a_slug(raw: Seq<char>) -> Seq<char> {
    "'"@ + raw
        + "' is not a valid id: use lowercase ASCII letters, digits, '-' and '_', and do not start with '_'"@
}

/// Whether `raw` is a slug.
pub fn check_slug(raw: &str) -> (valid: bool)
    ensures
        valid == is_slug(raw@),
{
    let chars = text::chars_of(raw);
    if chars.len() == 0 || chars[0] == '_' {
        return false;
    }
    let mut i: usize = 0;
    while i < chars.len()
        invariant
            chars@ == raw@,
            i <= chars@.len(),
            forall|j: int| 0 <= j < i ==> is_slug_char(#[trigger] raw@[j]),
        decreases chars@.len() - i,
    {
        let c = chars[i];
        if !(('a' <= c && c <= 'z') || ('0' <= c && c <= '9') || c == '-' || c == '_') {
            assert(!is_slug_char(raw@[i as int]));
            return false;
        }
        i = i + 1;
    }
    true
}

fn refuse_slug(raw: &str) -> (message: String)
    ensures
        message@ == not_a_slug(raw@),
{
    let mut message = "'".to_owned();
    message.append(raw);
    message.append(
        "' is not a valid id: use lowercase ASCII letters, digits, '-' and '_', and do not start with '_'",
    );
    message
}

/// The persistent id of a radargram.
#[derive(Debug, PartialEq, Eq)]
pub struct RadargramId {
    text: String,
}

impl View for RadargramId {
    type V = Seq<char>;

    closed spec fn view(&self) -> Seq<char> {
        self.text@
    }
}

impl DeepView for RadargramId {
    type V = Seq<char>;

    open spec fn deep_view(&self) -> Seq<char> {
        self@
    }
}

impl Clone for RadargramId {
    fn clone(&self) -> (copy: Self)
        ensures
            copy == *self,
    {
        proof {
            use_type_invariant(self);
        }
        RadargramId { text: self.text.clone() }
    }
}

impl RadargramId {
    #[verifier::type_invariant]
    spec fn well_formed(self) -> bool {
        is_slug(self.text@)
    }

    /// Takes `raw` as it is, where it is a slug.
    pub fn new(raw: &str) -> (id: Result<RadargramId, String>)
        ensures
            match id {
                Ok(id) => is_slug(raw@) && id@ == raw@,
                Err(message) => !is_slug(raw@) && message@ == not_a_slug(raw@),
            },
    {
        if check_slug(raw) {
            Ok(RadargramId { text: raw.to_owned() })
        } else {
            Err(refuse_slug(raw))
        }
    }

    pub fn as_str(&self) -> (text: &str)
        ensures
            text@ == self@,
            is_slug(self@),
    {
        proof {
            use_type_invariant(self);
        }
        self.text.as_str()
    }

    /// The id as text of its own.
    pub fn to_text(&self) -> (text: String)
        ensures
            text@ == self@,
            is_slug(self@),
    {
        proof {
            use_type_invariant(self);
        }
        self.text.clone()
    }

    /// Whether the two are the same id.
    pub fn same(&self, other: &RadargramId) -> (same: bool)
        ensures
            same == (self@ == other@),
    {
        self.text == other.text
    }
}

impl TextKey for RadargramId {
    open spec fn text(&self) -> Seq<char> {
        self@
    }

    fn as_key(&self) -> (key: &str) {
        self.as_str()
    }

    fn copy_key(&self) -> (copy: Self) {
        self.clone()
    }
}

/// The id of an account.
#[derive(Debug, PartialEq, Eq)]
pub struct UserId {
    text: String,
}

impl View for UserId {
    type V = Seq<char>;

    closed spec fn view(&self) -> Seq<char> {
        self.text@
    }
}

impl DeepView for UserId {
    type V = Seq<char>;

    open spec fn deep_view(&self) -> Seq<char> {
        self@
    }
}

impl Clone for UserId {
    fn clone(&self) -> (copy: Self)
        ensures
            copy == *self,
    {
        proof {
            use_type_invariant(self);
        }
        UserId { text: self.text.clone() }
    }
}

impl UserId {
    #[verifier::type_invariant]
    spec fn well_formed(self) -> bool {
        is_slug(self.text@)
    }

    /// Takes `raw` as it is, where it is a slug.
    pub fn new(raw: &str) -> (id: Result<UserId, String>)
        ensures
            match id {
                Ok(id) => is_slug(raw@) && id@ == raw@,
                Err(message) => !is_slug(raw@) && message@ == not_a_slug(raw@),
            },
    {
        if check_slug(raw) {
            Ok(UserId { text: raw.to_owned() })
        } else {
            Err(refuse_slug(raw))
        }
    }

    pub fn as_str(&self) -> (text: &str)
        ensures
            text@ == self@,
            is_slug(self@),
    {
        proof {
            use_type_invariant(self);
        }
        self.text.as_str()
    }

    /// The id as text of its own.
    pub fn to_text(&self) -> (text: String)
        ensures
            text@ == self@,
            is_slug(self@),
    {
        proof {
            use_type_invariant(self);
        }
        self.text.clone()
    }

    /// Whether the two are the same id.
    pub fn same(&self, other: &UserId) -> (same: bool)
        ensures
            same == (self@ == other@),
    {
        self.text == other.text
    }
}

/// The ASCII letters or digits that stand for `c` in an id: none where `c` is
/// neither a letter nor a digit that has such a form.
pub open spec fn folded(c: char) -> Seq<char> {
    if 'a' <= c <= 'z' || '0' <= c <= '9' {
        seq![c]
    } else if 'A' <= c <= 'Z' {
        seq![(c as u32 + 32) as char]
    } else if '\u{c0}' <= c <= '\u{c5}' || '\u{e0}' <= c <= '\u{e5}' {
        seq!['a']
    } else if c == '\u{c6}' || c == '\u{e6}' {
        seq!['a', 'e']
    } else if c == '\u{c7}' || c == '\u{e7}' {
        seq!['c']
    } else if '\u{c8}' <= c <= '\u{cb}' || '\u{e8}' <= c <= '\u{eb}' {
        seq!['e']
    } else if '\u{cc}' <= c <= '\u{cf}' || '\u{ec}' <= c <= '\u{ef}' {
        seq!['i']
    } else if c == '\u{d0}' || c == '\u{f0}' {
        seq!['d']
    } else if c == '\u{d1}' || c == '\u{f1}' {
        seq!['n']
    } else if '\u{d2}' <= c <= '\u{d6}' || c == '\u{d8}' || '\u{f2}' <= c <= '\u{f6}' || c
        == '\u{f8}' {
        seq!['o']
    } else if '\u{d9}' <= c <= '\u{dc}' || '\u{f9}' <= c <= '\u{fc}' {
        seq!['u']
    } else if c == '\u{dd}' || c == '\u{fd}' || c == '\u{ff}' {
        seq!['y']
    } else if c == '\u{de}' || c == '\u{fe}' {
        seq!['t', 'h']
    } else if c == '\u{df}' {
        seq!['s', 's']
    } else {
        Seq::empty()
    }
}

fn fold(c: char) -> (letters: Vec<char>)
    ensures
        letters@ == folded(c),
{
    let mut letters: Vec<char> = Vec::new();
    if ('a' <= c && c <= 'z') || ('0' <= c && c <= '9') {
        letters.push(c);
    } else if 'A' <= c && c <= 'Z' {
        letters.push((c as u8 + 32) as char);
    } else if ('\u{c0}' <= c && c <= '\u{c5}') || ('\u{e0}' <= c && c <= '\u{e5}') {
        letters.push('a');
    } else if c == '\u{c6}' || c == '\u{e6}' {
        letters.push('a');
        letters.push('e');
    } else if c == '\u{c7}' || c == '\u{e7}' {
        letters.push('c');
    } else if ('\u{c8}' <= c && c <= '\u{cb}') || ('\u{e8}' <= c && c <= '\u{eb}') {
        letters.push('e');
    } else if ('\u{cc}' <= c && c <= '\u{cf}') || ('\u{ec}' <= c && c <= '\u{ef}') {
        letters.push('i');
    } else if c == '\u{d0}' || c == '\u{f0}' {
        letters.push('d');
    } else if c == '\u{d1}' || c == '\u{f1}' {
        letters.push('n');
    } else if ('\u{d2}' <= c && c <= '\u{d6}') || c == '\u{d8}' || ('\u{f2}' <= c && c <= '\u{f6}')
        || c == '\u{f8}' {
        letters.push('o');
    } else if ('\u{d9}' <= c && c <= '\u{dc}') || ('\u{f9}' <= c && c <= '\u{fc}') {
        letters.push('u');
    } else if c == '\u{dd}' || c == '\u{fd}' || c == '\u{ff}' {
        letters.push('y');
    } else if c == '\u{de}' || c == '\u{fe}' {
        letters.push('t');
        letters.push('h');
    } else if c == '\u{df}' {
        letters.push('s');
        letters.push('s');
    }
    assert(letters@ =~= folded(c));
    letters
}

/// The letters of `name`, with one `-` for each run of anything else that
/// follows a letter.
pub open spec fn dashed(name: Seq<char>) -> Seq<char>
    decreases name.len(),
{
    if name.len() == 0 {
        Seq::empty()
    } else {
        let head = dashed(name.drop_last());
        let letters = folded(name.last());
        if letters.len() > 0 {
            head + letters
        } else if head.len() > 0 && head.last() != '-' {
            head.push('-')
        } else {
            head
        }
    }
}

/// The id a name gives: its letters joined by single dashes, none at the end.
pub open spec fn group_slug(name: Seq<char>) -> Seq<char> {
    let all = dashed(name);
    if all.len() > 0 && all.last() == '-' {
        all.drop_last()
    } else {
        all
    }
}

/// Why a name gives no id.
pub open spec fn no_slug_in(name: Seq<char>) -> Seq<char> {
    "'"@ + name + "' holds no letter or digit an id could be made of"@
}

proof fn lemma_dashed_chars(name: Seq<char>)
    ensures
        forall|i: int| 0 <= i < dashed(name).len() ==> is_slug_char(#[trigger] dashed(name)[i]),
        forall|i: int| 0 <= i < dashed(name).len() ==> #[trigger] dashed(name)[i] != '_',
        dashed(name).len() > 0 ==> dashed(name)[0] != '-',
    decreases name.len(),
{
    if name.len() > 0 {
        lemma_dashed_chars(name.drop_last());
    }
}

/// The id made of a name is a slug, or nothing.
pub proof fn lemma_group_slug_is_slug(name: Seq<char>)
    ensures
        group_slug(name).len() > 0 ==> is_slug(group_slug(name)),
{
    lemma_dashed_chars(name);
    let all = dashed(name);
    let slug = group_slug(name);
    assert(forall|i: int| 0 <= i < slug.len() ==> #[trigger] slug[i] == all[i]);
}

fn fold_to_slug(name: &str) -> (slug: String)
    ensures
        slug@ == group_slug(name@),
{
    let chars = text::chars_of(name);
    let mut letters: Vec<char> = Vec::new();
    let mut i: usize = 0;
    while i < chars.len()
        invariant
            chars@ == name@,
            i <= chars@.len(),
            letters@ == dashed(name@.take(i as int)),
        decreases chars@.len() - i,
    {
        let ghost upto = name@.take(i + 1);
        assert(upto.drop_last() =~= name@.take(i as int));
        let mut more = fold(chars[i]);
        if more.len() > 0 {
            letters.append(&mut more);
        } else if letters.len() > 0 && letters[letters.len() - 1] != '-' {
            letters.push('-');
        }
        i = i + 1;
    }
    assert(name@.take(chars@.len() as int) =~= name@);
    if letters.len() > 0 && letters[letters.len() - 1] == '-' {
        letters.pop();
    }
    text_of(&letters)
}

fn text_of(chars: &Vec<char>) -> (text: String)
    ensures
        text@ == chars@,
{
    let mut text = String::new();
    let mut i: usize = 0;
    while i < chars.len()
        invariant
            i <= chars@.len(),
            text@ == chars@.take(i as int),
        decreases chars@.len() - i,
    {
        text.push(chars[i]);
        i = i + 1;
        assert(chars@.take(i as int) =~= chars@.take(i - 1).push(chars@[i - 1]));
    }
    assert(chars@.take(chars@.len() as int) =~= chars@);
    text
}

/// What a typed name is: the text without the white space around it, or no
/// name at all where that leaves nothing.
pub open spec fn name_from_input(raw: Seq<char>) -> Option<Seq<char>> {
    if trimmed(raw).len() == 0 {
        None
    } else {
        Some(trimmed(raw))
    }
}

/// The id of a group of radargrams.
#[derive(Debug, PartialEq, Eq)]
pub struct GroupId {
    text: String,
}

impl View for GroupId {
    type V = Seq<char>;

    closed spec fn view(&self) -> Seq<char> {
        self.text@
    }
}

impl DeepView for GroupId {
    type V = Seq<char>;

    open spec fn deep_view(&self) -> Seq<char> {
        self@
    }
}

impl Clone for GroupId {
    fn clone(&self) -> (copy: Self)
        ensures
            copy == *self,
    {
        proof {
            use_type_invariant(self);
        }
        GroupId { text: self.text.clone() }
    }
}

impl GroupId {
    #[verifier::type_invariant]
    spec fn well_formed(self) -> bool {
        is_slug(self.text@)
    }

    /// Takes `raw` as it is, where it is a slug.
    pub fn new(raw: &str) -> (id: Result<GroupId, String>)
        ensures
            match id {
                Ok(id) => is_slug(raw@) && id@ == raw@,
                Err(message) => !is_slug(raw@) && message@ == not_a_slug(raw@),
            },
    {
        if check_slug(raw) {
            Ok(GroupId { text: raw.to_owned() })
        } else {
            Err(refuse_slug(raw))
        }
    }

    /// The id that a name with no id of its own gives: its letters in
    /// lowercase ASCII, with a `-` wherever something else stood between them.
    pub fn from_fallback(name: &str) -> (id: Result<GroupId, String>)
        ensures
            match id {
                Ok(id) => group_slug(name@).len() > 0 && id@ == group_slug(name@),
                Err(message) => group_slug(name@).len() == 0 && message@ == no_slug_in(name@),
            },
    {
        let slug = fold_to_slug(name);
        proof {
            lemma_group_slug_is_slug(name@);
        }
        if slug.as_str().is_empty() {
            let mut message = "'".to_owned();
            message.append(name);
            message.append("' holds no letter or digit an id could be made of");
            Err(message)
        } else {
            Ok(GroupId { text: slug })
        }
    }

    pub fn as_str(&self) -> (text: &str)
        ensures
            text@ == self@,
            is_slug(self@),
    {
        proof {
            use_type_invariant(self);
        }
        self.text.as_str()
    }

    /// The id as text of its own.
    pub fn to_text(&self) -> (text: String)
        ensures
            text@ == self@,
            is_slug(self@),
    {
        proof {
            use_type_invariant(self);
        }
        self.text.clone()
    }

    /// Whether the two are the same id.
    pub fn same(&self, other: &GroupId) -> (same: bool)
        ensures
            same == (self@ == other@),
    {
        self.text == other.text
    }
}

impl TextKey for GroupId {
    open spec fn text(&self) -> Seq<char> {
        self@
    }

    fn as_key(&self) -> (key: &str) {
        self.as_str()
    }

    fn copy_key(&self) -> (copy: Self) {
        self.clone()
    }
}

/// What a radargram is called on screen.
#[derive(Debug, PartialEq, Eq)]
pub struct DisplayName {
    text: String,
}

impl View for DisplayName {
    type V = Seq<char>;

    closed spec fn view(&self) -> Seq<char> {
        self.text@
    }
}

impl DeepView for DisplayName {
    type V = Seq<char>;

    open spec fn deep_view(&self) -> Seq<char> {
        self@
    }
}

impl Clone for DisplayName {
    fn clone(&self) -> (copy: Self)
        ensures
            copy == *self,
    {
        proof {
            use_type_invariant(self);
        }
        DisplayName { text: self.text.clone() }
    }
}

impl DisplayName {
    #[verifier::type_invariant]
    spec fn well_formed(self) -> bool {
        self.text@.len() > 0
    }

    /// What somebody typed, without the white space around it. Nothing but
    /// white space is no name.
    pub fn from_input(raw: &str) -> (name: Option<DisplayName>)
        ensures
            name.deep_view() == name_from_input(raw@),
    {
        let inner = text::trim(raw);
        if inner.is_empty() {
            None
        } else {
            Some(DisplayName { text: inner.to_owned() })
        }
    }

    pub fn as_str(&self) -> (text: &str)
        ensures
            text@ == self@,
            self@.len() > 0,
    {
        proof {
            use_type_invariant(self);
        }
        self.text.as_str()
    }

    /// The name as text of its own.
    pub fn to_text(&self) -> (text: String)
        ensures
            text@ == self@,
            self@.len() > 0,
    {
        proof {
            use_type_invariant(self);
        }
        self.text.clone()
    }

    /// Whether the two are the same name.
    pub fn same(&self, other: &DisplayName) -> (same: bool)
        ensures
            same == (self@ == other@),
    {
        self.text == other.text
    }
}

/// What a group is called on screen.
#[derive(Debug, PartialEq, Eq)]
pub struct GroupName {
    text: String,
}

impl View for GroupName {
    type V = Seq<char>;

    closed spec fn view(&self) -> Seq<char> {
        self.text@
    }
}

impl DeepView for GroupName {
    type V = Seq<char>;

    open spec fn deep_view(&self) -> Seq<char> {
        self@
    }
}

impl Clone for GroupName {
    fn clone(&self) -> (copy: Self)
        ensures
            copy == *self,
    {
        proof {
            use_type_invariant(self);
        }
        GroupName { text: self.text.clone() }
    }
}

impl GroupName {
    #[verifier::type_invariant]
    spec fn well_formed(self) -> bool {
        self.text@.len() > 0
    }

    /// What somebody typed, without the white space around it. Nothing but
    /// white space is no name.
    pub fn from_input(raw: &str) -> (name: Option<GroupName>)
        ensures
            name.deep_view() == name_from_input(raw@),
    {
        let inner = text::trim(raw);
        if inner.is_empty() {
            None
        } else {
            Some(GroupName { text: inner.to_owned() })
        }
    }

    pub fn as_str(&self) -> (text: &str)
        ensures
            text@ == self@,
            self@.len() > 0,
    {
        proof {
            use_type_invariant(self);
        }
        self.text.as_str()
    }

    /// The name as text of its own.
    pub fn to_text(&self) -> (text: String)
        ensures
            text@ == self@,
            self@.len() > 0,
    {
        proof {
            use_type_invariant(self);
        }
        self.text.clone()
    }

    /// Whether the two are the same name.
    pub fn same(&self, other: &GroupName) -> (same: bool)
        ensures
            same == (self@ == other@),
    {
        self.text == other.text
    }
}

/// The BLAKE3 hash of `input`, in lowercase hexadecimal.
pub uninterp spec fn blake3_hex(input: Seq<u8>) -> Seq<char>;

/// `blake3::hash`, with its 32 bytes written out by `Hash::to_hex`: a fixed
/// function of the bytes hashed, 64 characters out of `0` to `9` and `a` to
/// `f`. That different inputs give different hashes is not claimed.
#[verifier::external_body]
fn blake3_hex_of(input: &[u8]) -> (hex: String)
    ensures
        hex@ == blake3_hex(input@),
        hex@.len() == 64,
        forall|i: int|
            0 <= i < 64 ==> ('0' <= #[trigger] hex@[i] <= '9' || 'a' <= hex@[i] <= 'f'),
{
    blake3::hash(input).to_hex().to_string()
}

/// What is hashed to name a revision: the id, a line break, and the time the
/// file was processed.
pub open spec fn revision_text(radargram_id: Seq<char>, processing_datetime: Seq<char>) -> Seq<
    char,
> {
    radargram_id.push('\n') + processing_datetime
}

/// The name of the revision of a radargram that was processed at a given time.
pub open spec fn revision_of(radargram_id: Seq<char>, processing_datetime: Seq<char>) -> Seq<char> {
    blake3_hex(encode_utf8(revision_text(radargram_id, processing_datetime)))
}

/// Two revisions are hashed from the same bytes only if they are the same
/// revision of the same radargram: no id ends where another's time begins.
pub proof fn revision_text_tells_revisions_apart(
    id_a: Seq<char>,
    time_a: Seq<char>,
    id_b: Seq<char>,
    time_b: Seq<char>,
)
    requires
        is_slug(id_a),
        is_slug(id_b),
        encode_utf8(revision_text(id_a, time_a)) == encode_utf8(revision_text(id_b, time_b)),
    ensures
        id_a == id_b,
        time_a == time_b,
{
    let a = revision_text(id_a, time_a);
    let b = revision_text(id_b, time_b);
    text::lemma_same_bytes_same_text(a, b);
    assert(a[id_a.len() as int] == '\n');
    assert(b[id_b.len() as int] == '\n');
    if id_a.len() < id_b.len() {
        assert(b[id_a.len() as int] == id_b[id_a.len() as int]);
        assert(is_slug_char(id_b[id_a.len() as int]));
    }
    if id_b.len() < id_a.len() {
        assert(a[id_b.len() as int] == id_a[id_b.len() as int]);
        assert(is_slug_char(id_a[id_b.len() as int]));
    }
    assert(id_a =~= a.take(id_a.len() as int));
    assert(id_b =~= b.take(id_b.len() as int));
    assert(time_a =~= a.skip(id_a.len() as int + 1));
    assert(time_b =~= b.skip(id_b.len() as int + 1));
}

/// Which revision of a radargram a file is.
#[derive(Debug, PartialEq, Eq)]
pub struct RevisionId {
    text: String,
}

impl View for RevisionId {
    type V = Seq<char>;

    closed spec fn view(&self) -> Seq<char> {
        self.text@
    }
}

impl DeepView for RevisionId {
    type V = Seq<char>;

    open spec fn deep_view(&self) -> Seq<char> {
        self@
    }
}

impl Clone for RevisionId {
    fn clone(&self) -> (copy: Self)
        ensures
            copy == *self,
    {
        RevisionId { text: self.text.clone() }
    }
}

impl RevisionId {
    /// The revision of `radargram_id` that was processed at
    /// `processing_datetime`. Where the file lies plays no part.
    pub fn fingerprint_v1(radargram_id: &RadargramId, processing_datetime: &str) -> (revision:
        RevisionId)
        ensures
            revision@ == revision_of(radargram_id@, processing_datetime@),
    {
        let mut text = radargram_id.to_text();
        text.push('\n');
        text.append(processing_datetime);
        RevisionId { text: blake3_hex_of(text.as_str().as_bytes()) }
    }

    pub fn as_str(&self) -> (text: &str)
        ensures
            text@ == self@,
    {
        self.text.as_str()
    }

    /// The revision id as text of its own.
    pub fn to_text(&self) -> (text: String)
        ensures
            text@ == self@,
    {
        self.text.clone()
    }

    /// Whether the two are the same revision.
    pub fn same(&self, other: &RevisionId) -> (same: bool)
        ensures
            same == (self@ == other@),
    {
        self.text == other.text
    }
}

} // verus!
