//! A map keyed by text, walked in the order of its keys.
use vstd::prelude::*;

use crate::text;
use crate::text::text_less;

verus! {

/// Each key comes before all that follow it.
pub open spec fn ascending(keys: Seq<Seq<char>>) -> bool {
    forall|i: int, j: int| 0 <= i < j < keys.len() ==> text_less(#[trigger] keys[i], #[trigger] keys[j])
}

/// Ascending keys differ.
pub proof fn lemma_ascending_differ(keys: Seq<Seq<char>>)
    requires
        ascending(keys),
    ensures
        forall|i: int, j: int|
            0 <= i < keys.len() && 0 <= j < keys.len() && #[trigger] keys[i] == #[trigger] keys[j]
                ==> i == j,
{
    assert forall|i: int, j: int|
        0 <= i < keys.len() && 0 <= j < keys.len() && #[trigger] keys[i] == #[trigger] keys[j] implies i
        == j by {
        text::text_order_is_strict_and_total(keys[i], keys[j]);
    }
}

/// Whether `row` holds exactly `keys`, in order.
pub open spec fn lists(row: Seq<Seq<char>>, keys: Set<Seq<char>>) -> bool {
    ascending(row) && forall|key: Seq<char>| #[trigger] keys.contains(key) <==> row.contains(key)
}

/// The keys in order.
pub open spec fn key_order(keys: Set<Seq<char>>) -> Seq<Seq<char>> {
    choose|row: Seq<Seq<char>>| lists(row, keys)
}

/// There is one way to put keys in order.
pub proof fn lemma_one_key_order(row: Seq<Seq<char>>, keys: Set<Seq<char>>)
    requires
        lists(row, keys),
    ensures
        row == key_order(keys),
{
    let other = key_order(keys);
    assert(lists(other, keys));
    assert forall|key: Seq<char>| row.contains(key) <==> other.contains(key) by {
        assert(keys.contains(key) <==> row.contains(key));
    }
    lemma_same_ascending(row, other);
}

proof fn lemma_same_ascending(a: Seq<Seq<char>>, b: Seq<Seq<char>>)
    requires
        ascending(a),
        ascending(b),
        forall|key: Seq<char>| a.contains(key) <==> b.contains(key),
    ensures
        a == b,
    decreases a.len(),
{
    if a.len() == 0 {
        if b.len() > 0 {
            assert(b.contains(b[0]));
        }
        assert(a =~= b);
    } else {
        assert(a.contains(a.last()));
        assert(b.contains(a.last()));
        assert(b.contains(b.last()));
        let i = choose|i: int| 0 <= i < b.len() && b[i] == a.last();
        let j = choose|j: int| 0 <= j < a.len() && a[j] == b.last();
        text::text_order_is_strict_and_total(a.last(), b.last());
        if i < b.len() - 1 {
            assert(text_less(b[i], b[b.len() - 1]));
            if j < a.len() - 1 {
                assert(text_less(a[j], a[a.len() - 1]));
            }
        }
        assert(a.last() == b.last());
        let x = a.drop_last();
        let y = b.drop_last();
        lemma_ascending_differ(a);
        lemma_ascending_differ(b);
        assert forall|key: Seq<char>| x.contains(key) <==> y.contains(key) by {
            if x.contains(key) {
                let k = choose|k: int| 0 <= k < x.len() && x[k] == key;
                assert(a[k] == key && a[a.len() - 1] == a.last());
                assert(a.contains(key));
                let m = choose|m: int| 0 <= m < b.len() && b[m] == key;
                assert(m < b.len() - 1);
                assert(y[m] == key);
            }
            if y.contains(key) {
                let k = choose|k: int| 0 <= k < y.len() && y[k] == key;
                assert(b[k] == key && b[b.len() - 1] == b.last());
                assert(b.contains(key));
                let m = choose|m: int| 0 <= m < a.len() && a[m] == key;
                assert(m < a.len() - 1);
                assert(x[m] == key);
            }
        }
        lemma_same_ascending(x, y);
        assert(a =~= x.push(a.last()));
        assert(b =~= y.push(b.last()));
    }
}

/// Ascending keys with one more in its place.
pub proof fn lemma_insert_ascending(keys: Seq<Seq<char>>, key: Seq<char>) -> (row: Seq<Seq<char>>)
    requires
        ascending(keys),
        !keys.contains(key),
    ensures
        ascending(row),
        forall|other: Seq<char>| #[trigger] row.contains(other) <==> other == key || keys.contains(other),
    decreases keys.len(),
{
    if keys.len() == 0 || text_less(keys.last(), key) {
        let row = keys.push(key);
        assert forall|i: int, j: int| 0 <= i < j < row.len() implies text_less(
            #[trigger] row[i],
            #[trigger] row[j],
        ) by {
            if j == keys.len() {
                if i < keys.len() - 1 {
                    assert(text_less(keys[i], keys[keys.len() - 1]));
                    text::text_order_is_transitive(keys[i], keys.last(), key);
                }
            } else {
                assert(text_less(keys[i], keys[j]));
            }
        }
        assert forall|other: Seq<char>|
            #[trigger] row.contains(other) <==> other == key || keys.contains(other) by {
            if keys.contains(other) {
                let i = choose|i: int| 0 <= i < keys.len() && keys[i] == other;
                assert(row[i] == other);
            }
            if other == key {
                assert(row[keys.len() as int] == other);
            }
            if row.contains(other) && other != key {
                let i = choose|i: int| 0 <= i < row.len() && row[i] == other;
                assert(keys[i] == other);
            }
        }
        row
    } else {
        text::text_order_is_strict_and_total(keys.last(), key);
        assert(keys[keys.len() - 1] == keys.last());
        assert(keys.contains(keys.last()));
        let rest = keys.drop_last();
        assert(!rest.contains(key)) by {
            if rest.contains(key) {
                let i = choose|i: int| 0 <= i < rest.len() && rest[i] == key;
                assert(keys[i] == key);
            }
        }
        assert forall|i: int, j: int| 0 <= i < j < rest.len() implies text_less(
            #[trigger] rest[i],
            #[trigger] rest[j],
        ) by {
            assert(text_less(keys[i], keys[j]));
        }
        let head = lemma_insert_ascending(rest, key);
        let row = head.push(keys.last());
        assert forall|i: int, j: int| 0 <= i < j < row.len() implies text_less(
            #[trigger] row[i],
            #[trigger] row[j],
        ) by {
            if j == head.len() {
                assert(head.contains(head[i]));
                if head[i] != key {
                    let k = choose|k: int| 0 <= k < rest.len() && rest[k] == head[i];
                    assert(text_less(keys[k], keys[keys.len() - 1]));
                }
            } else {
                assert(text_less(head[i], head[j]));
            }
        }
        assert forall|other: Seq<char>|
            #[trigger] row.contains(other) <==> other == key || keys.contains(other) by {
            if row.contains(other) {
                let i = choose|i: int| 0 <= i < row.len() && row[i] == other;
                if i < head.len() {
                    assert(head[i] == other);
                    assert(head.contains(other));
                    if other != key {
                        let k = choose|k: int| 0 <= k < rest.len() && rest[k] == other;
                        assert(keys[k] == other);
                    }
                }
            }
            if keys.contains(other) {
                let i = choose|i: int| 0 <= i < keys.len() && keys[i] == other;
                if i < rest.len() {
                    assert(rest[i] == other);
                    assert(head.contains(other));
                    let k = choose|k: int| 0 <= k < head.len() && head[k] == other;
                    assert(row[k] == other);
                } else {
                    assert(row[head.len() as int] == other);
                }
            }
            if other == key {
                assert(head.contains(other));
                let k = choose|k: int| 0 <= k < head.len() && head[k] == other;
                assert(row[k] == other);
            }
        }
        row
    }
}

/// Finitely many keys can be put in order.
pub proof fn lemma_finite_listed(keys: Set<Seq<char>>)
    requires
        keys.finite(),
    ensures
        lists(key_order(keys), keys),
{
    let row = lemma_some_listing(keys);
    assert(lists(row, keys));
}

proof fn lemma_some_listing(keys: Set<Seq<char>>) -> (row: Seq<Seq<char>>)
    requires
        keys.finite(),
    ensures
        lists(row, keys),
    decreases keys.len(),
{
    if keys.len() == 0 {
        assert(keys =~= Set::empty());
        Seq::<Seq<char>>::empty()
    } else {
        let key = keys.choose();
        let rest = keys.remove(key);
        let before = lemma_some_listing(rest);
        assert(!before.contains(key)) by {
            assert(!rest.contains(key));
        }
        let row = lemma_insert_ascending(before, key);
        assert forall|other: Seq<char>| #[trigger] keys.contains(other) <==> row.contains(other) by {
            assert(rest.contains(other) <==> before.contains(other));
            assert(row.contains(other) <==> other == key || before.contains(other));
        }
        row
    }
}

/// A key that is text underneath.
pub trait TextKey: Sized {
    /// The text of the key.
    spec fn text(&self) -> Seq<char>;

    /// The text of the key.
    fn as_key(&self) -> (key: &str)
        ensures
            key@ == self.text(),
    ;

    /// The same key once more.
    fn copy_key(&self) -> (copy: Self)
        ensures
            copy.text() == self.text(),
    ;
}

impl TextKey for String {
    open spec fn text(&self) -> Seq<char> {
        self@
    }

    fn as_key(&self) -> (key: &str) {
        self.as_str()
    }

    fn copy_key(&self) -> (copy: Self) {
        self.clone()
    }
}

/// A map from text to values, kept in the order of its keys.
#[derive(Debug, PartialEq)]
pub struct TextMap<K: TextKey, V> {
    items: Vec<(K, V)>,
}

/// The keys of a row of pairs.
spec fn keys_of<K: TextKey, V>(items: Seq<(K, V)>) -> Seq<Seq<char>> {
    Seq::new(items.len(), |i: int| items[i].0.text())
}

spec fn place<K: TextKey, V>(items: Seq<(K, V)>, key: Seq<char>) -> int {
    choose|i: int| 0 <= i < items.len() && (#[trigger] items[i]).0.text() == key
}

spec fn holds<K: TextKey, V>(items: Seq<(K, V)>, key: Seq<char>) -> bool {
    exists|i: int| 0 <= i < items.len() && (#[trigger] items[i]).0.text() == key
}

impl<K: TextKey, V> View for TextMap<K, V> {
    type V = Map<Seq<char>, V>;

    closed spec fn view(&self) -> Map<Seq<char>, V> {
        let items = self.items@;
        Map::new(|key: Seq<char>| holds(items, key), |key: Seq<char>| items[place(items, key)].1)
    }
}

impl<K: TextKey, V: DeepView> DeepView for TextMap<K, V> {
    type V = Map<Seq<char>, V::V>;

    open spec fn deep_view(&self) -> Map<Seq<char>, V::V> {
        self@.map_values(|value: V| value.deep_view())
    }
}

impl<K: TextKey, V: Clone> Clone for TextMap<K, V> {
    fn clone(&self) -> (copy: Self)
        ensures
            copy.keys() == self.keys(),
            copy@.dom() == self@.dom(),
            forall|key: Seq<char>|
                self@.contains_key(key) ==> cloned::<V>(self@[key], #[trigger] copy@[key]),
    {
        proof {
            use_type_invariant(self);
        }
        let mut items: Vec<(K, V)> = Vec::new();
        let mut i: usize = 0;
        while i < self.items.len()
            invariant
                i <= self.items@.len(),
                items@.len() == i,
                forall|j: int|
                    0 <= j < i ==> (#[trigger] items@[j]).0.text() == self.items@[j].0.text() && cloned::<V>(
                        self.items@[j].1,
                        items@[j].1,
                    ),
            decreases self.items@.len() - i,
        {
            items.push((self.items[i].0.copy_key(), self.items[i].1.clone()));
            i = i + 1;
        }
        proof {
            assert(keys_of(items@) =~= keys_of(self.items@));
        }
        let copy = TextMap { items };
        proof {
            lemma_ascending_differ(keys_of(self.items@));
            assert forall|key: Seq<char>| copy@.contains_key(key) == self@.contains_key(key) by {
                if self@.contains_key(key) {
                    let i = place(self.items@, key);
                    assert(copy.items@[i].0.text() == key);
                }
                if copy@.contains_key(key) {
                    let i = place(copy.items@, key);
                    assert(self.items@[i].0.text() == key);
                }
            }
            assert(copy@.dom() =~= self@.dom());
            assert forall|key: Seq<char>| self@.contains_key(key) implies cloned::<V>(
                self@[key],
                #[trigger] copy@[key],
            ) by {
                let i = place(self.items@, key);
                let j = place(copy.items@, key);
                assert(keys_of(self.items@)[i] == key);
                assert(copy.items@[i].0.text() == key);
                assert(keys_of(self.items@)[j] == key);
            }
        }
        copy
    }
}

impl<K: TextKey, V> TextMap<K, V> {
    #[verifier::type_invariant]
    spec fn well_formed(self) -> bool {
        ascending(keys_of(self.items@))
    }

    /// The keys, in order.
    pub closed spec fn keys(&self) -> Seq<Seq<char>> {
        keys_of(self.items@)
    }

    /// A map with nothing in it.
    pub fn new() -> (map: Self)
        ensures
            map@ == Map::<Seq<char>, V>::empty(),
    {
        let map = TextMap { items: Vec::new() };
        assert(map@ =~= Map::<Seq<char>, V>::empty());
        map
    }

    /// How many keys there are.
    pub fn len(&self) -> (n: usize)
        ensures
            n == self.keys().len(),
            self.keys() == key_order(self@.dom()),
            lists(self.keys(), self@.dom()),
    {
        proof {
            use_type_invariant(self);
            assert forall|key: Seq<char>|
                #[trigger] self@.contains_key(key) <==> self.keys().contains(key) by {
                if self@.contains_key(key) {
                    assert(self.keys()[place(self.items@, key)] == key);
                }
                if self.keys().contains(key) {
                    let i = choose|i: int| 0 <= i < self.keys().len() && self.keys()[i] == key;
                    assert(self.items@[i].0.text() == key);
                }
            }
            lemma_one_key_order(self.keys(), self@.dom());
        }
        self.items.len()
    }

    /// The `i`-th key.
    pub fn key_at(&self, i: usize) -> (key: &K)
        requires
            i < self.keys().len(),
        ensures
            key.text() == self.keys()[i as int],
    {
        &self.items[i].0
    }

    /// The value of the `i`-th key.
    pub fn value_at(&self, i: usize) -> (value: &V)
        requires
            i < self.keys().len(),
        ensures
            self@.contains_key(self.keys()[i as int]),
            *value == self@[self.keys()[i as int]],
    {
        proof {
            use_type_invariant(self);
            lemma_ascending_differ(keys_of(self.items@));
            let key = self.items@[i as int].0.text();
            assert(self.keys()[place(self.items@, key)] == key);
            assert(self.keys()[i as int] == key);
        }
        &self.items[i].1
    }

    /// Where `key` stands, or where it would.
    fn locate(&self, key: &str) -> (at: usize)
        ensures
            at <= self.items@.len(),
            forall|j: int| 0 <= j < at ==> text_less(#[trigger] keys_of(self.items@)[j], key@),
            forall|j: int|
                at <= j < self.items@.len() ==> !text_less(#[trigger] keys_of(self.items@)[j], key@),
    {
        proof {
            use_type_invariant(self);
        }
        let ghost keys = keys_of(self.items@);
        let mut low: usize = 0;
        let mut high: usize = self.items.len();
        while low < high
            invariant
                low <= high <= self.items@.len(),
                keys == keys_of(self.items@),
                ascending(keys),
                forall|j: int| 0 <= j < low ==> text_less(#[trigger] keys[j], key@),
                forall|j: int| high <= j < keys.len() ==> !text_less(#[trigger] keys[j], key@),
            decreases high - low,
        {
            let mid: usize = low + (high - low) / 2;
            assert(keys[mid as int] == self.items@[mid as int].0.text());
            if text::less(self.items[mid].0.as_key(), key) {
                proof {
                    assert forall|j: int| 0 <= j < mid + 1 implies text_less(
                        #[trigger] keys[j],
                        key@,
                    ) by {
                        if j < mid {
                            text::text_order_is_transitive(keys[j], keys[mid as int], key@);
                        }
                    }
                }
                low = mid + 1;
            } else {
                proof {
                    assert forall|j: int| mid <= j < keys.len() implies !text_less(
                        #[trigger] keys[j],
                        key@,
                    ) by {
                        if j > mid && text_less(keys[j], key@) {
                            text::text_order_is_transitive(keys[mid as int], keys[j], key@);
                        }
                    }
                }
                high = mid;
            }
        }
        low
    }

    /// Whether `key` stands at the place [`Self::locate`] gave for it.
    fn stands_at(&self, at: usize, key: &str) -> (found: bool)
        requires
            at <= self.items@.len(),
            forall|j: int| 0 <= j < at ==> text_less(#[trigger] keys_of(self.items@)[j], key@),
            forall|j: int|
                at <= j < self.items@.len() ==> !text_less(#[trigger] keys_of(self.items@)[j], key@),
        ensures
            found == self@.contains_key(key@),
            found ==> at < self.items@.len() && self.items@[at as int].0.text() == key@ && self@[key@]
                == self.items@[at as int].1,
    {
        proof {
            use_type_invariant(self);
            lemma_ascending_differ(keys_of(self.items@));
        }
        let ghost keys = keys_of(self.items@);
        if at < self.items.len() && text::equal(self.items[at].0.as_key(), key) {
            proof {
                let i = place(self.items@, key@);
                assert(keys[at as int] == key@);
                assert(self.items@[at as int].0.text() == key@);
                assert(keys[i] == key@);
            }
            true
        } else {
            proof {
                if holds(self.items@, key@) {
                    let i = place(self.items@, key@);
                    assert(keys[i] == key@);
                    text::text_order_is_strict_and_total(key@, key@);
                    assert(text_less(keys[at as int], keys[i]));
                }
            }
            false
        }
    }

    /// The value of `key`, where the map holds it.
    pub fn get(&self, key: &str) -> (value: Option<&V>)
        ensures
            match value {
                Some(value) => self@.contains_key(key@) && *value == self@[key@],
                None => !self@.contains_key(key@),
            },
    {
        let at = self.locate(key);
        if self.stands_at(at, key) {
            Some(&self.items[at].1)
        } else {
            None
        }
    }

    /// Whether the map holds `key`.
    pub fn contains_key(&self, key: &str) -> (held: bool)
        ensures
            held == self@.contains_key(key@),
    {
        let at = self.locate(key);
        self.stands_at(at, key)
    }

    /// Sets the value of `key`.
    pub fn insert(&mut self, key: K, value: V)
        ensures
            final(self)@ == old(self)@.insert(key.text(), value),
    {
        proof {
            use_type_invariant(&*self);
        }
        let at = self.locate(key.as_key());
        let held = self.stands_at(at, key.as_key());
        let mut items: Vec<(K, V)> = Vec::new();
        let ghost before = self.items@;
        proof {
            lemma_ascending_differ(keys_of(before));
        }
        std::mem::swap(&mut items, &mut self.items);
        if held {
            items.remove(at);
        }
        items.insert(at, (key, value));
        proof {
            let after = items@;
            let shift: int = if held {
                0
            } else {
                1
            };
            assert(keys_of(after)[at as int] == key.text());
            assert forall|j: int| 0 <= j < at implies #[trigger] after[j] == before[j] by {}
            assert forall|j: int| at < j < after.len() implies #[trigger] after[j] == before[j
                - shift] by {}
            assert forall|j: int| at < j < after.len() implies text_less(
                key.text(),
                #[trigger] keys_of(after)[j],
            ) by {
                let k = keys_of(before)[j - shift];
                text::text_order_is_strict_and_total(k, key.text());
                if k == key.text() {
                    assert(before[j - shift].0.text() == key.text());
                    assert(holds(before, key.text()));
                    assert(keys_of(before)[at as int] == key.text());
                }
            }
            assert forall|i: int, j: int| 0 <= i < j < after.len() implies text_less(
                #[trigger] keys_of(after)[i],
                #[trigger] keys_of(after)[j],
            ) by {
                if i < at && j > at {
                    assert(keys_of(before)[i] == keys_of(after)[i]);
                    assert(keys_of(before)[j - shift] == keys_of(after)[j]);
                } else if i < at && j < at {
                    assert(keys_of(before)[i] == keys_of(after)[i]);
                    assert(keys_of(before)[j] == keys_of(after)[j]);
                } else if i < at {
                    assert(keys_of(before)[i] == keys_of(after)[i]);
                } else if i > at {
                    assert(keys_of(before)[i - shift] == keys_of(after)[i]);
                    assert(keys_of(before)[j - shift] == keys_of(after)[j]);
                }
            }
            lemma_ascending_differ(keys_of(after));
        }
        self.items = items;
        proof {
            let after = self.items@;
            let shift: int = if held {
                0
            } else {
                1
            };
            let expected = old(self)@.insert(key.text(), value);
            assert forall|k: Seq<char>| self@.contains_key(k) == expected.contains_key(k) by {
                if k == key.text() {
                    assert(after[at as int].0.text() == k);
                } else {
                    if holds(before, k) {
                        let i = place(before, k);
                        if i < at {
                            assert(after[i].0.text() == k);
                        } else {
                            assert(after[i + shift].0.text() == k);
                        }
                    }
                    if holds(after, k) {
                        let i = place(after, k);
                        if i < at {
                            assert(before[i].0.text() == k);
                        } else {
                            assert(before[i - shift].0.text() == k);
                        }
                    }
                }
            }
            assert forall|k: Seq<char>| self@.contains_key(k) implies self@[k] == expected[k] by {
                let i = place(after, k);
                assert(keys_of(after)[i] == k);
                if k == key.text() {
                    assert(keys_of(after)[at as int] == k);
                } else {
                    let j = place(before, k);
                    assert(holds(before, k));
                    let j2 = if i < at {
                        i
                    } else {
                        i - shift
                    };
                    assert(keys_of(before)[j2] == k);
                    assert(keys_of(before)[j] == k);
                }
            }
            assert(self@ =~= expected);
        }
    }

    /// Takes `key` out.
    pub fn remove(&mut self, key: &str) -> (value: Option<V>)
        ensures
            final(self)@ == old(self)@.remove(key@),
            match value {
                Some(value) => old(self)@.contains_key(key@) && value == old(self)@[key@],
                None => !old(self)@.contains_key(key@),
            },
    {
        proof {
            use_type_invariant(&*self);
        }
        let at = self.locate(key);
        if !self.stands_at(at, key) {
            assert(old(self)@.remove(key@) =~= old(self)@);
            return None;
        }
        let mut items: Vec<(K, V)> = Vec::new();
        let ghost before = self.items@;
        std::mem::swap(&mut items, &mut self.items);
        let taken = items.remove(at);
        proof {
            let after = items@;
            lemma_ascending_differ(keys_of(before));
            assert forall|i: int, j: int| 0 <= i < j < after.len() implies text_less(
                #[trigger] keys_of(after)[i],
                #[trigger] keys_of(after)[j],
            ) by {
                let i2 = if i < at {
                    i
                } else {
                    i + 1
                };
                let j2 = if j < at {
                    j
                } else {
                    j + 1
                };
                assert(keys_of(before)[i2] == keys_of(after)[i]);
                assert(keys_of(before)[j2] == keys_of(after)[j]);
            }
            lemma_ascending_differ(keys_of(after));
        }
        self.items = items;
        proof {
            let after = self.items@;
            let expected = old(self)@.remove(key@);
            assert(keys_of(before)[at as int] == key@);
            assert forall|k: Seq<char>| self@.contains_key(k) == expected.contains_key(k) by {
                if holds(after, k) {
                    let i = place(after, k);
                    let i2 = if i < at {
                        i
                    } else {
                        i + 1
                    };
                    assert(before[i2].0.text() == k);
                    assert(keys_of(before)[i2] == k);
                }
                if k != key@ && holds(before, k) {
                    let i = place(before, k);
                    assert(keys_of(before)[i] == k);
                    if i < at {
                        assert(after[i].0.text() == k);
                    } else {
                        assert(after[i - 1].0.text() == k);
                    }
                }
            }
            assert forall|k: Seq<char>| self@.contains_key(k) implies self@[k] == expected[k] by {
                let i = place(after, k);
                let i2 = if i < at {
                    i
                } else {
                    i + 1
                };
                let j = place(before, k);
                assert(before[i2].0.text() == k);
                assert(keys_of(before)[i2] == k);
                assert(keys_of(before)[j] == k);
            }
            assert(self@ =~= expected);
        }
        Some(taken.1)
    }
}

} // verus!
