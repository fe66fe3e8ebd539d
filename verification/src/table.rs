//! Keyed tables that remember the order in which keys first arrived.
//!
//! A table is a sequence of entries. A key is looked up by scanning from the
//! front, so the first entry with a given key is the one that counts; `insert`
//! replaces that entry in place or appends a new one, which keeps keys distinct
//! in any table built through it.

use vstd::prelude::*;

verus! {

/// A key that can be compared at run time, with the comparison agreeing with
/// equality of views.
pub trait TableKey: View + Sized {
    /// Whether the two keys are the same key.
    fn same(&self, other: &Self) -> (r: bool)
        ensures
            r == (self@ == other@),
    ;
}

impl TableKey for u128 {
    fn same(&self, other: &Self) -> (r: bool) {
        *self == *other
    }
}

impl TableKey for String {
    fn same(&self, other: &Self) -> (r: bool) {
        *self == *other
    }
}

/// One row of a table.
#[derive(Clone, Debug)]
pub struct Entry<K, V> {
    pub key: K,
    pub value: V,
}

/// An insertion-ordered table from keys to values.
#[derive(Clone, Debug)]
pub struct Table<K, V> {
    pub entries: Vec<Entry<K, V>>,
}

/// `i` is the first position of `key` among `entries`.
pub open spec fn first_at<K: View, V>(entries: Seq<Entry<K, V>>, key: K::V, i: int) -> bool {
    &&& 0 <= i < entries.len()
    &&& entries[i].key@ == key
    &&& forall|j: int| 0 <= j < i ==> (#[trigger] entries[j]).key@ != key
}

/// `key` occurs among `entries`.
pub open spec fn has_key<K: View, V>(entries: Seq<Entry<K, V>>, key: K::V) -> bool {
    exists|i: int| 0 <= i < entries.len() && (#[trigger] entries[i]).key@ == key
}

/// The first position of `key` among `entries`; meaningful when `has_key`.
pub open spec fn slot_of<K: View, V>(entries: Seq<Entry<K, V>>, key: K::V) -> int {
    choose|i: int| first_at(entries, key, i)
}

/// No key occurs twice among `entries`.
pub open spec fn distinct_keys<K: View, V>(entries: Seq<Entry<K, V>>) -> bool {
    forall|i: int, j: int|
        0 <= i < j < entries.len() ==> (#[trigger] entries[i]).key@ != (#[trigger] entries[j]).key@
}

/// Where a binding of `key` lands in `entries`: on the first entry for `key`
/// where there is one, behind the last entry where there is none.
pub open spec fn landing<K: View, V>(entries: Seq<Entry<K, V>>, key: K::V) -> int {
    if has_key(entries, key) {
        slot_of(entries, key)
    } else {
        entries.len() as int
    }
}

/// `post` has an entry for `key` where a binding of it lands in `pre`, and
/// every other entry of `pre` as it was, in its place.
pub open spec fn placed<K: View, V>(
    pre: Seq<Entry<K, V>>,
    key: K::V,
    post: Seq<Entry<K, V>>,
) -> bool {
    &&& post.len() == if has_key(pre, key) {
        pre.len()
    } else {
        pre.len() + 1
    }
    &&& post[landing(pre, key)].key@ == key
    &&& forall|j: int| 0 <= j < pre.len() && j != landing(pre, key) ==> #[trigger] post[j] == pre[j]
}

/// `post` is `pre` after `key` was bound to `value`: the first entry for `key`
/// is replaced where there is one, and a new last entry is added where there
/// is none. Every other entry stays as it was, in its place.
pub open spec fn bound<K: View, V>(
    pre: Seq<Entry<K, V>>,
    key: K::V,
    value: V,
    post: Seq<Entry<K, V>>,
) -> bool {
    &&& placed(pre, key, post)
    &&& post[landing(pre, key)].value == value
}

/// A key has at most one first position.
pub proof fn lemma_first_at_unique<K: View, V>(entries: Seq<Entry<K, V>>, key: K::V, i: int, j: int)
    requires
        first_at(entries, key, i),
        first_at(entries, key, j),
    ensures
        i == j,
{
}

/// Where a key occurs, `slot_of` is its first position.
pub proof fn lemma_slot_of<K: View, V>(entries: Seq<Entry<K, V>>, key: K::V)
    requires
        has_key(entries, key),
    ensures
        first_at(entries, key, slot_of(entries, key)),
{
    let w = choose|i: int| 0 <= i < entries.len() && (#[trigger] entries[i]).key@ == key;
    lemma_first_before(entries, key, w);
}

/// An occurrence at `w` implies a first occurrence at or before `w`.
proof fn lemma_first_before<K: View, V>(entries: Seq<Entry<K, V>>, key: K::V, w: int)
    requires
        0 <= w < entries.len(),
        entries[w].key@ == key,
    ensures
        exists|i: int| first_at(entries, key, i),
    decreases w,
{
    if exists|j: int| 0 <= j < w && (#[trigger] entries[j]).key@ == key {
        let j = choose|j: int| 0 <= j < w && (#[trigger] entries[j]).key@ == key;
        lemma_first_before(entries, key, j);
    } else {
        assert(first_at(entries, key, w));
    }
}

/// Placing an entry for a key keeps keys distinct.
pub proof fn lemma_placed_keeps_distinct<K: View, V>(
    pre: Seq<Entry<K, V>>,
    key: K::V,
    post: Seq<Entry<K, V>>,
)
    requires
        distinct_keys(pre),
        placed(pre, key, post),
    ensures
        distinct_keys(post),
{
    if has_key(pre, key) {
        lemma_slot_of(pre, key);
    }
}

/// After an entry was placed for a key the key occurs, at the place where
/// the entry landed.
pub proof fn lemma_placed_has_key<K: View, V>(
    pre: Seq<Entry<K, V>>,
    key: K::V,
    post: Seq<Entry<K, V>>,
)
    requires
        placed(pre, key, post),
    ensures
        has_key(post, key),
        slot_of(post, key) == landing(pre, key),
        0 <= landing(pre, key) < post.len(),
{
    let at = landing(pre, key);
    if has_key(pre, key) {
        lemma_slot_of(pre, key);
    }
    lemma_slot_of(post, key);
    lemma_first_at_unique(post, key, at, slot_of(post, key));
}

/// Every entry of `pre` stands in `post` as it was, in its place.
pub open spec fn kept<K: View, V>(pre: Seq<Entry<K, V>>, post: Seq<Entry<K, V>>) -> bool {
    &&& pre.len() <= post.len()
    &&& forall|i: int| 0 <= i < pre.len() ==> #[trigger] post[i] == pre[i]
}

/// An entry placed for a key that did not occur is a new last entry, behind
/// all the entries that were there, which stay as they were.
pub proof fn lemma_placed_under_new_key<K: View, V>(
    pre: Seq<Entry<K, V>>,
    key: K::V,
    post: Seq<Entry<K, V>>,
)
    requires
        placed(pre, key, post),
        !has_key(pre, key),
    ensures
        post.len() == pre.len() + 1,
        post.last().key@ == key,
        post.drop_last() == pre,
        kept(pre, post),
{
    assert(post.drop_last() =~= pre);
}

/// After an entry was placed for a key, the keys that occur are those that
/// occurred before, and that key.
pub proof fn lemma_placed_keys<K: View, V>(
    pre: Seq<Entry<K, V>>,
    key: K::V,
    post: Seq<Entry<K, V>>,
    other: K::V,
)
    requires
        placed(pre, key, post),
    ensures
        has_key(post, other) <==> has_key(pre, other) || other == key,
{
    let at = landing(pre, key);
    if has_key(pre, key) {
        lemma_slot_of(pre, key);
    }
    assert(post[at].key@ == key);
    if has_key(pre, other) && other != key {
        let i = choose|i: int| 0 <= i < pre.len() && (#[trigger] pre[i]).key@ == other;
        assert(post[i] == pre[i]);
    }
    if has_key(post, other) && other != key {
        let i = choose|i: int| 0 <= i < post.len() && (#[trigger] post[i]).key@ == other;
        assert(post[i] == pre[i]);
    }
}

impl<K: TableKey, V> View for Table<K, V> {
    type V = Seq<Entry<K, V>>;

    open spec fn view(&self) -> Seq<Entry<K, V>> {
        self.entries@
    }
}

impl<K: TableKey, V> Table<K, V> {
    /// An empty table.
    pub fn new() -> (t: Self)
        ensures
            t@ == Seq::<Entry<K, V>>::empty(),
            distinct_keys(t@),
    {
        Table { entries: Vec::new() }
    }

    /// The number of entries.
    pub fn len(&self) -> (n: usize)
        ensures
            n == self@.len(),
    {
        self.entries.len()
    }

    /// Whether the table has no entry.
    pub fn is_empty(&self) -> (b: bool)
        ensures
            b == (self@.len() == 0),
    {
        self.entries.len() == 0
    }

    /// The first position of `key`, if it occurs.
    pub fn find(&self, key: &K) -> (r: Option<usize>)
        ensures
            match r {
                Some(i) => first_at(self@, key@, i as int) && i as int == slot_of(self@, key@),
                None => !has_key(self@, key@),
            },
    {
        let mut i: usize = 0;
        while i < self.entries.len()
            invariant
                i <= self.entries@.len(),
                forall|j: int| 0 <= j < i ==> (#[trigger] self.entries@[j]).key@ != key@,
            decreases self.entries@.len() - i,
        {
            if self.entries[i].key.same(key) {
                proof {
                    lemma_slot_of(self@, key@);
                    lemma_first_at_unique(self@, key@, i as int, slot_of(self@, key@));
                }
                return Some(i);
            }
            i += 1;
        }
        None
    }

    /// Whether `key` occurs.
    pub fn contains_key(&self, key: &K) -> (b: bool)
        ensures
            b == has_key(self@, key@),
    {
        self.find(key).is_some()
    }

    /// The value bound to `key`, if it occurs.
    pub fn get(&self, key: &K) -> (r: Option<&V>)
        ensures
            match r {
                Some(v) => has_key(self@, key@) && *v == self@[slot_of(self@, key@)].value,
                None => !has_key(self@, key@),
            },
    {
        match self.find(key) {
            Some(i) => Some(&self.entries[i].value),
            None => None,
        }
    }

    /// Binds `key` to `value`, replacing the value it had, if any. A table
    /// whose keys are distinct stays so.
    pub fn insert(&mut self, key: K, value: V)
        ensures
            bound(old(self)@, key@, value, final(self)@),
            distinct_keys(old(self)@) ==> distinct_keys(final(self)@),
    {
        proof {
            if distinct_keys(old(self)@) {
                assert forall|post: Seq<Entry<K, V>>|
                    placed(old(self)@, key@, post) implies distinct_keys(post) by {
                    lemma_placed_keeps_distinct(old(self)@, key@, post);
                }
            }
        }
        match self.find(&key) {
            Some(i) => {
                self.entries[i] = Entry { key, value };
            },
            None => {
                self.entries.push(Entry { key, value });
            },
        }
    }
}

} // verus!
