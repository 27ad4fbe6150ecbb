//! A map keyed by text that keeps its entries in key order, as `BTreeMap<String, V>` does.
//!
//! Keys are ordered character by character; for strings this is the order of their UTF-8
//! bytes, which is how `String` compares.
use vstd::prelude::*;

use crate::text::chars_of;

verus! {

/// `a` sorts before `b`, comparing from position `i` on.
pub open spec fn text_lt_from(a: Seq<char>, b: Seq<char>, i: int) -> bool
    decreases a.len() - i,
{
    if i < 0 || i >= b.len() {
        false
    } else if i >= a.len() {
        true
    } else if a[i] != b[i] {
        a[i] < b[i]
    } else {
        text_lt_from(a, b, i + 1)
    }
}

/// `a` sorts strictly before `b`.
pub open spec fn text_lt(a: Seq<char>, b: Seq<char>) -> bool {
    text_lt_from(a, b, 0)
}

proof fn lemma_lt_from_irreflexive(a: Seq<char>, i: int)
    requires
        0 <= i,
    ensures
        !text_lt_from(a, a, i),
    decreases a.len() - i,
{
    if i < a.len() {
        lemma_lt_from_irreflexive(a, i + 1);
    }
}

proof fn lemma_lt_from_asymmetric(a: Seq<char>, b: Seq<char>, i: int)
    requires
        0 <= i,
        text_lt_from(a, b, i),
    ensures
        !text_lt_from(b, a, i),
    decreases a.len() - i,
{
    if i < a.len() && i < b.len() && a[i] == b[i] {
        lemma_lt_from_asymmetric(a, b, i + 1);
    }
}

proof fn lemma_lt_from_transitive(a: Seq<char>, b: Seq<char>, c: Seq<char>, i: int)
    requires
        0 <= i,
        text_lt_from(a, b, i),
        text_lt_from(b, c, i),
    ensures
        text_lt_from(a, c, i),
    decreases a.len() - i,
{
    if i < a.len() && i < b.len() && i < c.len() && a[i] == b[i] && b[i] == c[i] {
        lemma_lt_from_transitive(a, b, c, i + 1);
    }
}

proof fn lemma_lt_from_total(a: Seq<char>, b: Seq<char>, i: int)
    requires
        0 <= i <= a.len(),
        i <= b.len(),
        a.take(i) == b.take(i),
        a != b,
    ensures
        text_lt_from(a, b, i) || text_lt_from(b, a, i),
    decreases a.len() - i,
{
    if i < a.len() && i < b.len() && a[i] == b[i] {
        assert(a.take(i + 1) =~= a.take(i).push(a[i]));
        assert(b.take(i + 1) =~= b.take(i).push(b[i]));
        lemma_lt_from_total(a, b, i + 1);
    } else if i == a.len() && i == b.len() {
        assert(a =~= a.take(i));
        assert(b =~= b.take(i));
    }
}

pub proof fn lemma_text_lt_irreflexive(a: Seq<char>)
    ensures
        !text_lt(a, a),
{
    lemma_lt_from_irreflexive(a, 0);
}

pub proof fn lemma_text_lt_asymmetric(a: Seq<char>, b: Seq<char>)
    requires
        text_lt(a, b),
    ensures
        !text_lt(b, a),
{
    lemma_lt_from_asymmetric(a, b, 0);
}

pub proof fn lemma_text_lt_transitive(a: Seq<char>, b: Seq<char>, c: Seq<char>)
    requires
        text_lt(a, b),
        text_lt(b, c),
    ensures
        text_lt(a, c),
{
    lemma_lt_from_transitive(a, b, c, 0);
}

pub proof fn lemma_text_lt_total(a: Seq<char>, b: Seq<char>)
    requires
        a != b,
    ensures
        text_lt(a, b) || text_lt(b, a),
{
    assert(a.take(0) =~= b.take(0));
    lemma_lt_from_total(a, b, 0);
}

/// Compares two texts: negative, zero or positive as `a` sorts before, equal to or after `b`.
pub fn compare_text(a: &[char], b: &[char]) -> (r: i8)
    ensures
        r < 0 <==> text_lt(a@, b@),
        r == 0 <==> a@ == b@,
        r > 0 <==> text_lt(b@, a@),
{
    let mut i: usize = 0;
    while i < a.len() && i < b.len() && a[i] == b[i]
        invariant
            i <= a@.len(),
            i <= b@.len(),
            a@.take(i as int) == b@.take(i as int),
            text_lt(a@, b@) == text_lt_from(a@, b@, i as int),
            text_lt(b@, a@) == text_lt_from(b@, a@, i as int),
        decreases a.len() - i,
    {
        assert(a@.take(i + 1) =~= a@.take(i as int).push(a@[i as int]));
        assert(b@.take(i + 1) =~= b@.take(i as int).push(b@[i as int]));
        i += 1;
    }
    proof {
        if i == a@.len() && i == b@.len() {
            assert(a@ =~= a@.take(i as int));
            assert(b@ =~= b@.take(i as int));
            lemma_text_lt_irreflexive(a@);
        } else if a@ == b@ {
            assert(false);
        }
    }
    if i == a.len() && i == b.len() {
        0
    } else if i == a.len() {
        -1
    } else if i == b.len() {
        1
    } else if a[i] < b[i] {
        -1
    } else {
        1
    }
}

/// Keys strictly increasing: sorted, and no key twice.
pub open spec fn keys_sorted<V>(entries: Seq<(String, V)>) -> bool {
    forall|i: int, j: int|
        0 <= i < j < entries.len() ==> text_lt(#[trigger] entries[i].0@, #[trigger] entries[j].0@)
}

/// Index of the first entry with key `k` at or after `i`, or the length.
pub open spec fn key_index<V>(entries: Seq<(String, V)>, k: Seq<char>, i: int) -> int
    decreases entries.len() - i,
{
    if i < 0 || i >= entries.len() {
        entries.len() as int
    } else if entries[i].0@ == k {
        i
    } else {
        key_index(entries, k, i + 1)
    }
}

/// The value stored under `k`.
pub open spec fn entry_value<V>(entries: Seq<(String, V)>, k: Seq<char>) -> Option<V> {
    let i = key_index(entries, k, 0);
    if i < entries.len() {
        Some(entries[i].1)
    } else {
        None
    }
}

proof fn lemma_key_index_from<V>(entries: Seq<(String, V)>, k: Seq<char>, i: int)
    requires
        0 <= i <= entries.len(),
    ensures
        i <= key_index(entries, k, i) <= entries.len(),
        key_index(entries, k, i) < entries.len() ==> entries[key_index(entries, k, i)].0@ == k,
        forall|m: int| i <= m < key_index(entries, k, i) ==> entries[m].0@ != k,
    decreases entries.len() - i,
{
    if i < entries.len() && entries[i].0@ != k {
        lemma_key_index_from(entries, k, i + 1);
    }
}

/// In a sorted map, the entry holding `k` is the one `entry_value` finds, and a key no entry
/// holds has no value.
pub proof fn lemma_entry_value<V>(entries: Seq<(String, V)>, k: Seq<char>)
    requires
        keys_sorted(entries),
    ensures
        forall|i: int|
            0 <= i < entries.len() && #[trigger] entries[i].0@ == k ==> entry_value(entries, k)
                == Some(entries[i].1),
        (forall|i: int| 0 <= i < entries.len() ==> #[trigger] entries[i].0@ != k)
            ==> entry_value(entries, k) is None,
{
    lemma_key_index_from(entries, k, 0);
    assert forall|i: int|
        0 <= i < entries.len() && #[trigger] entries[i].0@ == k implies entry_value(entries, k)
        == Some(entries[i].1) by {
        let j = key_index(entries, k, 0);
        if j != i {
            if j < i {
                lemma_text_lt_irreflexive(k);
            } else {
                assert(false);
            }
        }
    }
}

/// A key with a value is held by some entry.
pub proof fn lemma_entry_value_held<V>(entries: Seq<(String, V)>, k: Seq<char>)
    ensures
        entry_value(entries, k) matches Some(v) ==> exists|j: int|
            0 <= j < entries.len() && #[trigger] entries[j].0@ == k && entries[j].1 == v,
{
    lemma_key_index_from(entries, k, 0);
    if entry_value(entries, k) is Some {
        let j = key_index(entries, k, 0);
        assert(entries[j].0@ == k);
    }
}

/// A map from text keys to values, in key order.
#[derive(Debug, Clone)]
pub struct TextMap<V> {
    pub entries: Vec<(String, V)>,
}

impl<V> TextMap<V> {
    pub open spec fn wf(&self) -> bool {
        keys_sorted(self.entries@)
    }

    /// The value stored under `k`.
    pub open spec fn value_of(&self, k: Seq<char>) -> Option<V> {
        entry_value(self.entries@, k)
    }

    pub fn new() -> (m: Self)
        ensures
            m.wf(),
            m.entries@.len() == 0,
    {
        TextMap { entries: Vec::new() }
    }

    pub fn len(&self) -> (r: usize)
        ensures
            r == self.entries@.len(),
    {
        self.entries.len()
    }

    pub fn is_empty(&self) -> (r: bool)
        ensures
            r == (self.entries@.len() == 0),
    {
        self.entries.len() == 0
    }

    /// Position of the first entry whose key does not sort before `k`.
    fn lower_bound(&self, k: &[char]) -> (r: usize)
        requires
            self.wf(),
        ensures
            r <= self.entries@.len(),
            forall|i: int| 0 <= i < r ==> text_lt(#[trigger] self.entries@[i].0@, k@),
            r < self.entries@.len() ==> !text_lt(self.entries@[r as int].0@, k@),
    {
        let mut i: usize = 0;
        while i < self.entries.len()
            invariant
                i <= self.entries@.len(),
                forall|j: int| 0 <= j < i ==> text_lt(#[trigger] self.entries@[j].0@, k@),
            decreases self.entries.len() - i,
        {
            let key = chars_of(self.entries[i].0.as_str());
            if compare_text(key.as_slice(), k) >= 0 {
                return i;
            }
            i += 1;
        }
        i
    }

    /// The value under `key`.
    pub fn get(&self, key: &str) -> (r: Option<&V>)
        requires
            self.wf(),
        ensures
            match r {
                Some(v) => self.value_of(key@) == Some(*v),
                None => self.value_of(key@) is None,
            },
    {
        proof {
            lemma_entry_value(self.entries@, key@);
        }
        let k = chars_of(key);
        let i = self.lower_bound(k.as_slice());
        if i < self.entries.len() {
            let found = chars_of(self.entries[i].0.as_str());
            if compare_text(found.as_slice(), k.as_slice()) == 0 {
                return Some(&self.entries[i].1);
            }
            proof {
                assert forall|j: int|
                    0 <= j < self.entries@.len() implies #[trigger] self.entries@[j].0@
                    != key@ by {
                    if j > i {
                        lemma_text_lt_asymmetric(self.entries@[i as int].0@, self.entries@[j].0@);
                        if self.entries@[j].0@ == key@ {
                            lemma_text_lt_total(self.entries@[i as int].0@, key@);
                        }
                    } else if j == i {
                    } else {
                        if self.entries@[j].0@ == key@ {
                            lemma_text_lt_irreflexive(key@);
                        }
                    }
                }
            }
        } else {
            proof {
                assert forall|j: int|
                    0 <= j < self.entries@.len() implies #[trigger] self.entries@[j].0@
                    != key@ by {
                    if self.entries@[j].0@ == key@ {
                        lemma_text_lt_irreflexive(key@);
                    }
                }
            }
        }
        None
    }

    /// Stores `value` under `key`, replacing what was there.
    pub fn insert(&mut self, key: String, value: V)
        requires
            old(self).wf(),
        ensures
            final(self).wf(),
            forall|q: Seq<char>|
                #[trigger] final(self).value_of(q) == if q == key@ {
                    Some(value)
                } else {
                    old(self).value_of(q)
                },
    {
        let ghost before = self.entries@;
        let k = chars_of(key.as_str());
        let i = self.lower_bound(k.as_slice());
        let mut replace = false;
        if i < self.entries.len() {
            let found = chars_of(self.entries[i].0.as_str());
            replace = compare_text(found.as_slice(), k.as_slice()) == 0;
        }
        let ghost kv = key@;
        if replace {
            self.entries.set(i, (key, value));
            let ghost after = self.entries@;
            assert(keys_sorted(after)) by {
                assert forall|a: int, b: int|
                    0 <= a < b < after.len() implies text_lt(
                    #[trigger] after[a].0@,
                    #[trigger] after[b].0@,
                ) by {
                    assert(before[a].0@ == after[a].0@ || a == i);
                    assert(before[b].0@ == after[b].0@ || b == i);
                }
            }
            assert forall|q: Seq<char>|
                #[trigger] entry_value(after, q) == if q == kv {
                    Some(value)
                } else {
                    entry_value(before, q)
                } by {
                lemma_entry_value(after, q);
                lemma_entry_value(before, q);
                if q != kv {
                    assert forall|j: int|
                        0 <= j < after.len() && #[trigger] after[j].0@ == q implies before[j]
                        == after[j] by {
                    }
                    if exists|j: int| 0 <= j < before.len() && #[trigger] before[j].0@ == q {
                        let j = choose|j: int| 0 <= j < before.len() && #[trigger] before[j].0@ == q;
                        assert(after[j].0@ == q);
                    } else {
                        assert forall|j: int| 0 <= j < after.len() implies #[trigger] after[j].0@
                            != q by {
                            if j != i {
                                assert(before[j].0@ == after[j].0@);
                            }
                        }
                    }
                } else {
                    assert(after[i as int].0@ == q);
                }
            }
        } else {
            self.entries.insert(i, (key, value));
            let ghost after = self.entries@;
            assert(keys_sorted(after)) by {
                assert forall|a: int, b: int|
                    0 <= a < b < after.len() implies text_lt(
                    #[trigger] after[a].0@,
                    #[trigger] after[b].0@,
                ) by {
                    if i < before.len() {
                        lemma_text_lt_total(before[i as int].0@, kv);
                    }
                    if a < i && b == i {
                    } else if a < i && b > i {
                        assert(after[b] == before[b - 1]);
                        if b - 1 > i {
                            assert(text_lt(before[i as int].0@, before[b - 1].0@));
                            lemma_text_lt_transitive(kv, before[i as int].0@, before[b - 1].0@);
                        }
                        lemma_text_lt_transitive(after[a].0@, kv, after[b].0@);
                    } else if a == i {
                        assert(after[b] == before[b - 1]);
                        if b - 1 > i {
                            lemma_text_lt_transitive(kv, before[i as int].0@, before[b - 1].0@);
                        }
                    } else if a > i {
                        assert(after[a] == before[a - 1]);
                        assert(after[b] == before[b - 1]);
                    }
                }
            }
            assert forall|q: Seq<char>|
                #[trigger] entry_value(after, q) == if q == kv {
                    Some(value)
                } else {
                    entry_value(before, q)
                } by {
                lemma_entry_value(after, q);
                lemma_entry_value(before, q);
                if q != kv {
                    if exists|j: int| 0 <= j < before.len() && #[trigger] before[j].0@ == q {
                        let j = choose|j: int| 0 <= j < before.len() && #[trigger] before[j].0@ == q;
                        if j < i {
                            assert(after[j] == before[j]);
                        } else {
                            assert(after[j + 1] == before[j]);
                        }
                    } else {
                        assert forall|j: int| 0 <= j < after.len() implies #[trigger] after[j].0@
                            != q by {
                            if j < i {
                                assert(after[j] == before[j]);
                            } else if j > i {
                                assert(after[j] == before[j - 1]);
                            }
                        }
                    }
                } else {
                    assert(after[i as int].0@ == q);
                }
            }
        }
    }
}

impl<V> TextMap<V> {
    /// Removes whatever is stored under `key`.
    pub fn remove(&mut self, key: &str)
        requires
            old(self).wf(),
        ensures
            final(self).wf(),
            forall|q: Seq<char>|
                #[trigger] final(self).value_of(q) == if q == key@ {
                    None
                } else {
                    old(self).value_of(q)
                },
    {
        let ghost before = self.entries@;
        let k = chars_of(key);
        let i = self.lower_bound(k.as_slice());
        if i < self.entries.len() {
            let found = chars_of(self.entries[i].0.as_str());
            if compare_text(found.as_slice(), k.as_slice()) == 0 {
                self.entries.remove(i);
                let ghost after = self.entries@;
                assert(keys_sorted(after)) by {
                    assert forall|a: int, b: int|
                        0 <= a < b < after.len() implies text_lt(
                        #[trigger] after[a].0@,
                        #[trigger] after[b].0@,
                    ) by {
                        if a < i && b < i {
                        } else if a < i {
                            assert(after[b] == before[b + 1]);
                        } else {
                            assert(after[a] == before[a + 1]);
                            assert(after[b] == before[b + 1]);
                        }
                    }
                }
                assert forall|q: Seq<char>|
                    #[trigger] entry_value(after, q) == if q == key@ {
                        None
                    } else {
                        entry_value(before, q)
                    } by {
                    lemma_entry_value(after, q);
                    lemma_entry_value(before, q);
                    if q == key@ {
                        assert forall|j: int| 0 <= j < after.len() implies #[trigger] after[j].0@
                            != q by {
                            if j < i {
                                assert(after[j] == before[j]);
                                if before[j].0@ == q {
                                    lemma_text_lt_irreflexive(q);
                                }
                            } else {
                                assert(after[j] == before[j + 1]);
                                if before[j + 1].0@ == q {
                                    lemma_text_lt_irreflexive(q);
                                }
                            }
                        }
                    } else {
                        if exists|j: int| 0 <= j < before.len() && #[trigger] before[j].0@ == q {
                            let j = choose|j: int| 0 <= j < before.len() && #[trigger] before[j].0@ == q;
                            if j < i {
                                assert(after[j] == before[j]);
                            } else {
                                assert(j != i);
                                assert(after[j - 1] == before[j]);
                            }
                        } else {
                            assert forall|j: int| 0 <= j < after.len() implies #[trigger] after[j].0@
                                != q by {
                                if j < i {
                                    assert(after[j] == before[j]);
                                } else {
                                    assert(after[j] == before[j + 1]);
                                }
                            }
                        }
                    }
                }
                return;
            }
        }
        proof {
            lemma_entry_value(before, key@);
            assert forall|j: int| 0 <= j < before.len() implies #[trigger] before[j].0@ != key@ by {
                if before[j].0@ == key@ {
                    if j < i {
                        lemma_text_lt_irreflexive(key@);
                    } else if j > i {
                        lemma_text_lt_asymmetric(before[i as int].0@, before[j].0@);
                        lemma_text_lt_total(before[i as int].0@, key@);
                    }
                }
            }
            assert forall|q: Seq<char>|
                #[trigger] entry_value(before, q) == if q == key@ {
                    None
                } else {
                    entry_value(before, q)
                } by {
            }
        }
    }
}

} // verus!
