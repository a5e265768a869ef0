//! An insertion-ordered map from strings to values.
//!
//! The pairs are kept in the order in which their keys first came, and a
//! hash table leads from each key to the place of its pair, so that a
//! lookup takes constant expected time. The contracts speak of the list of
//! `(key, value)` pairs in order, with keys taken as sequences of scalar values.

use crate::text::str_eq;
use vstd::hash_map::StringHashMap;
use vstd::prelude::*;

verus! {

/// Entries of a map in order: keys as scalar-value sequences, with their values.
pub type Pairs<V> = Seq<(Seq<char>, V)>;

/// The index of the first pair at or after `from` whose key is `key`, or `pairs.len()`.
pub open spec fn index_of_key<V>(pairs: Pairs<V>, key: Seq<char>, from: int) -> int
    decreases pairs.len() - from,
{
    if from < 0 || from >= pairs.len() {
        pairs.len() as int
    } else if pairs[from].0 == key {
        from
    } else {
        index_of_key(pairs, key, from + 1)
    }
}

/// Whether some pair has the key `key`.
pub open spec fn has<V>(pairs: Pairs<V>, key: Seq<char>) -> bool {
    index_of_key(pairs, key, 0) < pairs.len()
}

/// The value under `key`, if any.
pub open spec fn lookup<V>(pairs: Pairs<V>, key: Seq<char>) -> Option<V> {
    if has(pairs, key) {
        Some(pairs[index_of_key(pairs, key, 0)].1)
    } else {
        None
    }
}

/// `pairs` with `key` bound to `val`: in place where the key is present, at the end otherwise.
pub open spec fn upsert<V>(pairs: Pairs<V>, key: Seq<char>, val: V) -> Pairs<V> {
    if has(pairs, key) {
        pairs.update(index_of_key(pairs, key, 0), (key, val))
    } else {
        pairs.push((key, val))
    }
}

/// `pairs` without the pair under `key`.
pub open spec fn without<V>(pairs: Pairs<V>, key: Seq<char>) -> Pairs<V> {
    if has(pairs, key) {
        pairs.remove(index_of_key(pairs, key, 0))
    } else {
        pairs
    }
}

/// No key occurs twice.
pub open spec fn distinct<V>(pairs: Pairs<V>) -> bool {
    forall|i: int, j: int| 0 <= i < j < pairs.len() ==> pairs[i].0 != pairs[j].0
}

/// `index_of_key` finds the first pair with the key at or after `from`:
/// what it points at has the key, and nothing before it has.
pub proof fn lemma_index_of_key<V>(pairs: Pairs<V>, key: Seq<char>, from: int)
    requires
        0 <= from <= pairs.len(),
    ensures
        from <= index_of_key(pairs, key, from) <= pairs.len(),
        index_of_key(pairs, key, from) < pairs.len() ==> pairs[index_of_key(pairs, key, from)].0
            == key,
        forall|k: int| from <= k < index_of_key(pairs, key, from) ==> pairs[k].0 != key,
    decreases pairs.len() - from,
{
    if from < pairs.len() && pairs[from].0 != key {
        lemma_index_of_key(pairs, key, from + 1);
    }
}

/// In a list without repeated keys, a pair's key leads back to its own index.
pub proof fn lemma_index_of_own_key<V>(pairs: Pairs<V>, i: int)
    requires
        distinct(pairs),
        0 <= i < pairs.len(),
    ensures
        index_of_key(pairs, pairs[i].0, 0) == i,
        lookup(pairs, pairs[i].0) == Some(pairs[i].1),
{
    lemma_index_of_key(pairs, pairs[i].0, 0);
}

/// Binding a key keeps keys unique, and afterwards the key leads to the new
/// value while every other key leads where it led before.
pub proof fn lemma_upsert<V>(pairs: Pairs<V>, key: Seq<char>, val: V)
    requires
        distinct(pairs),
    ensures
        distinct(upsert(pairs, key, val)),
        lookup(upsert(pairs, key, val), key) == Some(val),
        forall|other: Seq<char>|
            other != key ==> lookup(upsert(pairs, key, val), other) == lookup(pairs, other),
{
    let after = upsert(pairs, key, val);
    lemma_index_of_key(pairs, key, 0);
    let at = index_of_key(pairs, key, 0);
    assert(distinct(after));
    assert(after[at].0 == key);
    lemma_index_of_own_key(after, at);
    assert forall|other: Seq<char>| other != key implies lookup(after, other) == lookup(
        pairs,
        other,
    ) by {
        lemma_index_of_key(pairs, other, 0);
        lemma_index_of_key(after, other, 0);
        let p = index_of_key(pairs, other, 0);
        let q = index_of_key(after, other, 0);
        if p < pairs.len() {
            assert(after[p].0 == other);
        }
        if q < after.len() {
            if q < pairs.len() {
                assert(pairs[q].0 == other);
            }
        }
    }
}

/// Dropping a key keeps keys unique, and afterwards the key is gone while
/// every other key leads where it led before.
pub proof fn lemma_without<V>(pairs: Pairs<V>, key: Seq<char>)
    requires
        distinct(pairs),
    ensures
        distinct(without(pairs, key)),
        lookup(without(pairs, key), key) is None,
        forall|other: Seq<char>|
            other != key ==> lookup(without(pairs, key), other) == lookup(pairs, other),
{
    let after = without(pairs, key);
    lemma_index_of_key(pairs, key, 0);
    let at = index_of_key(pairs, key, 0);
    assert(distinct(after)) by {
        if at < pairs.len() {
            assert forall|i: int, j: int| 0 <= i < j < after.len() implies after[i].0
                != after[j].0 by {
                let i0 = if i < at { i } else { i + 1 };
                let j0 = if j < at { j } else { j + 1 };
                assert(after[i] == pairs[i0]);
                assert(after[j] == pairs[j0]);
            }
        }
    }
    lemma_index_of_key(after, key, 0);
    let r = index_of_key(after, key, 0);
    if r < after.len() {
        if at < pairs.len() {
            let r0 = if r < at { r } else { r + 1 };
            assert(after[r] == pairs[r0]);
        }
    }
    assert forall|other: Seq<char>| other != key implies lookup(after, other) == lookup(
        pairs,
        other,
    ) by {
        lemma_index_of_key(pairs, other, 0);
        lemma_index_of_key(after, other, 0);
        let p = index_of_key(pairs, other, 0);
        let q = index_of_key(after, other, 0);
        if at < pairs.len() {
            if p < pairs.len() {
                let p1 = if p < at { p } else { p - 1 };
                assert(after[p1] == pairs[p]);
                if q < after.len() {
                    let q0 = if q < at { q } else { q + 1 };
                    assert(after[q] == pairs[q0]);
                }
            } else {
                if q < after.len() {
                    let q0 = if q < at { q } else { q + 1 };
                    assert(after[q] == pairs[q0]);
                }
            }
        }
    }
}

/// An insertion-ordered map keyed by strings.
pub struct TextMap<V> {
    items: Vec<(String, V)>,
    index: StringHashMap<usize>,
}

impl<V> TextMap<V> {
    /// The invariant of the map: no key occurs twice, and the hash table
    /// leads from each key to the place of its pair.
    pub open spec fn wf(self) -> bool {
        distinct(self.pairs()) && self.indexed()
    }

    /// The pairs of the map, in insertion order.
    pub closed spec fn pairs(self) -> Pairs<V> {
        Seq::new(self.items@.len(), |i: int| (self.items@[i].0@, self.items@[i].1))
    }

    /// Whether the hash table holds exactly the keys of the map, each with
    /// the place of its pair.
    pub closed spec fn indexed(self) -> bool {
        &&& forall|i: int|
            0 <= i < self.items@.len() ==> self.index@.contains_key(
                (#[trigger] self.items@[i]).0@,
            ) && self.index@[self.items@[i].0@] == i
        &&& forall|k: Seq<char>| #[trigger]
            self.index@.contains_key(k) ==> self.index@[k] < self.items@.len()
                && self.items@[self.index@[k] as int].0@ == k
    }

    /// The empty map.
    pub fn new() -> (m: Self)
        ensures
            m.pairs() == Seq::<(Seq<char>, V)>::empty(),
            m.wf(),
    {
        let m = TextMap { items: Vec::new(), index: StringHashMap::new() };
        assert(m.pairs() =~= Seq::<(Seq<char>, V)>::empty());
        m
    }

    /// The number of keys.
    pub fn len(&self) -> (n: usize)
        ensures
            n == self.pairs().len(),
    {
        self.items.len()
    }

    /// The position of `key`, or `len()` if the map lacks it.
    pub fn position(&self, key: &str) -> (r: usize)
        requires
            self.wf(),
        ensures
            r == index_of_key(self.pairs(), key@, 0),
            r <= self.pairs().len(),
    {
        proof {
            lemma_index_of_key(self.pairs(), key@, 0);
        }
        match self.index.get(key) {
            Some(i) => {
                proof {
                    assert(self.pairs()[*i as int].0 == key@);
                    lemma_index_of_own_key(self.pairs(), *i as int);
                }
                *i
            },
            None => {
                proof {
                    let at = index_of_key(self.pairs(), key@, 0);
                    if at < self.pairs().len() {
                        assert(self.items@[at].0@ == key@);
                    }
                }
                self.items.len()
            },
        }
    }

    /// The value under `key`.
    pub fn get(&self, key: &str) -> (r: Option<&V>)
        requires
            self.wf(),
        ensures
            match r {
                Some(v) => lookup(self.pairs(), key@) == Some(*v),
                None => lookup(self.pairs(), key@) is None,
            },
    {
        let i = self.position(key);
        if i < self.items.len() {
            Some(&self.items[i].1)
        } else {
            None
        }
    }

    /// The key at position `i`.
    pub fn key_at(&self, i: usize) -> (k: &String)
        requires
            i < self.pairs().len(),
        ensures
            k@ == self.pairs()[i as int].0,
    {
        &self.items[i].0
    }

    /// The value at position `i`.
    pub fn value_at(&self, i: usize) -> (v: &V)
        requires
            i < self.pairs().len(),
        ensures
            *v == self.pairs()[i as int].1,
    {
        &self.items[i].1
    }

    /// Rebuilds the hash table from the pairs.
    fn reindex(&mut self)
        requires
            distinct(old(self).pairs()),
        ensures
            final(self).pairs() == old(self).pairs(),
            final(self).wf(),
    {
        let ghost ps = self.pairs();
        self.index = StringHashMap::new();
        let mut j: usize = 0;
        while j < self.items.len()
            invariant
                j <= self.items.len(),
                self.pairs() == ps,
                distinct(ps),
                forall|i: int|
                    0 <= i < j ==> self.index@.contains_key((#[trigger] self.items@[i]).0@)
                        && self.index@[self.items@[i].0@] == i,
                forall|k: Seq<char>| #[trigger]
                    self.index@.contains_key(k) ==> self.index@[k] < j
                        && self.items@[self.index@[k] as int].0@ == k,
            decreases self.items.len() - j,
        {
            let ghost before = self.index@;
            let key = self.items[j].0.clone();
            proof {
                assert(ps[j as int].0 == key@);
                assert forall|i: int| 0 <= i < j implies (#[trigger] self.items@[i]).0@ != key@ by {
                    assert(ps[i].0 != ps[j as int].0);
                }
            }
            self.index.insert(key, j);
            j += 1;
        }
    }

    /// Binds `key` to `val` and hands back the value it replaces.
    pub fn insert(&mut self, key: String, val: V) -> (prev: Option<V>)
        requires
            old(self).wf(),
        ensures
            final(self).wf(),
            final(self).pairs() == upsert(old(self).pairs(), key@, val),
            prev == lookup(old(self).pairs(), key@),
    {
        proof {
            lemma_upsert(self.pairs(), key@, val);
            lemma_index_of_key(self.pairs(), key@, 0);
        }
        let ghost before = self.pairs();
        let ghost held = self.items@;
        let i = self.position(key.as_str());
        if i < self.items.len() {
            assert(before[i as int].0 == key@);
            let pair = self.items.remove(i);
            proof {
                assert(self.pairs() =~= before.remove(i as int));
            }
            self.items.insert(i, (key, val));
            proof {
                assert(self.pairs() =~= before.update(i as int, (key@, val)));
                assert forall|n: int| 0 <= n < self.items@.len() implies (#[trigger] self.items@[n]).0@
                    == held[n].0@ by {
                    assert(self.pairs()[n].0 == before[n].0);
                }
                assert forall|n: int| 0 <= n < self.items@.len() implies self.index@.contains_key(
                    (#[trigger] self.items@[n]).0@,
                ) && self.index@[self.items@[n].0@] == n by {
                    assert(self.index@.contains_key(held[n].0@));
                }
            }
            Some(pair.1)
        } else {
            let spare = key.clone();
            self.items.push((key, val));
            self.index.insert(spare, i);
            proof {
                assert(self.pairs() =~= before.push((key@, val)));
                assert forall|n: int| 0 <= n < self.items@.len() implies self.index@.contains_key(
                    (#[trigger] self.items@[n]).0@,
                ) && self.index@[self.items@[n].0@] == n by {
                    if n < i {
                        assert(self.items@[n] == held[n]);
                        assert(before[n].0 != key@);
                    }
                }
            }
            None
        }
    }

    /// Drops `key` and hands back the value it had.
    pub fn remove(&mut self, key: &str) -> (prev: Option<V>)
        requires
            old(self).wf(),
        ensures
            final(self).wf(),
            final(self).pairs() == without(old(self).pairs(), key@),
            prev == lookup(old(self).pairs(), key@),
    {
        proof {
            lemma_without(self.pairs(), key@);
        }
        let ghost before = self.pairs();
        let i = self.position(key);
        if i < self.items.len() {
            let pair = self.items.remove(i);
            proof {
                assert(self.pairs() =~= before.remove(i as int));
            }
            self.reindex();
            Some(pair.1)
        } else {
            None
        }
    }
}

/// Rows of an index: a token and the id it leads to, both as scalar-value sequences.
pub type Rows = Seq<(Seq<char>, Seq<char>)>;

/// The rows among the first `n` of `rows` that do not lead to `id`, in order.
pub open spec fn rows_without(rows: Rows, id: Seq<char>, n: int) -> Rows
    decreases n,
{
    if n <= 0 || n > rows.len() {
        Seq::empty()
    } else if rows[n - 1].1 == id {
        rows_without(rows, id, n - 1)
    } else {
        rows_without(rows, id, n - 1).push(rows[n - 1])
    }
}

/// `rows` with each of the first `n` tokens of `tokens` bound to `id`, one after the other.
pub open spec fn bind_all(rows: Rows, tokens: Seq<Seq<char>>, id: Seq<char>, n: int) -> Rows
    decreases n,
{
    if n <= 0 || n > tokens.len() {
        rows
    } else {
        upsert(bind_all(rows, tokens, id, n - 1), tokens[n - 1], id)
    }
}

/// How a lookup sees one more pair at the end.
pub proof fn lemma_lookup_push<V>(pairs: Pairs<V>, pair: (Seq<char>, V), key: Seq<char>)
    ensures
        lookup(pairs.push(pair), key) == (if has(pairs, key) {
            lookup(pairs, key)
        } else if pair.0 == key {
            Some(pair.1)
        } else {
            None
        }),
        has(pairs.push(pair), key) == (has(pairs, key) || pair.0 == key),
{
    let more = pairs.push(pair);
    lemma_index_of_key(pairs, key, 0);
    lemma_index_of_key(more, key, 0);
    let p = index_of_key(pairs, key, 0);
    let q = index_of_key(more, key, 0);
    assert(more[pairs.len() as int] == pair);
    if p < pairs.len() {
        assert(more[p] == pairs[p]);
        if q < p {
            assert(pairs[q] == more[q]);
        }
        assert(q == p);
    } else {
        if q < pairs.len() {
            assert(pairs[q] == more[q]);
        }
        assert(q >= pairs.len());
        if pair.0 == key {
            assert(q == pairs.len());
        } else {
            assert(q == more.len());
        }
    }
}

/// What the rows that survive a purge of `id` say: every token that led
/// elsewhere still leads there, and no token leads to `id`.
pub proof fn lemma_rows_without(rows: Rows, id: Seq<char>, n: int)
    requires
        distinct(rows),
        0 <= n <= rows.len(),
    ensures
        distinct(rows_without(rows, id, n)),
        forall|t: Seq<char>| #[trigger]
            lookup(rows_without(rows, id, n), t) == (match lookup(rows.take(n), t) {
                Some(v) => if v == id {
                    None
                } else {
                    Some(v)
                },
                None => None,
            }),
    decreases n,
{
    if n > 0 {
        lemma_rows_without(rows, id, n - 1);
        let prev = rows_without(rows, id, n - 1);
        let cur = rows_without(rows, id, n);
        let row = rows[n - 1];
        assert(rows.take(n) =~= rows.take(n - 1).push(row));
        assert forall|t: Seq<char>| #[trigger]
            lookup(cur, t) == (match lookup(rows.take(n), t) {
                Some(v) => if v == id {
                    None
                } else {
                    Some(v)
                },
                None => None,
            }) by {
            lemma_lookup_push(rows.take(n - 1), row, t);
            lemma_lookup_push(prev, row, t);
            assert(lookup(prev, t) == (match lookup(rows.take(n - 1), t) {
                Some(v) => if v == id {
                    None
                } else {
                    Some(v)
                },
                None => None,
            }));
            if has(rows.take(n - 1), t) && row.0 == t {
                lemma_index_of_key(rows.take(n - 1), t, 0);
                let k = index_of_key(rows.take(n - 1), t, 0);
                assert(rows[k].0 == rows[n - 1].0);
            }
        }
        if row.1 != id {
            assert forall|i: int, j: int| 0 <= i < j < cur.len() implies cur[i].0 != cur[j].0 by {
                if j == prev.len() {
                    if cur[i].0 == row.0 {
                        lemma_index_of_key(prev, row.0, 0);
                        assert(has(prev, row.0));
                        assert(lookup(prev, row.0) is Some);
                        assert(lookup(rows.take(n - 1), row.0) is Some);
                        lemma_index_of_key(rows.take(n - 1), row.0, 0);
                        let k = index_of_key(rows.take(n - 1), row.0, 0);
                        assert(rows[k].0 == rows[n - 1].0);
                    }
                }
            }
        }
    } else {
        assert(rows.take(0) =~= Seq::<(Seq<char>, Seq<char>)>::empty());
    }
}

/// What the rows say once tokens are bound to `id`: each bound token leads
/// to `id`, and every other token leads where it led before.
pub proof fn lemma_bind_all(rows: Rows, tokens: Seq<Seq<char>>, id: Seq<char>, n: int)
    requires
        distinct(rows),
        0 <= n <= tokens.len(),
    ensures
        distinct(bind_all(rows, tokens, id, n)),
        forall|t: Seq<char>| #[trigger]
            lookup(bind_all(rows, tokens, id, n), t) == (if tokens.take(n).contains(t) {
                Some(id)
            } else {
                lookup(rows, t)
            }),
    decreases n,
{
    if n > 0 {
        lemma_bind_all(rows, tokens, id, n - 1);
        let prev = bind_all(rows, tokens, id, n - 1);
        let tok = tokens[n - 1];
        lemma_upsert(prev, tok, id);
        assert(tokens.take(n) =~= tokens.take(n - 1).push(tok));
        assert forall|t: Seq<char>| #[trigger]
            lookup(bind_all(rows, tokens, id, n), t) == (if tokens.take(n).contains(t) {
                Some(id)
            } else {
                lookup(rows, t)
            }) by {
            assert(lookup(prev, t) == (if tokens.take(n - 1).contains(t) {
                Some(id)
            } else {
                lookup(rows, t)
            }));
            assert(bind_all(rows, tokens, id, n) == upsert(prev, tok, id));
            if t == tok {
                assert(tokens.take(n)[n - 1] == t);
            } else {
                assert(lookup(upsert(prev, tok, id), t) == lookup(prev, t));
                let shorter = tokens.take(n - 1);
                let longer = tokens.take(n);
                if shorter.contains(t) {
                    let k = choose|k: int| 0 <= k < shorter.len() && #[trigger] shorter[k] == t;
                    assert(longer[k] == t);
                }
                if longer.contains(t) {
                    let k = choose|k: int| 0 <= k < longer.len() && #[trigger] longer[k] == t;
                    assert(k < n - 1);
                    assert(shorter[k] == t);
                }
            }
        }
    } else {
        assert(tokens.take(0) =~= Seq::<Seq<char>>::empty());
    }
}

impl TextMap<String> {
    /// The rows of an index: each key with the view of its value.
    pub closed spec fn rows(self) -> Rows {
        Seq::new(self.items@.len(), |i: int| (self.items@[i].0@, self.items@[i].1@))
    }

    /// Rows and pairs have the same keys in the same places.
    pub proof fn lemma_rows_keys(self)
        ensures
            self.rows().len() == self.pairs().len(),
            forall|i: int|
                0 <= i < self.rows().len() ==> (#[trigger] self.rows()[i]).0 == self.pairs()[i].0
                    && self.rows()[i].1 == self.pairs()[i].1@,
            distinct(self.pairs()) == distinct(self.rows()),
    {
        if distinct(self.rows()) {
            assert forall|i: int, j: int| 0 <= i < j < self.pairs().len() implies self.pairs()[i].0
                != self.pairs()[j].0 by {
                assert(self.rows()[i].0 != self.rows()[j].0);
            }
        }
        if distinct(self.pairs()) {
            assert forall|i: int, j: int| 0 <= i < j < self.rows().len() implies self.rows()[i].0
                != self.rows()[j].0 by {
                assert(self.pairs()[i].0 != self.pairs()[j].0);
            }
        }
    }

    /// The id that `token` leads to.
    pub fn target(&self, token: &str) -> (r: Option<&String>)
        requires
            self.wf(),
        ensures
            match r {
                Some(id) => lookup(self.rows(), token@) == Some(id@),
                None => lookup(self.rows(), token@) is None,
            },
    {
        proof {
            lemma_index_of_rows(*self, token@, 0);
            self.lemma_rows_keys();
        }
        let i = self.position(token);
        if i < self.items.len() {
            assert(self.rows()[i as int] == (self.items@[i as int].0@, self.items@[i as int].1@));
            Some(&self.items[i].1)
        } else {
            None
        }
    }

    /// Binds `token` to `id`.
    pub fn bind(&mut self, token: String, id: String)
        requires
            old(self).wf(),
        ensures
            final(self).wf(),
            final(self).rows() == upsert(old(self).rows(), token@, id@),
    {
        let ghost before = *self;
        proof {
            before.lemma_rows_keys();
            lemma_index_of_rows(before, token@, 0);
        }
        let _ = self.insert(token, id);
        proof {
            self.lemma_rows_keys();
            let at = index_of_key(before.pairs(), token@, 0);
            lemma_index_of_key(before.pairs(), token@, 0);
            let want = upsert(before.rows(), token@, id@);
            assert(self.rows().len() == want.len());
            assert forall|i: int| 0 <= i < want.len() implies self.rows()[i] == want[i] by {
                if i != at {
                    assert(self.pairs()[i] == before.pairs()[i]);
                    assert(before.rows()[i].0 == before.pairs()[i].0);
                }
            }
            assert(self.rows() =~= want);
        }
    }

    /// Drops every row that leads to `id`.
    pub fn purge(&mut self, id: &str)
        requires
            old(self).wf(),
        ensures
            final(self).wf(),
            final(self).rows() == rows_without(old(self).rows(), id@, old(self).rows().len() as int),
    {
        let ghost orig = self.rows();
        proof {
            self.lemma_rows_keys();
            lemma_rows_without(orig, id@, orig.len() as int);
        }
        let mut i: usize = 0;
        let ghost mut k: int = 0;
        assert(self.rows() =~= rows_without(orig, id@, 0) + orig.subrange(0, orig.len() as int));
        while i < self.items.len()
            invariant
                0 <= k <= orig.len(),
                i == rows_without(orig, id@, k).len(),
                self.rows() == rows_without(orig, id@, k) + orig.subrange(k, orig.len() as int),
                self.items.len() - i == orig.len() - k,
            decreases self.items.len() - i,
        {
            let ghost cur = self.rows();
            assert(cur[i as int] == orig[k]);
            assert(cur[i as int] == (self.items@[i as int].0@, self.items@[i as int].1@));
            if str_eq(self.items[i].1.as_str(), id) {
                let _ = self.items.remove(i);
                proof {
                    assert(self.rows() =~= cur.remove(i as int));
                    assert(cur.remove(i as int) =~= rows_without(orig, id@, k + 1) + orig.subrange(
                        k + 1,
                        orig.len() as int,
                    ));
                    k = k + 1;
                }
            } else {
                proof {
                    assert(cur =~= rows_without(orig, id@, k + 1) + orig.subrange(
                        k + 1,
                        orig.len() as int,
                    ));
                    k = k + 1;
                }
                i += 1;
            }
        }
        proof {
            assert(k == orig.len());
            assert(self.rows() =~= rows_without(orig, id@, orig.len() as int));
            self.lemma_rows_keys();
        }
        let ghost kept = self.rows();
        self.reindex();
        proof {
            assert(self.rows() =~= kept);
        }
    }
}

/// Rows and pairs of one map find a key at the same index.
pub proof fn lemma_index_of_rows(m: TextMap<String>, key: Seq<char>, from: int)
    requires
        0 <= from,
    ensures
        index_of_key(m.rows(), key, from) == index_of_key(m.pairs(), key, from),
    decreases m.rows().len() - from,
{
    m.lemma_rows_keys();
    if from < m.rows().len() {
        assert(m.rows()[from].0 == m.pairs()[from].0);
        if m.rows()[from].0 != key {
            lemma_index_of_rows(m, key, from + 1);
        }
    }
}

/// `pairs` with every value replaced by its image under `f`.
pub open spec fn mapped<V, W>(pairs: Pairs<V>, f: spec_fn(V) -> W) -> Pairs<W> {
    Seq::new(pairs.len(), |i: int| (pairs[i].0, f(pairs[i].1)))
}

/// Mapping the values moves no key.
pub proof fn lemma_mapped_index<V, W>(pairs: Pairs<V>, f: spec_fn(V) -> W, key: Seq<char>, from: int)
    requires
        0 <= from,
    ensures
        index_of_key(mapped(pairs, f), key, from) == index_of_key(pairs, key, from),
    decreases pairs.len() - from,
{
    if from < pairs.len() {
        assert(mapped(pairs, f)[from].0 == pairs[from].0);
        if pairs[from].0 != key {
            lemma_mapped_index(pairs, f, key, from + 1);
        }
    }
}

/// Lookups, bindings and removals commute with mapping the values.
pub proof fn lemma_mapped<V, W>(pairs: Pairs<V>, f: spec_fn(V) -> W, key: Seq<char>)
    ensures
        has(mapped(pairs, f), key) == has(pairs, key),
        lookup(mapped(pairs, f), key) == (match lookup(pairs, key) {
            Some(v) => Some(f(v)),
            None => None,
        }),
        forall|v: V| #[trigger] mapped(upsert(pairs, key, v), f) == upsert(mapped(pairs, f), key, f(v)),
        mapped(without(pairs, key), f) == without(mapped(pairs, f), key),
        distinct(mapped(pairs, f)) == distinct(pairs),
{
    lemma_mapped_index(pairs, f, key, 0);
    lemma_index_of_key(pairs, key, 0);
    let m = mapped(pairs, f);
    assert forall|v: V| #[trigger] mapped(upsert(pairs, key, v), f) == upsert(m, key, f(v)) by {
        assert(mapped(upsert(pairs, key, v), f) =~= upsert(m, key, f(v)));
    }
    assert(mapped(without(pairs, key), f) =~= without(m, key));
    if distinct(pairs) {
        assert forall|i: int, j: int| 0 <= i < j < m.len() implies m[i].0 != m[j].0 by {
            assert(pairs[i].0 != pairs[j].0);
        }
    }
    if distinct(m) {
        assert forall|i: int, j: int| 0 <= i < j < pairs.len() implies pairs[i].0
            != pairs[j].0 by {
            assert(m[i].0 != m[j].0);
        }
    }
}

} // verus!
