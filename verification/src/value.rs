//! Semi-structured configuration documents and their layering.

use crate::text::str_eq;
use crate::value_laws::{lemma_merged_well_formed, well_formed};
use vstd::prelude::*;

verus! {

/// What kind of leaf a scalar is.
#[derive(Clone, Copy, Debug, PartialEq, Eq, Structural)]
pub enum ScalarKind {
    /// Nothing; the text is empty.
    Null,
    /// A truth value; the text is `true` or `false`.
    Bool,
    /// A number; the text is the number as it is written.
    Number,
    /// A string; the text is the string.
    String,
    /// A value with an application-specific tag; the text is the value as it is written.
    Tagged,
}

/// A configuration document: a scalar, a sequence of documents, or a mapping
/// from documents to documents.
#[derive(Debug, PartialEq, Eq)]
pub enum Value {
    /// A leaf, with its kind and its text.
    Scalar(ScalarKind, String),
    /// An ordered list of documents.
    Sequence(Vec<Value>),
    /// Keys with their values, in order.
    Mapping(Vec<(Value, Value)>),
}

/// The mathematical content of a [`Value`].
pub ghost enum Doc {
    Scalar(ScalarKind, Seq<char>),
    Sequence(Seq<Doc>),
    Mapping(Seq<(Doc, Doc)>),
}

/// The content of `v`, level by level.
pub open spec fn doc_of(v: Value) -> Doc
    decreases v,
{
    match v {
        Value::Scalar(k, s) => Doc::Scalar(k, s@),
        Value::Sequence(items) => Doc::Sequence(
            Seq::new(
                items@.len(),
                |i: int|
                    if 0 <= i < items@.len() {
                        doc_of(items@[i])
                    } else {
                        Doc::Sequence(Seq::empty())
                    },
            ),
        ),
        Value::Mapping(entries) => Doc::Mapping(
            Seq::new(
                entries@.len(),
                |i: int|
                    if 0 <= i < entries@.len() {
                        (doc_of(entries@[i].0), doc_of(entries@[i].1))
                    } else {
                        (Doc::Sequence(Seq::empty()), Doc::Sequence(Seq::empty()))
                    },
            ),
        ),
    }
}

impl View for Value {
    type V = Doc;

    open spec fn view(&self) -> Doc {
        doc_of(*self)
    }
}

/// The first index at or after `from` whose key is `key`, or `entries.len()`.
pub open spec fn find_key(entries: Seq<(Doc, Doc)>, key: Doc, from: int) -> int
    decreases entries.len() - from,
{
    if from < 0 || from >= entries.len() {
        entries.len() as int
    } else if entries[from].0 == key {
        from
    } else {
        find_key(entries, key, from + 1)
    }
}

/// Whether some entry has the key `key`.
pub open spec fn has_key(entries: Seq<(Doc, Doc)>, key: Doc) -> bool {
    find_key(entries, key, 0) < entries.len()
}

/// The value under `key`; meaningful only where `has_key` holds.
pub open spec fn value_at(entries: Seq<(Doc, Doc)>, key: Doc) -> Doc {
    entries[find_key(entries, key, 0)].1
}

/// `find_key` finds the first entry with the key at or after `from`: what
/// it points at has the key, and nothing before it has.
pub proof fn lemma_find_key(entries: Seq<(Doc, Doc)>, key: Doc, from: int)
    requires
        0 <= from <= entries.len(),
    ensures
        from <= find_key(entries, key, from) <= entries.len(),
        find_key(entries, key, from) < entries.len() ==> entries[find_key(
            entries,
            key,
            from,
        )].0 == key,
        forall|k: int| from <= k < find_key(entries, key, from) ==> entries[k].0 != key,
    decreases entries.len() - from,
{
    if from < entries.len() && entries[from].0 != key {
        lemma_find_key(entries, key, from + 1);
    }
}

/// The entries among the first `n` of `overlay` whose key `base` lacks, in order.
pub open spec fn fresh_entries(base: Seq<(Doc, Doc)>, overlay: Seq<(Doc, Doc)>, n: int) -> Seq<
    (Doc, Doc),
>
    decreases n,
{
    if n <= 0 || n > overlay.len() {
        Seq::empty()
    } else if has_key(base, overlay[n - 1].0) {
        fresh_entries(base, overlay, n - 1)
    } else {
        fresh_entries(base, overlay, n - 1).push(overlay[n - 1])
    }
}

/// `base` layered over `overlay`.
///
/// Two mappings merge key by key: a key of `base` keeps its place and, where
/// `overlay` has it too, the two values merge; keys that only `overlay` has
/// follow in their order. Two sequences concatenate, `base` first. In every
/// other case `base` is the result.
pub open spec fn merged(base: Doc, overlay: Doc) -> Doc
    decreases base,
{
    match (base, overlay) {
        (Doc::Mapping(a), Doc::Mapping(b)) => Doc::Mapping(
            Seq::new(
                a.len(),
                |i: int|
                    if 0 <= i < a.len() && has_key(b, a[i].0) {
                        (a[i].0, merged(a[i].1, value_at(b, a[i].0)))
                    } else {
                        a[i]
                    },
            ) + fresh_entries(a, b, b.len() as int),
        ),
        (Doc::Sequence(a), Doc::Sequence(b)) => Doc::Sequence(a + b),
        (a, _) => a,
    }
}

impl Value {
    /// The empty document: a null scalar.
    pub fn null() -> (out: Value)
        ensures
            out@ == Doc::Scalar(ScalarKind::Null, Seq::empty()),
    {
        Value::Scalar(ScalarKind::Null, String::new())
    }

    /// A string scalar holding `text`.
    pub fn string(text: &str) -> (out: Value)
        ensures
            out@ == Doc::Scalar(ScalarKind::String, text@),
    {
        Value::Scalar(ScalarKind::String, text.to_owned())
    }

    /// A copy with the same content.
    #[verifier::loop_isolation(false)]
    pub fn deep_clone(&self) -> (out: Value)
        ensures
            out@ == self@,
        decreases self,
    {
        match self {
            Value::Scalar(k, s) => Value::Scalar(*k, s.clone()),
            Value::Sequence(items) => {
                let mut out: Vec<Value> = Vec::new();
                let mut i: usize = 0;
                while i < items.len()
                    invariant
                        i <= items.len(),
                        out.len() == i,
                        forall|k: int| 0 <= k < i ==> out@[k]@ == items@[k]@,
                    decreases items.len() - i,
                {
                    out.push(items[i].deep_clone());
                    i += 1;
                }
                let res = Value::Sequence(out);
                assert(res@->Sequence_0 =~= self@->Sequence_0);
                res
            },
            Value::Mapping(entries) => {
                let mut out: Vec<(Value, Value)> = Vec::new();
                let mut i: usize = 0;
                while i < entries.len()
                    invariant
                        i <= entries.len(),
                        out.len() == i,
                        forall|k: int|
                            0 <= k < i ==> out@[k].0@ == entries@[k].0@ && out@[k].1@
                                == entries@[k].1@,
                    decreases entries.len() - i,
                {
                    let k = entries[i].0.deep_clone();
                    let v = entries[i].1.deep_clone();
                    out.push((k, v));
                    i += 1;
                }
                let res = Value::Mapping(out);
                assert(res@->Mapping_0 =~= self@->Mapping_0);
                res
            },
        }
    }

    /// Whether two documents have the same content.
    #[verifier::loop_isolation(false)]
    pub fn same(&self, other: &Value) -> (r: bool)
        ensures
            r == (self@ == other@),
        decreases self,
    {
        match (self, other) {
            (Value::Scalar(k1, s1), Value::Scalar(k2, s2)) => {
                *k1 == *k2 && str_eq(s1.as_str(), s2.as_str())
            },
            (Value::Sequence(a), Value::Sequence(b)) => {
                if a.len() != b.len() {
                    assert(self@->Sequence_0.len() != other@->Sequence_0.len());
                    return false;
                }
                let mut i: usize = 0;
                while i < a.len()
                    invariant
                        i <= a.len(),
                        a.len() == b.len(),
                        forall|k: int| 0 <= k < i ==> a@[k]@ == b@[k]@,
                    decreases a.len() - i,
                {
                    if !a[i].same(&b[i]) {
                        assert(self@->Sequence_0[i as int] != other@->Sequence_0[i as int]);
                        return false;
                    }
                    i += 1;
                }
                assert(self@->Sequence_0 =~= other@->Sequence_0);
                true
            },
            (Value::Mapping(a), Value::Mapping(b)) => {
                if a.len() != b.len() {
                    assert(self@->Mapping_0.len() != other@->Mapping_0.len());
                    return false;
                }
                let mut i: usize = 0;
                while i < a.len()
                    invariant
                        i <= a.len(),
                        a.len() == b.len(),
                        forall|k: int|
                            0 <= k < i ==> a@[k].0@ == b@[k].0@ && a@[k].1@ == b@[k].1@,
                    decreases a.len() - i,
                {
                    if !a[i].0.same(&b[i].0) || !a[i].1.same(&b[i].1) {
                        assert(self@->Mapping_0[i as int] != other@->Mapping_0[i as int]);
                        return false;
                    }
                    i += 1;
                }
                assert(self@->Mapping_0 =~= other@->Mapping_0);
                true
            },
            _ => {
                assert(self@ != other@);
                false
            },
        }
    }
}

/// The view of a list of mapping entries.
pub open spec fn entry_views(entries: Seq<(Value, Value)>) -> Seq<(Doc, Doc)> {
    Seq::new(entries.len(), |i: int| (entries[i].0@, entries[i].1@))
}

/// The position of the first entry of `entries` whose key has the content of
/// `key`, or `entries.len()` if there is none.
pub fn position_of(entries: &Vec<(Value, Value)>, key: &Value) -> (r: usize)
    ensures
        r == find_key(entry_views(entries@), key@, 0),
        r <= entries.len(),
{
    let ghost es = entry_views(entries@);
    let mut i: usize = 0;
    while i < entries.len() && !entries[i].0.same(key)
        invariant
            i <= entries.len(),
            es == entry_views(entries@),
            find_key(es, key@, 0) == find_key(es, key@, i as int),
        decreases entries.len() - i,
    {
        assert(es[i as int].0 == entries@[i as int].0@);
        i += 1;
    }
    proof {
        if i < entries.len() {
            assert(es[i as int].0 == entries@[i as int].0@);
        }
    }
    i
}

/// Layers `base` over `overlay`: see [`merged`].
#[verifier::loop_isolation(false)]
pub fn merge_ref(base: &Value, overlay: &Value) -> (out: Value)
    ensures
        out@ == merged(base@, overlay@),
    decreases base,
{
    match (base, overlay) {
        (Value::Mapping(a), Value::Mapping(b)) => {
            let ghost av = base@->Mapping_0;
            let ghost bv = overlay@->Mapping_0;
            assert(bv =~= entry_views(b@));
            assert(av =~= entry_views(a@));
            let mut out: Vec<(Value, Value)> = Vec::new();
            let mut i: usize = 0;
            while i < a.len()
                invariant
                    i <= a.len(),
                    out.len() == i,
                    forall|k: int|
                        0 <= k < i ==> (#[trigger] entry_views(out@)[k]) == (if has_key(
                            bv,
                            av[k].0,
                        ) {
                            (av[k].0, merged(av[k].1, value_at(bv, av[k].0)))
                        } else {
                            av[k]
                        }),
                decreases a.len() - i,
            {
                let j = position_of(b, &a[i].0);
                let key = a[i].0.deep_clone();
                let val = if j < b.len() {
                    merge_ref(&a[i].1, &b[j].1)
                } else {
                    a[i].1.deep_clone()
                };
                let ghost before = entry_views(out@);
                out.push((key, val));
                proof {
                    assert(av[i as int] == (a@[i as int].0@, a@[i as int].1@));
                    if j < b.len() {
                        assert(bv[j as int].1 == b@[j as int].1@);
                    }
                    assert(entry_views(out@) =~= before.push((key@, val@)));
                    assert forall|k: int| 0 <= k < i + 1 implies (#[trigger] entry_views(
                        out@,
                    )[k]) == (if has_key(bv, av[k].0) {
                        (av[k].0, merged(av[k].1, value_at(bv, av[k].0)))
                    } else {
                        av[k]
                    }) by {
                        if k < i {
                            assert(entry_views(out@)[k] == before[k]);
                        }
                    }
                }
                i += 1;
            }
            let ghost head = entry_views(out@);
            let mut n: usize = 0;
            while n < b.len()
                invariant
                    n <= b.len(),
                    entry_views(out@) == head + fresh_entries(av, bv, n as int),
                decreases b.len() - n,
            {
                let j = position_of(a, &b[n].0);
                if j >= a.len() {
                    let ghost before = entry_views(out@);
                    let k = b[n].0.deep_clone();
                    let v = b[n].1.deep_clone();
                    out.push((k, v));
                    assert(entry_views(out@) =~= before.push(bv[n as int]));
                    assert(head + fresh_entries(av, bv, n as int).push(bv[n as int]) =~= (head
                        + fresh_entries(av, bv, n as int)).push(bv[n as int]));
                }
                n += 1;
            }
            let res = Value::Mapping(out);
            assert(res@->Mapping_0 =~= entry_views(out@));
            assert(res@->Mapping_0 =~= merged(base@, overlay@)->Mapping_0);
            res
        },
        (Value::Sequence(a), Value::Sequence(b)) => {
            let mut out: Vec<Value> = Vec::new();
            let mut i: usize = 0;
            while i < a.len()
                invariant
                    i <= a.len(),
                    out.len() == i,
                    forall|k: int| 0 <= k < i ==> out@[k]@ == a@[k]@,
                decreases a.len() - i,
            {
                out.push(a[i].deep_clone());
                i += 1;
            }
            let mut j: usize = 0;
            while j < b.len()
                invariant
                    j <= b.len(),
                    out.len() == a.len() + j,
                    forall|k: int| 0 <= k < a.len() ==> out@[k]@ == a@[k]@,
                    forall|k: int| 0 <= k < j ==> out@[a.len() + k]@ == b@[k]@,
                decreases b.len() - j,
            {
                out.push(b[j].deep_clone());
                j += 1;
            }
            let res = Value::Sequence(out);
            assert(res@->Sequence_0 =~= base@->Sequence_0 + overlay@->Sequence_0);
            res
        },
        _ => base.deep_clone(),
    }
}

/// Layers `base` over `overlay`, so that what `base` states wins and what it
/// omits is filled in from `overlay`. Documents whose mappings have unique
/// keys give a document whose mappings have unique keys.
pub fn merge(base: Value, overlay: Value) -> (out: Value)
    ensures
        out@ == merged(base@, overlay@),
        well_formed(base@) && well_formed(overlay@)
            ==> well_formed(out@),
{
    proof {
        if well_formed(base@) && well_formed(overlay@) {
            lemma_merged_well_formed(base@, overlay@);
        }
    }
    merge_ref(&base, &overlay)
}

/// The value that a mapping holds under the string key `key`.
pub open spec fn doc_get(d: Doc, key: Seq<char>) -> Option<Doc> {
    match d {
        Doc::Mapping(entries) => if has_key(entries, Doc::Scalar(ScalarKind::String, key)) {
            Some(value_at(entries, Doc::Scalar(ScalarKind::String, key)))
        } else {
            None
        },
        _ => None,
    }
}

/// The text of a string scalar.
pub open spec fn doc_str(d: Doc) -> Option<Seq<char>> {
    match d {
        Doc::Scalar(ScalarKind::String, text) => Some(text),
        _ => None,
    }
}

/// The string stored under `key` at the top level of `d`, if there is one.
pub open spec fn doc_str_at(d: Doc, key: Seq<char>) -> Option<Seq<char>> {
    match doc_get(d, key) {
        Some(v) => doc_str(v),
        None => None,
    }
}

impl Value {
    /// Whether this is the null scalar.
    pub fn is_null(&self) -> (b: bool)
        ensures
            b == (self@ is Scalar && self@->Scalar_0 == ScalarKind::Null),
    {
        match self {
            Value::Scalar(k, _) => *k == ScalarKind::Null,
            _ => false,
        }
    }

    /// Looks `key` up in a mapping; anything but a mapping has no keys.
    pub fn get(&self, key: &str) -> (r: Option<&Value>)
        ensures
            match r {
                Some(v) => doc_get(self@, key@) == Some(v@),
                None => doc_get(self@, key@) is None,
            },
    {
        match self {
            Value::Mapping(entries) => {
                let k = Value::string(key);
                let j = position_of(entries, &k);
                assert(self@->Mapping_0 =~= entry_views(entries@));
                if j < entries.len() {
                    Some(&entries[j].1)
                } else {
                    None
                }
            },
            _ => None,
        }
    }

    /// The text of a string scalar.
    pub fn as_str(&self) -> (r: Option<&str>)
        ensures
            match r {
                Some(t) => doc_str(self@) == Some(t@),
                None => doc_str(self@) is None,
            },
    {
        match self {
            Value::Scalar(k, text) => {
                if *k == ScalarKind::String {
                    Some(text.as_str())
                } else {
                    None
                }
            },
            _ => None,
        }
    }
}

} // verus!
