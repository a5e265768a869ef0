//! What layering two documents amounts to, key by key.

use crate::value::{find_key, fresh_entries, has_key, lemma_find_key, merged, value_at, Doc};
use vstd::prelude::*;

verus! {

/// No key occurs twice among `entries`.
pub open spec fn keys_unique(entries: Seq<(Doc, Doc)>) -> bool {
    forall|i: int, j: int| 0 <= i < j < entries.len() ==> entries[i].0 != entries[j].0
}

/// A well-formed document: at every level, no key of a mapping occurs twice.
pub open spec fn well_formed(d: Doc) -> bool
    decreases d,
{
    match d {
        Doc::Scalar(_, _) => true,
        Doc::Sequence(items) => forall|i: int|
            0 <= i < items.len() ==> well_formed(#[trigger] items[i]),
        Doc::Mapping(entries) => keys_unique(entries) && forall|i: int|
            0 <= i < entries.len() ==> well_formed((#[trigger] entries[i]).0) && well_formed(
                entries[i].1,
            ),
    }
}

/// How a lookup sees one more entry at the end.
pub proof fn lemma_find_key_push(entries: Seq<(Doc, Doc)>, entry: (Doc, Doc), key: Doc)
    ensures
        has_key(entries.push(entry), key) == (has_key(entries, key) || entry.0 == key),
        has_key(entries, key) ==> value_at(entries.push(entry), key) == value_at(entries, key),
        !has_key(entries, key) && entry.0 == key ==> value_at(entries.push(entry), key) == entry.1,
{
    let more = entries.push(entry);
    lemma_find_key(entries, key, 0);
    lemma_find_key(more, key, 0);
    let p = find_key(entries, key, 0);
    let q = find_key(more, key, 0);
    if p < entries.len() {
        assert(more[p].0 == key);
        if q < p {
            assert(entries[q].0 == more[q].0);
        }
    } else {
        if q < entries.len() {
            assert(entries[q].0 == more[q].0);
        }
    }
}

/// The entries that the overlay adds are those of its entries whose key the
/// base lacks: looking a key up among them finds what the overlay holds
/// under it, if the base lacks the key, and nothing otherwise.
pub proof fn lemma_fresh_entries(base: Seq<(Doc, Doc)>, overlay: Seq<(Doc, Doc)>, n: int, key: Doc)
    requires
        0 <= n <= overlay.len(),
    ensures
        has_key(fresh_entries(base, overlay, n), key) == (!has_key(base, key) && find_key(
            overlay,
            key,
            0,
        ) < n),
        has_key(fresh_entries(base, overlay, n), key) ==> value_at(
            fresh_entries(base, overlay, n),
            key,
        ) == value_at(overlay, key),
    decreases n,
{
    lemma_find_key(overlay, key, 0);
    if n > 0 {
        lemma_fresh_entries(base, overlay, n - 1, key);
        let before = fresh_entries(base, overlay, n - 1);
        let last = overlay[n - 1];
        if !has_key(base, last.0) {
            lemma_find_key_push(before, last, key);
            if last.0 == key && !has_key(before, key) {
                assert(find_key(overlay, key, 0) >= n - 1);
                assert(find_key(overlay, key, 0) == n - 1);
            }
        } else {
            if find_key(overlay, key, 0) == n - 1 {
                assert(last.0 == key);
            }
        }
    } else {
        lemma_find_key(fresh_entries(base, overlay, 0), key, 0);
    }
}

/// Every added entry is an entry of the overlay.
pub proof fn lemma_fresh_members(base: Seq<(Doc, Doc)>, overlay: Seq<(Doc, Doc)>, n: int)
    requires
        0 <= n <= overlay.len(),
    ensures
        forall|j: int|
            0 <= j < fresh_entries(base, overlay, n).len() ==> exists|i: int|
                0 <= i < n && #[trigger] overlay[i] == (#[trigger] fresh_entries(
                    base,
                    overlay,
                    n,
                )[j]) && !has_key(base, overlay[i].0),
    decreases n,
{
    if n > 0 {
        lemma_fresh_members(base, overlay, n - 1);
        let before = fresh_entries(base, overlay, n - 1);
        let after = fresh_entries(base, overlay, n);
        assert forall|j: int| 0 <= j < after.len() implies exists|i: int|
            0 <= i < n && #[trigger] overlay[i] == (#[trigger] after[j]) && !has_key(
                base,
                overlay[i].0,
            ) by {
            if j < before.len() {
                assert(after[j] == before[j]);
                let i = choose|i: int|
                    0 <= i < n - 1 && #[trigger] overlay[i] == before[j] && !has_key(
                        base,
                        overlay[i].0,
                    );
                assert(overlay[i] == after[j]);
            } else {
                assert(overlay[n - 1] == after[j]);
            }
        }
    }
}

/// The three rules of layering two mappings, key by key: a key that only
/// the base has keeps its value; a key that both have holds the two values
/// layered; a key that only the overlay has is added with the overlay's value.
pub proof fn lemma_merged_mapping(base: Seq<(Doc, Doc)>, overlay: Seq<(Doc, Doc)>, key: Doc)
    ensures
        merged(Doc::Mapping(base), Doc::Mapping(overlay)) is Mapping,
        has_key(merged(Doc::Mapping(base), Doc::Mapping(overlay))->Mapping_0, key) == (has_key(
            base,
            key,
        ) || has_key(overlay, key)),
        has_key(base, key) && !has_key(overlay, key) ==> value_at(
            merged(Doc::Mapping(base), Doc::Mapping(overlay))->Mapping_0,
            key,
        ) == value_at(base, key),
        has_key(base, key) && has_key(overlay, key) ==> value_at(
            merged(Doc::Mapping(base), Doc::Mapping(overlay))->Mapping_0,
            key,
        ) == merged(value_at(base, key), value_at(overlay, key)),
        !has_key(base, key) && has_key(overlay, key) ==> value_at(
            merged(Doc::Mapping(base), Doc::Mapping(overlay))->Mapping_0,
            key,
        ) == value_at(overlay, key),
{
    let result = merged(Doc::Mapping(base), Doc::Mapping(overlay));
    let entries = result->Mapping_0;
    let fresh = fresh_entries(base, overlay, overlay.len() as int);
    let head = entries.take(base.len() as int);
    assert(entries.len() == base.len() + fresh.len());
    assert forall|i: int| 0 <= i < base.len() implies (#[trigger] entries[i]).0 == base[i].0 by {}
    lemma_find_key(base, key, 0);
    lemma_find_key(entries, key, 0);
    lemma_find_key(fresh, key, 0);
    lemma_fresh_entries(base, overlay, overlay.len() as int, key);
    lemma_find_key(overlay, key, 0);
    let p = find_key(base, key, 0);
    let q = find_key(entries, key, 0);
    if p < base.len() {
        assert(entries[p].0 == key);
        if q < p {
            assert(entries[q].0 == base[q].0);
        }
        assert(q == p);
    } else {
        if q < base.len() {
            assert(entries[q].0 == base[q].0);
        }
        let r = find_key(fresh, key, 0);
        if r < fresh.len() {
            assert(entries[base.len() + r] == fresh[r]);
            if q < base.len() + r {
                assert(entries[q] == fresh[q - base.len()]);
            }
            assert(q == base.len() + r);
        } else {
            if q < entries.len() {
                assert(entries[q] == fresh[q - base.len()]);
            }
        }
    }
}

/// Layering over a sequence or a scalar changes nothing unless both
/// documents are mappings or both are sequences: the base wins.
pub proof fn lemma_base_wins(base: Doc, overlay: Doc)
    requires
        !(base is Mapping && overlay is Mapping),
        !(base is Sequence && overlay is Sequence),
    ensures
        merged(base, overlay) == base,
{
}

/// Layering well-formed documents gives a well-formed document: no key
/// comes to stand twice in a mapping.
pub proof fn lemma_merged_well_formed(base: Doc, overlay: Doc)
    requires
        well_formed(base),
        well_formed(overlay),
    ensures
        well_formed(merged(base, overlay)),
    decreases base,
{
    match (base, overlay) {
        (Doc::Mapping(a), Doc::Mapping(b)) => {
            let result = merged(base, overlay);
            let entries = result->Mapping_0;
            let fresh = fresh_entries(a, b, b.len() as int);
            lemma_fresh_members(a, b, b.len() as int);
            assert(entries.len() == a.len() + fresh.len());
            assert forall|i: int| 0 <= i < entries.len() implies well_formed(
                (#[trigger] entries[i]).0,
            ) && well_formed(entries[i].1) by {
                if i < a.len() {
                    assert(well_formed(a[i].0) && well_formed(a[i].1));
                    if has_key(b, a[i].0) {
                        lemma_find_key(b, a[i].0, 0);
                        let j = find_key(b, a[i].0, 0);
                        assert(well_formed(b[j].0) && well_formed(b[j].1));
                        lemma_merged_well_formed(a[i].1, b[j].1);
                    }
                } else {
                    let f = fresh[i - a.len()];
                    assert(entries[i] == f);
                    let k = choose|k: int|
                        0 <= k < b.len() && #[trigger] b[k] == f && !has_key(a, b[k].0);
                    assert(well_formed(b[k].0) && well_formed(b[k].1));
                }
            }
            assert forall|i: int, j: int| 0 <= i < j < entries.len() implies entries[i].0
                != entries[j].0 by {
                if j < a.len() {
                    assert(entries[i].0 == a[i].0 && entries[j].0 == a[j].0);
                } else {
                    let fj = fresh[j - a.len()];
                    assert(entries[j] == fj);
                    let kj = choose|k: int|
                        0 <= k < b.len() && #[trigger] b[k] == fj && !has_key(a, b[k].0);
                    if i < a.len() {
                        assert(entries[i].0 == a[i].0);
                        lemma_find_key(a, fj.0, 0);
                    } else {
                        lemma_fresh_distinct(a, b, b.len() as int);
                        assert(fresh[i - a.len()].0 != fresh[j - a.len()].0);
                        assert(entries[i] == fresh[i - a.len()]);
                    }
                }
            }
        },
        (Doc::Sequence(a), Doc::Sequence(b)) => {
            let items = merged(base, overlay)->Sequence_0;
            assert forall|i: int| 0 <= i < items.len() implies well_formed(#[trigger] items[i]) by {
                if i < a.len() {
                    assert(items[i] == a[i]);
                } else {
                    assert(items[i] == b[i - a.len()]);
                }
            }
        },
        _ => {},
    }
}

/// The entries that an overlay with unique keys adds have unique keys.
pub proof fn lemma_fresh_distinct(base: Seq<(Doc, Doc)>, overlay: Seq<(Doc, Doc)>, n: int)
    requires
        0 <= n <= overlay.len(),
        keys_unique(overlay),
    ensures
        keys_unique(fresh_entries(base, overlay, n)),
    decreases n,
{
    if n > 0 {
        lemma_fresh_distinct(base, overlay, n - 1);
        lemma_fresh_members(base, overlay, n - 1);
        let before = fresh_entries(base, overlay, n - 1);
        let after = fresh_entries(base, overlay, n);
        if after != before {
            assert forall|i: int, j: int| 0 <= i < j < after.len() implies after[i].0
                != after[j].0 by {
                if j == before.len() {
                    let k = choose|k: int|
                        0 <= k < n - 1 && #[trigger] overlay[k] == before[i] && !has_key(
                            base,
                            overlay[k].0,
                        );
                    assert(overlay[k].0 != overlay[n - 1].0);
                }
            }
        }
    }
}

} // verus!
