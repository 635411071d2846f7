//! Association lists as maps: the mathematical model shared by the keyed
//! in-memory stores.
//!
//! A store keeps its rows in a vector; with pairwise-distinct keys the rows
//! denote a finite map. These lemmas connect row-level edits (update, push,
//! remove) to map-level operations (insert, remove).

use vstd::prelude::*;

verus! {

/// The map denoted by a row sequence: later rows win.
pub open spec fn assoc_map<R, K, D>(
    rows: Seq<R>,
    kf: spec_fn(R) -> K,
    df: spec_fn(R) -> D,
) -> Map<K, D>
    decreases rows.len(),
{
    if rows.len() == 0 {
        Map::empty()
    } else {
        assoc_map(rows.drop_last(), kf, df).insert(kf(rows.last()), df(rows.last()))
    }
}

/// Pairwise-distinct keys.
pub open spec fn assoc_keys_unique<R, K>(rows: Seq<R>, kf: spec_fn(R) -> K) -> bool {
    forall|i: int, j: int|
        0 <= i < rows.len() && 0 <= j < rows.len() && i != j ==> kf(rows[i]) != kf(rows[j])
}

pub proof fn lemma_assoc_map_domain<R, K, D>(
    rows: Seq<R>,
    kf: spec_fn(R) -> K,
    df: spec_fn(R) -> D,
    k: K,
)
    ensures
        assoc_map(rows, kf, df).contains_key(k) <==> exists|i: int|
            0 <= i < rows.len() && kf(rows[i]) == k,
    decreases rows.len(),
{
    if rows.len() > 0 {
        lemma_assoc_map_domain(rows.drop_last(), kf, df, k);
        if kf(rows.last()) != k {
            if assoc_map(rows, kf, df).contains_key(k) {
                let i = choose|i: int| 0 <= i < rows.len() - 1 && kf(rows.drop_last()[i]) == k;
                assert(kf(rows[i]) == k);
            }
            if exists|i: int| 0 <= i < rows.len() && kf(rows[i]) == k {
                let i = choose|i: int| 0 <= i < rows.len() && kf(rows[i]) == k;
                assert(kf(rows.drop_last()[i]) == k);
            }
        } else {
            assert(kf(rows[rows.len() - 1]) == k);
        }
    }
}

pub proof fn lemma_assoc_map_index<R, K, D>(
    rows: Seq<R>,
    kf: spec_fn(R) -> K,
    df: spec_fn(R) -> D,
    i: int,
)
    requires
        assoc_keys_unique(rows, kf),
        0 <= i < rows.len(),
    ensures
        assoc_map(rows, kf, df).contains_key(kf(rows[i])),
        assoc_map(rows, kf, df)[kf(rows[i])] == df(rows[i]),
    decreases rows.len(),
{
    if i == rows.len() - 1 {
        lemma_assoc_map_domain(rows, kf, df, kf(rows[i]));
    } else {
        assert(rows.drop_last()[i] == rows[i]);
        lemma_assoc_map_index(rows.drop_last(), kf, df, i);
        assert(kf(rows.last()) != kf(rows[i]));
    }
}

pub proof fn lemma_assoc_map_update<R, K, D>(
    rows: Seq<R>,
    kf: spec_fn(R) -> K,
    df: spec_fn(R) -> D,
    i: int,
    r: R,
)
    requires
        assoc_keys_unique(rows, kf),
        0 <= i < rows.len(),
        kf(r) == kf(rows[i]),
    ensures
        assoc_map(rows.update(i, r), kf, df) =~= assoc_map(rows, kf, df).insert(kf(r), df(r)),
    decreases rows.len(),
{
    let updated = rows.update(i, r);
    if i == rows.len() - 1 {
        assert(updated.drop_last() =~= rows.drop_last());
        assert(updated.last() == r);
    } else {
        assert(updated.last() == rows.last());
        assert(updated.drop_last() =~= rows.drop_last().update(i, r));
        lemma_assoc_map_update(rows.drop_last(), kf, df, i, r);
        assert(kf(rows.last()) != kf(r));
    }
}

pub proof fn lemma_assoc_map_remove<R, K, D>(
    rows: Seq<R>,
    kf: spec_fn(R) -> K,
    df: spec_fn(R) -> D,
    i: int,
)
    requires
        assoc_keys_unique(rows, kf),
        0 <= i < rows.len(),
    ensures
        assoc_map(rows.remove(i), kf, df) =~= assoc_map(rows, kf, df).remove(kf(rows[i])),
    decreases rows.len(),
{
    let removed = rows.remove(i);
    if i == rows.len() - 1 {
        assert(removed =~= rows.drop_last());
        lemma_assoc_map_domain(rows.drop_last(), kf, df, kf(rows[i]));
        assert(assoc_map(rows.drop_last(), kf, df) =~= assoc_map(rows, kf, df).remove(
            kf(rows[i]),
        ));
    } else {
        assert(removed.last() == rows.last());
        assert(removed.drop_last() =~= rows.drop_last().remove(i));
        lemma_assoc_map_remove(rows.drop_last(), kf, df, i);
        assert(kf(rows.last()) != kf(rows[i]));
        assert(rows.drop_last()[i] == rows[i]);
    }
}

} // verus!
