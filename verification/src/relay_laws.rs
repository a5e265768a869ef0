//! What a relay plan says, stated without reference to the order in which
//! it was built: who is whose peer, and why.

use crate::assoc::{
    distinct, has, index_of_key, lemma_index_of_key, lemma_upsert, lookup, upsert, Pairs,
};
use crate::relay::{
    add_peers, cluster_options, link_cluster, mark_cluster, peers_of, planned_adjacency,
    planned_options, resolved_cluster, ConfigView, RelayOptions,
};
use vstd::prelude::*;

verus! {

/// No member occurs twice.
pub open spec fn no_repeats(list: Seq<Seq<char>>) -> bool {
    forall|i: int, j: int| 0 <= i < j < list.len() ==> list[i] != list[j]
}

/// Every peer list of `adj` is free of repetitions.
pub open spec fn peers_unique(adj: Pairs<Seq<Seq<char>>>) -> bool {
    forall|i: int| 0 <= i < adj.len() ==> no_repeats((#[trigger] adj[i]).1)
}

/// Whether `x` and `p` are different rooms of one of the first `k` resolved clusters.
pub open spec fn share_cluster(
    cfg: ConfigView,
    answers: Seq<Option<Seq<char>>>,
    x: Seq<char>,
    p: Seq<char>,
    k: int,
) -> bool {
    x != p && exists|j: int|
        0 <= j < k && j < cfg.clusters.len() && (#[trigger] resolved_cluster(
            cfg,
            answers,
            j,
        )).contains(x) && resolved_cluster(cfg, answers, j).contains(p)
}

/// Whether `x` is a room of one of the first `k` resolved clusters.
pub open spec fn in_some_cluster(
    cfg: ConfigView,
    answers: Seq<Option<Seq<char>>>,
    x: Seq<char>,
    k: int,
) -> bool {
    exists|j: int|
        0 <= j < k && j < cfg.clusters.len() && (#[trigger] resolved_cluster(
            cfg,
            answers,
            j,
        )).contains(x)
}

/// Adding the rooms of a cluster to a peer list adds exactly the rooms of the
/// cluster other than the room itself, and repeats nothing.
pub proof fn lemma_add_peers(peers: Seq<Seq<char>>, cluster: Seq<Seq<char>>, room: Seq<char>, n: int)
    requires
        0 <= n <= cluster.len(),
    ensures
        forall|p: Seq<char>| #[trigger]
            add_peers(peers, cluster, room, n).contains(p) <==> peers.contains(p) || (p != room
                && cluster.take(n).contains(p)),
        no_repeats(peers) ==> no_repeats(add_peers(peers, cluster, room, n)),
    decreases n,
{
    if n > 0 {
        lemma_add_peers(peers, cluster, room, n - 1);
        let before = add_peers(peers, cluster, room, n - 1);
        let after = add_peers(peers, cluster, room, n);
        let c = cluster[n - 1];
        assert(cluster.take(n) =~= cluster.take(n - 1).push(c));
        assert forall|p: Seq<char>| #[trigger]
            after.contains(p) <==> peers.contains(p) || (p != room && cluster.take(n).contains(
                p,
            )) by {
            assert(before.contains(p) <==> peers.contains(p) || (p != room && cluster.take(
                n - 1,
            ).contains(p)));
            lemma_take_step(cluster, n, p);
            if after != before {
                assert(after == before.push(c));
                assert(after[before.len() as int] == c);
                if before.contains(p) {
                    let i = choose|i: int| 0 <= i < before.len() && #[trigger] before[i] == p;
                    assert(after[i] == p);
                }
                if after.contains(p) {
                    let i = choose|i: int| 0 <= i < after.len() && #[trigger] after[i] == p;
                    if i < before.len() {
                        assert(before[i] == p);
                    }
                }
            }
        }
        if no_repeats(peers) && after != before {
            assert forall|i: int, j: int| 0 <= i < j < after.len() implies after[i] != after[j] by {
                if j == before.len() {
                    if after[i] == c {
                        assert(before[i] == c);
                        assert(before.contains(c));
                    }
                }
            }
        }
    } else {
        assert(cluster.take(0) =~= Seq::<Seq<char>>::empty());
    }
}

/// Linking a cluster gives each of its rooms the other rooms of the cluster
/// as peers, on top of the peers it had, and touches no other room.
pub proof fn lemma_link_cluster(adj: Pairs<Seq<Seq<char>>>, cluster: Seq<Seq<char>>, n: int)
    requires
        distinct(adj),
        0 <= n <= cluster.len(),
    ensures
        distinct(link_cluster(adj, cluster, n)),
        peers_unique(adj) ==> peers_unique(link_cluster(adj, cluster, n)),
        forall|x: Seq<char>| #[trigger]
            has(link_cluster(adj, cluster, n), x) <==> has(adj, x) || cluster.take(n).contains(x),
        forall|x: Seq<char>, p: Seq<char>| #[trigger]
            peers_of(link_cluster(adj, cluster, n), x).contains(p) <==> peers_of(adj, x).contains(
                p,
            ) || (cluster.take(n).contains(x) && p != x && cluster.contains(p)),
    decreases n,
{
    if n > 0 {
        lemma_link_cluster(adj, cluster, n - 1);
        let before = link_cluster(adj, cluster, n - 1);
        let after = link_cluster(adj, cluster, n);
        let r = cluster[n - 1];
        let new_peers = add_peers(peers_of(before, r), cluster, r, cluster.len() as int);
        lemma_upsert(before, r, new_peers);
        lemma_add_peers(peers_of(before, r), cluster, r, cluster.len() as int);
        assert(cluster.take(cluster.len() as int) =~= cluster);
        assert(cluster.take(n) =~= cluster.take(n - 1).push(r));
        assert(cluster.take(n)[n - 1] == r);
        assert forall|x: Seq<char>| #[trigger]
            has(after, x) <==> has(adj, x) || cluster.take(n).contains(x) by {
            lemma_take_step(cluster, n, x);
            assert(has(before, x) <==> has(adj, x) || cluster.take(n - 1).contains(x));
            if x != r {
                assert(lookup(after, x) == lookup(before, x));
            } else {
                assert(lookup(after, x) == Some(new_peers));
            }
        }
        assert forall|x: Seq<char>, p: Seq<char>| #[trigger]
            peers_of(after, x).contains(p) <==> peers_of(adj, x).contains(p) || (cluster.take(
                n,
            ).contains(x) && p != x && cluster.contains(p)) by {
            lemma_take_step(cluster, n, x);
            assert(peers_of(before, x).contains(p) <==> peers_of(adj, x).contains(p) || (
            cluster.take(n - 1).contains(x) && p != x && cluster.contains(p)));
            if x != r {
                assert(lookup(after, x) == lookup(before, x));
            } else {
                assert(lookup(after, x) == Some(new_peers));
                assert(new_peers.contains(p) <==> peers_of(before, r).contains(p) || (p != r
                    && cluster.contains(p)));
            }
        }
        if peers_unique(adj) {
            assert forall|i: int| 0 <= i < after.len() implies no_repeats(
                (#[trigger] after[i]).1,
            ) by {
                lemma_index_of_key(before, r, 0);
                let at = index_of_key(before, r, 0);
                if i == at {
                    if at < before.len() {
                        assert(peers_of(before, r) == before[at].1);
                        assert(no_repeats(before[at].1));
                    } else {
                        assert(peers_of(before, r) =~= Seq::<Seq<char>>::empty());
                    }
                    assert(no_repeats(new_peers));
                } else {
                    assert(after[i] == before[i]);
                }
            }
        }
    } else {
        assert(cluster.take(0) =~= Seq::<Seq<char>>::empty());
    }
}

/// A member of the first `n` is a member of the first `n - 1` or the `n`-th.
pub proof fn lemma_take_step(s: Seq<Seq<char>>, n: int, x: Seq<char>)
    requires
        0 < n <= s.len(),
    ensures
        s.take(n).contains(x) <==> s.take(n - 1).contains(x) || s[n - 1] == x,
{
    let longer = s.take(n);
    let shorter = s.take(n - 1);
    if longer.contains(x) {
        let i = choose|i: int| 0 <= i < longer.len() && #[trigger] longer[i] == x;
        if i < n - 1 {
            assert(shorter[i] == x);
        }
    }
    if shorter.contains(x) {
        let i = choose|i: int| 0 <= i < shorter.len() && #[trigger] shorter[i] == x;
        assert(longer[i] == x);
    }
    if s[n - 1] == x {
        assert(longer[n - 1] == x);
    }
}

/// The plan after `k` clusters, room by room: a room is listed exactly when
/// it belongs to one of the clusters, and its peers are exactly the other
/// rooms it shares a cluster with, each once. No room is its own peer.
pub proof fn lemma_planned_adjacency(cfg: ConfigView, answers: Seq<Option<Seq<char>>>, k: int)
    requires
        0 <= k <= cfg.clusters.len(),
    ensures
        distinct(planned_adjacency(cfg, answers, k)),
        peers_unique(planned_adjacency(cfg, answers, k)),
        forall|x: Seq<char>| #[trigger]
            has(planned_adjacency(cfg, answers, k), x) <==> in_some_cluster(cfg, answers, x, k),
        forall|x: Seq<char>, p: Seq<char>| #[trigger]
            peers_of(planned_adjacency(cfg, answers, k), x).contains(p) <==> share_cluster(
                cfg,
                answers,
                x,
                p,
                k,
            ),
        forall|x: Seq<char>| !(#[trigger] peers_of(planned_adjacency(cfg, answers, k), x)).contains(x),
    decreases k,
{
    let adj = planned_adjacency(cfg, answers, k);
    if k > 0 {
        lemma_planned_adjacency(cfg, answers, k - 1);
        let before = planned_adjacency(cfg, answers, k - 1);
        let cluster = resolved_cluster(cfg, answers, k - 1);
        lemma_link_cluster(before, cluster, cluster.len() as int);
        assert(cluster.take(cluster.len() as int) =~= cluster);
        assert forall|x: Seq<char>| #[trigger]
            has(adj, x) <==> in_some_cluster(cfg, answers, x, k) by {
            assert(has(before, x) <==> in_some_cluster(cfg, answers, x, k - 1));
            if in_some_cluster(cfg, answers, x, k - 1) {
                let j = choose|j: int|
                    0 <= j < k - 1 && j < cfg.clusters.len() && (#[trigger] resolved_cluster(
                        cfg,
                        answers,
                        j,
                    )).contains(x);
                assert(resolved_cluster(cfg, answers, j).contains(x));
            }
            if cluster.contains(x) {
                assert(resolved_cluster(cfg, answers, k - 1).contains(x));
            }
            if in_some_cluster(cfg, answers, x, k) {
                let j = choose|j: int|
                    0 <= j < k && j < cfg.clusters.len() && (#[trigger] resolved_cluster(
                        cfg,
                        answers,
                        j,
                    )).contains(x);
                if j < k - 1 {
                    assert(in_some_cluster(cfg, answers, x, k - 1));
                }
            }
        }
        assert forall|x: Seq<char>, p: Seq<char>| #[trigger]
            peers_of(adj, x).contains(p) <==> share_cluster(cfg, answers, x, p, k) by {
            assert(peers_of(before, x).contains(p) <==> share_cluster(cfg, answers, x, p, k - 1));
            if share_cluster(cfg, answers, x, p, k - 1) {
                let j = choose|j: int|
                    0 <= j < k - 1 && j < cfg.clusters.len() && (#[trigger] resolved_cluster(
                        cfg,
                        answers,
                        j,
                    )).contains(x) && resolved_cluster(cfg, answers, j).contains(p);
                assert(resolved_cluster(cfg, answers, j).contains(x));
            }
            if cluster.contains(x) && p != x && cluster.contains(p) {
                assert(resolved_cluster(cfg, answers, k - 1).contains(x));
            }
            if share_cluster(cfg, answers, x, p, k) {
                let j = choose|j: int|
                    0 <= j < k && j < cfg.clusters.len() && (#[trigger] resolved_cluster(
                        cfg,
                        answers,
                        j,
                    )).contains(x) && resolved_cluster(cfg, answers, j).contains(p);
                if j < k - 1 {
                    assert(share_cluster(cfg, answers, x, p, k - 1));
                }
            }
        }
    } else {
        assert forall|x: Seq<char>| #[trigger] has(adj, x) <==> in_some_cluster(
            cfg,
            answers,
            x,
            k,
        ) by {
            lemma_index_of_key(adj, x, 0);
        }
        assert forall|x: Seq<char>, p: Seq<char>| #[trigger]
            peers_of(adj, x).contains(p) <==> share_cluster(cfg, answers, x, p, k) by {
            lemma_index_of_key(adj, x, 0);
        }
    }
    assert forall|x: Seq<char>| !(#[trigger] peers_of(adj, x)).contains(x) by {
        assert(peers_of(adj, x).contains(x) <==> share_cluster(cfg, answers, x, x, k));
    }
}

/// Being peers is mutual: if a plan forwards from `x` to `p`, it forwards
/// from `p` to `x`.
pub proof fn lemma_peers_are_mutual(
    cfg: ConfigView,
    answers: Seq<Option<Seq<char>>>,
    x: Seq<char>,
    p: Seq<char>,
)
    ensures
        peers_of(planned_adjacency(cfg, answers, cfg.clusters.len() as int), x).contains(p)
            == peers_of(planned_adjacency(cfg, answers, cfg.clusters.len() as int), p).contains(x),
{
    let k = cfg.clusters.len() as int;
    lemma_planned_adjacency(cfg, answers, k);
    let adj = planned_adjacency(cfg, answers, k);
    assert(peers_of(adj, x).contains(p) <==> share_cluster(cfg, answers, x, p, k));
    assert(peers_of(adj, p).contains(x) <==> share_cluster(cfg, answers, p, x, k));
    if share_cluster(cfg, answers, x, p, k) {
        let j = choose|j: int|
            0 <= j < k && j < cfg.clusters.len() && (#[trigger] resolved_cluster(
                cfg,
                answers,
                j,
            )).contains(x) && resolved_cluster(cfg, answers, j).contains(p);
        assert(resolved_cluster(cfg, answers, j).contains(p));
    }
    if share_cluster(cfg, answers, p, x, k) {
        let j = choose|j: int|
            0 <= j < k && j < cfg.clusters.len() && (#[trigger] resolved_cluster(
                cfg,
                answers,
                j,
            )).contains(p) && resolved_cluster(cfg, answers, j).contains(x);
        assert(resolved_cluster(cfg, answers, j).contains(x));
    }
}

/// Marking a cluster records the options for each of its rooms, over
/// whatever was recorded for them, and touches no other room.
pub proof fn lemma_mark_cluster(
    opts: Pairs<RelayOptions>,
    cluster: Seq<Seq<char>>,
    options: RelayOptions,
    n: int,
)
    requires
        distinct(opts),
        0 <= n <= cluster.len(),
    ensures
        distinct(mark_cluster(opts, cluster, options, n)),
        forall|x: Seq<char>| #[trigger]
            lookup(mark_cluster(opts, cluster, options, n), x) == (if cluster.take(n).contains(x) {
                Some(options)
            } else {
                lookup(opts, x)
            }),
    decreases n,
{
    if n > 0 {
        lemma_mark_cluster(opts, cluster, options, n - 1);
        let before = mark_cluster(opts, cluster, options, n - 1);
        lemma_upsert(before, cluster[n - 1], options);
        assert forall|x: Seq<char>| #[trigger]
            lookup(mark_cluster(opts, cluster, options, n), x) == (if cluster.take(n).contains(x) {
                Some(options)
            } else {
                lookup(opts, x)
            }) by {
            lemma_take_step(cluster, n, x);
            assert(lookup(before, x) == (if cluster.take(n - 1).contains(x) {
                Some(options)
            } else {
                lookup(opts, x)
            }));
            if x != cluster[n - 1] {
                assert(lookup(upsert(before, cluster[n - 1], options), x) == lookup(before, x));
            }
        }
    } else {
        assert(cluster.take(0) =~= Seq::<Seq<char>>::empty());
    }
}

/// The options of a room after `k` clusters are those of the last of the
/// clusters that holds the room: a later cluster overwrites an earlier one,
/// and a room that no cluster holds has no record.
pub proof fn lemma_planned_options(cfg: ConfigView, answers: Seq<Option<Seq<char>>>, k: int)
    requires
        0 <= k <= cfg.clusters.len(),
    ensures
        distinct(planned_options(cfg, answers, k)),
        forall|x: Seq<char>|
            k > 0 ==> #[trigger] lookup(planned_options(cfg, answers, k), x) == (if resolved_cluster(
                cfg,
                answers,
                k - 1,
            ).contains(x) {
                Some(cluster_options(cfg, cfg.clusters[k - 1]))
            } else {
                lookup(planned_options(cfg, answers, k - 1), x)
            }),
        forall|x: Seq<char>|
            k == 0 ==> (#[trigger] lookup(planned_options(cfg, answers, k), x)) is None,
        forall|x: Seq<char>|
            (#[trigger] lookup(planned_options(cfg, answers, k), x)) is Some <==> in_some_cluster(
                cfg,
                answers,
                x,
                k,
            ),
    decreases k,
{
    let opts = planned_options(cfg, answers, k);
    if k > 0 {
        lemma_planned_options(cfg, answers, k - 1);
        let before = planned_options(cfg, answers, k - 1);
        let cluster = resolved_cluster(cfg, answers, k - 1);
        lemma_mark_cluster(
            before,
            cluster,
            cluster_options(cfg, cfg.clusters[k - 1]),
            cluster.len() as int,
        );
        assert(cluster.take(cluster.len() as int) =~= cluster);
        assert forall|x: Seq<char>| (#[trigger] lookup(opts, x)) is Some <==> in_some_cluster(
            cfg,
            answers,
            x,
            k,
        ) by {
            assert(lookup(before, x) is Some <==> in_some_cluster(cfg, answers, x, k - 1));
            if in_some_cluster(cfg, answers, x, k - 1) {
                let j = choose|j: int|
                    0 <= j < k - 1 && j < cfg.clusters.len() && (#[trigger] resolved_cluster(
                        cfg,
                        answers,
                        j,
                    )).contains(x);
                assert(resolved_cluster(cfg, answers, j).contains(x));
            }
            if cluster.contains(x) {
                assert(resolved_cluster(cfg, answers, k - 1).contains(x));
            }
            if in_some_cluster(cfg, answers, x, k) {
                let j = choose|j: int|
                    0 <= j < k && j < cfg.clusters.len() && (#[trigger] resolved_cluster(
                        cfg,
                        answers,
                        j,
                    )).contains(x);
                if j < k - 1 {
                    assert(in_some_cluster(cfg, answers, x, k - 1));
                }
            }
        }
    } else {
        assert forall|x: Seq<char>| (#[trigger] lookup(opts, x)) is None by {
            lemma_index_of_key(opts, x, 0);
        }
    }
}

} // verus!
