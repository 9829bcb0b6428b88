//! Enumeration of the closed walks through the pools that start and end at one currency.

use vstd::prelude::*;
use crate::pool::{Cycle, Pool};

verus! {

/// Currency that leg `leg` of a path enters with.
pub open spec fn input_of(pools: Seq<Pool>, leg: (usize, usize)) -> usize {
    pools[leg.0 as int].currency(leg.1 as int)
}

/// Currency that leg `leg` of a path leaves with.
pub open spec fn output_of(pools: Seq<Pool>, leg: (usize, usize)) -> usize {
    pools[leg.0 as int].currency(1 - leg.1 as int)
}

/// A walk from `start`: valid legs, each entering with what the one before left with,
/// no pool used twice, and no return to `start` before the last leg (the first leg is
/// not checked for that).
pub open spec fn is_walk(pools: Seq<Pool>, start: usize, q: Seq<(usize, usize)>) -> bool {
    &&& q.len() >= 1
    &&& forall|k: int| 0 <= k < q.len() ==> (#[trigger] q[k]).0 < pools.len() && q[k].1 < 2
    &&& input_of(pools, q[0]) == start
    &&& forall|k: int| 0 <= k < q.len() - 1 ==> output_of(pools, #[trigger] q[k]) == input_of(pools, q[k + 1])
    &&& forall|a: int, b: int| 0 <= a < b < q.len() ==> (#[trigger] q[a]).0 != (#[trigger] q[b]).0
    &&& forall|k: int| 1 <= k < q.len() - 1 ==> output_of(pools, #[trigger] q[k]) != start
}

/// A walk that is still open: one leg, or a last leg that does not return to `start`.
pub open spec fn is_open_walk(pools: Seq<Pool>, start: usize, q: Seq<(usize, usize)>) -> bool {
    &&& is_walk(pools, start, q)
    &&& (q.len() == 1 || output_of(pools, q.last()) != start)
}

/// A cycle: a walk of at least two legs whose last leg returns to `start`.
pub open spec fn is_cycle_path(pools: Seq<Pool>, start: usize, q: Seq<(usize, usize)>) -> bool {
    &&& is_walk(pools, start, q)
    &&& q.len() >= 2
    &&& output_of(pools, q.last()) == start
}

/// Whether some pool on the path needs a pre-authorization step.
pub open spec fn path_needs_approval(pools: Seq<Pool>, q: Seq<(usize, usize)>) -> bool {
    exists|k: int| 0 <= k < q.len() && pools[(#[trigger] q[k]).0 as int].approval()
}

/// Whether pool `p` occurs on the path.
pub open spec fn path_has_pool(q: Seq<(usize, usize)>, p: usize) -> bool {
    exists|k: int| 0 <= k < q.len() && (#[trigger] q[k]).0 == p
}

/// Whether `path` visits pool `p`.
pub fn uses_pool(path: &Vec<(usize, usize)>, p: usize) -> (r: bool)
    ensures
        r == path_has_pool(path@, p),
{
    let mut k: usize = 0;
    while k < path.len()
        invariant
            k <= path.len(),
            forall|j: int| 0 <= j < k ==> (#[trigger] path@[j]).0 != p,
        decreases path.len() - k,
    {
        if path[k].0 == p {
            return true;
        }
        k = k + 1;
    }
    false
}

fn extended(path: &Vec<(usize, usize)>, leg: (usize, usize)) -> (r: Vec<(usize, usize)>)
    ensures
        r@ == path@.push(leg),
{
    let mut r: Vec<(usize, usize)> = Vec::new();
    let mut k: usize = 0;
    while k < path.len()
        invariant
            k <= path.len(),
            r@ == path@.take(k as int),
        decreases path.len() - k,
    {
        r.push(path[k]);
        k = k + 1;
        proof {
            assert(r@ =~= path@.take(k as int));
        }
    }
    r.push(leg);
    proof {
        assert(r@ =~= path@.push(leg));
    }
    r
}

proof fn lemma_push_walk(pools: Seq<Pool>, start: usize, q: Seq<(usize, usize)>, leg: (usize, usize))
    requires
        is_open_walk(pools, start, q),
        leg.0 < pools.len(),
        leg.1 < 2,
        !path_has_pool(q, leg.0),
        input_of(pools, leg) == output_of(pools, q.last()),
    ensures
        is_walk(pools, start, q.push(leg)),
        path_needs_approval(pools, q.push(leg)) == (path_needs_approval(pools, q) || pools[leg.0 as int].approval()),
{
    let n = q.push(leg);
    assert forall|k: int| 0 <= k < q.len() implies n[k] == q[k] by {}
    assert forall|a: int, b: int| 0 <= a < b < n.len() implies (#[trigger] n[a]).0 != (#[trigger] n[b]).0 by {
        if b == q.len() {
            if n[a].0 == leg.0 {
                assert(q[a].0 == leg.0);
            }
        }
    }
    if path_needs_approval(pools, n) {
        let k = choose|k: int| 0 <= k < n.len() && pools[(#[trigger] n[k]).0 as int].approval();
        if k < q.len() {
            assert(pools[q[k].0 as int].approval());
        }
    }
    if path_needs_approval(pools, q) {
        let k = choose|k: int| 0 <= k < q.len() && pools[(#[trigger] q[k]).0 as int].approval();
        assert(pools[n[k].0 as int].approval());
    }
    if pools[leg.0 as int].approval() {
        assert(pools[n[q.len() as int].0 as int].approval());
    }
}

/// Whether some entry among the first `n` of `v` has path `q`.
pub open spec fn listed(v: Seq<Cycle>, n: int, q: Seq<(usize, usize)>) -> bool {
    exists|j: int| 0 <= j < n && j < v.len() && (#[trigger] v[j]).path@ == q
}

proof fn lemma_listed_push(v: Seq<Cycle>, x: Cycle)
    ensures
        forall|q: Seq<(usize, usize)>| #[trigger] listed(v, v.len() as int, q) ==> listed(v.push(x), v.len() as int + 1, q),
        listed(v.push(x), v.len() as int + 1, x.path@),
{
    assert forall|q: Seq<(usize, usize)>| #[trigger] listed(v, v.len() as int, q) implies listed(v.push(x), v.len() as int + 1, q) by {
        let j = choose|j: int| 0 <= j < v.len() && j < v.len() && (#[trigger] v[j]).path@ == q;
        assert(v.push(x)[j] == v[j]);
    }
    assert(v.push(x)[v.len() as int] == x);
}

/// The walk without its last leg is an open walk.
proof fn lemma_prefix_open(pools: Seq<Pool>, start: usize, q: Seq<(usize, usize)>)
    requires
        is_walk(pools, start, q),
        q.len() >= 2,
    ensures
        is_open_walk(pools, start, q.take(q.len() - 1)),
        q =~= q.take(q.len() - 1).push(q.last()),
{
    let n = q.len() - 1;
    let c = q.take(n);
    assert forall|k: int| 0 <= k < c.len() implies c[k] == q[k] by {}
    assert(c[0] == q[0]);
    assert forall|k: int| 0 <= k < c.len() - 1 implies output_of(pools, #[trigger] c[k]) == input_of(pools, c[k + 1]) by {
        assert(c[k] == q[k] && c[k + 1] == q[k + 1]);
    }
    assert forall|a: int, b: int| 0 <= a < b < c.len() implies (#[trigger] c[a]).0 != (#[trigger] c[b]).0 by {
        assert(c[a] == q[a] && c[b] == q[b]);
    }
    if c.len() > 1 {
        assert(c.last() == q[n - 1]);
    }
}

/// Leg order: by pool index, then by input leg.
pub open spec fn leg_lt(a: (usize, usize), b: (usize, usize)) -> bool {
    a.0 < b.0 || (a.0 == b.0 && a.1 < b.1)
}

/// Lexicographic order on paths of equal length, legs compared by `leg_lt`.
pub open spec fn lex_lt(x: Seq<(usize, usize)>, y: Seq<(usize, usize)>) -> bool {
    &&& x.len() == y.len()
    &&& exists|k: int| 0 <= k < x.len() && x.take(k) == y.take(k) && leg_lt(#[trigger] x[k], y[k])
}

/// Path order: shorter first, then lexicographic.
pub open spec fn path_lt(x: Seq<(usize, usize)>, y: Seq<(usize, usize)>) -> bool {
    x.len() < y.len() || lex_lt(x, y)
}

/// The entries' paths strictly increase in `path_lt` order.
pub open spec fn sorted_paths(v: Seq<Cycle>) -> bool {
    forall|a: int, b: int| 0 <= a < b < v.len() ==> path_lt((#[trigger] v[a]).path@, (#[trigger] v[b]).path@)
}

/// `q`, one leg longer than `c`, comes before every extension of `c` by a leg from
/// `leg` on.
pub open spec fn before(q: Seq<(usize, usize)>, c: Seq<(usize, usize)>, leg: (usize, usize)) -> bool {
    &&& q.len() == c.len() + 1
    &&& (lex_lt(q.take(c.len() as int), c) || (q.take(c.len() as int) == c && leg_lt(q[c.len() as int], leg)))
}

/// Every entry longer than `c` comes before the extensions of `c` from `leg` on.
pub open spec fn all_before(v: Seq<Cycle>, c: Seq<(usize, usize)>, leg: (usize, usize)) -> bool {
    forall|j: int| 0 <= j < v.len() ==> (#[trigger] v[j]).path@.len() <= c.len() || before(v[j].path@, c, leg)
}

proof fn lemma_lex_trans(x: Seq<(usize, usize)>, y: Seq<(usize, usize)>, z: Seq<(usize, usize)>)
    requires
        lex_lt(x, y),
        lex_lt(y, z),
    ensures
        lex_lt(x, z),
{
    let k1 = choose|k: int| 0 <= k < x.len() && x.take(k) == y.take(k) && leg_lt(#[trigger] x[k], y[k]);
    let k2 = choose|k: int| 0 <= k < y.len() && y.take(k) == z.take(k) && leg_lt(#[trigger] y[k], z[k]);
    if k1 <= k2 {
        assert(x.take(k1) =~= z.take(k1)) by {
            assert forall|j: int| 0 <= j < k1 implies x.take(k1)[j] == z.take(k1)[j] by {
                assert(x.take(k1)[j] == y.take(k1)[j]);
                assert(y.take(k2)[j] == z.take(k2)[j]);
            }
        }
        if k1 < k2 {
            assert(y.take(k2)[k1] == z.take(k2)[k1]);
        }
        assert(leg_lt(x[k1], z[k1]));
    } else {
        assert(x.take(k2) =~= z.take(k2)) by {
            assert forall|j: int| 0 <= j < k2 implies x.take(k2)[j] == z.take(k2)[j] by {
                assert(x.take(k1)[j] == y.take(k1)[j]);
                assert(y.take(k2)[j] == z.take(k2)[j]);
            }
        }
        assert(x.take(k1)[k2] == y.take(k1)[k2]);
        assert(leg_lt(x[k2], z[k2]));
    }
}

proof fn lemma_before_lex(q: Seq<(usize, usize)>, c: Seq<(usize, usize)>, leg: (usize, usize))
    requires
        before(q, c, leg),
    ensures
        lex_lt(q, c.push(leg)),
{
    let i = c.len() as int;
    let d = c.push(leg);
    if lex_lt(q.take(i), c) {
        let k = choose|k: int| 0 <= k < i && q.take(i).take(k) == c.take(k) && leg_lt(#[trigger] q.take(i)[k], c[k]);
        assert(q.take(k) =~= q.take(i).take(k));
        assert(d.take(k) =~= c.take(k));
        assert(q[k] == q.take(i)[k]);
        assert(d[k] == c[k]);
    } else {
        assert(q.take(i) =~= d.take(i));
        assert(d[i] == leg);
    }
}

proof fn lemma_before_step(q: Seq<(usize, usize)>, c: Seq<(usize, usize)>, d: Seq<(usize, usize)>, leg: (usize, usize))
    requires
        before(q, c, leg),
        lex_lt(c, d),
    ensures
        before(q, d, (0, 0)),
{
    if lex_lt(q.take(c.len() as int), c) {
        lemma_lex_trans(q.take(c.len() as int), c, d);
    }
}

proof fn lemma_sorted_push(v: Seq<Cycle>, x: Cycle)
    requires
        sorted_paths(v),
        forall|j: int| 0 <= j < v.len() ==> path_lt((#[trigger] v[j]).path@, x.path@),
    ensures
        sorted_paths(v.push(x)),
{
    assert forall|a: int, b: int| 0 <= a < b < v.len() + 1 implies path_lt((#[trigger] v.push(x)[a]).path@, (#[trigger] v.push(x)[b]).path@) by {
        assert(v.push(x)[a] == v[a]);
        if b < v.len() {
            assert(v.push(x)[b] == v[b]);
        }
    }
}

/// Paths in `path_lt` order are different.
proof fn lemma_sorted_distinct(v: Seq<Cycle>)
    requires
        sorted_paths(v),
    ensures
        forall|a: int, b: int| 0 <= a < v.len() && 0 <= b < v.len() && a != b ==> (#[trigger] v[a]).path@ != (#[trigger] v[b]).path@,
{
    assert forall|a: int, b: int| 0 <= a < v.len() && 0 <= b < v.len() && a != b implies (#[trigger] v[a]).path@ != (#[trigger] v[b]).path@ by {
        let (x, y) = if a < b { (a, b) } else { (b, a) };
        assert(path_lt(v[x].path@, v[y].path@));
        if v[x].path@ == v[y].path@ && lex_lt(v[x].path@, v[y].path@) {
            let k = choose|k: int| 0 <= k < v[x].path@.len() && v[x].path@.take(k) == v[y].path@.take(k)
                && leg_lt(#[trigger] v[x].path@[k], v[y].path@[k]);
        }
    }
}

/// Every closed walk through `pools` that starts and ends at `config.start_currency`,
/// of two up to `config.max_cycle_length` legs, using no pool twice and returning to
/// the start currency only with its last leg; each carries whether a pool on it needs
/// a pre-authorization step. Every such walk is listed, once, and the list is in
/// increasing order of length, then lexicographic by (pool index, input leg), so that
/// a cycle's position depends on the pools and the settings alone.
pub fn construct_cycles(config: &crate::pool::Config, pools: &Vec<Pool>) -> (r: Vec<Cycle>)
    ensures
        forall|j: int| 0 <= j < r.len() ==> {
            &&& is_cycle_path(pools@, config.start_currency, (#[trigger] r[j]).path@)
            &&& r[j].path@.len() <= config.max_cycle_length
            &&& r[j].needs_approval == path_needs_approval(pools@, r[j].path@)
        },
        forall|q: Seq<(usize, usize)>|
            #[trigger] is_cycle_path(pools@, config.start_currency, q) && q.len() <= config.max_cycle_length
                ==> listed(r@, r.len() as int, q),
        sorted_paths(r@),
        forall|a: int, b: int| 0 <= a < r.len() && 0 <= b < r.len() && a != b ==> (#[trigger] r[a]).path@ != (#[trigger] r[b]).path@,
{
    let start = config.start_currency;
    let mut results: Vec<Cycle> = Vec::new();
    let mut frontier: Vec<Cycle> = Vec::new();
    let mut p: usize = 0;
    while p < pools.len()
        invariant
            p <= pools.len(),
            forall|t: int| 0 <= t < frontier.len() ==> {
                &&& is_open_walk(pools@, start, (#[trigger] frontier[t]).path@)
                &&& frontier[t].path@.len() == 1
                &&& frontier[t].needs_approval == path_needs_approval(pools@, frontier[t].path@)
            },
            forall|q: Seq<(usize, usize)>| #[trigger] is_open_walk(pools@, start, q) && q.len() == 1 && q[0].0 < p
                ==> listed(frontier@, frontier.len() as int, q),
            sorted_paths(frontier@),
            forall|j: int| 0 <= j < frontier.len() ==> leg_lt((#[trigger] frontier[j]).path@[0], (p, 0)),
        decreases pools.len() - p,
    {
        let mut w: usize = 0;
        while w < 2
            invariant
                p < pools.len(),
                w <= 2,
                forall|t: int| 0 <= t < frontier.len() ==> {
                    &&& is_open_walk(pools@, start, (#[trigger] frontier[t]).path@)
                    &&& frontier[t].path@.len() == 1
                    &&& frontier[t].needs_approval == path_needs_approval(pools@, frontier[t].path@)
                },
                forall|q: Seq<(usize, usize)>| #[trigger] is_open_walk(pools@, start, q) && q.len() == 1
                    && (q[0].0 < p || (q[0].0 == p && q[0].1 < w))
                    ==> listed(frontier@, frontier.len() as int, q),
                sorted_paths(frontier@),
                forall|j: int| 0 <= j < frontier.len() ==> leg_lt((#[trigger] frontier[j]).path@[0], (p, w)),
            decreases 2 - w,
        {
            if pools[p].get_currency(w).currency_idx == start {
                let mut cpy: Vec<(usize, usize)> = Vec::new();
                cpy.push((p, w));
                let c = Cycle { needs_approval: pools[p].needs_approval(), path: cpy };
                proof {
                    assert(c.path@[0] == (p, w));
                    if pools@[p as int].approval() {
                        assert(pools@[c.path@[0].0 as int].approval());
                    }
                    lemma_listed_push(frontier@, c);
                    assert forall|q: Seq<(usize, usize)>| #[trigger] is_open_walk(pools@, start, q) && q.len() == 1
                        && q[0] == (p, w) implies q =~= c.path@ by {}
                    assert forall|j: int| 0 <= j < frontier.len() implies path_lt((#[trigger] frontier@[j]).path@, c.path@) by {
                        assert(frontier@[j].path@.take(0) =~= c.path@.take(0));
                        assert(leg_lt(frontier@[j].path@[0], c.path@[0]));
                    }
                    lemma_sorted_push(frontier@, c);
                }
                frontier.push(c);
            } else {
                proof {
                    assert forall|q: Seq<(usize, usize)>| #[trigger] is_open_walk(pools@, start, q) && q.len() == 1
                        implies q[0] != (p, w) by {}
                }
            }
            w = w + 1;
        }
        p = p + 1;
    }

    let mut i: u64 = 1;
    while i < config.max_cycle_length
        invariant
            1 <= i,
            i <= config.max_cycle_length || results.len() == 0,
            forall|t: int| 0 <= t < frontier.len() ==> {
                &&& is_open_walk(pools@, start, (#[trigger] frontier[t]).path@)
                &&& frontier[t].path@.len() == i
                &&& frontier[t].needs_approval == path_needs_approval(pools@, frontier[t].path@)
            },
            forall|j: int| 0 <= j < results.len() ==> {
                &&& is_cycle_path(pools@, start, (#[trigger] results[j]).path@)
                &&& results[j].path@.len() <= i
                &&& results[j].needs_approval == path_needs_approval(pools@, results[j].path@)
            },
            forall|q: Seq<(usize, usize)>| #[trigger] is_open_walk(pools@, start, q) && q.len() == i
                ==> listed(frontier@, frontier.len() as int, q),
            forall|q: Seq<(usize, usize)>| #[trigger] is_cycle_path(pools@, start, q) && q.len() <= i
                ==> listed(results@, results.len() as int, q),
            sorted_paths(frontier@),
            sorted_paths(results@),
        decreases config.max_cycle_length - i,
    {
        let mut next: Vec<Cycle> = Vec::new();
        let mut t: usize = 0;
        while t < frontier.len()
            invariant
                1 <= i < config.max_cycle_length,
                t <= frontier.len(),
                forall|t: int| 0 <= t < frontier.len() ==> {
                    &&& is_open_walk(pools@, start, (#[trigger] frontier[t]).path@)
                    &&& frontier[t].path@.len() == i
                    &&& frontier[t].needs_approval == path_needs_approval(pools@, frontier[t].path@)
                },
                forall|t: int| 0 <= t < next.len() ==> {
                    &&& is_open_walk(pools@, start, (#[trigger] next[t]).path@)
                    &&& next[t].path@.len() == i + 1
                    &&& next[t].needs_approval == path_needs_approval(pools@, next[t].path@)
                },
                forall|j: int| 0 <= j < results.len() ==> {
                    &&& is_cycle_path(pools@, start, (#[trigger] results[j]).path@)
                    &&& results[j].path@.len() <= i + 1
                    &&& results[j].needs_approval == path_needs_approval(pools@, results[j].path@)
                },
                forall|q: Seq<(usize, usize)>| #[trigger] is_cycle_path(pools@, start, q) && q.len() <= i
                    ==> listed(results@, results.len() as int, q),
                forall|q: Seq<(usize, usize)>| #[trigger] is_walk(pools@, start, q) && q.len() == i + 1
                    && listed(frontier@, t as int, q.take(i as int))
                    ==> if output_of(pools@, q.last()) == start {
                        listed(results@, results.len() as int, q)
                    } else {
                        listed(next@, next.len() as int, q)
                    },
                sorted_paths(frontier@),
                sorted_paths(results@),
                sorted_paths(next@),
                t < frontier.len() ==> all_before(next@, frontier[t as int].path@, (0, 0)),
                t < frontier.len() ==> all_before(results@, frontier[t as int].path@, (0, 0)),
            decreases frontier.len() - t,
        {
            let c = &frontier[t].path;
            let n = frontier[t].needs_approval;
            let last = c[c.len() - 1];
            let lst_out = pools[last.0].get_currency(1 - last.1).currency_idx;
            proof {
                assert(c@.last() == c@[c@.len() - 1]);
            }
            let mut p: usize = 0;
            while p < pools.len()
                invariant
                    1 <= i < config.max_cycle_length,
                    t < frontier.len(),
                    c == &frontier[t as int].path,
                    n == frontier[t as int].needs_approval,
                    is_open_walk(pools@, start, c@),
                    c@.len() == i,
                    n == path_needs_approval(pools@, c@),
                    lst_out == output_of(pools@, c@.last()),
                    forall|t: int| 0 <= t < next.len() ==> {
                        &&& is_open_walk(pools@, start, (#[trigger] next[t]).path@)
                        &&& next[t].path@.len() == i + 1
                        &&& next[t].needs_approval == path_needs_approval(pools@, next[t].path@)
                    },
                    forall|j: int| 0 <= j < results.len() ==> {
                        &&& is_cycle_path(pools@, start, (#[trigger] results[j]).path@)
                        &&& results[j].path@.len() <= i + 1
                        &&& results[j].needs_approval == path_needs_approval(pools@, results[j].path@)
                    },
                    forall|q: Seq<(usize, usize)>| #[trigger] is_cycle_path(pools@, start, q) && q.len() <= i
                        ==> listed(results@, results.len() as int, q),
                    forall|q: Seq<(usize, usize)>| #[trigger] is_walk(pools@, start, q) && q.len() == i + 1
                        && (listed(frontier@, t as int, q.take(i as int)) || (q.take(i as int) == c@ && q[i as int].0 < p))
                        ==> if output_of(pools@, q.last()) == start {
                            listed(results@, results.len() as int, q)
                        } else {
                            listed(next@, next.len() as int, q)
                        },
                    sorted_paths(frontier@),
                    sorted_paths(results@),
                    sorted_paths(next@),
                    all_before(next@, c@, (p, 0)),
                    all_before(results@, c@, (p, 0)),
                decreases pools.len() - p,
            {
                if !uses_pool(c, p) {
                    let mut w: usize = 0;
                    while w < 2
                        invariant
                            1 <= i < config.max_cycle_length,
                            p < pools.len(),
                            w <= 2,
                            t < frontier.len(),
                            !path_has_pool(c@, p),
                            is_open_walk(pools@, start, c@),
                            c@.len() == i,
                            n == path_needs_approval(pools@, c@),
                            lst_out == output_of(pools@, c@.last()),
                            forall|t: int| 0 <= t < next.len() ==> {
                                &&& is_open_walk(pools@, start, (#[trigger] next[t]).path@)
                                &&& next[t].path@.len() == i + 1
                                &&& next[t].needs_approval == path_needs_approval(pools@, next[t].path@)
                            },
                            forall|j: int| 0 <= j < results.len() ==> {
                                &&& is_cycle_path(pools@, start, (#[trigger] results[j]).path@)
                                &&& results[j].path@.len() <= i + 1
                                &&& results[j].needs_approval == path_needs_approval(pools@, results[j].path@)
                            },
                            forall|q: Seq<(usize, usize)>| #[trigger] is_cycle_path(pools@, start, q) && q.len() <= i
                                ==> listed(results@, results.len() as int, q),
                            forall|q: Seq<(usize, usize)>| #[trigger] is_walk(pools@, start, q) && q.len() == i + 1
                                && (listed(frontier@, t as int, q.take(i as int)) || (q.take(i as int) == c@
                                    && (q[i as int].0 < p || (q[i as int].0 == p && q[i as int].1 < w))))
                                ==> if output_of(pools@, q.last()) == start {
                                    listed(results@, results.len() as int, q)
                                } else {
                                    listed(next@, next.len() as int, q)
                                },
                            sorted_paths(results@),
                            sorted_paths(next@),
                            all_before(next@, c@, (p, w)),
                            all_before(results@, c@, (p, w)),
                        decreases 2 - w,
                    {
                        if pools[p].get_currency(w).currency_idx == lst_out {
                            let nn = n || pools[p].needs_approval();
                            let cpy = extended(c, (p, w));
                            proof {
                                lemma_push_walk(pools@, start, c@, (p, w));
                                assert(cpy@.last() == (p, w));
                                assert(cpy@.take(i as int) =~= c@);
                                assert forall|q: Seq<(usize, usize)>| is_walk(pools@, start, q) && q.len() == i + 1
                                    && q.take(i as int) == c@ && q[i as int] == (p, w) implies q == cpy@ by {
                                    assert(q =~= cpy@);
                                }
                            }
                            let cyc = Cycle { path: cpy, needs_approval: nn };
                            proof {
                                assert(before(cpy@, c@, (p, (w + 1) as usize)));
                            }
                            if pools[p].get_currency(1 - w).currency_idx == start {
                                proof {
                                    lemma_listed_push(results@, cyc);
                                    assert forall|j: int| 0 <= j < results.len() implies path_lt((#[trigger] results@[j]).path@, cyc.path@) by {
                                        if results@[j].path@.len() > i {
                                            lemma_before_lex(results@[j].path@, c@, (p, w));
                                        }
                                    }
                                    lemma_sorted_push(results@, cyc);
                                }
                                results.push(cyc);
                            } else {
                                proof {
                                    lemma_listed_push(next@, cyc);
                                    assert forall|j: int| 0 <= j < next.len() implies path_lt((#[trigger] next@[j]).path@, cyc.path@) by {
                                        lemma_before_lex(next@[j].path@, c@, (p, w));
                                    }
                                    lemma_sorted_push(next@, cyc);
                                }
                                next.push(cyc);
                            }
                        } else {
                            proof {
                                assert forall|q: Seq<(usize, usize)>| #[trigger] is_walk(pools@, start, q) && q.len() == i + 1
                                    && q.take(i as int) == c@ implies q[i as int] != (p, w) by {
                                    assert(q[i - 1] == c@[i - 1]);
                                }
                            }
                        }
                        w = w + 1;
                    }
                } else {
                    proof {
                        assert forall|q: Seq<(usize, usize)>| #[trigger] is_walk(pools@, start, q) && q.len() == i + 1
                            && q.take(i as int) == c@ implies q[i as int].0 != p by {
                            let k = choose|k: int| 0 <= k < c@.len() && (#[trigger] c@[k]).0 == p;
                            assert(q[k] == c@[k]);
                        }
                    }
                }
                p = p + 1;
            }
            proof {
                assert forall|q: Seq<(usize, usize)>| #[trigger] is_walk(pools@, start, q) && q.len() == i + 1
                    && listed(frontier@, t + 1, q.take(i as int))
                    implies (listed(frontier@, t as int, q.take(i as int)) || q.take(i as int) == c@) by {
                    let j = choose|j: int| 0 <= j < t + 1 && j < frontier@.len() && (#[trigger] frontier@[j]).path@ == q.take(i as int);
                    if j < t {
                        assert(listed(frontier@, t as int, q.take(i as int)));
                    }
                }
                if t + 1 < frontier.len() {
                    let d = frontier@[t + 1].path@;
                    assert(path_lt(frontier@[t as int].path@, d));
                    assert forall|j: int| 0 <= j < next.len() implies
                        (#[trigger] next@[j]).path@.len() <= d.len() || before(next@[j].path@, d, (0, 0)) by {
                        lemma_before_step(next@[j].path@, c@, d, (p, 0));
                    }
                    assert forall|j: int| 0 <= j < results.len() implies
                        (#[trigger] results@[j]).path@.len() <= d.len() || before(results@[j].path@, d, (0, 0)) by {
                        if results@[j].path@.len() > i {
                            lemma_before_step(results@[j].path@, c@, d, (p, 0));
                        }
                    }
                }
            }
            t = t + 1;
        }
        proof {
            assert forall|q: Seq<(usize, usize)>| #[trigger] is_cycle_path(pools@, start, q) && q.len() <= i + 1
                implies listed(results@, results.len() as int, q) by {
                if q.len() == i + 1 {
                    lemma_prefix_open(pools@, start, q);
                    assert(q.take(q.len() - 1) == q.take(i as int));
                    assert(is_open_walk(pools@, start, q.take(i as int)));
                    assert(is_walk(pools@, start, q));
                }
            }
            assert forall|q: Seq<(usize, usize)>| #[trigger] is_open_walk(pools@, start, q) && q.len() == i + 1
                implies listed(next@, next.len() as int, q) by {
                lemma_prefix_open(pools@, start, q);
                assert(q.take(q.len() - 1) == q.take(i as int));
                assert(is_open_walk(pools@, start, q.take(i as int)));
                assert(is_walk(pools@, start, q));
            }
        }
        frontier = next;
        i = i + 1;
    }
    proof {
        lemma_sorted_distinct(results@);
    }
    results
}

} // verus!
