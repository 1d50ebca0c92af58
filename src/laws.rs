//! Laws of the pool that relate several operations, stated over its abstract
//! state and proved.

use vstd::prelude::*;
use vstd::arithmetic::div_mod::{lemma_fundamental_div_mod, lemma_fundamental_div_mod_converse};
use crate::credential::{after_cool_down, cooled_down, cooling_end, is_cooling_reason, CookieStatus, Reason};
use crate::pool::PoolError;
use crate::model::{
    PoolView,
    accept_spec, as_cooling, collect_spec, cooled, delete_spec, dispatch_spec, in_dead, in_pool,
    in_seq, index_of, lemma_cool_down_wf, lemma_cooled_complete, lemma_nothing_due,
    lemma_partition, lemma_remove_token, promote_spec, refresh_spec, still_cooling,
    tick_spec,
};

verus! {

/// A token of a well-formed pool is in at most one of rotation, cooling and
/// retirement, and at most once there. Every operation of the pool keeps the
/// pool well-formed.
pub proof fn token_in_one_collection(p: PoolView, t: Seq<char>)
    requires
        p.wf(),
    ensures
        !(in_seq(p.valid, t) && in_seq(p.exhausted, t)),
        !(in_seq(p.valid, t) && in_dead(p.invalid, t)),
        !(in_seq(p.exhausted, t) && in_dead(p.invalid, t)),
        forall|i: int, j: int|
            0 <= i < p.valid.len() && 0 <= j < p.valid.len() && #[trigger] p.valid[i].cookie@ == t
                && #[trigger] p.valid[j].cookie@ == t ==> i == j,
        forall|i: int, j: int|
            0 <= i < p.exhausted.len() && 0 <= j < p.exhausted.len() && #[trigger] p.exhausted[i].cookie@
                == t && #[trigger] p.exhausted[j].cookie@ == t ==> i == j,
        forall|i: int, j: int|
            0 <= i < p.invalid.len() && 0 <= j < p.invalid.len() && #[trigger] p.invalid[i].cookie@
                == t && #[trigger] p.invalid[j].cookie@ == t ==> i == j,
{
    if in_seq(p.valid, t) && in_seq(p.exhausted, t) {
        let i = choose|i: int| 0 <= i < p.valid.len() && #[trigger] p.valid[i].cookie@ == t;
        let j = choose|j: int| 0 <= j < p.exhausted.len() && #[trigger] p.exhausted[j].cookie@ == t;
    }
    if in_seq(p.valid, t) && in_dead(p.invalid, t) {
        let i = choose|i: int| 0 <= i < p.valid.len() && #[trigger] p.valid[i].cookie@ == t;
        let j = choose|j: int| 0 <= j < p.invalid.len() && #[trigger] p.invalid[j].cookie@ == t;
    }
    if in_seq(p.exhausted, t) && in_dead(p.invalid, t) {
        let i = choose|i: int| 0 <= i < p.exhausted.len() && #[trigger] p.exhausted[i].cookie@ == t;
        let j = choose|j: int| 0 <= j < p.invalid.len() && #[trigger] p.invalid[j].cookie@ == t;
    }
}

/// Acquire without a fingerprint, `k` times in a row at `now`: the pool
/// afterwards and the results in order. `CookieActorState::dispatch` with no
/// fingerprint is exactly one step of this, so the laws below hold of
/// successive calls of it.
pub open spec fn acquire_run(p: PoolView, k: nat, now: i64) -> (
    PoolView,
    Seq<Result<CookieStatus, PoolError>>,
)
    decreases k,
{
    if k == 0 {
        (p, Seq::empty())
    } else {
        let prev = acquire_run(p, (k - 1) as nat, now);
        let step = dispatch_spec(prev.0, None, None, now);
        (step.0, prev.1.push(step.1))
    }
}

/// `s` turned left by `j` places.
pub open spec fn rotate(s: Seq<CookieStatus>, j: int) -> Seq<CookieStatus> {
    s.subrange(j, s.len() as int) + s.subrange(0, j)
}

proof fn lemma_mod_succ(a: int, n: int)
    requires
        a >= 0,
        n > 0,
    ensures
        (a + 1) % n == if a % n + 1 == n {
            0
        } else {
            a % n + 1
        },
        0 <= a % n < n,
{
    lemma_fundamental_div_mod(a, n);
    let q = a / n;
    let r = a % n;
    assert(0 <= r < n);
    if r + 1 == n {
        assert(a + 1 == (q + 1) * n + 0) by (nonlinear_arith)
            requires
                a == n * q + r,
                r + 1 == n,
        ;
        lemma_fundamental_div_mod_converse(a + 1, n, q + 1, 0);
    } else {
        assert(a + 1 == q * n + (r + 1)) by (nonlinear_arith)
            requires
                a == n * q + r,
        ;
        lemma_fundamental_div_mod_converse(a + 1, n, q, r + 1);
    }
}

/// Round robin: while no cooling credential is due, `k` Acquires without a
/// fingerprint return the credentials in rotation in order from the front,
/// starting over after the last, and leave the rotation turned by `k`.
pub proof fn acquire_is_round_robin(p: PoolView, k: nat, now: i64)
    requires
        p.valid.len() > 0,
        forall|i: int| 0 <= i < p.exhausted.len() ==> !cooled_down(#[trigger] p.exhausted[i], now),
    ensures
        acquire_run(p, k, now).1.len() == k,
        forall|i: int|
            0 <= i < k ==> #[trigger] acquire_run(p, k, now).1[i] == Ok::<CookieStatus, PoolError>(
                p.valid[i % (p.valid.len() as int)],
            ),
        acquire_run(p, k, now).0.valid == rotate(p.valid, (k as int) % (p.valid.len() as int)),
        acquire_run(p, k, now).0.exhausted == p.exhausted,
    decreases k,
{
    let n = p.valid.len() as int;
    if k == 0 {
        assert(rotate(p.valid, 0) =~= p.valid);
    } else {
        let km = (k - 1) as nat;
        acquire_is_round_robin(p, km, now);
        let prev = acquire_run(p, km, now);
        let q = prev.0;
        lemma_nothing_due(q.exhausted, now);
        assert(promote_spec(q, now).valid =~= q.valid);
        assert(promote_spec(q, now) == q);
        lemma_mod_succ(km as int, n);
        let j: int = (km as int) % n;
        assert(q.valid[0] == p.valid[j]);
        let next = q.valid.subrange(1, n).push(q.valid[0]);
        if j + 1 == n {
            assert(next =~= rotate(p.valid, 0));
        } else {
            assert(next =~= rotate(p.valid, j + 1));
        }
        let rs = acquire_run(p, k, now).1;
        assert forall|i: int| 0 <= i < k implies #[trigger] rs[i] == Ok::<CookieStatus, PoolError>(
            p.valid[i % n],
        ) by {
            if i < km {
                assert(rs[i] == prev.1[i]);
            }
        }
    }
}

/// Round trip: submitting a credential whose token is new and then deleting it
/// leaves the pool exactly as it was.
pub proof fn submit_then_delete_is_identity(p: PoolView, c: CookieStatus)
    requires
        p.wf(),
        !in_pool(p, c.cookie@),
    ensures
        delete_spec(accept_spec(p, c), c.cookie@) == p,
{
    let t = c.cookie@;
    let q = accept_spec(p, c);
    let last = q.valid.len() - 1;
    assert(q.valid[last].cookie@ == t);
    assert(in_seq(q.valid, t));
    let k = index_of(q.valid, t);
    if k != last {
        assert(q.valid[k] == p.valid[k]);
    }
    assert(q.valid.remove(k) =~= p.valid);
}

/// Idempotent cool-down: returning a credential (not retired) as rate limited
/// or restricted leaves exactly one record with its token in cooling, cooling
/// until the given time, and none in rotation; returning it so once more
/// changes nothing.
pub proof fn cool_down_is_idempotent(p: PoolView, c: CookieStatus, r: Reason)
    requires
        p.wf(),
        is_cooling_reason(r),
        !in_dead(p.invalid, c.cookie@),
    ensures
        collect_spec(p, c, Some(r)).wf(),
        collect_spec(collect_spec(p, c, Some(r)), c, Some(r)) == collect_spec(p, c, Some(r)),
        !in_seq(collect_spec(p, c, Some(r)).valid, c.cookie@),
        in_seq(collect_spec(p, c, Some(r)).exhausted, c.cookie@),
        forall|i: int|
            0 <= i < collect_spec(p, c, Some(r)).exhausted.len() && (#[trigger] collect_spec(
                p,
                c,
                Some(r),
            ).exhausted[i]).cookie@ == c.cookie@ ==> collect_spec(p, c, Some(r)).exhausted[i]
                == as_cooling(c, cooling_end(r)) && collect_spec(p, c, Some(r)).exhausted[i].reset_time
                == Some(cooling_end(r)),
{
    let t = c.cookie@;
    let q = collect_spec(p, c, Some(r));
    let cool = as_cooling(c, cooling_end(r));
    lemma_cool_down_wf(p, c, r);
    lemma_remove_token(p.valid, t);
    if in_seq(q.valid, t) {
        let i = choose|i: int| 0 <= i < q.valid.len() && #[trigger] q.valid[i].cookie@ == t;
    }
    let m = if in_seq(p.exhausted, t) {
        index_of(p.exhausted, t)
    } else {
        p.exhausted.len() as int
    };
    assert(q.exhausted[m] == cool);
    assert(q.exhausted[m].cookie@ == t);
    assert(in_seq(q.exhausted, t));
    assert forall|i: int| 0 <= i < q.exhausted.len() && (#[trigger] q.exhausted[i]).cookie@ == t implies q.exhausted[i]
        == cool && q.exhausted[i].reset_time == Some(cooling_end(r)) by {
        if i != m {
            assert(q.exhausted[i].cookie@ != q.exhausted[m].cookie@);
        }
    }
    let k = index_of(q.exhausted, t);
    assert(q.exhausted.update(k, cool) =~= q.exhausted);
}

/// Promotion: a credential whose cool-down has ended by a Tick at `now` is in
/// rotation after the Tick, and Acquire without a fingerprint at `now` returns
/// it within as many calls as the rotation then holds.
pub proof fn promoted_credential_is_reached(p: PoolView, now: i64, j: int)
    requires
        p.wf(),
        0 <= j < p.exhausted.len(),
        cooled_down(p.exhausted[j], now),
    ensures
        exists|i: int|
            0 <= i < tick_spec(p, now).valid.len() && #[trigger] acquire_run(
                tick_spec(p, now),
                (i + 1) as nat,
                now,
            ).1[i] is Ok && acquire_run(tick_spec(p, now), (i + 1) as nat, now).1[i]->Ok_0.cookie@
                == p.exhausted[j].cookie@,
{
    let q = tick_spec(p, now);
    let ex = q.exhausted;
    let mid = refresh_spec(p, now);
    let c = mid.exhausted[j];
    assert(c.cookie@ == p.exhausted[j].cookie@);
    assert(cooled_down(c, now));
    lemma_cooled_complete(mid.exhausted, now, j);
    let m = choose|m: int| 0 <= m < cooled(mid.exhausted, now).len() && cooled(mid.exhausted, now)[m] == after_cool_down(c, now);
    let i = mid.valid.len() + m;
    assert(q.valid[i] == after_cool_down(c, now));
    lemma_partition(mid.exhausted, now);
    assert forall|a: int| 0 <= a < ex.len() implies !cooled_down(#[trigger] ex[a], now) by {
        let b = choose|b: int| 0 <= b < mid.exhausted.len() && #[trigger] still_cooling(mid.exhausted, now)[a] == mid.exhausted[b] && !cooled_down(mid.exhausted[b], now);
    }
    acquire_is_round_robin(q, (i + 1) as nat, now);
    assert(i % (q.valid.len() as int) == i) by {
        vstd::arithmetic::div_mod::lemma_small_mod(i as nat, q.valid.len());
    }
    assert(acquire_run(q, (i + 1) as nat, now).1[i] == Ok::<CookieStatus, PoolError>(q.valid[i]));
}

/// Affinity stability: while the credential pinned to fingerprint `f` is in
/// rotation and the cache still answers with it, Acquire with `f` returns that
/// credential; afterwards it is still pinned to `f` and still in rotation, so
/// the next Acquire with `f` returns it again.
pub proof fn affinity_is_stable(p: PoolView, f: u64, now: i64)
    requires
        p.affinity.contains_key(f),
        in_seq(p.valid, p.affinity[f]),
    ensures
        dispatch_spec(p, Some(f), Some(p.affinity[f]), now).1 is Ok,
        dispatch_spec(p, Some(f), Some(p.affinity[f]), now).1->Ok_0.cookie@ == p.affinity[f],
        dispatch_spec(p, Some(f), Some(p.affinity[f]), now).0.affinity.contains_key(f),
        dispatch_spec(p, Some(f), Some(p.affinity[f]), now).0.affinity[f] == p.affinity[f],
        in_seq(dispatch_spec(p, Some(f), Some(p.affinity[f]), now).0.valid, p.affinity[f]),
{
    let t = p.affinity[f];
    let q = promote_spec(p, now);
    let i = choose|i: int| 0 <= i < p.valid.len() && #[trigger] p.valid[i].cookie@ == t;
    assert(q.valid[i] == p.valid[i]);
    assert(in_seq(q.valid, t));
}

} // verus!
