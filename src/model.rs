//! The pool's abstract state and the meaning of each operation on it, as
//! spec functions, with the lemmas the proofs share.

use vstd::prelude::*;
use crate::affinity::{AFFINITY_CAPACITY, AFFINITY_IDLE_SECS};
use crate::credential::{
    after_cool_down, any_window_due, cooled_down, cooling_end, is_cooling_reason, is_dead_reason,
    refreshed, usage_cleared, CookieStatus, Reason, UselessCookie,
};

verus! {

/// Errors of the pool's operations.
#[derive(Debug, Clone, Copy, PartialEq, Eq, Structural)]
pub enum PoolError {
    /// No credential is in rotation.
    NoCookieAvailable,
    /// The credential to delete is in no collection.
    CookieNotFound,
}

// ---------------------------------------------------------------------------
// Sequences of records keyed by token

/// Some record of `s` has token `t`.
pub open spec fn in_seq(s: Seq<CookieStatus>, t: Seq<char>) -> bool {
    exists|i: int| 0 <= i < s.len() && #[trigger] s[i].cookie@ == t
}

/// The position of the record with token `t` (meaningful when there is one).
pub open spec fn index_of(s: Seq<CookieStatus>, t: Seq<char>) -> int {
    choose|i: int| 0 <= i < s.len() && #[trigger] s[i].cookie@ == t
}

/// No two records of `s` share a token.
pub open spec fn distinct(s: Seq<CookieStatus>) -> bool {
    forall|i: int, j: int|
        0 <= i < s.len() && 0 <= j < s.len() && i != j ==> #[trigger] s[i].cookie@
            != #[trigger] s[j].cookie@
}

/// `s` without the record with token `t`.
pub open spec fn remove_token(s: Seq<CookieStatus>, t: Seq<char>) -> Seq<CookieStatus> {
    if in_seq(s, t) {
        s.remove(index_of(s, t))
    } else {
        s
    }
}

/// Some entry of `s` has token `t`.
pub open spec fn in_dead(s: Seq<UselessCookie>, t: Seq<char>) -> bool {
    exists|i: int| 0 <= i < s.len() && #[trigger] s[i].cookie@ == t
}

/// The position of the entry with token `t` (meaningful when there is one).
pub open spec fn dead_index_of(s: Seq<UselessCookie>, t: Seq<char>) -> int {
    choose|i: int| 0 <= i < s.len() && #[trigger] s[i].cookie@ == t
}

/// No two entries of `s` share a token.
pub open spec fn dead_distinct(s: Seq<UselessCookie>) -> bool {
    forall|i: int, j: int|
        0 <= i < s.len() && 0 <= j < s.len() && i != j ==> #[trigger] s[i].cookie@
            != #[trigger] s[j].cookie@
}

/// `s` without the entry with token `t`.
pub open spec fn remove_dead(s: Seq<UselessCookie>, t: Seq<char>) -> Seq<UselessCookie> {
    if in_dead(s, t) {
        s.remove(dead_index_of(s, t))
    } else {
        s
    }
}

// ---------------------------------------------------------------------------
// The pool and its abstract state

/// What the pool holds, as mathematical values.
pub struct PoolView {
    /// Credentials in rotation, front first.
    pub valid: Seq<CookieStatus>,
    /// Credentials cooling down.
    pub exhausted: Seq<CookieStatus>,
    /// Retired credentials.
    pub invalid: Seq<UselessCookie>,
    /// Fingerprint to the token last pinned to it.
    pub affinity: Map<u64, Seq<char>>,
    /// The capacity the affinity cache was built with.
    pub capacity: nat,
    /// The idle time, in seconds, after which an affinity entry expires.
    pub idle: nat,
}

/// Token `t` is in some collection of the pool.
pub open spec fn in_pool(p: PoolView, t: Seq<char>) -> bool {
    in_seq(p.valid, t) || in_seq(p.exhausted, t) || in_dead(p.invalid, t)
}

impl PoolView {
    /// The pool's invariant: each token is in one collection at most and once
    /// in it; records in rotation are not cooling, cooling records carry the
    /// end of their cool-down; the affinity cache was built to hold at most a
    /// thousand entries (moka evicts beyond that), whose entries expire after an
    /// hour unread.
    pub open spec fn wf(self) -> bool {
        &&& distinct(self.valid)
        &&& distinct(self.exhausted)
        &&& dead_distinct(self.invalid)
        &&& forall|i: int, j: int|
            0 <= i < self.valid.len() && 0 <= j < self.exhausted.len()
                ==> #[trigger] self.valid[i].cookie@ != #[trigger] self.exhausted[j].cookie@
        &&& forall|i: int, j: int|
            0 <= i < self.valid.len() && 0 <= j < self.invalid.len()
                ==> #[trigger] self.valid[i].cookie@ != #[trigger] self.invalid[j].cookie@
        &&& forall|i: int, j: int|
            0 <= i < self.exhausted.len() && 0 <= j < self.invalid.len()
                ==> #[trigger] self.exhausted[i].cookie@ != #[trigger] self.invalid[j].cookie@
        &&& forall|i: int| 0 <= i < self.valid.len() ==> (#[trigger] self.valid[i]).reset_time is None
        &&& forall|i: int|
            0 <= i < self.exhausted.len() ==> (#[trigger] self.exhausted[i]).reset_time is Some
        &&& self.capacity == AFFINITY_CAPACITY as nat
        &&& self.idle == AFFINITY_IDLE_SECS as nat
    }
}

/// The record as it enters rotation: not cooling.
pub open spec fn as_active(c: CookieStatus) -> CookieStatus {
    CookieStatus { reset_time: None, ..c }
}

/// Submit: a credential whose token is new joins the back of the rotation.
pub open spec fn accept_spec(p: PoolView, c: CookieStatus) -> PoolView {
    if in_pool(p, c.cookie@) {
        p
    } else {
        PoolView { valid: p.valid.push(as_active(c)), ..p }
    }
}

/// Delete: the token leaves whichever collection holds it.
pub open spec fn delete_spec(p: PoolView, t: Seq<char>) -> PoolView {
    PoolView {
        valid: remove_token(p.valid, t),
        exhausted: remove_token(p.exhausted, t),
        invalid: remove_dead(p.invalid, t),
        ..p
    }
}

/// The cooling records that are not yet due at `now`, in order.
pub open spec fn still_cooling(s: Seq<CookieStatus>, now: i64) -> Seq<CookieStatus>
    decreases s.len(),
{
    if s.len() == 0 {
        s
    } else {
        let rest = still_cooling(s.drop_last(), now);
        if cooled_down(s.last(), now) {
            rest
        } else {
            rest.push(s.last())
        }
    }
}

/// The cooling records that are due at `now`, in order, with their cool-down
/// cleared.
pub open spec fn cooled(s: Seq<CookieStatus>, now: i64) -> Seq<CookieStatus>
    decreases s.len(),
{
    if s.len() == 0 {
        s
    } else {
        let rest = cooled(s.drop_last(), now);
        if cooled_down(s.last(), now) {
            rest.push(after_cool_down(s.last(), now))
        } else {
            rest
        }
    }
}

/// Cool-down promotion at `now`: every cooling record that is due moves, in
/// order, to the back of the rotation with its cool-down cleared.
pub open spec fn promote_spec(p: PoolView, now: i64) -> PoolView {
    PoolView {
        valid: p.valid + cooled(p.exhausted, now),
        exhausted: still_cooling(p.exhausted, now),
        ..p
    }
}

/// Every record of `s` after a window refresh at `now`.
pub open spec fn refreshed_all(s: Seq<CookieStatus>, now: i64) -> Seq<CookieStatus> {
    s.map_values(|c: CookieStatus| refreshed(c, now))
}

/// Rolling-window expiry at `now` over the records in rotation and cooling.
pub open spec fn refresh_spec(p: PoolView, now: i64) -> PoolView {
    PoolView {
        valid: refreshed_all(p.valid, now),
        exhausted: refreshed_all(p.exhausted, now),
        ..p
    }
}

/// Some record in rotation or cooling has a window due at `now`.
pub open spec fn some_window_due(p: PoolView, now: i64) -> bool {
    (exists|i: int| 0 <= i < p.valid.len() && any_window_due(#[trigger] p.valid[i], now)) || (
    exists|i: int| 0 <= i < p.exhausted.len() && any_window_due(#[trigger] p.exhausted[i], now))
}

/// Every record of `still_cooling(s, now)` is a record of `s` not due at `now`,
/// every record of `cooled(s, now)` is a due record of `s` with its cool-down
/// cleared, and the two keep the tokens of `s` distinct.
pub(crate) proof fn lemma_partition(s: Seq<CookieStatus>, now: i64)
    ensures
        forall|k: int|
            0 <= k < still_cooling(s, now).len() ==> exists|j: int|
                0 <= j < s.len() && #[trigger] still_cooling(s, now)[k] == s[j] && !cooled_down(
                    s[j],
                    now,
                ),
        forall|k: int|
            0 <= k < cooled(s, now).len() ==> exists|j: int|
                0 <= j < s.len() && #[trigger] cooled(s, now)[k] == after_cool_down(s[j], now)
                    && cooled_down(s[j], now),
        distinct(s) ==> distinct(still_cooling(s, now)) && distinct(cooled(s, now)),
        distinct(s) ==> forall|a: int, b: int|
            0 <= a < still_cooling(s, now).len() && 0 <= b < cooled(s, now).len()
                ==> #[trigger] still_cooling(s, now)[a].cookie@ != #[trigger] cooled(
                s,
                now,
            )[b].cookie@,
    decreases s.len(),
{
    if s.len() > 0 {
        let d = s.drop_last();
        lemma_partition(d, now);
        if distinct(s) {
            assert forall|i: int, j: int|
                0 <= i < d.len() && 0 <= j < d.len() && i != j implies #[trigger] d[i].cookie@
                != #[trigger] d[j].cookie@ by {
                assert(d[i] == s[i] && d[j] == s[j]);
            }
        }
        let sc = still_cooling(s, now);
        let cd = cooled(s, now);
        assert forall|k: int| 0 <= k < sc.len() implies exists|j: int|
            0 <= j < s.len() && #[trigger] sc[k] == s[j] && !cooled_down(s[j], now) by {
            if k < still_cooling(d, now).len() {
                let j = choose|j: int|
                    0 <= j < d.len() && #[trigger] still_cooling(d, now)[k] == d[j]
                        && !cooled_down(d[j], now);
                assert(s[j] == d[j]);
            } else {
                assert(sc[k] == s[s.len() - 1]);
            }
        }
        assert forall|k: int| 0 <= k < cd.len() implies exists|j: int|
            0 <= j < s.len() && #[trigger] cd[k] == after_cool_down(s[j], now) && cooled_down(
                s[j],
                now,
            ) by {
            if k < cooled(d, now).len() {
                let j = choose|j: int|
                    0 <= j < d.len() && #[trigger] cooled(d, now)[k] == after_cool_down(d[j], now)
                        && cooled_down(d[j], now);
                assert(s[j] == d[j]);
            } else {
                assert(cd[k] == after_cool_down(s[s.len() - 1], now));
            }
        }
        if distinct(s) {
            let last = s.last();
            assert forall|k: int| 0 <= k < still_cooling(d, now).len() implies #[trigger] still_cooling(d, now)[k].cookie@
                != last.cookie@ by {
                let j = choose|j: int|
                    0 <= j < d.len() && #[trigger] still_cooling(d, now)[k] == d[j]
                        && !cooled_down(d[j], now);
                assert(s[j] == d[j]);
            }
            assert forall|k: int| 0 <= k < cooled(d, now).len() implies #[trigger] cooled(d, now)[k].cookie@
                != last.cookie@ by {
                let j = choose|j: int|
                    0 <= j < d.len() && #[trigger] cooled(d, now)[k] == after_cool_down(d[j], now)
                        && cooled_down(d[j], now);
                assert(s[j] == d[j]);
            }
            assert(distinct(sc));
            assert(distinct(cd));
        }
    }
}

/// The token of a cache answer.
pub open spec fn answer_view(o: Option<String>) -> Option<Seq<char>> {
    match o {
        Some(s) => Some(s@),
        None => None,
    }
}

/// Selection, once promotion is done, given what the affinity cache answered
/// for the fingerprint: the credential pinned to the fingerprint while it is
/// in rotation, else the front of the rotation, which moves to the back (and
/// is pinned to the fingerprint, if one was given).
pub open spec fn select_spec(p: PoolView, hash: Option<u64>, cached: Option<Seq<char>>) -> (
    PoolView,
    Result<CookieStatus, PoolError>,
) {
    if hash is Some && cached is Some && in_seq(p.valid, cached->0) {
        let t = cached->0;
        (
            PoolView { affinity: p.affinity.insert(hash->0, t), ..p },
            Ok(p.valid[index_of(p.valid, t)]),
        )
    } else if p.valid.len() == 0 {
        (p, Err(PoolError::NoCookieAvailable))
    } else {
        let c = p.valid[0];
        let affinity = if hash is Some {
            p.affinity.insert(hash->0, c.cookie@)
        } else {
            p.affinity
        };
        (
            PoolView {
                valid: p.valid.subrange(1, p.valid.len() as int).push(c),
                affinity: affinity,
                ..p
            },
            Ok(c),
        )
    }
}

/// What the affinity cache may answer for the fingerprint: nothing, or the
/// token last pinned to it.
pub open spec fn possible_answer(p: PoolView, hash: Option<u64>, cached: Option<Seq<char>>) -> bool {
    cached is Some ==> hash is Some && p.affinity.contains_key(hash->0) && cached->0
        == p.affinity[hash->0]
}

/// Acquire at `now`: promotion, then selection.
pub open spec fn dispatch_spec(p: PoolView, hash: Option<u64>, cached: Option<Seq<char>>, now: i64) -> (
    PoolView,
    Result<CookieStatus, PoolError>,
) {
    select_spec(promote_spec(p, now), hash, cached)
}

/// The record as it enters cool-down until `until`: usage cleared.
pub open spec fn as_cooling(c: CookieStatus, until: i64) -> CookieStatus {
    CookieStatus { reset_time: Some(until), ..usage_cleared(c) }
}

/// Return: what the pool becomes when credential `c` comes back with `reason`.
/// Without a reason, the record in rotation with its token takes the returned
/// fields. A healthy credential changes nothing. A rate-limited or restricted
/// one leaves the rotation and cools down until the given time (a cooling
/// record with its token is replaced). Any other reason retires it. A retired
/// token stays retired.
pub open spec fn collect_spec(p: PoolView, c: CookieStatus, reason: Option<Reason>) -> PoolView {
    let t = c.cookie@;
    match reason {
        None => if in_seq(p.valid, t) {
            PoolView { valid: p.valid.update(index_of(p.valid, t), as_active(c)), ..p }
        } else {
            p
        },
        Some(r) => if r is NormalPro || in_dead(p.invalid, t) {
            p
        } else if is_cooling_reason(r) {
            let cool = as_cooling(c, cooling_end(r));
            PoolView {
                valid: remove_token(p.valid, t),
                exhausted: if in_seq(p.exhausted, t) {
                    p.exhausted.update(index_of(p.exhausted, t), cool)
                } else {
                    p.exhausted.push(cool)
                },
                ..p
            }
        } else {
            PoolView {
                valid: remove_token(p.valid, t),
                exhausted: remove_token(p.exhausted, t),
                invalid: p.invalid.push(UselessCookie { cookie: c.cookie, reason: r }),
                ..p
            }
        },
    }
}

/// Whether a Return changes what is persisted.
pub open spec fn collect_persists(p: PoolView, c: CookieStatus, reason: Option<Reason>) -> bool {
    match reason {
        None => in_seq(p.valid, c.cookie@),
        Some(r) => !(r is NormalPro) && !in_dead(p.invalid, c.cookie@),
    }
}

/// A due cooling record shows up, cleared, among the promoted ones.
pub(crate) proof fn lemma_cooled_complete(s: Seq<CookieStatus>, now: i64, j: int)
    requires
        0 <= j < s.len(),
        cooled_down(s[j], now),
    ensures
        cooled(s, now).contains(after_cool_down(s[j], now)),
    decreases s.len(),
{
    if j == s.len() - 1 {
        assert(cooled(s, now).last() == after_cool_down(s[j], now));
    } else {
        let d = s.drop_last();
        assert(d[j] == s[j]);
        lemma_cooled_complete(d, now, j);
        let m = choose|m: int| 0 <= m < cooled(d, now).len() && cooled(d, now)[m] == after_cool_down(s[j], now);
        assert(cooled(s, now)[m] == after_cool_down(s[j], now));
    }
}

/// A record not due stays among the cooling ones.
pub(crate) proof fn lemma_still_cooling_complete(s: Seq<CookieStatus>, now: i64, j: int)
    requires
        0 <= j < s.len(),
        !cooled_down(s[j], now),
    ensures
        still_cooling(s, now).contains(s[j]),
    decreases s.len(),
{
    if j == s.len() - 1 {
        assert(still_cooling(s, now).last() == s[j]);
    } else {
        let d = s.drop_last();
        assert(d[j] == s[j]);
        lemma_still_cooling_complete(d, now, j);
        let m = choose|m: int| 0 <= m < still_cooling(d, now).len() && still_cooling(d, now)[m] == s[j];
        assert(still_cooling(s, now)[m] == s[j]);
    }
}

/// Promotion splits the cooling records without losing or adding any.
pub(crate) proof fn lemma_partition_len(s: Seq<CookieStatus>, now: i64)
    ensures
        still_cooling(s, now).len() + cooled(s, now).len() == s.len(),
    decreases s.len(),
{
    if s.len() > 0 {
        lemma_partition_len(s.drop_last(), now);
    }
}

/// Promotion keeps the tokens in rotation and cooling, and their number.
pub proof fn lemma_promote_keeps_tokens(p: PoolView, now: i64)
    ensures
        forall|t: Seq<char>|
            (in_seq(promote_spec(p, now).valid, t) || in_seq(promote_spec(p, now).exhausted, t))
                <==> (in_seq(p.valid, t) || in_seq(p.exhausted, t)),
        promote_spec(p, now).valid.len() + promote_spec(p, now).exhausted.len() == p.valid.len()
            + p.exhausted.len(),
        promote_spec(p, now).invalid == p.invalid,
{
    let q = promote_spec(p, now);
    let ex = p.exhausted;
    lemma_partition(ex, now);
    lemma_partition_len(ex, now);
    assert forall|t: Seq<char>|
        (in_seq(q.valid, t) || in_seq(q.exhausted, t)) <==> (in_seq(p.valid, t) || in_seq(
            p.exhausted,
            t,
        )) by {
        if in_seq(q.valid, t) {
            let i = choose|i: int| 0 <= i < q.valid.len() && #[trigger] q.valid[i].cookie@ == t;
            if i < p.valid.len() {
                assert(q.valid[i] == p.valid[i]);
            } else {
                let k = i - p.valid.len();
                let a = choose|a: int|
                    0 <= a < ex.len() && #[trigger] cooled(ex, now)[k] == after_cool_down(ex[a], now)
                        && cooled_down(ex[a], now);
                assert(ex[a].cookie@ == t);
            }
        }
        if in_seq(q.exhausted, t) {
            let i = choose|i: int| 0 <= i < q.exhausted.len() && #[trigger] q.exhausted[i].cookie@ == t;
            let b = choose|b: int|
                0 <= b < ex.len() && #[trigger] still_cooling(ex, now)[i] == ex[b] && !cooled_down(
                    ex[b],
                    now,
                );
            assert(ex[b].cookie@ == t);
        }
        if in_seq(p.valid, t) {
            let i = choose|i: int| 0 <= i < p.valid.len() && #[trigger] p.valid[i].cookie@ == t;
            assert(q.valid[i] == p.valid[i]);
        }
        if in_seq(ex, t) {
            let j = choose|j: int| 0 <= j < ex.len() && #[trigger] ex[j].cookie@ == t;
            if cooled_down(ex[j], now) {
                lemma_cooled_complete(ex, now, j);
                let m = choose|m: int|
                    0 <= m < cooled(ex, now).len() && cooled(ex, now)[m] == after_cool_down(ex[j], now);
                assert(q.valid[p.valid.len() + m] == after_cool_down(ex[j], now));
                assert(q.valid[p.valid.len() + m].cookie@ == t);
            } else {
                lemma_still_cooling_complete(ex, now, j);
                let m = choose|m: int|
                    0 <= m < still_cooling(ex, now).len() && still_cooling(ex, now)[m] == ex[j];
                assert(q.exhausted[m].cookie@ == t);
            }
        }
    }
}

/// With no cooling record due, promotion moves nothing.
pub(crate) proof fn lemma_nothing_due(s: Seq<CookieStatus>, now: i64)
    requires
        forall|i: int| 0 <= i < s.len() ==> !cooled_down(#[trigger] s[i], now),
    ensures
        still_cooling(s, now) == s,
        cooled(s, now) == Seq::<CookieStatus>::empty(),
    decreases s.len(),
{
    if s.len() > 0 {
        let d = s.drop_last();
        assert forall|i: int| 0 <= i < d.len() implies !cooled_down(#[trigger] d[i], now) by {
            assert(d[i] == s[i]);
        }
        lemma_nothing_due(d, now);
        assert(!cooled_down(s[s.len() - 1], now));
        assert(d.push(s.last()) =~= s);
    }
}

/// Removing a token from a sequence with distinct tokens keeps the others,
/// distinct, and drops every record with that token.
pub(crate) proof fn lemma_remove_token(s: Seq<CookieStatus>, t: Seq<char>)
    requires
        distinct(s),
    ensures
        distinct(remove_token(s, t)),
        forall|a: int| 0 <= a < remove_token(s, t).len() ==> s.contains(#[trigger] remove_token(s, t)[a]),
        forall|a: int| 0 <= a < remove_token(s, t).len() ==> #[trigger] remove_token(s, t)[a].cookie@ != t,
{
    let r = remove_token(s, t);
    if in_seq(s, t) {
        let k = index_of(s, t);
        assert forall|a: int| 0 <= a < r.len() implies exists|b: int|
            0 <= b < s.len() && #[trigger] r[a] == s[b] && b != k by {
            if a < k {
                assert(r[a] == s[a]);
            } else {
                assert(r[a] == s[a + 1]);
            }
        }
        assert forall|i: int, j: int|
            0 <= i < r.len() && 0 <= j < r.len() && i != j implies #[trigger] r[i].cookie@
            != #[trigger] r[j].cookie@ by {
            let a = if i < k { i } else { i + 1 };
            let b = if j < k { j } else { j + 1 };
            assert(r[i] == s[a]);
            assert(r[j] == s[b]);
        }
        assert forall|a: int| 0 <= a < r.len() implies #[trigger] r[a].cookie@ != t by {
            let b = choose|b: int| 0 <= b < s.len() && #[trigger] r[a] == s[b] && b != k;
        }
        assert forall|a: int| 0 <= a < r.len() implies s.contains(#[trigger] r[a]) by {
            let b = choose|b: int| 0 <= b < s.len() && #[trigger] r[a] == s[b] && b != k;
            assert(r[a] == s[b]);
        }
    } else {
        assert forall|a: int| 0 <= a < r.len() implies s.contains(#[trigger] r[a]) by {
            assert(r[a] == s[a]);
        }
    }
}

/// Tick at `now`: rolling-window expiry, then cool-down promotion.
pub open spec fn tick_spec(p: PoolView, now: i64) -> PoolView {
    promote_spec(refresh_spec(p, now), now)
}

/// The pool with nothing in it and an empty affinity cache.
pub open spec fn empty_pool() -> PoolView {
    PoolView {
        valid: Seq::empty(),
        exhausted: Seq::empty(),
        invalid: Seq::empty(),
        affinity: Map::empty(),
        capacity: AFFINITY_CAPACITY as nat,
        idle: AFFINITY_IDLE_SECS as nat,
    }
}

/// Rehydration of one persisted record: a record whose token is new goes to
/// cooling if it has a cool-down, else to the back of the rotation.
pub open spec fn place_spec(p: PoolView, c: CookieStatus) -> PoolView {
    if in_pool(p, c.cookie@) {
        p
    } else if c.reset_time is None {
        PoolView { valid: p.valid.push(c), ..p }
    } else {
        PoolView { exhausted: p.exhausted.push(c), ..p }
    }
}

/// Rehydration of one persisted retired entry: kept if its token is new.
pub open spec fn place_dead_spec(p: PoolView, u: UselessCookie) -> PoolView {
    if in_pool(p, u.cookie@) {
        p
    } else {
        PoolView { invalid: p.invalid.push(u), ..p }
    }
}

/// Rehydration of persisted records, in order.
pub open spec fn load_cookies(p: PoolView, s: Seq<CookieStatus>) -> PoolView
    decreases s.len(),
{
    if s.len() == 0 {
        p
    } else {
        place_spec(load_cookies(p, s.drop_last()), s.last())
    }
}

/// Rehydration of persisted retired entries, in order.
pub open spec fn load_dead(p: PoolView, s: Seq<UselessCookie>) -> PoolView
    decreases s.len(),
{
    if s.len() == 0 {
        p
    } else {
        place_dead_spec(load_dead(p, s.drop_last()), s.last())
    }
}

/// A cool-down keeps the pool's invariant.
pub(crate) proof fn lemma_cool_down_wf(p: PoolView, c: CookieStatus, r: Reason)
    requires
        p.wf(),
        is_cooling_reason(r),
        !in_dead(p.invalid, c.cookie@),
    ensures
        collect_spec(p, c, Some(r)).wf(),
{
    let t = c.cookie@;
    lemma_remove_token(p.valid, t);
    let v1 = remove_token(p.valid, t);
    let q = collect_spec(p, c, Some(r));
    let cool = as_cooling(c, cooling_end(r));
    if in_seq(p.exhausted, t) {
        let k = index_of(p.exhausted, t);
        assert(q.exhausted == p.exhausted.update(k, cool));
        assert forall|i: int, j: int|
            0 <= i < q.exhausted.len() && 0 <= j < q.exhausted.len() && i != j implies #[trigger] q.exhausted[i].cookie@
            != #[trigger] q.exhausted[j].cookie@ by {
            if i != k && j != k {
                assert(q.exhausted[i] == p.exhausted[i]);
                assert(q.exhausted[j] == p.exhausted[j]);
            } else if i == k {
                assert(q.exhausted[j] == p.exhausted[j]);
            } else {
                assert(q.exhausted[i] == p.exhausted[i]);
            }
        }
    } else {
        assert(q.exhausted == p.exhausted.push(cool));
    }
    assert forall|i: int, j: int|
        0 <= i < q.valid.len() && 0 <= j < q.exhausted.len() implies #[trigger] q.valid[i].cookie@
        != #[trigger] q.exhausted[j].cookie@ by {
        let b = choose|b: int| 0 <= b < p.valid.len() && v1[i] == p.valid[b];
    }
    assert forall|i: int, j: int|
        0 <= i < q.valid.len() && 0 <= j < q.invalid.len() implies #[trigger] q.valid[i].cookie@
        != #[trigger] q.invalid[j].cookie@ by {
        let b = choose|b: int| 0 <= b < p.valid.len() && v1[i] == p.valid[b];
    }
    assert forall|i: int| 0 <= i < q.valid.len() implies (#[trigger] q.valid[i]).reset_time is None by {
        let b = choose|b: int| 0 <= b < p.valid.len() && v1[i] == p.valid[b];
    }
}

/// Retiring a credential keeps the pool's invariant.
pub(crate) proof fn lemma_retire_wf(p: PoolView, c: CookieStatus, r: Reason)
    requires
        p.wf(),
        is_dead_reason(r),
        !in_dead(p.invalid, c.cookie@),
    ensures
        collect_spec(p, c, Some(r)).wf(),
{
    let t = c.cookie@;
    lemma_remove_token(p.valid, t);
    lemma_remove_token(p.exhausted, t);
    let v1 = remove_token(p.valid, t);
    let q = collect_spec(p, c, Some(r));
    assert forall|i: int, j: int|
        0 <= i < q.valid.len() && 0 <= j < q.exhausted.len() implies #[trigger] q.valid[i].cookie@
        != #[trigger] q.exhausted[j].cookie@ by {
        let a = choose|b: int| 0 <= b < p.valid.len() && v1[i] == p.valid[b];
        let b = choose|b: int| 0 <= b < p.exhausted.len() && q.exhausted[j] == p.exhausted[b];
    }
    assert forall|i: int, j: int|
        0 <= i < q.valid.len() && 0 <= j < q.invalid.len() implies #[trigger] q.valid[i].cookie@
        != #[trigger] q.invalid[j].cookie@ by {
        let b = choose|b: int| 0 <= b < p.valid.len() && v1[i] == p.valid[b];
    }
    assert forall|i: int, j: int|
        0 <= i < q.exhausted.len() && 0 <= j < q.invalid.len() implies #[trigger] q.exhausted[i].cookie@
        != #[trigger] q.invalid[j].cookie@ by {
        let b = choose|b: int| 0 <= b < p.exhausted.len() && q.exhausted[i] == p.exhausted[b];
    }
    assert forall|i: int| 0 <= i < q.valid.len() implies (#[trigger] q.valid[i]).reset_time is None by {
        let b = choose|b: int| 0 <= b < p.valid.len() && v1[i] == p.valid[b];
    }
    assert forall|i: int| 0 <= i < q.exhausted.len() implies (#[trigger] q.exhausted[i]).reset_time is Some by {
        let b = choose|b: int| 0 <= b < p.exhausted.len() && q.exhausted[i] == p.exhausted[b];
    }
}

} // verus!
