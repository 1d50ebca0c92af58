//! The credential pool: credentials in rotation, cooling down, and retired,
//! with the affinity cache, and the operations that move credentials between
//! them. Each operation is proved to do what its spec function in `model`
//! says and to keep the pool well-formed.

use std::collections::VecDeque;
use vstd::prelude::*;
use crate::affinity::{
    affinity_capacity, affinity_get, affinity_idle, affinity_insert, affinity_log, new_affinity_cache,
    AffinityCache, AFFINITY_CAPACITY, AFFINITY_IDLE_SECS,
};
use crate::credential::{
    after_cool_down, any_window_due, cooled_down, cooling_end, is_cooling_reason, is_dead_reason,
    CookieStatus, Reason, UselessCookie,
};
use crate::model::{
    accept_spec, answer_view, as_active, collect_persists, collect_spec, cooled, delete_spec,
    dispatch_spec, distinct, dead_distinct, empty_pool, in_dead, in_pool, in_seq, index_of,
    dead_index_of, lemma_cool_down_wf, lemma_partition, lemma_promote_keeps_tokens,
    lemma_remove_token, lemma_retire_wf,
    load_cookies, load_dead, place_dead_spec, place_spec, possible_answer, promote_spec,
    refresh_spec, refreshed_all, remove_token, select_spec, some_window_due, still_cooling, tick_spec, PoolView,
};
pub use crate::model::PoolError;

verus! {

/// A snapshot of the three collections.
pub struct CookieStatusInfo {
    pub valid: Vec<CookieStatus>,
    pub exhausted: Vec<CookieStatus>,
    pub invalid: Vec<UselessCookie>,
}

/// What is persisted of the pool: the credentials in rotation and cooling, and
/// the retired ones.
pub struct PersistedCookies {
    pub cookie_array: Vec<CookieStatus>,
    pub wasted_cookie: Vec<UselessCookie>,
}

/// The credential pool.
pub struct CookieActorState {
    pub valid: VecDeque<CookieStatus>,
    pub exhausted: Vec<CookieStatus>,
    pub invalid: Vec<UselessCookie>,
    /// Kept inside the crate: the cache is shared by its clones and changed
    /// through `&self`, so only the pool's own operations may touch it.
    pub(crate) moka: AffinityCache,
}

impl View for CookieActorState {
    type V = PoolView;

    open(crate) spec fn view(&self) -> PoolView {
        PoolView {
            valid: self.valid@,
            exhausted: self.exhausted@,
            invalid: self.invalid@,
            affinity: affinity_log(self.moka),
            capacity: affinity_capacity(self.moka),
            idle: affinity_idle(self.moka),
        }
    }
}

/// The position of the first record of `s` with the token `t`.
fn find_in_deque(s: &VecDeque<CookieStatus>, t: &String) -> (r: Option<usize>)
    ensures
        match r {
            Some(i) => i < s@.len() && s@[i as int].cookie@ == t@ && (distinct(s@) ==> i
                == index_of(s@, t@)),
            None => !in_seq(s@, t@),
        },
{
    let mut i: usize = 0;
    while i < s.len()
        invariant
            i <= s@.len(),
            forall|j: int| 0 <= j < i ==> s@[j].cookie@ != t@,
        decreases s@.len() - i,
    {
        if s[i].cookie == *t {
            proof {
                assert(in_seq(s@, t@));
            }
            return Some(i);
        }
        i += 1;
    }
    None
}

/// The position of the first record of `s` with the token `t`.
fn find_in_vec(s: &Vec<CookieStatus>, t: &String) -> (r: Option<usize>)
    ensures
        match r {
            Some(i) => i < s@.len() && s@[i as int].cookie@ == t@ && (distinct(s@) ==> i
                == index_of(s@, t@)),
            None => !in_seq(s@, t@),
        },
{
    let mut i: usize = 0;
    while i < s.len()
        invariant
            i <= s@.len(),
            forall|j: int| 0 <= j < i ==> s@[j].cookie@ != t@,
        decreases s@.len() - i,
    {
        if s[i].cookie == *t {
            proof {
                assert(in_seq(s@, t@));
            }
            return Some(i);
        }
        i += 1;
    }
    None
}

/// The position of the first entry of `s` with the token `t`.
fn find_in_dead(s: &Vec<UselessCookie>, t: &String) -> (r: Option<usize>)
    ensures
        match r {
            Some(i) => i < s@.len() && s@[i as int].cookie@ == t@ && (dead_distinct(s@) ==> i
                == dead_index_of(s@, t@)),
            None => !in_dead(s@, t@),
        },
{
    let mut i: usize = 0;
    while i < s.len()
        invariant
            i <= s@.len(),
            forall|j: int| 0 <= j < i ==> s@[j].cookie@ != t@,
        decreases s@.len() - i,
    {
        if s[i].cookie == *t {
            proof {
                assert(in_dead(s@, t@));
            }
            return Some(i);
        }
        i += 1;
    }
    None
}

impl CookieActorState {
    /// An empty pool with a fresh affinity cache.
    pub fn new() -> (r: CookieActorState)
        ensures
            r@.wf(),
            r@.valid.len() == 0,
            r@.exhausted.len() == 0,
            r@.invalid.len() == 0,
            r@.affinity.dom() == Set::<u64>::empty(),
    {
        CookieActorState {
            valid: VecDeque::new(),
            exhausted: Vec::new(),
            invalid: Vec::new(),
            moka: new_affinity_cache(AFFINITY_CAPACITY, AFFINITY_IDLE_SECS),
        }
    }

    /// Adds a credential at the back of the rotation, unless its token is
    /// already in the pool; returns whether it was added.
    pub fn accept(&mut self, cookie: CookieStatus) -> (added: bool)
        requires
            old(self)@.wf(),
        ensures
            final(self)@.wf(),
            final(self)@ == accept_spec(old(self)@, cookie),
            added == !in_pool(old(self)@, cookie.cookie@),
    {
        if find_in_deque(&self.valid, &cookie.cookie).is_some() || find_in_vec(
            &self.exhausted,
            &cookie.cookie,
        ).is_some() || find_in_dead(&self.invalid, &cookie.cookie).is_some() {
            return false;
        }
        let mut c = cookie;
        c.reset_time = None;
        self.valid.push_back(c);
        true
    }

    /// Removes the credential's token from whichever collection holds it.
    pub fn delete(&mut self, cookie: CookieStatus) -> (r: Result<(), PoolError>)
        requires
            old(self)@.wf(),
        ensures
            final(self)@.wf(),
            final(self)@ == delete_spec(old(self)@, cookie.cookie@),
            r is Ok <==> in_pool(old(self)@, cookie.cookie@),
            r is Err ==> r->Err_0 == PoolError::CookieNotFound,
    {
        let mut found = false;
        if let Some(i) = find_in_deque(&self.valid, &cookie.cookie) {
            self.valid.remove(i);
            found = true;
        }
        if let Some(i) = find_in_vec(&self.exhausted, &cookie.cookie) {
            self.exhausted.remove(i);
            found = true;
        }
        if let Some(i) = find_in_dead(&self.invalid, &cookie.cookie) {
            self.invalid.remove(i);
            found = true;
        }
        if found {
            Ok(())
        } else {
            Err(PoolError::CookieNotFound)
        }
    }
    /// Cool-down promotion at `now`: moves every cooling credential whose
    /// cool-down has ended to the back of the rotation. The tokens in rotation
    /// and cooling stay the same, and as many.
    pub fn reset(&mut self, now: i64)
        requires
            old(self)@.wf(),
        ensures
            final(self)@.wf(),
            final(self)@ == promote_spec(old(self)@, now),
            forall|t: Seq<char>|
                (in_seq(final(self)@.valid, t) || in_seq(final(self)@.exhausted, t)) <==> (in_seq(
                    old(self)@.valid,
                    t,
                ) || in_seq(old(self)@.exhausted, t)),
            final(self)@.valid.len() + final(self)@.exhausted.len() == old(self)@.valid.len()
                + old(self)@.exhausted.len(),
    {
        proof {
            lemma_promote_keeps_tokens(self@, now);
        }
        let ghost old_valid = self.valid@;
        let ghost ex = self.exhausted@;
        let mut cooling: Vec<CookieStatus> = Vec::new();
        std::mem::swap(&mut cooling, &mut self.exhausted);
        let mut keep: Vec<CookieStatus> = Vec::new();
        let mut i: usize = 0;
        while i < cooling.len()
            invariant
                cooling@ == ex,
                i <= ex.len(),
                keep@ == still_cooling(ex.subrange(0, i as int), now),
                self.valid@ == old_valid + cooled(ex.subrange(0, i as int), now),
                self.moka == old(self).moka,
                self.invalid == old(self).invalid,
            decreases ex.len() - i,
        {
            assert(ex.subrange(0, i + 1).drop_last() == ex.subrange(0, i as int));
            assert(ex.subrange(0, i + 1).last() == ex[i as int]);
            let c = cooling[i].clone();
            let due = match c.reset_time {
                Some(t) => t <= now,
                None => false,
            };
            if due {
                self.valid.push_back(c.reset(now));
            } else {
                keep.push(c);
            }
            i += 1;
        }
        assert(ex.subrange(0, ex.len() as int) == ex);
        self.exhausted = keep;
        proof {
            lemma_partition(ex, now);
            let p = old(self)@;
            let q = self@;
            let sc = still_cooling(ex, now);
            let cd = cooled(ex, now);
            assert forall|i: int, j: int|
                0 <= i < q.valid.len() && 0 <= j < q.valid.len() && i != j implies #[trigger] q.valid[i].cookie@
                != #[trigger] q.valid[j].cookie@ by {
                if i >= old_valid.len() {
                    let a = choose|a: int| 0 <= a < ex.len() && #[trigger] cd[i - old_valid.len()] == after_cool_down(ex[a], now) && cooled_down(ex[a], now);
                }
                if j >= old_valid.len() {
                    let b = choose|b: int| 0 <= b < ex.len() && #[trigger] cd[j - old_valid.len()] == after_cool_down(ex[b], now) && cooled_down(ex[b], now);
                }
            }
            assert forall|i: int, j: int|
                0 <= i < q.valid.len() && 0 <= j < q.exhausted.len() implies #[trigger] q.valid[i].cookie@
                != #[trigger] q.exhausted[j].cookie@ by {
                let b = choose|b: int| 0 <= b < ex.len() && #[trigger] sc[j] == ex[b] && !cooled_down(ex[b], now);
                if i >= old_valid.len() {
                    let a = choose|a: int| 0 <= a < ex.len() && #[trigger] cd[i - old_valid.len()] == after_cool_down(ex[a], now) && cooled_down(ex[a], now);
                }
            }
            assert forall|i: int, j: int|
                0 <= i < q.valid.len() && 0 <= j < q.invalid.len() implies #[trigger] q.valid[i].cookie@
                != #[trigger] q.invalid[j].cookie@ by {
                if i >= old_valid.len() {
                    let a = choose|a: int| 0 <= a < ex.len() && #[trigger] cd[i - old_valid.len()] == after_cool_down(ex[a], now) && cooled_down(ex[a], now);
                }
            }
            assert forall|i: int, j: int|
                0 <= i < q.exhausted.len() && 0 <= j < q.invalid.len() implies #[trigger] q.exhausted[i].cookie@
                != #[trigger] q.invalid[j].cookie@ by {
                let b = choose|b: int| 0 <= b < ex.len() && #[trigger] sc[i] == ex[b] && !cooled_down(ex[b], now);
            }
            assert forall|i: int| 0 <= i < q.valid.len() implies (#[trigger] q.valid[i]).reset_time is None by {
                if i >= old_valid.len() {
                    let a = choose|a: int| 0 <= a < ex.len() && #[trigger] cd[i - old_valid.len()] == after_cool_down(ex[a], now) && cooled_down(ex[a], now);
                }
            }
            assert forall|i: int| 0 <= i < q.exhausted.len() implies (#[trigger] q.exhausted[i]).reset_time is Some by {
                let b = choose|b: int| 0 <= b < ex.len() && #[trigger] sc[i] == ex[b] && !cooled_down(ex[b], now);
            }
        }
    }
    /// Rolling-window expiry at `now` over the credentials in rotation and
    /// cooling; returns whether any window expired.
    pub fn refresh_usage_windows(&mut self, now: i64) -> (changed: bool)
        requires
            old(self)@.wf(),
        ensures
            final(self)@.wf(),
            final(self)@ == refresh_spec(old(self)@, now),
            changed == some_window_due(old(self)@, now),
    {
        let ghost p = self@;
        let mut changed = false;
        let mut rotation: VecDeque<CookieStatus> = VecDeque::new();
        std::mem::swap(&mut rotation, &mut self.valid);
        let mut i: usize = 0;
        while i < rotation.len()
            invariant
                rotation@ == p.valid,
                i <= p.valid.len(),
                self.valid@ == refreshed_all(p.valid.subrange(0, i as int), now),
                changed == exists|j: int| 0 <= j < i && any_window_due(#[trigger] p.valid[j], now),
                self.exhausted@ == p.exhausted,
                self.invalid@ == p.invalid,
                self.moka == old(self).moka,
            decreases p.valid.len() - i,
        {
            let mut c = rotation[i].clone();
            let due = c.refresh_windows(now);
            changed = changed || due;
            self.valid.push_back(c);
            proof {
                assert(self.valid@ =~= refreshed_all(p.valid.subrange(0, i + 1), now));
            }
            i += 1;
        }
        proof {
            assert(p.valid.subrange(0, p.valid.len() as int) == p.valid);
        }
        let ghost valid_due = changed;
        let mut cooling: Vec<CookieStatus> = Vec::new();
        std::mem::swap(&mut cooling, &mut self.exhausted);
        let mut k: usize = 0;
        while k < cooling.len()
            invariant
                cooling@ == p.exhausted,
                k <= p.exhausted.len(),
                self.exhausted@ == refreshed_all(p.exhausted.subrange(0, k as int), now),
                changed == (valid_due || exists|j: int|
                    0 <= j < k && any_window_due(#[trigger] p.exhausted[j], now)),
                self.valid@ == refreshed_all(p.valid, now),
                self.invalid@ == p.invalid,
                self.moka == old(self).moka,
            decreases p.exhausted.len() - k,
        {
            let mut c = cooling[k].clone();
            let due = c.refresh_windows(now);
            changed = changed || due;
            self.exhausted.push(c);
            proof {
                assert(self.exhausted@ =~= refreshed_all(p.exhausted.subrange(0, k + 1), now));
            }
            k += 1;
        }
        proof {
            assert(p.valid.subrange(0, p.valid.len() as int) == p.valid);
            assert(p.exhausted.subrange(0, p.exhausted.len() as int) == p.exhausted);
        }
        changed
    }
    /// Selects a credential given the affinity cache's answer for the
    /// fingerprint (see `select_spec`).
    pub fn select(&mut self, hash: Option<u64>, cached: Option<String>) -> (r: Result<
        CookieStatus,
        PoolError,
    >)
        requires
            old(self)@.wf(),
        ensures
            final(self)@.wf(),
            (final(self)@, r) == select_spec(old(self)@, hash, answer_view(cached)),
    {
        if let Some(h) = hash {
            if let Some(t) = cached {
                if let Some(i) = find_in_deque(&self.valid, &t) {
                    let c = self.valid[i].clone();
                    affinity_insert(&mut self.moka, h, t);
                    return Ok(c);
                }
            }
        }
        let ghost p = self@;
        match self.valid.pop_front() {
            None => Err(PoolError::NoCookieAvailable),
            Some(c) => {
                self.valid.push_back(c.clone());
                if let Some(h) = hash {
                    affinity_insert(&mut self.moka, h, c.cookie.clone());
                }
                proof {
                    let q = self@;
                    assert forall|i: int, j: int|
                        0 <= i < q.valid.len() && 0 <= j < q.valid.len() && i != j implies #[trigger] q.valid[i].cookie@
                        != #[trigger] q.valid[j].cookie@ by {
                        let a = if i == q.valid.len() - 1 { 0 } else { i + 1 };
                        let b = if j == q.valid.len() - 1 { 0 } else { j + 1 };
                        assert(q.valid[i] == p.valid[a]);
                        assert(q.valid[j] == p.valid[b]);
                    }
                    assert forall|i: int, j: int|
                        0 <= i < q.valid.len() && 0 <= j < q.exhausted.len() implies #[trigger] q.valid[i].cookie@
                        != #[trigger] q.exhausted[j].cookie@ by {
                        let a = if i == q.valid.len() - 1 { 0 } else { i + 1 };
                        assert(q.valid[i] == p.valid[a]);
                    }
                    assert forall|i: int, j: int|
                        0 <= i < q.valid.len() && 0 <= j < q.invalid.len() implies #[trigger] q.valid[i].cookie@
                        != #[trigger] q.invalid[j].cookie@ by {
                        let a = if i == q.valid.len() - 1 { 0 } else { i + 1 };
                        assert(q.valid[i] == p.valid[a]);
                    }
                    assert forall|i: int| 0 <= i < q.valid.len() implies (#[trigger] q.valid[i]).reset_time is None by {
                        let a = if i == q.valid.len() - 1 { 0 } else { i + 1 };
                        assert(q.valid[i] == p.valid[a]);
                    }
                }
                Ok(c)
            },
        }
    }

    /// Acquire: promotes the credentials whose cool-down ended by `now`, then
    /// selects one, consulting the affinity cache for the fingerprint.
    pub fn dispatch(&mut self, hash: Option<u64>, now: i64) -> (r: Result<CookieStatus, PoolError>)
        requires
            old(self)@.wf(),
        ensures
            final(self)@.wf(),
            exists|cached: Option<Seq<char>>|
                possible_answer(promote_spec(old(self)@, now), hash, cached) && (final(self)@, r)
                    == #[trigger] dispatch_spec(old(self)@, hash, cached, now),
            hash is None ==> (final(self)@, r) == dispatch_spec(old(self)@, None, None, now),
    {
        self.reset(now);
        let cached = match hash {
            Some(h) => affinity_get(&self.moka, h),
            None => None,
        };
        let ghost answer = answer_view(cached);
        let r = self.select(hash, cached);
        assert(possible_answer(promote_spec(old(self)@, now), hash, answer));
        assert((self@, r) == dispatch_spec(old(self)@, hash, answer, now));
        r
    }
    /// Removes the record with the token from the rotation.
    fn leave_rotation(&mut self, t: &String)
        requires
            old(self)@.wf(),
        ensures
            final(self)@ == (PoolView { valid: remove_token(old(self)@.valid, t@), ..old(self)@ }),
            distinct(final(self)@.valid),
            forall|a: int|
                0 <= a < final(self)@.valid.len() ==> old(self)@.valid.contains(
                    #[trigger] final(self)@.valid[a],
                ),
            forall|a: int| 0 <= a < final(self)@.valid.len() ==> #[trigger] final(self)@.valid[a].cookie@ != t@,
    {
        if let Some(i) = find_in_deque(&self.valid, t) {
            self.valid.remove(i);
        }
        proof {
            lemma_remove_token(old(self)@.valid, t@);
        }
    }

    /// Overwrites the record in rotation that has the credential's token.
    fn overwrite(&mut self, cookie: CookieStatus) -> (found: bool)
        requires
            old(self)@.wf(),
        ensures
            final(self)@.wf(),
            final(self)@ == collect_spec(old(self)@, cookie, None),
            found == collect_persists(old(self)@, cookie, None),
    {
        let ghost p = self@;
        if let Some(i) = find_in_deque(&self.valid, &cookie.cookie) {
            let mut c = cookie;
            c.reset_time = None;
            self.valid.remove(i);
            self.valid.insert(i, c);
            proof {
                assert(self.valid@ =~= p.valid.update(i as int, as_active(cookie)));
                let q = self@;
                assert forall|a: int| 0 <= a < q.valid.len() implies #[trigger] q.valid[a].cookie@
                    == p.valid[a].cookie@ by {}
            }
            true
        } else {
            false
        }
    }

    /// Sends a credential to cool down until `until`.
    fn cool_down(&mut self, cookie: CookieStatus, r: Reason, until: i64)
        requires
            old(self)@.wf(),
            is_cooling_reason(r),
            cooling_end(r) == until,
            !in_dead(old(self)@.invalid, cookie.cookie@),
        ensures
            final(self)@.wf(),
            final(self)@ == collect_spec(old(self)@, cookie, Some(r)),
    {
        proof {
            lemma_cool_down_wf(self@, cookie, r);
        }
        self.leave_rotation(&cookie.cookie);
        let mut c = cookie;
        c.reset_time = Some(until);
        c.reset_window_usage();
        if let Some(j) = find_in_vec(&self.exhausted, &c.cookie) {
            self.exhausted.set(j, c);
        } else {
            self.exhausted.push(c);
        }
    }

    /// Retires a credential for `r`.
    fn retire(&mut self, cookie: CookieStatus, r: Reason)
        requires
            old(self)@.wf(),
            is_dead_reason(r),
            !in_dead(old(self)@.invalid, cookie.cookie@),
        ensures
            final(self)@.wf(),
            final(self)@ == collect_spec(old(self)@, cookie, Some(r)),
    {
        proof {
            lemma_retire_wf(self@, cookie, r);
        }
        self.leave_rotation(&cookie.cookie);
        if let Some(j) = find_in_vec(&self.exhausted, &cookie.cookie) {
            self.exhausted.remove(j);
        }
        self.invalid.push(UselessCookie::new(cookie.cookie, r));
    }

    /// Return: takes a used credential back and classifies it by `reason`
    /// (see `collect_spec`); returns whether the persisted state changed.
    pub fn collect(&mut self, cookie: CookieStatus, reason: Option<Reason>) -> (persist: bool)
        requires
            old(self)@.wf(),
        ensures
            final(self)@.wf(),
            final(self)@ == collect_spec(old(self)@, cookie, reason),
            persist == collect_persists(old(self)@, cookie, reason),
    {
        match reason {
            None => self.overwrite(cookie),
            Some(r) => {
                if r == Reason::NormalPro || find_in_dead(&self.invalid, &cookie.cookie).is_some() {
                    return false;
                }
                match r {
                    Reason::TooManyRequest(until) => self.cool_down(cookie, r, until),
                    Reason::Restricted(until) => self.cool_down(cookie, r, until),
                    _ => self.retire(cookie, r),
                }
                true
            },
        }
    }
    /// Tick: expires the usage windows that are due at `now`, then promotes the
    /// credentials whose cool-down has ended. Afterwards every credential still
    /// cooling does so past `now`. Returns whether a window expired.
    pub fn check_reset(&mut self, now: i64) -> (persist: bool)
        requires
            old(self)@.wf(),
        ensures
            final(self)@.wf(),
            final(self)@ == tick_spec(old(self)@, now),
            persist == some_window_due(old(self)@, now),
            forall|i: int|
                0 <= i < final(self)@.exhausted.len() ==> (#[trigger] final(self)@.exhausted[i]).reset_time
                    is Some && final(self)@.exhausted[i].reset_time->0 > now,
    {
        let changed = self.refresh_usage_windows(now);
        let ghost mid = self@;
        self.reset(now);
        proof {
            lemma_partition(mid.exhausted, now);
            assert forall|i: int| 0 <= i < self@.exhausted.len() implies (#[trigger] self@.exhausted[i]).reset_time
                is Some && self@.exhausted[i].reset_time->0 > now by {
                let b = choose|b: int| 0 <= b < mid.exhausted.len() && #[trigger] still_cooling(mid.exhausted, now)[i] == mid.exhausted[b] && !cooled_down(mid.exhausted[b], now);
            }
        }
        changed
    }

    /// Status: a copy of the three collections.
    pub fn report(&self) -> (r: CookieStatusInfo)
        ensures
            r.valid@ == self@.valid,
            r.exhausted@ == self@.exhausted,
            r.invalid@ == self@.invalid,
    {
        let mut valid: Vec<CookieStatus> = Vec::new();
        let mut i: usize = 0;
        while i < self.valid.len()
            invariant
                i <= self.valid@.len(),
                valid@ == self.valid@.subrange(0, i as int),
            decreases self.valid@.len() - i,
        {
            valid.push(self.valid[i].clone());
            i += 1;
        }
        let mut exhausted: Vec<CookieStatus> = Vec::new();
        let mut j: usize = 0;
        while j < self.exhausted.len()
            invariant
                j <= self.exhausted@.len(),
                exhausted@ == self.exhausted@.subrange(0, j as int),
            decreases self.exhausted@.len() - j,
        {
            exhausted.push(self.exhausted[j].clone());
            j += 1;
        }
        let mut invalid: Vec<UselessCookie> = Vec::new();
        let mut k: usize = 0;
        while k < self.invalid.len()
            invariant
                k <= self.invalid@.len(),
                invalid@ == self.invalid@.subrange(0, k as int),
            decreases self.invalid@.len() - k,
        {
            invalid.push(self.invalid[k].clone());
            k += 1;
        }
        proof {
            assert(valid@ =~= self@.valid);
            assert(exhausted@ =~= self@.exhausted);
            assert(invalid@ =~= self@.invalid);
        }
        CookieStatusInfo { valid, exhausted, invalid }
    }

    /// What is to be persisted: rotation then cooling, and the retired.
    pub fn save(&self) -> (r: PersistedCookies)
        ensures
            r.cookie_array@ == self@.valid + self@.exhausted,
            r.wasted_cookie@ == self@.invalid,
    {
        let info = self.report();
        let mut cookie_array = info.valid;
        let mut rest = info.exhausted;
        cookie_array.append(&mut rest);
        PersistedCookies { cookie_array, wasted_cookie: info.invalid }
    }
    /// Rehydrates one persisted record (see `place_spec`).
    fn place(&mut self, c: CookieStatus)
        requires
            old(self)@.wf(),
        ensures
            final(self)@.wf(),
            final(self)@ == place_spec(old(self)@, c),
    {
        if find_in_deque(&self.valid, &c.cookie).is_some() || find_in_vec(
            &self.exhausted,
            &c.cookie,
        ).is_some() || find_in_dead(&self.invalid, &c.cookie).is_some() {
            return;
        }
        if c.reset_time.is_none() {
            self.valid.push_back(c);
        } else {
            self.exhausted.push(c);
        }
    }

    /// Rehydrates one persisted retired entry (see `place_dead_spec`).
    fn place_dead(&mut self, u: UselessCookie)
        requires
            old(self)@.wf(),
        ensures
            final(self)@.wf(),
            final(self)@ == place_dead_spec(old(self)@, u),
    {
        if find_in_deque(&self.valid, &u.cookie).is_some() || find_in_vec(
            &self.exhausted,
            &u.cookie,
        ).is_some() || find_in_dead(&self.invalid, &u.cookie).is_some() {
            return;
        }
        self.invalid.push(u);
    }

    /// Builds the pool from persisted state: the retired entries first, then
    /// each record to cooling if it has a cool-down, else to the rotation. A
    /// token already placed is not placed again.
    pub fn from_config(cookie_array: Vec<CookieStatus>, wasted_cookie: Vec<UselessCookie>) -> (r:
        CookieActorState)
        ensures
            r@.wf(),
            r@ == load_cookies(load_dead(empty_pool(), wasted_cookie@), cookie_array@),
    {
        let mut state = CookieActorState::new();
        proof {
            assert(state@.affinity =~= Map::empty());
            assert(state@.valid =~= Seq::empty());
            assert(state@.exhausted =~= Seq::empty());
            assert(state@.invalid =~= Seq::empty());
        }
        let mut i: usize = 0;
        while i < wasted_cookie.len()
            invariant
                i <= wasted_cookie@.len(),
                state@.wf(),
                state@ == load_dead(empty_pool(), wasted_cookie@.subrange(0, i as int)),
            decreases wasted_cookie@.len() - i,
        {
            assert(wasted_cookie@.subrange(0, i + 1).drop_last() == wasted_cookie@.subrange(0, i as int));
            state.place_dead(wasted_cookie[i].clone());
            i += 1;
        }
        assert(wasted_cookie@.subrange(0, wasted_cookie@.len() as int) == wasted_cookie@);
        let ghost base = state@;
        let mut j: usize = 0;
        while j < cookie_array.len()
            invariant
                j <= cookie_array@.len(),
                state@.wf(),
                base == load_dead(empty_pool(), wasted_cookie@),
                state@ == load_cookies(base, cookie_array@.subrange(0, j as int)),
            decreases cookie_array@.len() - j,
        {
            assert(cookie_array@.subrange(0, j + 1).drop_last() == cookie_array@.subrange(0, j as int));
            state.place(cookie_array[j].clone());
            j += 1;
        }
        assert(cookie_array@.subrange(0, cookie_array@.len() as int) == cookie_array@);
        state
    }
}

} // verus!
