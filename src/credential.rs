use vstd::prelude::*;

verus! {

/// Length of the session usage window: five hours, in seconds.
pub const SESSION_WINDOW_SECS: i64 = 18000;

/// Length of each weekly usage window: seven days, in seconds.
pub const WEEKLY_WINDOW_SECS: i64 = 604800;

/// One rolling usage window of a credential.
#[derive(Debug, Clone, Copy, PartialEq, Eq, Structural)]
pub struct UsageWindow {
    /// Utilization reported by upstream, in percent.
    pub usage: u32,
    /// Epoch second at which the window resets.
    pub resets_at: Option<i64>,
    /// Upstream hint that the window is anchored and may expire locally.
    pub has_reset: Option<bool>,
}

/// `t + len`, saturating at the largest `i64`.
pub open spec fn advance_by(t: i64, len: i64) -> i64 {
    if t + len <= i64::MAX {
        (t + len) as i64
    } else {
        i64::MAX
    }
}

/// A window expires locally when it is anchored and its reset time has come.
pub open spec fn window_due(w: UsageWindow, now: i64) -> bool {
    &&& w.has_reset == Some(true)
    &&& w.resets_at is Some
    &&& now >= w.resets_at->0
}

/// The window after a maintenance pass at `now`.
pub open spec fn refreshed_window(w: UsageWindow, len: i64, now: i64) -> UsageWindow {
    if window_due(w, now) {
        UsageWindow { usage: 0, resets_at: Some(advance_by(w.resets_at->0, len)), ..w }
    } else {
        w
    }
}

impl UsageWindow {
    /// A window with no usage and no reset information.
    pub open spec fn empty_spec() -> UsageWindow {
        UsageWindow { usage: 0, resets_at: None, has_reset: None }
    }

    pub fn empty() -> (r: UsageWindow)
        ensures
            r == UsageWindow::empty_spec(),
    {
        UsageWindow { usage: 0, resets_at: None, has_reset: None }
    }

    /// Zeroes the window and moves its reset time one window length on, when
    /// it is due; returns whether it was.
    pub fn reset_if_due(&mut self, len: i64, now: i64) -> (changed: bool)
        requires
            len > 0,
        ensures
            changed == window_due(*old(self), now),
            *final(self) == refreshed_window(*old(self), len, now),
    {
        if self.has_reset == Some(true) {
            if let Some(t) = self.resets_at {
                if now >= t {
                    self.usage = 0;
                    let next = if t <= i64::MAX - len {
                        t + len
                    } else {
                        i64::MAX
                    };
                    self.resets_at = Some(next);
                    return true;
                }
            }
        }
        false
    }
}

/// Subscription tier of the account behind a credential.
#[derive(Debug, Clone, Copy, PartialEq, Eq, Structural)]
pub enum SubscriptionTier {
    Free,
    Pro,
    Unknown,
}

/// Why a used credential is handed back to the pool.
#[derive(Debug, Clone, Copy, PartialEq, Eq, Structural)]
pub enum Reason {
    /// Healthy: the credential stays in rotation.
    NormalPro,
    /// Rate limited until the given epoch second.
    TooManyRequest(i64),
    /// Restricted until the given epoch second.
    Restricted(i64),
    /// The account is on the free tier, which upstream rejects.
    Free,
    /// The account was disabled.
    Disabled,
    /// Authentication failed for good.
    Banned,
    /// Some other fatal upstream answer.
    Null,
}

/// Reasons that send a credential to cool down.
pub open spec fn is_cooling_reason(r: Reason) -> bool {
    r is TooManyRequest || r is Restricted
}

/// The end of the cool-down that a cooling reason asks for.
pub open spec fn cooling_end(r: Reason) -> i64 {
    match r {
        Reason::TooManyRequest(t) => t,
        Reason::Restricted(t) => t,
        _ => 0,
    }
}

/// Reasons that retire a credential for good.
pub open spec fn is_dead_reason(r: Reason) -> bool {
    !(r is NormalPro) && !is_cooling_reason(r)
}

/// A credential with its usage windows and cool-down state.
/// Two records stand for the same credential when their tokens are equal.
#[derive(Debug)]
pub struct CookieStatus {
    /// The opaque credential token.
    pub cookie: String,
    pub tier: SubscriptionTier,
    /// While present, the credential cools down until this epoch second.
    pub reset_time: Option<i64>,
    pub session: UsageWindow,
    pub weekly: UsageWindow,
    pub weekly_sonnet: UsageWindow,
    pub weekly_opus: UsageWindow,
}

impl Clone for CookieStatus {
    fn clone(&self) -> (r: Self)
        ensures
            r == *self,
    {
        CookieStatus {
            cookie: self.cookie.clone(),
            tier: self.tier,
            reset_time: self.reset_time,
            session: self.session,
            weekly: self.weekly,
            weekly_sonnet: self.weekly_sonnet,
            weekly_opus: self.weekly_opus,
        }
    }
}

impl PartialEq for CookieStatus {
    /// Records are equal when their tokens are.
    fn eq(&self, other: &CookieStatus) -> (r: bool)
        ensures
            r == (self.cookie@ == other.cookie@),
    {
        self.cookie == other.cookie
    }
}

impl vstd::std_specs::cmp::PartialEqSpecImpl for CookieStatus {
    open spec fn obeys_eq_spec() -> bool {
        true
    }

    open spec fn eq_spec(&self, other: &CookieStatus) -> bool {
        self.cookie@ == other.cookie@
    }
}

/// The record after a maintenance pass at `now` over its four windows.
pub open spec fn refreshed(c: CookieStatus, now: i64) -> CookieStatus {
    CookieStatus {
        session: refreshed_window(c.session, SESSION_WINDOW_SECS, now),
        weekly: refreshed_window(c.weekly, WEEKLY_WINDOW_SECS, now),
        weekly_sonnet: refreshed_window(c.weekly_sonnet, WEEKLY_WINDOW_SECS, now),
        weekly_opus: refreshed_window(c.weekly_opus, WEEKLY_WINDOW_SECS, now),
        ..c
    }
}

/// Whether a maintenance pass at `now` changes some window of the record.
pub open spec fn any_window_due(c: CookieStatus, now: i64) -> bool {
    window_due(c.session, now) || window_due(c.weekly, now) || window_due(c.weekly_sonnet, now)
        || window_due(c.weekly_opus, now)
}

/// The record with the usage of every window set to zero.
pub open spec fn usage_cleared(c: CookieStatus) -> CookieStatus {
    CookieStatus {
        session: UsageWindow { usage: 0, ..c.session },
        weekly: UsageWindow { usage: 0, ..c.weekly },
        weekly_sonnet: UsageWindow { usage: 0, ..c.weekly_sonnet },
        weekly_opus: UsageWindow { usage: 0, ..c.weekly_opus },
        ..c
    }
}

/// A cooling record is due for promotion once its cool-down has ended.
pub open spec fn cooled_down(c: CookieStatus, now: i64) -> bool {
    c.reset_time is Some && c.reset_time->0 <= now
}

/// The record after the cool-down check at `now`.
pub open spec fn after_cool_down(c: CookieStatus, now: i64) -> CookieStatus {
    if cooled_down(c, now) {
        CookieStatus { reset_time: None, ..c }
    } else {
        c
    }
}

impl CookieStatus {
    /// A fresh credential with the given token: no usage, no cool-down.
    pub fn new(cookie: String) -> (r: CookieStatus)
        ensures
            r.cookie == cookie,
            r.tier == SubscriptionTier::Unknown,
            r.reset_time is None,
            r.session == UsageWindow::empty_spec(),
            r.weekly == UsageWindow::empty_spec(),
            r.weekly_sonnet == UsageWindow::empty_spec(),
            r.weekly_opus == UsageWindow::empty_spec(),
    {
        CookieStatus {
            cookie,
            tier: SubscriptionTier::Unknown,
            reset_time: None,
            session: UsageWindow::empty(),
            weekly: UsageWindow::empty(),
            weekly_sonnet: UsageWindow::empty(),
            weekly_opus: UsageWindow::empty(),
        }
    }

    /// Expires every window that is due at `now`; returns whether any was.
    pub fn refresh_windows(&mut self, now: i64) -> (changed: bool)
        ensures
            *final(self) == refreshed(*old(self), now),
            changed == any_window_due(*old(self), now),
    {
        let a = self.session.reset_if_due(SESSION_WINDOW_SECS, now);
        let b = self.weekly.reset_if_due(WEEKLY_WINDOW_SECS, now);
        let c = self.weekly_sonnet.reset_if_due(WEEKLY_WINDOW_SECS, now);
        let d = self.weekly_opus.reset_if_due(WEEKLY_WINDOW_SECS, now);
        a || b || c || d
    }

    /// Sets the usage of every window to zero.
    pub fn reset_window_usage(&mut self)
        ensures
            *final(self) == usage_cleared(*old(self)),
    {
        self.session.usage = 0;
        self.weekly.usage = 0;
        self.weekly_sonnet.usage = 0;
        self.weekly_opus.usage = 0;
    }

    /// Ends the cool-down when its time has come by `now`.
    pub fn reset(self, now: i64) -> (r: CookieStatus)
        ensures
            r == after_cool_down(self, now),
    {
        let mut c = self;
        if let Some(t) = c.reset_time {
            if t <= now {
                c.reset_time = None;
            }
        }
        c
    }
}

/// A retired credential with the reason it was retired for.
/// Two entries stand for the same credential when their tokens are equal.
#[derive(Debug)]
pub struct UselessCookie {
    pub cookie: String,
    pub reason: Reason,
}

impl Clone for UselessCookie {
    fn clone(&self) -> (r: Self)
        ensures
            r == *self,
    {
        UselessCookie { cookie: self.cookie.clone(), reason: self.reason }
    }
}

impl PartialEq for UselessCookie {
    /// Entries are equal when their tokens are.
    fn eq(&self, other: &UselessCookie) -> (r: bool)
        ensures
            r == (self.cookie@ == other.cookie@),
    {
        self.cookie == other.cookie
    }
}

impl vstd::std_specs::cmp::PartialEqSpecImpl for UselessCookie {
    open spec fn obeys_eq_spec() -> bool {
        true
    }

    open spec fn eq_spec(&self, other: &UselessCookie) -> bool {
        self.cookie@ == other.cookie@
    }
}

impl UselessCookie {
    pub fn new(cookie: String, reason: Reason) -> (r: UselessCookie)
        ensures
            r.cookie == cookie,
            r.reason == reason,
    {
        UselessCookie { cookie, reason }
    }
}

} // verus!
