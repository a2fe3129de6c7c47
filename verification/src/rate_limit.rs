//! Per-key attempt limiting for the authentication endpoints.
//!
//! Every key (action, client address, user name) owns a window that opens at
//! its first attempt. Inside a window at most `max_attempts` attempts are
//! allowed; further attempts are refused with the number of seconds left in
//! the window. Windows older than the configured length are forgotten.
use std::time::Instant;
use vstd::prelude::*;

verus! {

/// Nanoseconds in one second.
pub const NANOS_PER_SEC: u128 = 1_000_000_000;

/// The longest window, in nanoseconds: `u64::MAX` seconds and 999,999,999
/// nanoseconds, as for a `Duration`.
pub const MAX_DURATION_NANOS: u128 = 18_446_744_073_709_551_615_999_999_999;

#[verifier::external_type_specification]
#[verifier::external_body]
pub struct ExInstant(Instant);

/// `std::time::Instant::now`: a reading of the monotonic clock. Nothing is
/// promised of the value.
#[verifier::external_body]
fn instant_now() -> Instant {
    Instant::now()
}

/// `std::time::Instant::elapsed`, taken in nanoseconds: the time that passed
/// since `origin` was read. It depends on the clock, so nothing is promised
/// of the value.
#[verifier::external_body]
fn nanos_since(origin: &Instant) -> u128 {
    origin.elapsed().as_nanos()
}

/// The abstract value of a key: action, client address and user name.
pub type KeyView = (Seq<char>, Seq<char>, Seq<char>);

/// The key under which attempts are counted.
#[derive(Debug, Clone, PartialEq, Eq, Hash)]
pub struct AuthRateLimitKey {
    action: String,
    client_ip: String,
    username: String,
}

impl View for AuthRateLimitKey {
    type V = KeyView;

    closed spec fn view(&self) -> KeyView {
        (self.action@, self.client_ip@, self.username@)
    }
}

impl AuthRateLimitKey {
    pub fn new(action: &'static str, client_ip: String, username: String) -> (key: Self)
        ensures
            key@ == (action@, client_ip@, username@),
    {
        AuthRateLimitKey { action: action.to_owned(), client_ip, username }
    }

    /// Key equality over the three components.
    pub fn same_as(&self, other: &AuthRateLimitKey) -> (same: bool)
        ensures
            same == (self@ == other@),
    {
        let a = self.action == other.action;
        let b = self.client_ip == other.client_ip;
        let c = self.username == other.username;
        a && b && c
    }
}

/// The answer to one attempt.
#[derive(Debug, Clone, Copy, PartialEq, Eq, Structural)]
pub struct RateLimitDecision {
    pub allowed: bool,
    pub retry_after_secs: u64,
}

/// The state kept for one key: when its window opened and how many attempts
/// it has counted.
#[derive(Debug)]
struct AttemptWindow {
    key: AuthRateLimitKey,
    started_at: u128,
    attempts: u32,
}

/// Window start and attempt count of a key.
pub type WindowView = (u128, u32);

/// Time elapsed from `started` to `now`, zero when `now` is earlier.
pub open spec fn elapsed(now: u128, started: u128) -> int {
    if now >= started {
        now - started
    } else {
        0
    }
}

/// A window opened at `started` has run out at `now`.
pub open spec fn expired(now: u128, started: u128, window: u128) -> bool {
    elapsed(now, started) >= window
}

/// The windows of `m` that are still open at `now`.
pub open spec fn live_windows(m: Map<KeyView, WindowView>, now: u128, window: u128) -> Map<
    KeyView,
    WindowView,
> {
    Map::new(|k: KeyView| m.contains_key(k) && !expired(now, m[k].0, window), |k: KeyView| m[k])
}

/// The window of key `k` used by an attempt at `now`: the open one if there
/// is one, otherwise a fresh one.
pub open spec fn current_window(
    m: Map<KeyView, WindowView>,
    now: u128,
    window: u128,
    k: KeyView,
) -> WindowView {
    let live = live_windows(m, now, window);
    let w = if live.contains_key(k) {
        live[k]
    } else {
        (now, 0u32)
    };
    if expired(now, w.0, window) {
        (now, 0u32)
    } else {
        w
    }
}

/// Whether an attempt of key `k` at `now` is allowed.
pub open spec fn attempt_allowed(
    m: Map<KeyView, WindowView>,
    max_attempts: u32,
    now: u128,
    window: u128,
    k: KeyView,
) -> bool {
    current_window(m, now, window, k).1 < max_attempts
}

/// Seconds to wait before a refused attempt may succeed (at least one).
pub open spec fn retry_after(
    m: Map<KeyView, WindowView>,
    now: u128,
    window: u128,
    k: KeyView,
) -> int {
    let left = window - elapsed(now, current_window(m, now, window, k).0);
    let left = if left > 0 {
        left
    } else {
        0
    };
    let secs = left / (NANOS_PER_SEC as int);
    if secs >= 1 {
        secs
    } else {
        1
    }
}

/// The state after an attempt of key `k` at `now`.
pub open spec fn after_attempt(
    m: Map<KeyView, WindowView>,
    max_attempts: u32,
    now: u128,
    window: u128,
    k: KeyView,
) -> Map<KeyView, WindowView> {
    let w = current_window(m, now, window, k);
    let count = if w.1 < max_attempts {
        (w.1 + 1) as u32
    } else {
        w.1
    };
    live_windows(m, now, window).insert(k, (w.0, count))
}

/// The decision given to an attempt of key `k` at `now`.
pub open spec fn decision_for(
    m: Map<KeyView, WindowView>,
    max_attempts: u32,
    now: u128,
    window: u128,
    k: KeyView,
) -> (bool, int) {
    if attempt_allowed(m, max_attempts, now, window, k) {
        (true, 0)
    } else {
        (false, retry_after(m, now, window, k))
    }
}

/// The index of the window of `key`, if there is one.
fn position_of(windows: &Vec<AttemptWindow>, key: &AuthRateLimitKey) -> (position: Option<usize>)
    ensures
        match position {
            Some(i) => i < windows@.len() && windows@[i as int].key@ == key@,
            None => forall|i: int| 0 <= i < windows@.len() ==> #[trigger] windows@[i].key@ != key@,
        },
{
    let mut idx: usize = 0;
    while idx < windows.len()
        invariant
            0 <= idx <= windows@.len(),
            forall|i: int| 0 <= i < idx ==> #[trigger] windows@[i].key@ != key@,
        decreases windows@.len() - idx,
    {
        if windows[idx].key.same_as(key) {
            return Some(idx);
        }
        idx = idx + 1;
    }
    None
}

/// Counts authentication attempts per key within a sliding window.
pub struct AuthRateLimiter {
    max_attempts: u32,
    window_nanos: u128,
    origin: Instant,
    windows: Vec<AttemptWindow>,
    model: Ghost<Map<KeyView, WindowView>>,
}

impl AuthRateLimiter {
    /// The abstract state: the window of every key that has one.
    pub closed spec fn windows_view(&self) -> Map<KeyView, WindowView> {
        self.model@
    }

    pub closed spec fn max_attempts_view(&self) -> u32 {
        self.max_attempts
    }

    pub closed spec fn window_view(&self) -> u128 {
        self.window_nanos
    }

    /// The stored windows and the abstract state agree, one window per key.
    pub closed spec fn wf(&self) -> bool {
        &&& self.window_nanos <= MAX_DURATION_NANOS
        &&& forall|i: int, j: int|
            0 <= i < j < self.windows@.len() ==> #[trigger] self.windows@[i].key@
                != #[trigger] self.windows@[j].key@
        &&& forall|i: int|
            0 <= i < self.windows@.len() ==> {
                let w = #[trigger] self.windows@[i];
                &&& self.model@.contains_key(w.key@)
                &&& self.model@[w.key@] == (w.started_at, w.attempts)
            }
        &&& forall|k: KeyView|
            #[trigger] self.model@.contains_key(k) ==> exists|i: int|
                0 <= i < self.windows@.len() && #[trigger] self.windows@[i].key@ == k
    }

    /// A limiter that allows `max_attempts` attempts per key within a window
    /// of `window_secs` seconds.
    pub fn new(max_attempts: u32, window_secs: u64) -> (limiter: Self)
        ensures
            limiter.wf(),
            limiter.windows_view() == Map::<KeyView, WindowView>::empty(),
            limiter.max_attempts_view() == max_attempts,
            limiter.window_view() == window_secs as int * NANOS_PER_SEC,
    {
        assert(window_secs as int * NANOS_PER_SEC <= MAX_DURATION_NANOS) by (nonlinear_arith)
            requires
                window_secs <= u64::MAX,
        ;
        let window_nanos = window_secs as u128 * NANOS_PER_SEC;
        AuthRateLimiter {
            max_attempts,
            window_nanos,
            origin: instant_now(),
            windows: Vec::new(),
            model: Ghost(Map::empty()),
        }
    }

    /// Records an attempt of `key` now and says whether it is allowed.
    pub fn check(&mut self, key: AuthRateLimitKey) -> (decision: RateLimitDecision)
        requires
            old(self).wf(),
        ensures
            final(self).wf(),
            final(self).max_attempts_view() == old(self).max_attempts_view(),
            final(self).window_view() == old(self).window_view(),
            exists|now: u128|
                {
                    &&& final(self).windows_view() == after_attempt(
                        old(self).windows_view(),
                        old(self).max_attempts_view(),
                        now,
                        old(self).window_view(),
                        key@,
                    )
                    &&& (decision.allowed, decision.retry_after_secs as int) == decision_for(
                        old(self).windows_view(),
                        old(self).max_attempts_view(),
                        now,
                        old(self).window_view(),
                        key@,
                    )
                },
    {
        let now = nanos_since(&self.origin);
        self.check_at(key, now)
    }

    /// Records an attempt of `key` at clock reading `now` (nanoseconds on the
    /// limiter's clock) and says whether it is allowed.
    pub fn check_at(&mut self, key: AuthRateLimitKey, now: u128) -> (decision: RateLimitDecision)
        requires
            old(self).wf(),
        ensures
            final(self).wf(),
            final(self).max_attempts_view() == old(self).max_attempts_view(),
            final(self).window_view() == old(self).window_view(),
            final(self).windows_view() == after_attempt(
                old(self).windows_view(),
                old(self).max_attempts_view(),
                now,
                old(self).window_view(),
                key@,
            ),
            (decision.allowed, decision.retry_after_secs as int) == decision_for(
                old(self).windows_view(),
                old(self).max_attempts_view(),
                now,
                old(self).window_view(),
                key@,
            ),
    {
        let ghost m0 = self.model@;
        let window = self.window_nanos;
        let ghost live = live_windows(m0, now, window);
        // Forget the windows that ran out.
        let mut rest: Vec<AttemptWindow> = Vec::new();
        std::mem::swap(&mut rest, &mut self.windows);
        let ghost orig = rest@;
        let mut kept: Vec<AttemptWindow> = Vec::new();
        let ghost mut seen: Map<KeyView, WindowView> = Map::empty();
        while rest.len() > 0
            invariant
                rest@ == orig.take(rest@.len() as int),
                rest@.len() <= orig.len(),
                forall|i: int, j: int|
                    0 <= i < j < orig.len() ==> #[trigger] orig[i].key@ != #[trigger] orig[j].key@,
                forall|i: int|
                    0 <= i < orig.len() ==> {
                        let w = #[trigger] orig[i];
                        &&& m0.contains_key(w.key@)
                        &&& m0[w.key@] == (w.started_at, w.attempts)
                    },
                forall|i: int, j: int|
                    0 <= i < j < kept@.len() ==> #[trigger] kept@[i].key@ != #[trigger] kept@[j].key@,
                forall|i: int|
                    0 <= i < kept@.len() ==> {
                        let w = #[trigger] kept@[i];
                        &&& seen.contains_key(w.key@)
                        &&& seen[w.key@] == (w.started_at, w.attempts)
                    },
                forall|k: KeyView|
                    #[trigger] seen.contains_key(k) ==> exists|i: int|
                        0 <= i < kept@.len() && #[trigger] kept@[i].key@ == k,
                forall|k: KeyView|
                    #[trigger] seen.contains_key(k) <==> (live.contains_key(k) && exists|i: int|
                        rest@.len() <= i < orig.len() && #[trigger] orig[i].key@ == k),
                forall|k: KeyView| #[trigger] seen.contains_key(k) ==> seen[k] == live[k],
                live == live_windows(m0, now, window),
                window == self.window_nanos,
                self.window_nanos == old(self).window_nanos,
                self.max_attempts == old(self).max_attempts,
                self.window_nanos <= MAX_DURATION_NANOS,
            decreases rest@.len(),
        {
            let ghost n = rest@.len();
            let w = rest.pop().unwrap();
            assert(w == orig[n - 1]);
            let elapsed_now: u128 = if now >= w.started_at {
                now - w.started_at
            } else {
                0
            };
            if elapsed_now < window {
                proof {
                    assert forall|i: int| 0 <= i < kept@.len() implies #[trigger] kept@[i].key@
                        != w.key@ by {
                        if kept@[i].key@ == w.key@ {
                            let j = choose|j: int|
                                n <= j < orig.len() && #[trigger] orig[j].key@ == w.key@;
                            assert(orig[j].key@ != orig[n - 1].key@);
                        }
                    }
                    seen = seen.insert(w.key@, (w.started_at, w.attempts));
                }
                let ghost kept_before = kept@;
                kept.push(w);
                proof {
                    assert forall|k: KeyView| #[trigger] seen.contains_key(k) implies exists|i: int|
                        0 <= i < kept@.len() && #[trigger] kept@[i].key@ == k by {
                        if k == w.key@ {
                            assert(kept@[kept@.len() - 1].key@ == k);
                        } else {
                            let i = choose|i: int|
                                0 <= i < kept_before.len() && #[trigger] kept_before[i].key@ == k;
                            assert(kept@[i].key@ == k);
                        }
                    }
                    assert forall|k: KeyView| #[trigger] seen.contains_key(k) <==> (live.contains_key(k)
                        && exists|i: int| rest@.len() <= i < orig.len() && #[trigger] orig[i].key@
                        == k) by {
                        if k == w.key@ {
                            assert(orig[n - 1].key@ == k);
                        }
                        if live.contains_key(k) && exists|i: int|
                            rest@.len() <= i < orig.len() && #[trigger] orig[i].key@ == k {
                            let i = choose|i: int|
                                rest@.len() <= i < orig.len() && #[trigger] orig[i].key@ == k;
                            if i != n - 1 {
                                assert(orig[i].key@ == k);
                            }
                        }
                    }
                }
            } else {
                proof {
                    assert(!live.contains_key(w.key@));
                    assert forall|k: KeyView| #[trigger] seen.contains_key(k) <==> (live.contains_key(k)
                        && exists|i: int| rest@.len() <= i < orig.len() && #[trigger] orig[i].key@
                        == k) by {
                        if live.contains_key(k) && exists|i: int|
                            rest@.len() <= i < orig.len() && #[trigger] orig[i].key@ == k {
                            let i = choose|i: int|
                                rest@.len() <= i < orig.len() && #[trigger] orig[i].key@ == k;
                            if i != n - 1 {
                                assert(orig[i].key@ == k);
                            }
                        }
                    }
                }
            }
        }
        proof {
            assert forall|k: KeyView| #[trigger] live.contains_key(k) implies seen.contains_key(k) by {
                let i = choose|i: int|
                    0 <= i < old(self).windows@.len() && #[trigger] old(self).windows@[i].key@ == k;
                assert(orig[i].key@ == k);
            }
            assert(seen =~= live);
        }
        // Find the key's window among the open ones.
        let position = position_of(&kept, &key);
        let found = position.is_some();
        let idx: usize = match position {
            Some(i) => i,
            None => 0,
        };
        proof {
            if found {
                assert(seen.contains_key(key@));
            } else {
                assert(!seen.contains_key(key@)) by {
                    if seen.contains_key(key@) {
                        let i = choose|i: int| 0 <= i < kept@.len() && #[trigger] kept@[i].key@ == key@;
                        assert(kept@[i].key@ == key@);
                    }
                }
            }
        }
        let (mut started_at, mut attempts) = if found {
            (kept[idx].started_at, kept[idx].attempts)
        } else {
            (now, 0u32)
        };
        let elapsed_now: u128 = if now >= started_at {
            now - started_at
        } else {
            0
        };
        if elapsed_now >= window {
            started_at = now;
            attempts = 0;
        }
        let elapsed_now: u128 = if now >= started_at {
            now - started_at
        } else {
            0
        };
        assert(current_window(m0, now, window, key@) == (started_at, attempts));
        let allowed = attempts < self.max_attempts;
        let retry_after_secs: u64 = if allowed {
            0
        } else {
            let left: u128 = if window >= elapsed_now {
                window - elapsed_now
            } else {
                0
            };
            let secs: u128 = left / NANOS_PER_SEC;
            assert(secs <= u64::MAX) by (nonlinear_arith)
                requires
                    secs == left / 1_000_000_000u128,
                    left <= MAX_DURATION_NANOS,
            ;
            if secs >= 1 {
                secs as u64
            } else {
                1
            }
        };
        let count: u32 = if allowed {
            attempts + 1
        } else {
            attempts
        };
        let ghost new_model = seen.insert(key@, (started_at, count));
        let entry = AttemptWindow { key, started_at, attempts: count };
        let ghost kept_before = kept@;
        if found {
            kept.set(idx, entry);
        } else {
            kept.push(entry);
        }
        proof {
            if found {
                assert forall|i: int, j: int|
                    0 <= i < j < kept@.len() implies #[trigger] kept@[i].key@
                    != #[trigger] kept@[j].key@ by {}
            } else {
                assert forall|i: int, j: int|
                    0 <= i < j < kept@.len() implies #[trigger] kept@[i].key@
                    != #[trigger] kept@[j].key@ by {
                    if j == kept@.len() - 1 {
                        assert(kept@[i].key@ != key@);
                    }
                }
            }
            assert forall|i: int| 0 <= i < kept@.len() implies {
                let w = #[trigger] kept@[i];
                &&& new_model.contains_key(w.key@)
                &&& new_model[w.key@] == (w.started_at, w.attempts)
            } by {
                if found {
                    if i != idx {
                        assert(kept_before[i].key@ != kept_before[idx as int].key@);
                    }
                } else if i < kept_before.len() {
                    assert(kept_before[i].key@ != key@);
                }
            }
        }
        self.windows = kept;
        self.model = Ghost(new_model);
        proof {
            assert forall|k: KeyView| #[trigger] self.model@.contains_key(k) implies exists|i: int|
                0 <= i < self.windows@.len() && #[trigger] self.windows@[i].key@ == k by {
                if k == key@ {
                    if found {
                        assert(self.windows@[idx as int].key@ == k);
                    } else {
                        assert(self.windows@[self.windows@.len() - 1].key@ == k);
                    }
                } else {
                    let i = choose|i: int|
                        0 <= i < kept_before.len() && #[trigger] kept_before[i].key@ == k;
                    assert(self.windows@[i].key@ == k);
                }
            }
        }
        RateLimitDecision { allowed, retry_after_secs }
    }

    /// Forgets the window of `key`.
    pub fn reset(&mut self, key: &AuthRateLimitKey)
        requires
            old(self).wf(),
        ensures
            final(self).wf(),
            final(self).max_attempts_view() == old(self).max_attempts_view(),
            final(self).window_view() == old(self).window_view(),
            final(self).windows_view() == old(self).windows_view().remove(key@),
    {
        let mut idx: usize = 0;
        while idx < self.windows.len()
            invariant
                0 <= idx <= self.windows@.len(),
                forall|i: int| 0 <= i < idx ==> #[trigger] self.windows@[i].key@ != key@,
                self.wf(),
                self.model@ == old(self).model@,
                self.max_attempts == old(self).max_attempts,
                self.window_nanos == old(self).window_nanos,
            decreases self.windows@.len() - idx,
        {
            if self.windows[idx].key.same_as(key) {
                let ghost before = self.windows@;
                let ghost m = self.model@;
                let _removed = self.windows.remove(idx);
                self.model = Ghost(m.remove(key@));
                proof {
                    assert forall|i: int, j: int|
                        0 <= i < j < self.windows@.len() implies #[trigger] self.windows@[i].key@
                        != #[trigger] self.windows@[j].key@ by {
                        let a = if i < idx { i } else { i + 1 };
                        let b = if j < idx { j } else { j + 1 };
                        assert(before[a].key@ != before[b].key@);
                    }
                    assert forall|i: int| 0 <= i < self.windows@.len() implies {
                        let w = #[trigger] self.windows@[i];
                        &&& self.model@.contains_key(w.key@)
                        &&& self.model@[w.key@] == (w.started_at, w.attempts)
                    } by {
                        let a = if i < idx { i } else { i + 1 };
                        assert(before[a].key@ != before[idx as int].key@);
                    }
                    assert forall|k: KeyView| #[trigger] self.model@.contains_key(k) implies exists|i: int|
                        0 <= i < self.windows@.len() && #[trigger] self.windows@[i].key@ == k by {
                        let a = choose|a: int| 0 <= a < before.len() && #[trigger] before[a].key@ == k;
                        let i = if a < idx { a } else { a - 1 };
                        assert(self.windows@[i].key@ == k);
                    }
                }
                return;
            }
            idx = idx + 1;
        }
        proof {
            assert(!self.model@.contains_key(key@)) by {
                if self.model@.contains_key(key@) {
                    let i = choose|i: int| 0 <= i < self.windows@.len() && #[trigger] self.windows@[i].key@ == key@;
                    assert(self.windows@[i].key@ == key@);
                }
            }
            assert(self.model@.remove(key@) =~= self.model@);
        }
    }
}

/// Whether a sequence of attempts of key `k`, made at the clock readings
/// `times` starting from state `m`, is allowed, attempt by attempt.
pub open spec fn run_attempts(
    m: Map<KeyView, WindowView>,
    max_attempts: u32,
    window: u128,
    k: KeyView,
    times: Seq<u128>,
) -> Seq<bool>
    decreases times.len(),
{
    if times.len() == 0 {
        Seq::empty()
    } else {
        seq![attempt_allowed(m, max_attempts, times[0], window, k)] + run_attempts(
            after_attempt(m, max_attempts, times[0], window, k),
            max_attempts,
            window,
            k,
            times.drop_first(),
        )
    }
}

proof fn lemma_run_in_open_window(
    m: Map<KeyView, WindowView>,
    max_attempts: u32,
    window: u128,
    k: KeyView,
    t0: u128,
    count: u32,
    times: Seq<u128>,
)
    requires
        m.contains_key(k),
        m[k] == (t0, count),
        count <= max_attempts,
        forall|i: int| 0 <= i < times.len() ==> t0 <= #[trigger] times[i] && times[i] - t0 < window,
    ensures
        run_attempts(m, max_attempts, window, k, times).len() == times.len(),
        forall|i: int|
            0 <= i < times.len() ==> #[trigger] run_attempts(m, max_attempts, window, k, times)[i]
                == (count + i < max_attempts),
    decreases times.len(),
{
    if times.len() > 0 {
        let now = times[0];
        assert(live_windows(m, now, window).contains_key(k));
        assert(current_window(m, now, window, k) == (t0, count));
        let next = after_attempt(m, max_attempts, now, window, k);
        let c2: u32 = if count < max_attempts {
            (count + 1) as u32
        } else {
            count
        };
        assert(next[k] == (t0, c2));
        let rest = times.drop_first();
        assert forall|i: int| 0 <= i < rest.len() implies t0 <= #[trigger] rest[i] && rest[i] - t0
            < window by {
            assert(rest[i] == times[i + 1]);
        }
        lemma_run_in_open_window(next, max_attempts, window, k, t0, c2, rest);
        let r = run_attempts(m, max_attempts, window, k, times);
        assert forall|i: int| 0 <= i < times.len() implies #[trigger] r[i] == (count + i
            < max_attempts) by {
            if i > 0 {
                assert(r[i] == run_attempts(next, max_attempts, window, k, rest)[i - 1]);
            }
        }
    }
}

/// Law: attempts of a key that has no open window, made at non-decreasing
/// clock readings all within one window length of the first, are allowed
/// exactly for the first `max_attempts` of them and refused afterwards.
pub proof fn law_attempt_limit(
    m: Map<KeyView, WindowView>,
    max_attempts: u32,
    window: u128,
    k: KeyView,
    times: Seq<u128>,
)
    requires
        times.len() > 0,
        !live_windows(m, times[0], window).contains_key(k),
        forall|i: int|
            0 <= i < times.len() ==> times[0] <= #[trigger] times[i] && times[i] - times[0] < window,
    ensures
        run_attempts(m, max_attempts, window, k, times).len() == times.len(),
        forall|i: int|
            0 <= i < times.len() ==> #[trigger] run_attempts(m, max_attempts, window, k, times)[i]
                == (i < max_attempts),
{
    let t0 = times[0];
    assert(times[0] - t0 < window);
    assert(current_window(m, t0, window, k) == (t0, 0u32));
    let next = after_attempt(m, max_attempts, t0, window, k);
    let c: u32 = if 0 < max_attempts {
        1
    } else {
        0
    };
    assert(next[k] == (t0, c));
    let rest = times.drop_first();
    assert forall|i: int| 0 <= i < rest.len() implies t0 <= #[trigger] rest[i] && rest[i] - t0
        < window by {
        assert(rest[i] == times[i + 1]);
    }
    lemma_run_in_open_window(next, max_attempts, window, k, t0, c, rest);
    let r = run_attempts(m, max_attempts, window, k, times);
    assert forall|i: int| 0 <= i < times.len() implies #[trigger] r[i] == (i < max_attempts) by {
        if i > 0 {
            assert(r[i] == run_attempts(next, max_attempts, window, k, rest)[i - 1]);
        }
    }
}

/// Law: after the window of a key is forgotten, its next attempt is allowed
/// whenever any attempt may be allowed at all.
pub proof fn law_reset_clears_window(
    m: Map<KeyView, WindowView>,
    max_attempts: u32,
    now: u128,
    window: u128,
    k: KeyView,
)
    ensures
        attempt_allowed(m.remove(k), max_attempts, now, window, k) == (max_attempts > 0),
{
    assert(!live_windows(m.remove(k), now, window).contains_key(k));
}

/// Law: keys are counted independently. The decision for a key depends only
/// on that key's own window, and an attempt leaves the other keys' open
/// windows as they were.
pub proof fn law_keys_independent(
    m1: Map<KeyView, WindowView>,
    m2: Map<KeyView, WindowView>,
    max_attempts: u32,
    now: u128,
    window: u128,
    k: KeyView,
    other: KeyView,
)
    requires
        m1.contains_key(k) == m2.contains_key(k),
        m1.contains_key(k) ==> m1[k] == m2[k],
        other != k,
    ensures
        decision_for(m1, max_attempts, now, window, k) == decision_for(
            m2,
            max_attempts,
            now,
            window,
            k,
        ),
        after_attempt(m1, max_attempts, now, window, k).contains_key(other) == live_windows(
            m1,
            now,
            window,
        ).contains_key(other),
        live_windows(m1, now, window).contains_key(other) ==> after_attempt(
            m1,
            max_attempts,
            now,
            window,
            k,
        )[other] == m1[other],
{
    assert(live_windows(m1, now, window).contains_key(k) == live_windows(m2, now, window).contains_key(k));
    assert(current_window(m1, now, window, k) == current_window(m2, now, window, k));
}

/// Law: no window ever counts more than `max_attempts` attempts.
pub proof fn law_counts_bounded(
    m: Map<KeyView, WindowView>,
    max_attempts: u32,
    now: u128,
    window: u128,
    k: KeyView,
)
    requires
        forall|j: KeyView| #[trigger] m.contains_key(j) ==> m[j].1 <= max_attempts,
    ensures
        forall|j: KeyView|
            #[trigger] after_attempt(m, max_attempts, now, window, k).contains_key(j) ==> after_attempt(
                m,
                max_attempts,
                now,
                window,
                k,
            )[j].1 <= max_attempts,
{
}

/// One call on the limiter, as the model sees it: an attempt of a key at a
/// clock reading, or a reset of a key.
pub enum LimiterEvent {
    Attempt(KeyView, u128),
    Reset(KeyView),
}

/// The state after one call.
pub open spec fn apply_event(
    m: Map<KeyView, WindowView>,
    max_attempts: u32,
    window: u128,
    e: LimiterEvent,
) -> Map<KeyView, WindowView> {
    match e {
        LimiterEvent::Attempt(k, now) => after_attempt(m, max_attempts, now, window, k),
        LimiterEvent::Reset(k) => m.remove(k),
    }
}

/// The state after a run of calls, in order.
pub open spec fn replay(
    m: Map<KeyView, WindowView>,
    max_attempts: u32,
    window: u128,
    es: Seq<LimiterEvent>,
) -> Map<KeyView, WindowView>
    decreases es.len(),
{
    if es.len() == 0 {
        m
    } else {
        replay(apply_event(m, max_attempts, window, es[0]), max_attempts, window, es.drop_first())
    }
}

/// Whether a call concerns key `k`.
pub open spec fn touches(e: LimiterEvent, k: KeyView) -> bool {
    match e {
        LimiterEvent::Attempt(j, _) => j == k,
        LimiterEvent::Reset(j) => j == k,
    }
}

/// The calls of a run that concern key `k`, in order.
pub open spec fn events_of(es: Seq<LimiterEvent>, k: KeyView) -> Seq<LimiterEvent>
    decreases es.len(),
{
    if es.len() == 0 {
        Seq::empty()
    } else if touches(es[0], k) {
        seq![es[0]] + events_of(es.drop_first(), k)
    } else {
        events_of(es.drop_first(), k)
    }
}

/// The clock reading after a call, the last one being `floor`.
pub open spec fn next_floor(e: LimiterEvent, floor: u128) -> u128 {
    match e {
        LimiterEvent::Attempt(_, now) => now,
        LimiterEvent::Reset(_) => floor,
    }
}

/// The clock reading of the last attempt of a run, `floor` when it has none.
pub open spec fn floor_after(es: Seq<LimiterEvent>, floor: u128) -> u128
    decreases es.len(),
{
    if es.len() == 0 {
        floor
    } else {
        floor_after(es.drop_first(), next_floor(es[0], floor))
    }
}

/// The attempts of a run come at clock readings that never go back, none
/// before `floor`.
pub open spec fn monotone_from(es: Seq<LimiterEvent>, floor: u128) -> bool
    decreases es.len(),
{
    es.len() == 0 || (floor <= next_floor(es[0], floor) && monotone_from(
        es.drop_first(),
        next_floor(es[0], floor),
    ))
}

/// Two states give key `k` the same window at every reading from `floor` on.
pub open spec fn same_window_from(
    m1: Map<KeyView, WindowView>,
    m2: Map<KeyView, WindowView>,
    window: u128,
    k: KeyView,
    floor: u128,
) -> bool {
    forall|t: u128|
        floor <= t ==> #[trigger] current_window(m1, t, window, k) == current_window(
            m2,
            t,
            window,
            k,
        )
}

proof fn lemma_other_event(
    m: Map<KeyView, WindowView>,
    max_attempts: u32,
    window: u128,
    e: LimiterEvent,
    k: KeyView,
    floor: u128,
)
    requires
        !touches(e, k),
        floor <= next_floor(e, floor),
    ensures
        same_window_from(apply_event(m, max_attempts, window, e), m, window, k, next_floor(e, floor)),
{
    let m2 = apply_event(m, max_attempts, window, e);
    let te = next_floor(e, floor);
    assert forall|t: u128| te <= t implies #[trigger] current_window(m2, t, window, k)
        == current_window(m, t, window, k) by {
        match e {
            LimiterEvent::Attempt(o, now) => {
                if m.contains_key(k) {
                    let s = m[k].0;
                    if expired(now, s, window) {
                        assert(!m2.contains_key(k));
                        assert(expired(t, s, window));
                        assert(!live_windows(m, t, window).contains_key(k));
                        assert(!live_windows(m2, t, window).contains_key(k));
                    } else {
                        assert(m2.contains_key(k) && m2[k] == m[k]);
                        assert(live_windows(m2, t, window).contains_key(k) == live_windows(
                            m,
                            t,
                            window,
                        ).contains_key(k));
                    }
                } else {
                    assert(!m2.contains_key(k));
                    assert(!live_windows(m, t, window).contains_key(k));
                    assert(!live_windows(m2, t, window).contains_key(k));
                }
            },
            LimiterEvent::Reset(o) => {
                assert(m2.contains_key(k) == m.contains_key(k));
                if m.contains_key(k) {
                    assert(m2[k] == m[k]);
                }
                assert(live_windows(m2, t, window).contains_key(k) == live_windows(
                    m,
                    t,
                    window,
                ).contains_key(k));
            },
        }
    }
}

proof fn lemma_same_event(
    m1: Map<KeyView, WindowView>,
    m2: Map<KeyView, WindowView>,
    max_attempts: u32,
    window: u128,
    e: LimiterEvent,
    k: KeyView,
    floor: u128,
)
    requires
        touches(e, k),
        floor <= next_floor(e, floor),
        same_window_from(m1, m2, window, k, floor),
    ensures
        same_window_from(
            apply_event(m1, max_attempts, window, e),
            apply_event(m2, max_attempts, window, e),
            window,
            k,
            next_floor(e, floor),
        ),
{
    let a1 = apply_event(m1, max_attempts, window, e);
    let a2 = apply_event(m2, max_attempts, window, e);
    match e {
        LimiterEvent::Attempt(j, now) => {
            assert(current_window(m1, now, window, k) == current_window(m2, now, window, k));
            assert(a1.contains_key(k) && a2.contains_key(k) && a1[k] == a2[k]);
        },
        LimiterEvent::Reset(j) => {
            assert(!a1.contains_key(k) && !a2.contains_key(k));
        },
    }
    assert forall|t: u128| next_floor(e, floor) <= t implies #[trigger] current_window(a1, t, window, k)
        == current_window(a2, t, window, k) by {
        assert(live_windows(a1, t, window).contains_key(k) == live_windows(a2, t, window).contains_key(
            k,
        ));
    }
}

proof fn lemma_replay_own_events(
    m1: Map<KeyView, WindowView>,
    m2: Map<KeyView, WindowView>,
    max_attempts: u32,
    window: u128,
    es: Seq<LimiterEvent>,
    k: KeyView,
    floor: u128,
)
    requires
        same_window_from(m1, m2, window, k, floor),
        monotone_from(es, floor),
    ensures
        same_window_from(
            replay(m1, max_attempts, window, es),
            replay(m2, max_attempts, window, events_of(es, k)),
            window,
            k,
            floor_after(es, floor),
        ),
    decreases es.len(),
{
    if es.len() > 0 {
        let e = es[0];
        let rest = es.drop_first();
        let f = next_floor(e, floor);
        let n1 = apply_event(m1, max_attempts, window, e);
        if touches(e, k) {
            let n2 = apply_event(m2, max_attempts, window, e);
            lemma_same_event(m1, m2, max_attempts, window, e, k, floor);
            lemma_replay_own_events(n1, n2, max_attempts, window, rest, k, f);
            let own = events_of(es, k);
            assert(own == seq![e] + events_of(rest, k));
            assert(own[0] == e);
            assert(own.drop_first() =~= events_of(rest, k));
        } else {
            lemma_other_event(m1, max_attempts, window, e, k, floor);
            assert forall|t: u128| f <= t implies #[trigger] current_window(n1, t, window, k)
                == current_window(m2, t, window, k) by {
                assert(current_window(n1, t, window, k) == current_window(m1, t, window, k));
                assert(current_window(m1, t, window, k) == current_window(m2, t, window, k));
            }
            lemma_replay_own_events(n1, m2, max_attempts, window, rest, k, f);
        }
    }
}

/// Law: calls on other keys never block or unblock a key. Two runs from the
/// same state whose calls on key `k` are the same, in the same order, with
/// the clock never going back, give an attempt of `k` after them the same
/// decision.
pub proof fn law_keys_independent_runs(
    m: Map<KeyView, WindowView>,
    max_attempts: u32,
    window: u128,
    a: Seq<LimiterEvent>,
    b: Seq<LimiterEvent>,
    k: KeyView,
    start: u128,
    now: u128,
)
    requires
        events_of(a, k) == events_of(b, k),
        monotone_from(a, start),
        monotone_from(b, start),
        floor_after(a, start) <= now,
        floor_after(b, start) <= now,
    ensures
        decision_for(replay(m, max_attempts, window, a), max_attempts, now, window, k)
            == decision_for(replay(m, max_attempts, window, b), max_attempts, now, window, k),
{
    lemma_replay_own_events(m, m, max_attempts, window, a, k, start);
    lemma_replay_own_events(m, m, max_attempts, window, b, k, start);
    let ra = replay(m, max_attempts, window, a);
    let rb = replay(m, max_attempts, window, b);
    let own = replay(m, max_attempts, window, events_of(a, k));
    assert(current_window(ra, now, window, k) == current_window(own, now, window, k));
    assert(current_window(rb, now, window, k) == current_window(own, now, window, k));
}

} // verus!
