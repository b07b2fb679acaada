//! Rate limiting of wallet transactions: transactions are counted per wallet in fixed time
//! windows; past a soft threshold a warning is due (and, without overspend, a refusal), and at
//! the hard limit transactions are refused.
use vstd::prelude::*;
use crate::fees::Address;

verus! {

/// Default most transactions per window.
pub const DEFAULT_LIMIT: u32 = 5;

/// Default window length, in seconds.
pub const DEFAULT_WINDOW_SECONDS: u64 = 3600;

/// Default count from which a warning is due.
pub const DEFAULT_WARN_THRESHOLD: u32 = 4;

/// Refusals of the rate limiter.
#[derive(Copy, Clone, Debug, PartialEq, Eq, Structural)]
pub enum RateLimitError {
    Exceeded,
    SoftLimitReached,
}

/// Contract error code of each refusal.
pub open spec fn rate_limit_error_code(e: RateLimitError) -> u32 {
    match e {
        RateLimitError::Exceeded => 1,
        RateLimitError::SoftLimitReached => 2,
    }
}

impl RateLimitError {
    /// The contract error code of this refusal.
    pub fn code(&self) -> (r: u32)
        ensures
            r == rate_limit_error_code(*self),
    {
        match self {
            RateLimitError::Exceeded => 1,
            RateLimitError::SoftLimitReached => 2,
        }
    }
}

/// Rate-limit settings.
#[derive(Clone, Copy, Debug, PartialEq, Eq, Structural)]
pub struct RateLimitConfig {
    pub max_tx: u32,
    pub window: u64,
    pub warn_threshold: u32,
    /// Whether transactions past the warning threshold are still recorded.
    pub allow_overspend: bool,
}

/// The default settings: five transactions an hour, warning from the fourth, overspend allowed.
pub open spec fn default_config() -> RateLimitConfig {
    RateLimitConfig {
        max_tx: DEFAULT_LIMIT,
        window: DEFAULT_WINDOW_SECONDS,
        warn_threshold: DEFAULT_WARN_THRESHOLD,
        allow_overspend: true,
    }
}

impl Default for RateLimitConfig {
    fn default() -> (r: Self)
        ensures
            r == default_config(),
    {
        RateLimitConfig {
            max_tx: DEFAULT_LIMIT,
            window: DEFAULT_WINDOW_SECONDS,
            warn_threshold: DEFAULT_WARN_THRESHOLD,
            allow_overspend: true,
        }
    }
}

/// Start of the window of length `window` holding `now`.
pub open spec fn window_start(now: u64, window: u64) -> int {
    now - now % window
}

/// Transactions recorded for one wallet in one window.
#[derive(Clone, Copy, Debug, PartialEq, Eq, Structural)]
pub struct RateLimitCount {
    pub wallet: Address,
    pub window_start: u64,
    pub count: u32,
}

/// Outcome of a check at count `count` under `c`.
pub open spec fn check_outcome(c: RateLimitConfig, count: u32) -> Result<(), RateLimitError> {
    if count >= c.max_tx {
        Err(RateLimitError::Exceeded)
    } else if count >= c.warn_threshold && !c.allow_overspend {
        Err(RateLimitError::SoftLimitReached)
    } else {
        Ok(())
    }
}

/// What a rate-limit check reports, with the window's count so far.
#[derive(Clone, Copy, Debug, PartialEq, Eq, Structural)]
pub enum RateLimitNotice {
    /// Below the soft threshold.
    Quiet,
    /// At or past the soft threshold, below the hard limit.
    Warning(u32),
    /// At the hard limit.
    Exceeded(u32),
}

/// State of the rate-limit contract.
pub struct RateLimitContract {
    /// Settings; the defaults apply until set.
    pub config: Option<RateLimitConfig>,
    /// Counts, at most one per (wallet, window).
    pub counts: Vec<RateLimitCount>,
}

impl RateLimitContract {
    /// At most one count per (wallet, window).
    pub open spec fn wf(&self) -> bool {
        forall|i: int, j: int| 0 <= i < j < self.counts@.len() ==>
            !((#[trigger] self.counts@[i]).wallet == (#[trigger] self.counts@[j]).wallet
                && self.counts@[i].window_start == self.counts@[j].window_start)
    }

    /// Settings in force.
    pub open spec fn current_config(&self) -> RateLimitConfig {
        match self.config {
            Some(c) => c,
            None => default_config(),
        }
    }

    /// Whether a count is recorded for `wallet` in the window starting at `start`.
    pub open spec fn has_count(&self, wallet: Address, start: u64) -> bool {
        exists|i: int| 0 <= i < self.counts@.len() && (#[trigger] self.counts@[i]).wallet == wallet
            && self.counts@[i].window_start == start
    }

    /// Position of the count of `wallet` in the window starting at `start`.
    pub open spec fn count_index(&self, wallet: Address, start: u64) -> int {
        choose|i: int| 0 <= i < self.counts@.len() && (#[trigger] self.counts@[i]).wallet == wallet
            && self.counts@[i].window_start == start
    }

    /// Transactions of `wallet` in the window starting at `start`.
    pub open spec fn count_of(&self, wallet: Address, start: u64) -> u32 {
        if self.has_count(wallet, start) { self.counts@[self.count_index(wallet, start)].count } else { 0 }
    }

    /// Defaults and no counts.
    pub fn new() -> (r: RateLimitContract)
        ensures
            r.wf(),
            r.config is None,
            r.counts@.len() == 0,
    {
        RateLimitContract { config: None, counts: Vec::new() }
    }

    /// Settings in force.
    pub fn get_config(&self) -> (r: RateLimitConfig)
        ensures
            r == self.current_config(),
    {
        match self.config {
            Some(c) => c,
            None => RateLimitConfig::default(),
        }
    }

    /// Position of the count of `wallet` in the window starting at `start`.
    fn find_count(&self, wallet: Address, start: u64) -> (r: Option<usize>)
        requires
            self.wf(),
        ensures
            r matches Some(i) ==> i < self.counts@.len() && self.has_count(wallet, start) && self.count_index(wallet, start) == i,
            r is None ==> !self.has_count(wallet, start),
    {
        let mut i: usize = 0;
        while i < self.counts.len()
            invariant
                self.wf(),
                i <= self.counts@.len(),
                forall|j: int| 0 <= j < i ==> !((#[trigger] self.counts@[j]).wallet == wallet && self.counts@[j].window_start == start),
            decreases self.counts@.len() - i,
        {
            if self.counts[i].wallet == wallet && self.counts[i].window_start == start {
                proof {
                    assert(self.has_count(wallet, start));
                    let k = self.count_index(wallet, start);
                    if k != i {
                        if k < i {
                            assert(!(self.counts@[k].wallet == self.counts@[i as int].wallet && self.counts@[k].window_start == self.counts@[i as int].window_start));
                        } else {
                            assert(!(self.counts@[i as int].wallet == self.counts@[k].wallet && self.counts@[i as int].window_start == self.counts@[k].window_start));
                        }
                    }
                }
                return Some(i);
            }
            i = i + 1;
        }
        None
    }

    /// Transactions of `wallet` counted in the window holding `now`.
    pub fn current_count(&self, wallet: Address, now: u64) -> (r: u32)
        requires
            self.wf(),
            self.current_config().window > 0,
        ensures
            r == self.count_of(wallet, window_start(now, self.current_config().window) as u64),
    {
        let config = self.get_config();
        proof { vstd::arithmetic::div_mod::lemma_mod_decreases(now as nat, config.window as nat); }
        let start = now - now % config.window;
        match self.find_count(wallet, start) {
            Some(i) => self.counts[i].count,
            None => 0,
        }
    }

    /// What a check of `wallet` at `now` reports before deciding: the hard limit when the
    /// window's count has reached it, a warning when the count has reached the soft threshold,
    /// and nothing otherwise, with the count so far.
    pub fn notice(&self, wallet: Address, now: u64) -> (r: RateLimitNotice)
        requires
            self.wf(),
            self.current_config().window > 0,
        ensures
            ({
                let c = self.current_config();
                let n = self.count_of(wallet, window_start(now, c.window) as u64);
                r == (if n >= c.max_tx {
                    RateLimitNotice::Exceeded(n)
                } else if n >= c.warn_threshold {
                    RateLimitNotice::Warning(n)
                } else {
                    RateLimitNotice::Quiet
                })
            }),
    {
        let config = self.get_config();
        let count = self.current_count(wallet, now);
        if count >= config.max_tx {
            RateLimitNotice::Exceeded(count)
        } else if count >= config.warn_threshold {
            RateLimitNotice::Warning(count)
        } else {
            RateLimitNotice::Quiet
        }
    }

    /// Checks a transaction of `wallet` at `now` against the settings and records it when
    /// allowed.
    pub fn check_and_record(&mut self, wallet: Address, now: u64) -> (r: Result<(), RateLimitError>)
        requires
            old(self).wf(),
            old(self).current_config().window > 0,
        ensures
            final(self).wf(),
            ({
                let c = old(self).current_config();
                let start = window_start(now, c.window) as u64;
                let n = old(self).count_of(wallet, start);
                &&& r == check_outcome(c, n)
                &&& r is Err ==> *final(self) == *old(self)
                &&& r is Ok ==> final(self).count_of(wallet, start) == n + 1 <= c.max_tx
                    && final(self).config == old(self).config
                    && forall|w: Address, s: u64| !(w == wallet && s == start) ==> #[trigger] final(self).count_of(w, s) == old(self).count_of(w, s)
            }),
    {
        let config = self.get_config();
        proof { vstd::arithmetic::div_mod::lemma_mod_decreases(now as nat, config.window as nat); }
        let start = now - now % config.window;
        let slot = self.find_count(wallet, start);
        let count = match slot {
            Some(i) => self.counts[i].count,
            None => 0,
        };
        if count >= config.max_tx {
            return Err(RateLimitError::Exceeded);
        }
        if count >= config.warn_threshold && !config.allow_overspend {
            return Err(RateLimitError::SoftLimitReached);
        }
        let ghost old_self = *self;
        match slot {
            Some(i) => {
                self.counts.set(i, RateLimitCount { wallet, window_start: start, count: count + 1 });
                proof {
                    assert forall|a: int, b: int| 0 <= a < b < self.counts@.len() implies
                        !((#[trigger] self.counts@[a]).wallet == (#[trigger] self.counts@[b]).wallet
                            && self.counts@[a].window_start == self.counts@[b].window_start) by {
                        assert(!(old_self.counts@[a].wallet == old_self.counts@[b].wallet
                            && old_self.counts@[a].window_start == old_self.counts@[b].window_start));
                    }
                    assert forall|w: Address, s: u64| #![trigger self.count_of(w, s)] true implies
                        self.has_count(w, s) == old_self.has_count(w, s)
                        && (self.has_count(w, s) ==> self.count_index(w, s) == old_self.count_index(w, s)) by {
                        if old_self.has_count(w, s) {
                            let k = old_self.count_index(w, s);
                            assert(self.counts@[k].wallet == w && self.counts@[k].window_start == s);
                            assert(self.has_count(w, s));
                        }
                        if self.has_count(w, s) {
                            let k = self.count_index(w, s);
                            assert(old_self.counts@[k].wallet == w && old_self.counts@[k].window_start == s);
                            assert(old_self.has_count(w, s));
                            let k2 = old_self.count_index(w, s);
                            if k != k2 {
                                assert(self.counts@[k2].wallet == w && self.counts@[k2].window_start == s);
                                if k < k2 {
                                    assert(!(self.counts@[k].wallet == self.counts@[k2].wallet && self.counts@[k].window_start == self.counts@[k2].window_start));
                                } else {
                                    assert(!(self.counts@[k2].wallet == self.counts@[k].wallet && self.counts@[k2].window_start == self.counts@[k].window_start));
                                }
                            }
                        }
                    }
                }
            },
            None => {
                self.counts.push(RateLimitCount { wallet, window_start: start, count: 1 });
                proof {
                    let last = self.counts@.len() - 1;
                    assert forall|a: int, b: int| 0 <= a < b < self.counts@.len() implies
                        !((#[trigger] self.counts@[a]).wallet == (#[trigger] self.counts@[b]).wallet
                            && self.counts@[a].window_start == self.counts@[b].window_start) by {
                        assert(self.counts@[a] == old_self.counts@[a]);
                        if b == last {
                            if self.counts@[a].wallet == wallet && self.counts@[a].window_start == start {
                                assert(old_self.has_count(wallet, start));
                            }
                        } else {
                            assert(self.counts@[b] == old_self.counts@[b]);
                        }
                    }
                    assert(self.counts@[last].wallet == wallet && self.counts@[last].window_start == start);
                    assert(self.has_count(wallet, start));
                    let k = self.count_index(wallet, start);
                    if k != last {
                        assert(old_self.counts@[k] == self.counts@[k]);
                        assert(old_self.has_count(wallet, start));
                    }
                    assert forall|w: Address, s: u64| !(w == wallet && s == start) implies
                        #[trigger] self.count_of(w, s) == old_self.count_of(w, s) by {
                        if old_self.has_count(w, s) {
                            let k = old_self.count_index(w, s);
                            assert(self.counts@[k] == old_self.counts@[k]);
                            assert(self.has_count(w, s));
                        }
                        if self.has_count(w, s) {
                            let k = self.count_index(w, s);
                            if k == last {
                                assert(false);
                            }
                            assert(old_self.counts@[k] == self.counts@[k]);
                            assert(old_self.has_count(w, s));
                            let k2 = old_self.count_index(w, s);
                            if k != k2 {
                                assert(self.counts@[k2] == old_self.counts@[k2]);
                                if k < k2 {
                                    assert(!(self.counts@[k].wallet == self.counts@[k2].wallet && self.counts@[k].window_start == self.counts@[k2].window_start));
                                } else {
                                    assert(!(self.counts@[k2].wallet == self.counts@[k].wallet && self.counts@[k2].window_start == self.counts@[k].window_start));
                                }
                            }
                        }
                    }
                }
            },
        }
        Ok(())
    }

    /// Replaces the settings (any values are accepted).
    pub fn set_config(&mut self, max_tx: u32, window: u64, warn_threshold: u32, allow_overspend: bool)
        requires
            old(self).wf(),
        ensures
            final(self).wf(),
            final(self).config == Some(RateLimitConfig { max_tx, window, warn_threshold, allow_overspend }),
            final(self).counts == old(self).counts,
    {
        self.config = Some(RateLimitConfig { max_tx, window, warn_threshold, allow_overspend });
    }
}

/// A count of operations in a window that started at `window_start`.
#[derive(Clone, Copy, Debug, PartialEq, Eq, Structural)]
pub struct RateLimitData {
    pub count: u32,
    pub window_start: u64,
}

/// The record after an allowed operation at `now`, or `None` when the limit is reached.
pub open spec fn rate_limit_step(stored: Option<RateLimitData>, now: u64, limit: u32, window_seconds: u64) -> Option<RateLimitData> {
    match stored {
        Some(d) => if now < d.window_start + window_seconds {
            if d.count >= limit { None } else { Some(RateLimitData { count: (d.count + 1) as u32, window_start: d.window_start }) }
        } else {
            Some(RateLimitData { count: 1, window_start: now })
        },
        None => Some(RateLimitData { count: 1, window_start: now }),
    }
}

/// What a rate-limit check does: an operation outside the stored window (or with no record)
/// opens a fresh window starting at that moment with a count of one; inside the window it is
/// counted on the same window, and refused exactly when the count has reached the limit. So
/// the returned window always holds the moment of the operation (when that moment is not
/// before the stored window), no allowed record counts past the limit except the first
/// operation of a window, and a refusal happens only inside a full window.
pub proof fn lemma_rate_limit_window(stored: Option<RateLimitData>, now: u64, limit: u32, window_seconds: u64)
    requires
        window_seconds > 0,
        stored matches Some(d) ==> d.window_start <= now && d.count <= (if limit == 0 { 1 } else { limit as int }),
    ensures
        match rate_limit_step(stored, now, limit, window_seconds) {
            Some(d2) => {
                &&& d2.window_start <= now < d2.window_start + window_seconds
                &&& 1 <= d2.count <= if limit == 0 { 1 } else { limit as int }
                &&& (stored is None || now >= stored->0.window_start + window_seconds)
                    ==> d2.count == 1 && d2.window_start == now
                &&& (stored is Some && now < stored->0.window_start + window_seconds)
                    ==> d2.window_start == stored->0.window_start && d2.count == stored->0.count + 1
            },
            None => stored is Some && now < stored->0.window_start + window_seconds
                && stored->0.count >= limit,
        },
{
}

/// Two operations in a row: when the second comes before the window returned by the first
/// ends, it is counted on that same window; otherwise it opens a window at its own moment.
/// Either way a window never admits more operations than the limit (or one, for a zero limit).
pub proof fn lemma_rate_limit_consecutive(stored: Option<RateLimitData>, t1: u64, t2: u64, limit: u32, window_seconds: u64)
    requires
        window_seconds > 0,
        t1 <= t2,
        stored matches Some(d) ==> d.window_start <= t1 && d.count <= (if limit == 0 { 1 } else { limit as int }),
        rate_limit_step(stored, t1, limit, window_seconds) is Some,
    ensures
        ({
            let d1 = rate_limit_step(stored, t1, limit, window_seconds)->0;
            let second = rate_limit_step(Some(d1), t2, limit, window_seconds);
            &&& t2 < d1.window_start + window_seconds ==> (if d1.count >= limit {
                second is None
            } else {
                second == Some(RateLimitData { count: (d1.count + 1) as u32, window_start: d1.window_start })
            })
            &&& t2 >= d1.window_start + window_seconds ==> second == Some(RateLimitData { count: 1, window_start: t2 })
            &&& second matches Some(d2) ==> d2.window_start <= t2 < d2.window_start + window_seconds
        }),
{
    lemma_rate_limit_window(stored, t1, limit, window_seconds);
    let d1 = rate_limit_step(stored, t1, limit, window_seconds)->0;
    lemma_rate_limit_window(Some(d1), t2, limit, window_seconds);
}

/// Helpers shared by the contracts.
pub struct ContractUtils;

impl ContractUtils {
    /// Checks one more operation at `now` against at most `limit` per window of
    /// `window_seconds`, given the stored record; returns the record to store.
    pub fn check_rate_limit(stored: Option<RateLimitData>, current_time: u64, limit: u32, window_seconds: u64) -> (r: Result<RateLimitData, RateLimitError>)
        requires
            stored matches Some(d) ==> d.window_start + window_seconds <= u64::MAX,
        ensures
            rate_limit_step(stored, current_time, limit, window_seconds) matches Some(d) ==> r == Ok::<RateLimitData, RateLimitError>(d),
            rate_limit_step(stored, current_time, limit, window_seconds) is None ==> r == Err::<RateLimitData, RateLimitError>(RateLimitError::Exceeded),
            (stored is None || current_time >= stored->0.window_start + window_seconds)
                ==> r == Ok::<RateLimitData, RateLimitError>(RateLimitData { count: 1, window_start: current_time }),
            r matches Ok(d) ==> 1 <= d.count,
            r matches Ok(d) ==> d.window_start <= current_time || (stored is Some && d.window_start == stored->0.window_start),
            r is Err ==> stored is Some && current_time < stored->0.window_start + window_seconds && stored->0.count >= limit,
    {
        match stored {
            Some(data) => {
                if current_time < data.window_start + window_seconds {
                    if data.count >= limit {
                        return Err(RateLimitError::Exceeded);
                    }
                    Ok(RateLimitData { count: data.count + 1, window_start: data.window_start })
                } else {
                    Ok(RateLimitData { count: 1, window_start: current_time })
                }
            },
            None => Ok(RateLimitData { count: 1, window_start: current_time }),
        }
    }
}

} // verus!
