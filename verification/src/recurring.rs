//! Recurring payment schedules and recurring income streams. Executing a due schedule either
//! pays (when the sender's balance covers the amount) or records a missed execution; either
//! way the schedule moves to its first slot after the current time.
use vstd::prelude::*;
use crate::fees::Address;

verus! {

/// A recurring payment schedule.
#[derive(Clone, Copy, Debug, PartialEq, Eq, Structural)]
pub struct RecurringPayment {
    pub sender: Address,
    pub recipient: Address,
    pub token: Address,
    pub amount: i128,
    pub interval: u64,
    pub next_execution: u64,
    pub active: bool,
    pub paused: bool,
    pub execution_count: u32,
    pub missed_count: u32,
    pub last_missed_at: u64,
}

/// A recurring income stream that funds a goal or budget.
pub struct IncomeStream {
    pub stream_id: u64,
    pub recipient: Address,
    /// Description of the source, such as "salary".
    pub source: Vec<u8>,
    pub amount: i128,
    pub interval_seconds: u64,
    pub next_payout: u64,
    /// Goal or budget to fund; zero for manual allocation.
    pub target_goal_id: u64,
    pub active: bool,
}

/// What an execution of a due schedule did.
#[derive(Clone, Copy, Debug, PartialEq, Eq, Structural)]
pub enum PaymentExecution {
    /// `amount` is to be transferred from sender to recipient.
    Executed { amount: i128, next_execution: u64 },
    /// The sender's balance did not cover the amount.
    Missed { missed_count: u32, last_missed_at: u64 },
}

/// What processing an income stream yields.
#[derive(Clone, Copy, Debug, PartialEq, Eq, Structural)]
pub struct IncomePayout {
    pub recipient: Address,
    /// `amount` times the due cycles, or `i128::MAX` when that does not fit.
    pub total_payout: i128,
    pub cycles_due: u64,
}

/// State of the recurring-payment contract: schedule `k` and stream `k` are at position `k - 1`.
pub struct RecurringPaymentContract {
    pub payments: Vec<RecurringPayment>,
    pub income_streams: Vec<IncomeStream>,
}

/// The first time strictly after `now` on the grid `next + k * interval` with `k >= 1`.
pub open spec fn caught_up(next: int, interval: int, now: int) -> int {
    next + interval * ((now - next) / interval + 1)
}

/// Next execution after a missed one: the interval is added saturating, then the schedule
/// catches up past `now`.
pub open spec fn missed_next(next: u64, interval: u64, now: u64) -> int {
    if next + interval > u64::MAX { u64::MAX as int } else { caught_up(next as int, interval as int, now as int) }
}

/// Whether executing `p` at `now` with the sender holding `balance` stays within the integer
/// ranges (the schedule arithmetic and the execution counter).
pub open spec fn execution_fits(p: RecurringPayment, now: u64, balance: i128) -> bool {
    if balance < p.amount {
        if p.next_execution + p.interval > u64::MAX {
            now < u64::MAX
        } else {
            caught_up(p.next_execution as int, p.interval as int, now as int) <= u64::MAX
        }
    } else {
        caught_up(p.next_execution as int, p.interval as int, now as int) <= u64::MAX
            && p.execution_count < u32::MAX
    }
}

/// Whether `p` can be executed at `now`.
pub open spec fn is_due(p: RecurringPayment, now: u64) -> bool {
    p.active && !p.paused && now >= p.next_execution
}

/// The schedule after executing `p` at `now` with the sender holding `balance`.
pub open spec fn after_execution(p: RecurringPayment, now: u64, balance: i128) -> RecurringPayment {
    if balance < p.amount {
        RecurringPayment {
            missed_count: if p.missed_count == u32::MAX { u32::MAX } else { (p.missed_count + 1) as u32 },
            last_missed_at: now,
            next_execution: missed_next(p.next_execution, p.interval, now) as u64,
            ..p
        }
    } else {
        RecurringPayment {
            missed_count: 0,
            last_missed_at: 0,
            next_execution: caught_up(p.next_execution as int, p.interval as int, now as int) as u64,
            execution_count: (p.execution_count + 1) as u32,
            ..p
        }
    }
}

/// The ids, in creation order, of the streams of `s` received by `user`.
pub open spec fn streams_of(s: Seq<IncomeStream>, user: Address) -> Seq<u64>
    decreases s.len(),
{
    if s.len() == 0 {
        Seq::empty()
    } else {
        let rest = streams_of(s.drop_last(), user);
        if s.last().recipient == user { rest.push(s.last().stream_id) } else { rest }
    }
}

/// Cycles due when a stream scheduled at `next` is processed at `now`.
pub open spec fn cycles_due(next: u64, interval: u64, now: u64) -> int {
    1 + (now - next) / (interval as int)
}

/// Payout of `cycles` cycles of `amount`, capped at `i128::MAX`.
pub open spec fn capped_payout(amount: i128, cycles: int) -> i128 {
    if amount * cycles <= i128::MAX { (amount * cycles) as i128 } else { i128::MAX }
}

/// Catching up lands on the schedule's grid, strictly after `now`, and no later than one
/// interval after `now`.
pub proof fn lemma_caught_up(next: int, interval: int, now: int)
    requires
        interval > 0,
        next <= now,
    ensures
        caught_up(next, interval, now) > now,
        caught_up(next, interval, now) - interval <= now,
        caught_up(next, interval, now) >= next + interval,
        (caught_up(next, interval, now) - next) % interval == 0,
{
    let q = (now - next) / interval;
    vstd::arithmetic::div_mod::lemma_fundamental_div_mod(now - next, interval);
    vstd::arithmetic::div_mod::lemma_mod_bound(now - next, interval);
    assert(q >= 0) by {
        vstd::arithmetic::div_mod::lemma_div_pos_is_pos(now - next, interval);
    }
    assert(interval * (q + 1) == interval * q + interval) by (nonlinear_arith);
    assert(interval * (q + 1) >= interval) by (nonlinear_arith)
        requires q >= 0, interval > 0;
    vstd::arithmetic::div_mod::lemma_mod_multiples_basic(q + 1, interval);
    assert(interval * (q + 1) == (q + 1) * interval) by (nonlinear_arith);
}

/// Moves `next` (not after `now`) to its first grid slot after `now`.
fn advance_past(next: u64, interval: u64, now: u64) -> (r: u64)
    requires
        interval > 0,
        next <= now,
        caught_up(next as int, interval as int, now as int) <= u64::MAX,
    ensures
        r == caught_up(next as int, interval as int, now as int),
{
    proof { lemma_caught_up(next as int, interval as int, now as int); }
    let n1 = next + interval;
    if n1 <= now {
        let k = (now - n1) / interval;
        proof {
            let d: int = now - n1;
            let e: int = now - next;
            let i: int = interval as int;
            vstd::arithmetic::div_mod::lemma_div_plus_one(d, i);
            assert(e == i + d);
            assert(k == d / i);
            assert(k + 1 == e / i);
            let q: int = e / i;
            assert(i * (q + 1) == i * q + i) by (nonlinear_arith);
            assert((k + 1) * i == i * q) by (nonlinear_arith)
                requires k + 1 == q;
            assert(n1 + (k + 1) * interval == caught_up(next as int, interval as int, now as int));
        }
        n1 + (k + 1) * interval
    } else {
        proof {
            vstd::arithmetic::div_mod::lemma_basic_div_specific_divisor(interval as int);
            let e: int = now - next;
            assert(0 <= e < interval);
            assert(e / (interval as int) == 0);
            assert(caught_up(next as int, interval as int, now as int) == next + interval * (0int + 1));
        }
        n1
    }
}

/// Whether the first grid slot after `now` (see [`caught_up`]) fits a `u64`.
pub fn caught_up_fits(next: u64, interval: u64, now: u64) -> (r: bool)
    requires
        interval > 0,
        next <= now,
    ensures
        r == (caught_up(next as int, interval as int, now as int) <= u64::MAX),
{
    let q = (now - next) / interval;
    proof {
        vstd::arithmetic::div_mod::lemma_div_pos_is_pos((now - next) as int, interval as int);
    }
    let k = match q.checked_add(1) {
        Some(k) => k,
        None => {
            proof {
                assert((interval as int) * (q + 1) >= q + 1) by (nonlinear_arith)
                    requires interval >= 1, q >= 0;
            }
            return false;
        },
    };
    match interval.checked_mul(k) {
        Some(m) => next.checked_add(m).is_some(),
        None => false,
    }
}

impl RecurringPayment {
    /// Whether executing this schedule at `now` (not before it is due) with the sender
    /// holding `balance` stays within the integer ranges (see [`execution_fits`]).
    pub fn fits_execution(&self, now: u64, balance: i128) -> (r: bool)
        requires
            self.interval > 0,
            self.next_execution <= now,
        ensures
            r == execution_fits(*self, now, balance),
    {
        if balance < self.amount {
            if self.next_execution > u64::MAX - self.interval {
                now < u64::MAX
            } else {
                caught_up_fits(self.next_execution, self.interval, now)
            }
        } else {
            caught_up_fits(self.next_execution, self.interval, now) && self.execution_count < u32::MAX
        }
    }
}

impl IncomeStream {
    /// Whether processing this stream at `now` (not before its next payout) moves the next
    /// payout within the `u64` range.
    pub fn fits_payout(&self, now: u64) -> (r: bool)
        requires
            self.interval_seconds > 0,
            self.next_payout <= now,
        ensures
            r == (caught_up(self.next_payout as int, self.interval_seconds as int, now as int) <= u64::MAX),
    {
        caught_up_fits(self.next_payout, self.interval_seconds, now)
    }
}

impl RecurringPaymentContract {
    /// Structural invariant: ids follow positions, amounts and intervals are positive.
    pub open spec fn wf(&self) -> bool {
        &&& forall|i: int| 0 <= i < self.payments@.len() ==>
            (#[trigger] self.payments@[i]).amount > 0 && self.payments@[i].interval > 0
        &&& forall|i: int| 0 <= i < self.income_streams@.len() ==>
            (#[trigger] self.income_streams@[i]).stream_id == i + 1
            && self.income_streams@[i].amount > 0 && self.income_streams@[i].interval_seconds > 0
    }

    /// Whether schedule `id` exists.
    pub open spec fn has_payment(&self, id: u64) -> bool {
        1 <= id <= self.payments@.len()
    }

    /// Schedule `id` (meaningful when it exists).
    pub open spec fn payment(&self, id: u64) -> RecurringPayment {
        self.payments@[id - 1]
    }

    /// Whether stream `id` exists.
    pub open spec fn has_stream(&self, id: u64) -> bool {
        1 <= id <= self.income_streams@.len()
    }

    /// Outcome of an execution request, before the balance is consulted.
    pub open spec fn execute_check(&self, id: u64, now: u64) -> Result<(), &'static str> {
        if !self.has_payment(id) {
            Err("Payment not found")
        } else if !self.payment(id).active {
            Err("Payment is not active")
        } else if self.payment(id).paused {
            Err("Payment is paused")
        } else if now < self.payment(id).next_execution {
            Err("Too early for next execution")
        } else {
            Ok(())
        }
    }

    /// No schedules and no streams.
    pub fn new() -> (r: RecurringPaymentContract)
        ensures
            r.wf(),
            r.payments@.len() == 0,
            r.income_streams@.len() == 0,
    {
        RecurringPaymentContract { payments: Vec::new(), income_streams: Vec::new() }
    }

    /// Position of schedule `id`.
    fn payment_slot(&self, id: u64) -> (r: Option<usize>)
        ensures
            r matches Some(i) ==> self.has_payment(id) && i == id - 1,
            r is None ==> !self.has_payment(id),
    {
        if id >= 1 && id - 1 < self.payments.len() as u64 {
            Some((id - 1) as usize)
        } else {
            None
        }
    }

    /// Position of stream `id`.
    fn stream_slot(&self, id: u64) -> (r: Option<usize>)
        ensures
            r matches Some(i) ==> self.has_stream(id) && i == id - 1,
            r is None ==> !self.has_stream(id),
    {
        if id >= 1 && id - 1 < self.income_streams.len() as u64 {
            Some((id - 1) as usize)
        } else {
            None
        }
    }

    /// Creates a schedule, active and unpaused, first due at `start_time`; returns its id.
    pub fn create_payment(&mut self, sender: Address, recipient: Address, token: Address, amount: i128, interval: u64, start_time: u64) -> (r: Result<u64, &'static str>)
        requires
            old(self).wf(),
            old(self).payments@.len() < u64::MAX,
        ensures
            final(self).wf(),
            amount <= 0 ==> r == Err::<u64, &'static str>("Amount must be positive"),
            amount > 0 && interval == 0 ==> r == Err::<u64, &'static str>("Interval must be positive"),
            r is Err ==> *final(self) == *old(self),
            amount > 0 && interval > 0 ==> {
                &&& r == Ok::<u64, &'static str>((old(self).payments@.len() + 1) as u64)
                &&& final(self).payments@ == old(self).payments@.push(RecurringPayment {
                    sender, recipient, token, amount, interval,
                    next_execution: start_time,
                    active: true,
                    paused: false,
                    execution_count: 0,
                    missed_count: 0,
                    last_missed_at: 0,
                })
                &&& final(self).income_streams == old(self).income_streams
            },
    {
        if amount <= 0 {
            return Err("Amount must be positive");
        }
        if interval == 0 {
            return Err("Interval must be positive");
        }
        let id = self.payments.len() as u64 + 1;
        self.payments.push(RecurringPayment {
            sender,
            recipient,
            token,
            amount,
            interval,
            next_execution: start_time,
            active: true,
            paused: false,
            execution_count: 0,
            missed_count: 0,
            last_missed_at: 0,
        });
        Ok(id)
    }

    /// Executes due schedule `payment_id` at `now`, the sender holding `sender_balance`.
    /// With enough balance the payment is owed and the missed count resets; otherwise the
    /// execution is recorded as missed. Either way the schedule moves past `now`.
    pub fn execute_payment(&mut self, payment_id: u64, now: u64, sender_balance: i128) -> (r: Result<PaymentExecution, &'static str>)
        requires
            old(self).wf(),
            old(self).has_payment(payment_id) && is_due(old(self).payment(payment_id), now)
                ==> execution_fits(old(self).payment(payment_id), now, sender_balance),
        ensures
            final(self).wf(),
            match old(self).execute_check(payment_id, now) {
                Err(e) => r == Err::<PaymentExecution, &'static str>(e) && *final(self) == *old(self),
                Ok(()) => {
                    let p = old(self).payment(payment_id);
                    let q = after_execution(p, now, sender_balance);
                    &&& final(self).payments@ == old(self).payments@.update(payment_id - 1, q)
                    &&& final(self).income_streams == old(self).income_streams
                    &&& r == Ok::<PaymentExecution, &'static str>(if sender_balance < p.amount {
                        PaymentExecution::Missed { missed_count: q.missed_count, last_missed_at: q.last_missed_at }
                    } else {
                        PaymentExecution::Executed { amount: p.amount, next_execution: q.next_execution }
                    })
                },
            },
    {
        let i = match self.payment_slot(payment_id) {
            Some(i) => i,
            None => { return Err("Payment not found"); },
        };
        let mut p = self.payments[i];
        if !p.active {
            return Err("Payment is not active");
        }
        if p.paused {
            return Err("Payment is paused");
        }
        if now < p.next_execution {
            return Err("Too early for next execution");
        }
        let ghost p0 = p;
        proof {
            assert(p.amount > 0 && p.interval > 0);
        }
        if sender_balance < p.amount {
            p.missed_count = p.missed_count.saturating_add(1);
            p.last_missed_at = now;
            if p.next_execution > u64::MAX - p.interval {
                p.next_execution = u64::MAX;
            } else {
                p.next_execution = advance_past(p.next_execution, p.interval, now);
            }
            self.payments.set(i, p);
            proof {
                assert(p == after_execution(p0, now, sender_balance));
            }
            return Ok(PaymentExecution::Missed { missed_count: p.missed_count, last_missed_at: p.last_missed_at });
        }
        p.missed_count = 0;
        p.last_missed_at = 0;
        p.next_execution = advance_past(p.next_execution, p.interval, now);
        p.execution_count = p.execution_count + 1;
        self.payments.set(i, p);
        proof {
            assert(p == after_execution(p0, now, sender_balance));
        }
        Ok(PaymentExecution::Executed { amount: p.amount, next_execution: p.next_execution })
    }

    /// Cancels schedule `payment_id`.
    pub fn cancel_payment(&mut self, payment_id: u64) -> (r: Result<(), &'static str>)
        requires
            old(self).wf(),
        ensures
            final(self).wf(),
            !old(self).has_payment(payment_id) ==> r == Err::<(), &'static str>("Payment not found"),
            old(self).has_payment(payment_id) && !old(self).payment(payment_id).active
                ==> r == Err::<(), &'static str>("Payment is already canceled"),
            old(self).has_payment(payment_id) && old(self).payment(payment_id).active ==> r is Ok,
            r is Err ==> *final(self) == *old(self),
            r is Ok ==> final(self).payments@ == old(self).payments@.update(payment_id - 1,
                RecurringPayment { active: false, ..old(self).payment(payment_id) })
                && final(self).income_streams == old(self).income_streams,
    {
        let i = match self.payment_slot(payment_id) {
            Some(i) => i,
            None => { return Err("Payment not found"); },
        };
        let mut p = self.payments[i];
        if !p.active {
            return Err("Payment is already canceled");
        }
        p.active = false;
        self.payments.set(i, p);
        Ok(())
    }

    /// Pauses active schedule `payment_id`.
    pub fn pause_payment(&mut self, payment_id: u64) -> (r: Result<(), &'static str>)
        requires
            old(self).wf(),
        ensures
            final(self).wf(),
            !old(self).has_payment(payment_id) ==> r == Err::<(), &'static str>("Payment not found"),
            old(self).has_payment(payment_id) && !old(self).payment(payment_id).active
                ==> r == Err::<(), &'static str>("Payment is not active"),
            old(self).has_payment(payment_id) && old(self).payment(payment_id).active && old(self).payment(payment_id).paused
                ==> r == Err::<(), &'static str>("Payment is already paused"),
            old(self).has_payment(payment_id) && old(self).payment(payment_id).active && !old(self).payment(payment_id).paused
                ==> r is Ok,
            r is Err ==> *final(self) == *old(self),
            r is Ok ==> final(self).payments@ == old(self).payments@.update(payment_id - 1,
                RecurringPayment { paused: true, ..old(self).payment(payment_id) })
                && final(self).income_streams == old(self).income_streams,
    {
        let i = match self.payment_slot(payment_id) {
            Some(i) => i,
            None => { return Err("Payment not found"); },
        };
        let mut p = self.payments[i];
        if !p.active {
            return Err("Payment is not active");
        }
        if p.paused {
            return Err("Payment is already paused");
        }
        p.paused = true;
        self.payments.set(i, p);
        Ok(())
    }

    /// Resumes paused schedule `payment_id`.
    pub fn resume_payment(&mut self, payment_id: u64) -> (r: Result<(), &'static str>)
        requires
            old(self).wf(),
        ensures
            final(self).wf(),
            !old(self).has_payment(payment_id) ==> r == Err::<(), &'static str>("Payment not found"),
            old(self).has_payment(payment_id) && !old(self).payment(payment_id).active
                ==> r == Err::<(), &'static str>("Payment is not active"),
            old(self).has_payment(payment_id) && old(self).payment(payment_id).active && !old(self).payment(payment_id).paused
                ==> r == Err::<(), &'static str>("Payment is not paused"),
            old(self).has_payment(payment_id) && old(self).payment(payment_id).active && old(self).payment(payment_id).paused
                ==> r is Ok,
            r is Err ==> *final(self) == *old(self),
            r is Ok ==> final(self).payments@ == old(self).payments@.update(payment_id - 1,
                RecurringPayment { paused: false, ..old(self).payment(payment_id) })
                && final(self).income_streams == old(self).income_streams,
    {
        let i = match self.payment_slot(payment_id) {
            Some(i) => i,
            None => { return Err("Payment not found"); },
        };
        let mut p = self.payments[i];
        if !p.active {
            return Err("Payment is not active");
        }
        if !p.paused {
            return Err("Payment is not paused");
        }
        p.paused = false;
        self.payments.set(i, p);
        Ok(())
    }

    /// Schedule `payment_id`.
    pub fn get_payment(&self, payment_id: u64) -> (r: Result<RecurringPayment, &'static str>)
        ensures
            self.has_payment(payment_id) ==> r == Ok::<RecurringPayment, &'static str>(self.payment(payment_id)),
            !self.has_payment(payment_id) ==> r == Err::<RecurringPayment, &'static str>("Payment not found"),
    {
        match self.payment_slot(payment_id) {
            Some(i) => Ok(self.payments[i]),
            None => Err("Payment not found"),
        }
    }

    /// Creates an income stream for `recipient`, first paying out one interval after `now`;
    /// returns its id.
    pub fn create_income_stream(&mut self, recipient: Address, source: Vec<u8>, amount: i128, interval_seconds: u64, target_goal_id: u64, now: u64) -> (r: Result<u64, &'static str>)
        requires
            old(self).wf(),
            old(self).income_streams@.len() < u64::MAX,
            amount > 0 && interval_seconds > 0 ==> now + interval_seconds <= u64::MAX,
        ensures
            final(self).wf(),
            amount <= 0 ==> r == Err::<u64, &'static str>("Amount must be positive"),
            amount > 0 && interval_seconds == 0 ==> r == Err::<u64, &'static str>("Interval must be positive"),
            r is Err ==> *final(self) == *old(self),
            amount > 0 && interval_seconds > 0 ==> {
                let id = (old(self).income_streams@.len() + 1) as u64;
                &&& r == Ok::<u64, &'static str>(id)
                &&& final(self).income_streams@ == old(self).income_streams@.push(IncomeStream {
                    stream_id: id,
                    recipient,
                    source,
                    amount,
                    interval_seconds,
                    next_payout: (now + interval_seconds) as u64,
                    target_goal_id,
                    active: true,
                })
                &&& final(self).payments == old(self).payments
            },
    {
        if amount <= 0 {
            return Err("Amount must be positive");
        }
        if interval_seconds == 0 {
            return Err("Interval must be positive");
        }
        let id = self.income_streams.len() as u64 + 1;
        self.income_streams.push(IncomeStream {
            stream_id: id,
            recipient,
            source,
            amount,
            interval_seconds,
            next_payout: now + interval_seconds,
            target_goal_id,
            active: true,
        });
        Ok(id)
    }

    /// Processes active stream `stream_id` at `now`: pays every cycle due since the last
    /// payout and moves the next payout to its first slot after `now`.
    pub fn process_income(&mut self, stream_id: u64, now: u64) -> (r: Result<IncomePayout, &'static str>)
        requires
            old(self).wf(),
            old(self).has_stream(stream_id) && old(self).income_streams@[stream_id - 1].active
                && now >= old(self).income_streams@[stream_id - 1].next_payout
                ==> caught_up(old(self).income_streams@[stream_id - 1].next_payout as int,
                    old(self).income_streams@[stream_id - 1].interval_seconds as int, now as int) <= u64::MAX,
        ensures
            final(self).wf(),
            !old(self).has_stream(stream_id) ==> r == Err::<IncomePayout, &'static str>("Income stream not found"),
            old(self).has_stream(stream_id) ==> {
                let s = old(self).income_streams@[stream_id - 1];
                &&& !s.active ==> r == Err::<IncomePayout, &'static str>("Income stream is not active")
                &&& s.active && now < s.next_payout ==> r == Err::<IncomePayout, &'static str>("Too early for next payout")
                &&& s.active && now >= s.next_payout ==> {
                    let cycles = cycles_due(s.next_payout, s.interval_seconds, now);
                    &&& r == Ok::<IncomePayout, &'static str>(IncomePayout {
                        recipient: s.recipient,
                        total_payout: capped_payout(s.amount, cycles),
                        cycles_due: cycles as u64,
                    })
                    &&& final(self).income_streams@.len() == old(self).income_streams@.len()
                    &&& forall|j: int| 0 <= j < final(self).income_streams@.len() && j != stream_id - 1
                        ==> final(self).income_streams@[j] == old(self).income_streams@[j]
                    &&& final(self).income_streams@[stream_id - 1] == (IncomeStream {
                        next_payout: caught_up(s.next_payout as int, s.interval_seconds as int, now as int) as u64,
                        ..s
                    })
                    &&& final(self).payments == old(self).payments
                }
            },
            r is Err ==> *final(self) == *old(self),
    {
        let i = match self.stream_slot(stream_id) {
            Some(i) => i,
            None => { return Err("Income stream not found"); },
        };
        if !self.income_streams[i].active {
            return Err("Income stream is not active");
        }
        let next = self.income_streams[i].next_payout;
        let interval = self.income_streams[i].interval_seconds;
        let amount = self.income_streams[i].amount;
        if now < next {
            return Err("Too early for next payout");
        }
        let ghost old_streams = self.income_streams@;
        proof {
            let q: int = (now - next) / (interval as int);
            vstd::arithmetic::div_mod::lemma_div_pos_is_pos((now - next) as int, interval as int);
            assert(q + 1 <= (interval as int) * (q + 1)) by (nonlinear_arith)
                requires q >= 0, interval >= 1;
        }
        let cycles = 1 + (now - next) / interval;
        let total_payout = match amount.checked_mul(cycles as i128) {
            Some(t) => t,
            None => i128::MAX,
        };
        let new_next = advance_past(next, interval, now);
        let mut s = self.income_streams.remove(i);
        s.next_payout = new_next;
        let recipient = s.recipient;
        self.income_streams.insert(i, s);
        proof {
            assert forall|j: int| 0 <= j < self.income_streams@.len() && j != i
                implies self.income_streams@[j] == old_streams[j] by {}
            assert forall|j: int| 0 <= j < self.income_streams@.len() implies
                (#[trigger] self.income_streams@[j]).stream_id == j + 1
                && self.income_streams@[j].amount > 0 && self.income_streams@[j].interval_seconds > 0 by {
                assert(old_streams[j].stream_id == j + 1);
            }
        }
        Ok(IncomePayout { recipient, total_payout, cycles_due: cycles })
    }

    /// Cancels income stream `stream_id`.
    pub fn cancel_income_stream(&mut self, stream_id: u64) -> (r: Result<(), &'static str>)
        requires
            old(self).wf(),
        ensures
            final(self).wf(),
            !old(self).has_stream(stream_id) ==> r == Err::<(), &'static str>("Income stream not found"),
            old(self).has_stream(stream_id) && !old(self).income_streams@[stream_id - 1].active
                ==> r == Err::<(), &'static str>("Income stream is already canceled"),
            old(self).has_stream(stream_id) && old(self).income_streams@[stream_id - 1].active ==> {
                &&& r is Ok
                &&& final(self).income_streams@.len() == old(self).income_streams@.len()
                &&& forall|j: int| 0 <= j < final(self).income_streams@.len() && j != stream_id - 1
                    ==> final(self).income_streams@[j] == old(self).income_streams@[j]
                &&& final(self).income_streams@[stream_id - 1] == (IncomeStream {
                    active: false,
                    ..old(self).income_streams@[stream_id - 1]
                })
                &&& final(self).payments == old(self).payments
            },
            r is Err ==> *final(self) == *old(self),
    {
        let i = match self.stream_slot(stream_id) {
            Some(i) => i,
            None => { return Err("Income stream not found"); },
        };
        if !self.income_streams[i].active {
            return Err("Income stream is already canceled");
        }
        let ghost old_streams = self.income_streams@;
        let mut s = self.income_streams.remove(i);
        s.active = false;
        self.income_streams.insert(i, s);
        proof {
            assert forall|j: int| 0 <= j < self.income_streams@.len() && j != i
                implies self.income_streams@[j] == old_streams[j] by {}
            assert forall|j: int| 0 <= j < self.income_streams@.len() implies
                (#[trigger] self.income_streams@[j]).stream_id == j + 1
                && self.income_streams@[j].amount > 0 && self.income_streams@[j].interval_seconds > 0 by {
                assert(old_streams[j].stream_id == j + 1);
            }
        }
        Ok(())
    }

    /// Income stream `stream_id`.
    pub fn get_income_stream(&self, stream_id: u64) -> (r: Result<&IncomeStream, &'static str>)
        ensures
            self.has_stream(stream_id) ==> r == Ok::<&IncomeStream, &'static str>(&self.income_streams@[stream_id - 1]),
            !self.has_stream(stream_id) ==> r == Err::<&IncomeStream, &'static str>("Income stream not found"),
    {
        match self.stream_slot(stream_id) {
            Some(i) => Ok(&self.income_streams[i]),
            None => Err("Income stream not found"),
        }
    }

    /// Ids of the income streams of `user`, in creation order.
    pub fn get_user_income_streams(&self, user: Address) -> (r: Vec<u64>)
        ensures
            r@ == streams_of(self.income_streams@, user),
    {
        let mut r: Vec<u64> = Vec::new();
        let mut i: usize = 0;
        while i < self.income_streams.len()
            invariant
                i <= self.income_streams@.len(),
                r@ == streams_of(self.income_streams@.take(i as int), user),
            decreases self.income_streams@.len() - i,
        {
            assert(self.income_streams@.take(i as int + 1).drop_last() =~= self.income_streams@.take(i as int));
            if self.income_streams[i].recipient == user {
                r.push(self.income_streams[i].stream_id);
            }
            i = i + 1;
        }
        assert(self.income_streams@.take(self.income_streams@.len() as int) =~= self.income_streams@);
        r
    }
}

} // verus!
