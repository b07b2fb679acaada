//! Multi-currency wallet: batched balance updates (set, add, subtract) for many users and
//! currencies, where invalid updates fail individually without affecting the valid ones.
use vstd::prelude::*;
use crate::fees::Address;
use crate::shared::{contains_address, normalize_asset_symbol, upper_byte};
use crate::text::{bytes_eq, copy_bytes};

verus! {

/// Largest batch accepted.
pub const MAX_BATCH_SIZE: u32 = 100;

/// Smallest amount a request may carry.
pub const MIN_BALANCE: i128 = 1;

/// Largest amount a request may carry and largest balance.
pub const MAX_BALANCE: i128 = 1_000_000_000_000_000_000;

/// Balances at or above this are reported as large updates.
pub const LARGE_BALANCE: i128 = 1_000_000;

/// Per-request failure codes.
pub struct ErrorCode;

impl ErrorCode {
    pub const INVALID_USER_ADDRESS: u32 = 1;
    pub const INVALID_CURRENCY: u32 = 2;
    pub const INVALID_AMOUNT: u32 = 3;
    pub const INVALID_OPERATION: u32 = 4;
    pub const INSUFFICIENT_BALANCE: u32 = 5;
    pub const ARITHMETIC_OVERFLOW: u32 = 6;
}

/// Errors that reject a whole batch.
#[derive(Copy, Clone, Debug, PartialEq, Eq, Structural)]
pub enum WalletError {
    NotInitialized,
    Unauthorized,
    InvalidBatch,
    EmptyBatch,
    BatchTooLarge,
}

/// Contract error code of each batch rejection.
pub open spec fn wallet_error_code(e: WalletError) -> u32 {
    match e {
        WalletError::NotInitialized => 1,
        WalletError::Unauthorized => 2,
        WalletError::InvalidBatch => 3,
        WalletError::EmptyBatch => 4,
        WalletError::BatchTooLarge => 5,
    }
}

impl WalletError {
    /// The contract error code of this error.
    pub fn code(&self) -> (r: u32)
        ensures
            r == wallet_error_code(*self),
    {
        match self {
            WalletError::NotInitialized => 1,
            WalletError::Unauthorized => 2,
            WalletError::InvalidBatch => 3,
            WalletError::EmptyBatch => 4,
            WalletError::BatchTooLarge => 5,
        }
    }
}

/// Operation of a balance update.
pub open spec fn op_set() -> Seq<u8> { seq![115u8, 101u8, 116u8] }

/// "add".
pub open spec fn op_add() -> Seq<u8> { seq![97u8, 100u8, 100u8] }

/// "subtract".
pub open spec fn op_subtract() -> Seq<u8> {
    seq![115u8, 117u8, 98u8, 116u8, 114u8, 97u8, 99u8, 116u8]
}

/// One requested balance change.
pub struct BalanceUpdateRequest {
    pub user: Address,
    pub currency: Vec<u8>,
    pub amount: i128,
    /// `set`, `add` or `subtract`.
    pub operation: Vec<u8>,
}

/// A stored balance.
pub struct CurrencyBalance {
    pub user: Address,
    pub currency: Vec<u8>,
    pub balance: i128,
    pub updated_at: u64,
}

/// Outcome of one request.
pub enum BalanceUpdateResult {
    Success(CurrencyBalance),
    Failure(Address, Vec<u8>, u32),
}

/// Counts describing a processed batch.
#[derive(Copy, Clone, Debug, PartialEq, Eq, Structural)]
pub struct BatchBalanceMetrics {
    pub total_requests: u32,
    pub successful_updates: u32,
    pub failed_updates: u32,
    pub unique_users: u32,
    pub unique_currencies: u32,
    pub processed_at: u64,
}

/// Outcome of a batch.
pub struct BatchBalanceResult {
    pub batch_id: u64,
    pub total_requests: u32,
    pub successful: u32,
    pub failed: u32,
    pub results: Vec<BalanceUpdateResult>,
    pub metrics: BatchBalanceMetrics,
}

/// Whether an amount is within `[MIN_BALANCE, MAX_BALANCE]`.
pub open spec fn valid_amount(amount: i128) -> bool {
    MIN_BALANCE <= amount <= MAX_BALANCE
}

/// Whether the operation is `set`, `add` or `subtract`.
pub open spec fn valid_operation(op: Seq<u8>) -> bool {
    op == op_set() || op == op_add() || op == op_subtract()
}

/// Uppercased currency code.
pub open spec fn normalized(c: Seq<u8>) -> Seq<u8> {
    Seq::new(c.len(), |i: int| upper_byte(c[i]))
}

/// Validation of the request itself (addresses and currencies are always valid).
pub open spec fn request_check(amount: i128, op: Seq<u8>) -> Result<(), u32> {
    if !valid_amount(amount) {
        Err(ErrorCode::INVALID_AMOUNT)
    } else if !valid_operation(op) {
        Err(ErrorCode::INVALID_OPERATION)
    } else {
        Ok(())
    }
}

/// New balance from `current` by `op` with `amount`: overflow, a negative result and a
/// result above `MAX_BALANCE` fail.
pub open spec fn new_balance(current: i128, op: Seq<u8>, amount: i128) -> Result<i128, u32> {
    let v: int = if op == op_set() {
        amount as int
    } else if op == op_add() {
        current + amount
    } else {
        current - amount
    };
    if op != op_set() && op != op_add() && op != op_subtract() {
        Err(ErrorCode::INVALID_OPERATION)
    } else if v < i128::MIN || v > i128::MAX {
        Err(ErrorCode::ARITHMETIC_OVERFLOW)
    } else if v < 0 {
        Err(ErrorCode::INSUFFICIENT_BALANCE)
    } else if v > MAX_BALANCE {
        Err(ErrorCode::ARITHMETIC_OVERFLOW)
    } else {
        Ok(v as i128)
    }
}

/// Balance of `(user, currency)` in `bals`, or zero.
pub open spec fn balance_in(bals: Map<(Address, Seq<u8>), i128>, user: Address, currency: Seq<u8>) -> i128 {
    if bals.contains_key((user, currency)) { bals[(user, currency)] } else { 0 }
}

/// Outcome of request `(user, currency, amount, op)` against `bals`: the new balance or a failure code.
pub open spec fn request_outcome(bals: Map<(Address, Seq<u8>), i128>, user: Address, currency: Seq<u8>,
    amount: i128, op: Seq<u8>) -> Result<i128, u32> {
    match request_check(amount, op) {
        Err(c) => Err(c),
        Ok(()) => new_balance(balance_in(bals, user, normalized(currency)), op, amount),
    }
}

/// Plain view of a request: user, currency, amount, operation.
pub open spec fn req_view(r: BalanceUpdateRequest) -> (Address, Seq<u8>, i128, Seq<u8>) {
    (r.user, r.currency@, r.amount, r.operation@)
}

/// Balances after applying the requests of `reqs` in order (failed requests change nothing).
pub open spec fn balances_after(bals: Map<(Address, Seq<u8>), i128>, reqs: Seq<(Address, Seq<u8>, i128, Seq<u8>)>)
    -> Map<(Address, Seq<u8>), i128>
    decreases reqs.len(),
{
    if reqs.len() == 0 {
        bals
    } else {
        let m = balances_after(bals, reqs.drop_last());
        let r = reqs.last();
        match request_outcome(m, r.0, r.1, r.2, r.3) {
            Ok(b) => m.insert((r.0, normalized(r.1)), b),
            Err(_) => m,
        }
    }
}

/// Outcome of request `i` of `reqs`, given the requests before it.
pub open spec fn outcome_at(bals: Map<(Address, Seq<u8>), i128>, reqs: Seq<(Address, Seq<u8>, i128, Seq<u8>)>, i: int)
    -> Result<i128, u32> {
    let r = reqs[i];
    request_outcome(balances_after(bals, reqs.take(i)), r.0, r.1, r.2, r.3)
}

/// Number of requests among `reqs` that succeed.
pub open spec fn success_count(bals: Map<(Address, Seq<u8>), i128>, reqs: Seq<(Address, Seq<u8>, i128, Seq<u8>)>) -> nat
    decreases reqs.len(),
{
    if reqs.len() == 0 {
        0
    } else {
        success_count(bals, reqs.drop_last())
            + if outcome_at(bals, reqs, reqs.len() - 1) is Ok { 1nat } else { 0nat }
    }
}

/// `s` without repeated elements, keeping first occurrences.
pub open spec fn dedup<A>(s: Seq<A>) -> Seq<A>
    decreases s.len(),
{
    if s.len() == 0 {
        s
    } else {
        let d = dedup(s.drop_last());
        if d.contains(s.last()) { d } else { d.push(s.last()) }
    }
}

/// Users of the successful requests, in order.
pub open spec fn successful_users(bals: Map<(Address, Seq<u8>), i128>, reqs: Seq<(Address, Seq<u8>, i128, Seq<u8>)>) -> Seq<Address>
    decreases reqs.len(),
{
    if reqs.len() == 0 {
        Seq::empty()
    } else {
        let s = successful_users(bals, reqs.drop_last());
        if outcome_at(bals, reqs, reqs.len() - 1) is Ok { s.push(reqs.last().0) } else { s }
    }
}

/// Normalised currencies of the successful requests, in order.
pub open spec fn successful_currencies(bals: Map<(Address, Seq<u8>), i128>, reqs: Seq<(Address, Seq<u8>, i128, Seq<u8>)>) -> Seq<Seq<u8>>
    decreases reqs.len(),
{
    if reqs.len() == 0 {
        Seq::empty()
    } else {
        let s = successful_currencies(bals, reqs.drop_last());
        if outcome_at(bals, reqs, reqs.len() - 1) is Ok { s.push(normalized(reqs.last().1)) } else { s }
    }
}

/// The wallet contract's state.
pub struct MultiCurrencyWalletContract {
    pub admin: Option<Address>,
    pub last_batch_id: u64,
    pub total_balances_updated: u64,
    pub total_batches_processed: u64,
    pub balances: Vec<CurrencyBalance>,
}

/// Key of a stored balance.
pub open spec fn balance_key(b: CurrencyBalance) -> (Address, Seq<u8>) {
    (b.user, b.currency@)
}

impl MultiCurrencyWalletContract {
    /// Each (user, currency) pair is stored once, and every stored balance lies in
    /// `0..=MAX_BALANCE`.
    pub open spec fn wf(&self) -> bool {
        &&& forall|i: int, j: int| 0 <= i < self.balances@.len() && 0 <= j < self.balances@.len() && i != j
            ==> balance_key(#[trigger] self.balances@[i]) != balance_key(#[trigger] self.balances@[j])
        &&& forall|i: int| 0 <= i < self.balances@.len() ==> 0 <= (#[trigger] self.balances@[i]).balance <= MAX_BALANCE
    }

    /// Balances as a map from (user, currency) to amount.
    pub open spec fn balance_map(&self) -> Map<(Address, Seq<u8>), i128> {
        Map::new(
            |k: (Address, Seq<u8>)| exists|i: int| 0 <= i < self.balances@.len() && balance_key(#[trigger] self.balances@[i]) == k,
            |k: (Address, Seq<u8>)| self.balances@[choose|i: int| 0 <= i < self.balances@.len()
                && balance_key(#[trigger] self.balances@[i]) == k].balance,
        )
    }

    /// An uninitialised wallet.
    pub fn new() -> (r: MultiCurrencyWalletContract)
        ensures
            r.wf(),
            r.admin is None,
            r.balance_map() == Map::<(Address, Seq<u8>), i128>::empty(),
            r.balances@.len() == 0,
            r.last_batch_id == 0,
            r.total_balances_updated == 0,
            r.total_batches_processed == 0,
    {
        let r = MultiCurrencyWalletContract {
            admin: None,
            last_batch_id: 0,
            total_balances_updated: 0,
            total_batches_processed: 0,
            balances: Vec::new(),
        };
        assert(r.balance_map() =~= Map::<(Address, Seq<u8>), i128>::empty());
        r
    }
}


/// Whether `op` names an operation.
pub fn is_valid_operation(operation: &[u8]) -> (r: bool)
    ensures
        r == valid_operation(operation@),
{
    let set: [u8; 3] = [115u8, 101u8, 116u8];
    let add: [u8; 3] = [97u8, 100u8, 100u8];
    let sub: [u8; 8] = [115u8, 117u8, 98u8, 116u8, 114u8, 97u8, 99u8, 116u8];
    assert(set@ =~= op_set());
    assert(add@ =~= op_add());
    assert(sub@ =~= op_subtract());
    bytes_eq(operation, set.as_slice()) || bytes_eq(operation, add.as_slice()) || bytes_eq(operation, sub.as_slice())
}

/// Whether an amount is within `[MIN_BALANCE, MAX_BALANCE]`.
pub fn is_valid_amount(amount: i128) -> (r: bool)
    ensures
        r == valid_amount(amount),
{
    amount >= MIN_BALANCE && amount <= MAX_BALANCE
}

/// Validates a request: its amount must be in range and its operation known.
pub fn validate_balance_request(request: &BalanceUpdateRequest) -> (r: Result<(), u32>)
    ensures
        r == request_check(request.amount, request.operation@),
{
    if !is_valid_amount(request.amount) {
        return Err(ErrorCode::INVALID_AMOUNT);
    }
    if !is_valid_operation(request.operation.as_slice()) {
        return Err(ErrorCode::INVALID_OPERATION);
    }
    Ok(())
}

/// New balance from `current` by `operation` with `amount` (see [`new_balance`]).
fn compute_new_balance(current: i128, operation: &[u8], amount: i128) -> (r: Result<i128, u32>)
    ensures
        r == new_balance(current, operation@, amount),
{
    let set: [u8; 3] = [115u8, 101u8, 116u8];
    let add: [u8; 3] = [97u8, 100u8, 100u8];
    let sub: [u8; 8] = [115u8, 117u8, 98u8, 116u8, 114u8, 97u8, 99u8, 116u8];
    assert(set@ =~= op_set());
    assert(add@ =~= op_add());
    assert(sub@ =~= op_subtract());
    let v = if bytes_eq(operation, set.as_slice()) {
        amount
    } else if bytes_eq(operation, add.as_slice()) {
        match current.checked_add(amount) {
            Some(v) => v,
            None => { return Err(ErrorCode::ARITHMETIC_OVERFLOW); },
        }
    } else if bytes_eq(operation, sub.as_slice()) {
        match current.checked_sub(amount) {
            Some(v) => v,
            None => { return Err(ErrorCode::ARITHMETIC_OVERFLOW); },
        }
    } else {
        return Err(ErrorCode::INVALID_OPERATION);
    };
    if v < 0 {
        return Err(ErrorCode::INSUFFICIENT_BALANCE);
    }
    if v > MAX_BALANCE {
        return Err(ErrorCode::ARITHMETIC_OVERFLOW);
    }
    Ok(v)
}

/// Whether `res` reports outcome `o` for a request by `user` in (normalised) `currency` at `ledger`.
pub open spec fn result_matches(res: BalanceUpdateResult, user: Address, currency: Seq<u8>, o: Result<i128, u32>, ledger: u64) -> bool {
    match o {
        Ok(b) => res matches BalanceUpdateResult::Success(cb) && cb.user == user && cb.currency@ == currency
            && cb.balance == b && cb.updated_at == ledger,
        Err(code) => res matches BalanceUpdateResult::Failure(u, c, k) && u == user && c@ == currency && k == code,
    }
}

proof fn lemma_balances_step(bals: Map<(Address, Seq<u8>), i128>, reqs: Seq<(Address, Seq<u8>, i128, Seq<u8>)>, i: int)
    requires
        0 <= i < reqs.len(),
    ensures
        balances_after(bals, reqs.take(i + 1)) == (match outcome_at(bals, reqs, i) {
            Ok(b) => balances_after(bals, reqs.take(i)).insert((reqs[i].0, normalized(reqs[i].1)), b),
            Err(_) => balances_after(bals, reqs.take(i)),
        }),
        success_count(bals, reqs.take(i + 1)) == success_count(bals, reqs.take(i))
            + if outcome_at(bals, reqs, i) is Ok { 1nat } else { 0nat },
        successful_users(bals, reqs.take(i + 1)) == (if outcome_at(bals, reqs, i) is Ok {
            successful_users(bals, reqs.take(i)).push(reqs[i].0)
        } else {
            successful_users(bals, reqs.take(i))
        }),
        successful_currencies(bals, reqs.take(i + 1)) == (if outcome_at(bals, reqs, i) is Ok {
            successful_currencies(bals, reqs.take(i)).push(normalized(reqs[i].1))
        } else {
            successful_currencies(bals, reqs.take(i))
        }),
{
    let t = reqs.take(i + 1);
    assert(t.drop_last() =~= reqs.take(i));
    assert(t.take(i) =~= reqs.take(i));
    assert(outcome_at(bals, t, i) == outcome_at(bals, reqs, i));
}

/// Whether the byte string `x` occurs in `v`.
fn contains_symbol(v: &Vec<Vec<u8>>, x: &Vec<u8>) -> (r: bool)
    ensures
        r == v@.map_values(|e: Vec<u8>| e@).contains(x@),
{
    let ghost vv = v@.map_values(|e: Vec<u8>| e@);
    let mut i: usize = 0;
    while i < v.len()
        invariant
            i <= v@.len(),
            vv == v@.map_values(|e: Vec<u8>| e@),
            forall|j: int| 0 <= j < i ==> vv[j] != x@,
        decreases v@.len() - i,
    {
        if bytes_eq(v[i].as_slice(), x.as_slice()) {
            assert(vv[i as int] == x@);
            return true;
        }
        i = i + 1;
    }
    false
}

impl MultiCurrencyWalletContract {
    /// The stored entry of a key gives the map's value.
    proof fn lemma_balance_map_at(&self, i: int)
        requires
            self.wf(),
            0 <= i < self.balances@.len(),
        ensures
            self.balance_map().contains_key(balance_key(self.balances@[i])),
            self.balance_map()[balance_key(self.balances@[i])] == self.balances@[i].balance,
    {
        let k = balance_key(self.balances@[i]);
        assert(exists|j: int| 0 <= j < self.balances@.len() && balance_key(#[trigger] self.balances@[j]) == k);
        let j = choose|j: int| 0 <= j < self.balances@.len() && balance_key(#[trigger] self.balances@[j]) == k;
        assert(j == i);
    }

    /// Index of the balance of `(user, currency)`.
    fn find_balance(&self, user: Address, currency: &Vec<u8>) -> (r: Option<usize>)
        requires
            self.wf(),
        ensures
            r matches Some(i) ==> i < self.balances@.len() && balance_key(self.balances@[i as int]) == (user, currency@),
            r is None ==> !self.balance_map().contains_key((user, currency@)),
    {
        let mut i: usize = 0;
        while i < self.balances.len()
            invariant
                i <= self.balances@.len(),
                forall|j: int| 0 <= j < i ==> balance_key(#[trigger] self.balances@[j]) != (user, currency@),
            decreases self.balances@.len() - i,
        {
            if self.balances[i].user == user && bytes_eq(self.balances[i].currency.as_slice(), currency.as_slice()) {
                return Some(i);
            }
            i = i + 1;
        }
        None
    }

    /// The balance `(user, currency)` would have after `operation` with `amount`, or the
    /// failure code (the stored balance is left as it is).
    pub fn validate_and_compute_balance(&self, user: Address, currency: &Vec<u8>, operation: &[u8], amount: i128) -> (r: Result<i128, u32>)
        requires
            self.wf(),
        ensures
            r == new_balance(balance_in(self.balance_map(), user, currency@), operation@, amount),
    {
        let current = self.stored_balance(user, currency);
        compute_new_balance(current, operation, amount)
    }

    /// Stored balance of `(user, currency)`, or zero.
    fn stored_balance(&self, user: Address, currency: &Vec<u8>) -> (r: i128)
        requires
            self.wf(),
        ensures
            r == balance_in(self.balance_map(), user, currency@),
    {
        match self.find_balance(user, currency) {
            Some(i) => {
                proof { self.lemma_balance_map_at(i as int); }
                self.balances[i].balance
            },
            None => 0,
        }
    }

    /// Stores `balance` for `(user, currency)`.
    fn write_balance(&mut self, user: Address, currency: Vec<u8>, balance: i128, updated_at: u64)
        requires
            old(self).wf(),
            0 <= balance <= MAX_BALANCE,
        ensures
            final(self).wf(),
            final(self).balance_map() == old(self).balance_map().insert((user, currency@), balance),
            final(self).admin == old(self).admin,
            final(self).last_batch_id == old(self).last_batch_id,
            final(self).total_balances_updated == old(self).total_balances_updated,
            final(self).total_batches_processed == old(self).total_batches_processed,
    {
        let ghost k = (user, currency@);
        let ghost old_map = self.balance_map();
        let entry = CurrencyBalance { user, currency, balance, updated_at };
        match self.find_balance(user, &entry.currency) {
            Some(i) => {
                let ghost s = self.balances@;
                self.balances.set(i, entry);
                proof {
                    assert forall|a: int, b: int| 0 <= a < self.balances@.len() && 0 <= b < self.balances@.len() && a != b
                        implies balance_key(#[trigger] self.balances@[a]) != balance_key(#[trigger] self.balances@[b]) by {
                        if a != i && b != i {
                            assert(self.balances@[a] == s[a] && self.balances@[b] == s[b]);
                        } else if a == i {
                            assert(self.balances@[b] == s[b]);
                            assert(balance_key(s[i as int]) == k);
                        } else {
                            assert(self.balances@[a] == s[a]);
                            assert(balance_key(s[i as int]) == k);
                        }
                    }
                    assert forall|k2: (Address, Seq<u8>)| #[trigger] self.balance_map().contains_key(k2)
                        == old_map.insert(k, balance).contains_key(k2) by {
                        if old_map.insert(k, balance).contains_key(k2) {
                            if k2 == k {
                                assert(balance_key(self.balances@[i as int]) == k2);
                            } else {
                                let j = choose|j: int| 0 <= j < s.len() && balance_key(#[trigger] s[j]) == k2;
                                assert(self.balances@[j] == s[j]);
                            }
                        }
                        if self.balance_map().contains_key(k2) {
                            let j = choose|j: int| 0 <= j < self.balances@.len() && balance_key(#[trigger] self.balances@[j]) == k2;
                            if j != i {
                                assert(self.balances@[j] == s[j]);
                            }
                        }
                    }
                    assert forall|k2: (Address, Seq<u8>)| #[trigger] self.balance_map().contains_key(k2)
                        implies self.balance_map()[k2] == old_map.insert(k, balance)[k2] by {
                        let j = choose|j: int| 0 <= j < self.balances@.len() && balance_key(#[trigger] self.balances@[j]) == k2;
                        self.lemma_balance_map_at(j);
                        if j != i {
                            assert(self.balances@[j] == s[j]);
                            old(self).lemma_balance_map_at(j);
                        }
                    }
                    assert(self.balance_map() =~= old_map.insert(k, balance));
                }
            },
            None => {
                let ghost s = self.balances@;
                self.balances.push(entry);
                proof {
                    let n = s.len() as int;
                    assert(forall|j: int| 0 <= j < n ==> balance_key(#[trigger] s[j]) != k);
                    assert forall|a: int, b: int| 0 <= a < self.balances@.len() && 0 <= b < self.balances@.len() && a != b
                        implies balance_key(#[trigger] self.balances@[a]) != balance_key(#[trigger] self.balances@[b]) by {
                        if a < n && b < n {
                            assert(self.balances@[a] == s[a] && self.balances@[b] == s[b]);
                        } else if a == n {
                            assert(self.balances@[b] == s[b]);
                        } else {
                            assert(self.balances@[a] == s[a]);
                        }
                    }
                    assert forall|k2: (Address, Seq<u8>)| #[trigger] self.balance_map().contains_key(k2)
                        == old_map.insert(k, balance).contains_key(k2) by {
                        if old_map.insert(k, balance).contains_key(k2) {
                            if k2 == k {
                                assert(balance_key(self.balances@[n]) == k2);
                            } else {
                                let j = choose|j: int| 0 <= j < s.len() && balance_key(#[trigger] s[j]) == k2;
                                assert(self.balances@[j] == s[j]);
                            }
                        }
                        if self.balance_map().contains_key(k2) {
                            let j = choose|j: int| 0 <= j < self.balances@.len() && balance_key(#[trigger] self.balances@[j]) == k2;
                            if j != n {
                                assert(self.balances@[j] == s[j]);
                            }
                        }
                    }
                    assert forall|k2: (Address, Seq<u8>)| #[trigger] self.balance_map().contains_key(k2)
                        implies self.balance_map()[k2] == old_map.insert(k, balance)[k2] by {
                        let j = choose|j: int| 0 <= j < self.balances@.len() && balance_key(#[trigger] self.balances@[j]) == k2;
                        self.lemma_balance_map_at(j);
                        if j != n {
                            assert(self.balances@[j] == s[j]);
                            old(self).lemma_balance_map_at(j);
                        }
                    }
                    assert(self.balance_map() =~= old_map.insert(k, balance));
                }
            },
        }
    }
}

} // verus!

verus! {

/// Plain views of a list of requests.
pub open spec fn reqs_view(requests: Seq<BalanceUpdateRequest>) -> Seq<(Address, Seq<u8>, i128, Seq<u8>)> {
    requests.map_values(|r: BalanceUpdateRequest| req_view(r))
}

impl MultiCurrencyWalletContract {
    /// Sets the admin; refused once an admin is set.
    pub fn initialize(&mut self, admin: Address) -> (r: Result<(), &'static str>)
        requires
            old(self).wf(),
        ensures
            final(self).wf(),
            old(self).admin is Some ==> r == Err::<(), &'static str>("Contract already initialized") && *final(self) == *old(self),
            old(self).admin is None ==> r is Ok && *final(self) == (MultiCurrencyWalletContract {
                admin: Some(admin),
                last_batch_id: 0,
                total_balances_updated: 0,
                total_batches_processed: 0,
                ..*old(self)
            }),
    {
        if self.admin.is_some() {
            return Err("Contract already initialized");
        }
        self.admin = Some(admin);
        self.last_batch_id = 0;
        self.total_balances_updated = 0;
        self.total_batches_processed = 0;
        Ok(())
    }

    /// `NotInitialized` without an admin, `Unauthorized` for anyone else.
    fn require_admin(&self, caller: Address) -> (r: Result<(), WalletError>)
        ensures
            self.admin is None ==> r == Err::<(), WalletError>(WalletError::NotInitialized),
            self.admin matches Some(a) ==> r == (if a == caller { Ok::<(), WalletError>(()) } else {
                Err::<(), WalletError>(WalletError::Unauthorized)
            }),
    {
        match self.admin {
            None => Err(WalletError::NotInitialized),
            Some(a) => if a == caller { Ok(()) } else { Err(WalletError::Unauthorized) },
        }
    }

    /// Applies a batch of balance updates in order (admin only, 1..=100 requests) at ledger
    /// `ledger`. Each request's currency is uppercased; a request fails individually (with a
    /// code, see [`request_outcome`]) when its amount is out of range, its operation unknown,
    /// or the resulting balance would be negative or too large; later requests see the
    /// balances written by earlier ones. The batch id, the number of balances updated and the
    /// number of batches grow accordingly.
    #[verifier::loop_isolation(false)]
    pub fn batch_update_balances(&mut self, caller: Address, requests: &Vec<BalanceUpdateRequest>, ledger: u64)
        -> (r: Result<BatchBalanceResult, WalletError>)
        requires
            old(self).wf(),
            old(self).admin == Some(caller) && 0 < requests@.len() <= MAX_BATCH_SIZE ==> {
                &&& old(self).last_batch_id < u64::MAX
                &&& old(self).total_batches_processed < u64::MAX
                &&& old(self).total_balances_updated
                    + success_count(old(self).balance_map(), reqs_view(requests@)) <= u64::MAX
            },
        ensures
            final(self).wf(),
            old(self).admin is None ==> r == Err::<BatchBalanceResult, WalletError>(WalletError::NotInitialized),
            old(self).admin matches Some(a) && a != caller ==> r == Err::<BatchBalanceResult, WalletError>(WalletError::Unauthorized),
            old(self).admin == Some(caller) && requests@.len() == 0 ==> r == Err::<BatchBalanceResult, WalletError>(WalletError::EmptyBatch),
            old(self).admin == Some(caller) && requests@.len() > MAX_BATCH_SIZE
                ==> r == Err::<BatchBalanceResult, WalletError>(WalletError::BatchTooLarge),
            r is Err ==> *final(self) == *old(self),
            old(self).admin == Some(caller) && 0 < requests@.len() <= MAX_BATCH_SIZE ==> {
                let reqs = reqs_view(requests@);
                let bals = old(self).balance_map();
                let n = requests@.len();
                let ok = success_count(bals, reqs);
                &&& r matches Ok(res) && {
                    &&& res.batch_id == old(self).last_batch_id + 1
                    &&& res.total_requests == n
                    &&& res.successful == ok
                    &&& res.failed == n - ok
                    &&& res.results@.len() == n
                    &&& forall|i: int| 0 <= i < n ==> result_matches(#[trigger] res.results@[i], reqs[i].0,
                        normalized(reqs[i].1), outcome_at(bals, reqs, i), ledger)
                    &&& res.metrics == (BatchBalanceMetrics {
                        total_requests: n as u32,
                        successful_updates: ok as u32,
                        failed_updates: (n - ok) as u32,
                        unique_users: dedup(successful_users(bals, reqs)).len() as u32,
                        unique_currencies: dedup(successful_currencies(bals, reqs)).len() as u32,
                        processed_at: ledger,
                    })
                }
                &&& final(self).balance_map() == balances_after(bals, reqs)
                &&& final(self).last_batch_id == old(self).last_batch_id + 1
                &&& final(self).total_balances_updated == old(self).total_balances_updated + ok
                &&& final(self).total_batches_processed == old(self).total_batches_processed + 1
                &&& final(self).admin == old(self).admin
            },
    {
        match self.require_admin(caller) {
            Err(e) => { return Err(e); },
            Ok(()) => {},
        }
        let request_count = requests.len();
        if request_count == 0 {
            return Err(WalletError::EmptyBatch);
        }
        if request_count > MAX_BATCH_SIZE as usize {
            return Err(WalletError::BatchTooLarge);
        }
        let batch_id = self.last_batch_id + 1;
        let ghost reqs = reqs_view(requests@);
        let ghost bals = self.balance_map();
        let ghost old_self = *self;
        let mut results: Vec<BalanceUpdateResult> = Vec::new();
        let mut successful_count: u32 = 0;
        let mut failed_count: u32 = 0;
        let mut unique_users: Vec<Address> = Vec::new();
        let mut unique_currencies: Vec<Vec<u8>> = Vec::new();
        proof {
            assert(reqs.take(0) =~= Seq::<(Address, Seq<u8>, i128, Seq<u8>)>::empty());
            assert(unique_currencies@.map_values(|e: Vec<u8>| e@) =~= Seq::<Seq<u8>>::empty());
        }
        let mut i: usize = 0;
        while i < request_count
            invariant
                request_count == requests@.len(),
                reqs == reqs_view(requests@),
                0 < request_count <= MAX_BATCH_SIZE,
                i <= request_count,
                self.wf(),
                self.admin == old_self.admin,
                self.last_batch_id == old_self.last_batch_id,
                self.total_balances_updated == old_self.total_balances_updated,
                self.total_batches_processed == old_self.total_batches_processed,
                self.balance_map() == balances_after(bals, reqs.take(i as int)),
                results@.len() == i,
                forall|j: int| 0 <= j < i ==> result_matches(#[trigger] results@[j], reqs[j].0,
                    normalized(reqs[j].1), outcome_at(bals, reqs, j), ledger),
                successful_count == success_count(bals, reqs.take(i as int)),
                successful_count + failed_count == i,
                unique_users@ == dedup(successful_users(bals, reqs.take(i as int))),
                unique_currencies@.map_values(|e: Vec<u8>| e@) == dedup(successful_currencies(bals, reqs.take(i as int))),
            decreases request_count - i,
        {
            let request = &requests[i];
            let currency = normalize_asset_symbol(request.currency.as_slice());
            proof {
                lemma_balances_step(bals, reqs, i as int);
                assert(currency@ =~= normalized(reqs[i as int].1));
                assert(reqs.take(i as int).len() == i);
            }
            let outcome: Result<i128, u32> = match validate_balance_request(request) {
                Err(code) => Err(code),
                Ok(()) => {
                    let current = self.stored_balance(request.user, &currency);
                    compute_new_balance(current, request.operation.as_slice(), request.amount)
                },
            };
            assert(outcome == outcome_at(bals, reqs, i as int));
            let ghost us = successful_users(bals, reqs.take(i as int));
            let ghost cs = successful_currencies(bals, reqs.take(i as int));
            proof {
                assert(us.push(request.user).drop_last() =~= us);
                assert(cs.push(currency@).drop_last() =~= cs);
            }
            match outcome {
                Ok(new_balance) => {
                    successful_count = successful_count + 1;
                    if !contains_address(unique_users.as_slice(), request.user) {
                        unique_users.push(request.user);
                    }
                    if !contains_symbol(&unique_currencies, &currency) {
                        let ghost before = unique_currencies@.map_values(|e: Vec<u8>| e@);
                        unique_currencies.push(copy_bytes(&currency));
                        proof {
                            assert(unique_currencies@.map_values(|e: Vec<u8>| e@) =~= before.push(currency@));
                        }
                    }
                    self.write_balance(request.user, copy_bytes(&currency), new_balance, ledger);
                    results.push(BalanceUpdateResult::Success(CurrencyBalance {
                        user: request.user,
                        currency,
                        balance: new_balance,
                        updated_at: ledger,
                    }));
                },
                Err(code) => {
                    failed_count = failed_count + 1;
                    results.push(BalanceUpdateResult::Failure(request.user, currency, code));
                },
            }
            i = i + 1;
        }
        proof {
            assert(reqs.take(request_count as int) =~= reqs);
        }
        let metrics = BatchBalanceMetrics {
            total_requests: request_count as u32,
            successful_updates: successful_count,
            failed_updates: failed_count,
            unique_users: unique_users.len() as u32,
            unique_currencies: unique_currencies.len() as u32,
            processed_at: ledger,
        };
        self.last_batch_id = batch_id;
        self.total_balances_updated = self.total_balances_updated + successful_count as u64;
        self.total_batches_processed = self.total_batches_processed + 1;
        Ok(BatchBalanceResult {
            batch_id,
            total_requests: request_count as u32,
            successful: successful_count,
            failed: failed_count,
            results,
            metrics,
        })
    }
}

} // verus!

verus! {

impl MultiCurrencyWalletContract {
    /// Balance of `user` in `currency` (uppercased first); zero if none.
    pub fn get_balance(&self, user: Address, currency: &[u8]) -> (r: i128)
        requires
            self.wf(),
        ensures
            r == balance_in(self.balance_map(), user, normalized(currency@)),
    {
        let c = normalize_asset_symbol(currency);
        assert(c@ =~= normalized(currency@));
        self.stored_balance(user, &c)
    }

    /// Full record of the balance of `user` in `currency` (uppercased first), if any.
    pub fn get_balance_details(&self, user: Address, currency: &[u8]) -> (r: Option<CurrencyBalance>)
        requires
            self.wf(),
        ensures
            r is None <==> !self.balance_map().contains_key((user, normalized(currency@))),
            r matches Some(b) ==> b.user == user && b.currency@ == normalized(currency@)
                && b.balance == self.balance_map()[(user, normalized(currency@))],
    {
        let c = normalize_asset_symbol(currency);
        assert(c@ =~= normalized(currency@));
        match self.find_balance(user, &c) {
            Some(i) => {
                proof { self.lemma_balance_map_at(i as int); }
                let b = &self.balances[i];
                Some(CurrencyBalance { user: b.user, currency: copy_bytes(&b.currency), balance: b.balance, updated_at: b.updated_at })
            },
            None => None,
        }
    }

    /// The admin, or the message the contract fails with before initialisation.
    pub fn get_admin(&self) -> (r: Result<Address, &'static str>)
        ensures
            self.admin matches Some(a) ==> r == Ok::<Address, &'static str>(a),
            self.admin is None ==> r == Err::<Address, &'static str>("Contract not initialized"),
    {
        match self.admin {
            Some(a) => Ok(a),
            None => Err("Contract not initialized"),
        }
    }

    /// Replaces the admin (current admin only).
    pub fn set_admin(&mut self, current_admin: Address, new_admin: Address) -> (r: Result<(), WalletError>)
        requires
            old(self).wf(),
        ensures
            final(self).wf(),
            old(self).admin is None ==> r == Err::<(), WalletError>(WalletError::NotInitialized),
            old(self).admin matches Some(a) && a != current_admin ==> r == Err::<(), WalletError>(WalletError::Unauthorized),
            r is Ok <==> old(self).admin == Some(current_admin),
            r is Ok ==> *final(self) == (MultiCurrencyWalletContract { admin: Some(new_admin), ..*old(self) }),
            r is Err ==> *final(self) == *old(self),
    {
        match self.require_admin(current_admin) {
            Err(e) => { return Err(e); },
            Ok(()) => {},
        }
        self.admin = Some(new_admin);
        Ok(())
    }

    /// Id of the last processed batch.
    pub fn get_last_batch_id(&self) -> (r: u64)
        ensures
            r == self.last_batch_id,
    {
        self.last_batch_id
    }

    /// Number of balances updated so far.
    pub fn get_total_balances_updated(&self) -> (r: u64)
        ensures
            r == self.total_balances_updated,
    {
        self.total_balances_updated
    }

    /// Number of batches processed so far.
    pub fn get_total_batches_processed(&self) -> (r: u64)
        ensures
            r == self.total_batches_processed,
    {
        self.total_batches_processed
    }
}

} // verus!
