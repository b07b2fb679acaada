//! Multi-signature configuration and approvals: the admin configures a set of distinct
//! signers and an approval threshold; each signer may approve a pending transaction once,
//! and the approval count of a transaction is the number of distinct signers who approved it.
use vstd::prelude::*;
use crate::fees::Address;
use crate::shared::contains_address;

verus! {

/// Errors of the multi-signature module.
#[derive(Copy, Clone, Debug, PartialEq, Eq, Structural)]
pub enum MultiSigError {
    NotInitialized,
    AlreadyInitialized,
    Unauthorized,
    InvalidThreshold,
    DuplicateSigner,
    InvalidAmount,
    PendingTxNotFound,
    UnauthorizedSigner,
    DuplicateApproval,
    AlreadyExecuted,
    InsufficientBalance,
    MultisigNotConfigured,
    Overflow,
    BlacklistedDestination,
}

/// Contract error code of each error.
pub open spec fn multisig_error_code(e: MultiSigError) -> u32 {
    match e {
        MultiSigError::NotInitialized => 1,
        MultiSigError::AlreadyInitialized => 2,
        MultiSigError::Unauthorized => 3,
        MultiSigError::InvalidThreshold => 4,
        MultiSigError::DuplicateSigner => 5,
        MultiSigError::InvalidAmount => 6,
        MultiSigError::PendingTxNotFound => 7,
        MultiSigError::UnauthorizedSigner => 8,
        MultiSigError::DuplicateApproval => 9,
        MultiSigError::AlreadyExecuted => 10,
        MultiSigError::InsufficientBalance => 11,
        MultiSigError::MultisigNotConfigured => 12,
        MultiSigError::Overflow => 13,
        MultiSigError::BlacklistedDestination => 14,
    }
}

impl MultiSigError {
    /// The contract error code of this error.
    pub fn code(&self) -> (r: u32)
        ensures
            r == multisig_error_code(*self),
    {
        match self {
            MultiSigError::NotInitialized => 1,
            MultiSigError::AlreadyInitialized => 2,
            MultiSigError::Unauthorized => 3,
            MultiSigError::InvalidThreshold => 4,
            MultiSigError::DuplicateSigner => 5,
            MultiSigError::InvalidAmount => 6,
            MultiSigError::PendingTxNotFound => 7,
            MultiSigError::UnauthorizedSigner => 8,
            MultiSigError::DuplicateApproval => 9,
            MultiSigError::AlreadyExecuted => 10,
            MultiSigError::InsufficientBalance => 11,
            MultiSigError::MultisigNotConfigured => 12,
            MultiSigError::Overflow => 13,
            MultiSigError::BlacklistedDestination => 14,
        }
    }
}

/// A transaction awaiting approval.
pub struct PendingTx {
    pub id: u64,
    pub from: Address,
    pub to: Address,
    pub amount: i128,
    pub payload: Vec<u8>,
    pub asset: Option<Address>,
    pub created_at: u64,
    pub executed: bool,
}

/// Whether `s` holds some address twice.
pub open spec fn has_duplicate(s: Seq<Address>) -> bool {
    exists|i: int, j: int| 0 <= i < j < s.len() && #[trigger] s[i] == #[trigger] s[j]
}

/// Validation of a signer set and threshold.
pub open spec fn signer_config_check(signers: Seq<Address>, threshold: u32) -> Result<(), MultiSigError> {
    if signers.len() == 0 || threshold == 0 || threshold > signers.len() {
        Err(MultiSigError::InvalidThreshold)
    } else if has_duplicate(signers) {
        Err(MultiSigError::DuplicateSigner)
    } else {
        Ok(())
    }
}

/// Checks a signer configuration: a non-empty set of distinct signers and a threshold between
/// one and the number of signers.
pub fn validate_signer_config(signers: &[Address], threshold: u32) -> (r: Result<(), MultiSigError>)
    ensures
        r == signer_config_check(signers@, threshold),
{
    let n = signers.len();
    if n == 0 || threshold == 0 || threshold as usize > n {
        return Err(MultiSigError::InvalidThreshold);
    }
    let mut i: usize = 0;
    while i < n
        invariant
            n == signers@.len(),
            n > 0 && threshold > 0 && threshold <= n,
            i <= n,
            forall|a: int, b: int| 0 <= a < i && a < b < n ==> signers@[a] != signers@[b],
        decreases n - i,
    {
        let mut j: usize = i + 1;
        while j < n
            invariant
                n == signers@.len(),
                n > 0 && threshold > 0 && threshold <= n,
                i < n,
                i + 1 <= j <= n,
                forall|a: int, b: int| 0 <= a < i && a < b < n ==> signers@[a] != signers@[b],
                forall|b: int| i < b < j ==> signers@[i as int] != signers@[b],
            decreases n - j,
        {
            if signers[i] == signers[j] {
                assert(signers@[i as int] == signers@[j as int]);
                assert(has_duplicate(signers@));
                return Err(MultiSigError::DuplicateSigner);
            }
            j = j + 1;
        }
        i = i + 1;
    }
    assert(!has_duplicate(signers@));
    Ok(())
}

/// Number of approvals of `s` recorded for transaction `tx`.
pub open spec fn approvals_for(s: Seq<(u64, Address)>, tx: u64) -> nat
    decreases s.len(),
{
    if s.len() == 0 {
        0
    } else {
        approvals_for(s.drop_last(), tx) + if s.last().0 == tx { 1nat } else { 0nat }
    }
}

/// One more approval adds one to its transaction's count only.
proof fn lemma_approvals_push(s: Seq<(u64, Address)>, a: (u64, Address), tx: u64)
    ensures
        approvals_for(s.push(a), tx) == approvals_for(s, tx) + if a.0 == tx { 1nat } else { 0nat },
{
    assert(s.push(a).drop_last() =~= s);
}

/// Multi-signature state.
pub struct MultisigState {
    pub admin: Option<Address>,
    pub signers: Vec<Address>,
    pub threshold: u32,
    /// Amounts at or above this need multi-signature approval.
    pub high_value_threshold: i128,
    /// Last transaction id handed out.
    pub next_tx_id: u64,
    /// Recorded (transaction, signer) approvals.
    pub approvals: Vec<(u64, Address)>,
}

impl MultisigState {
    /// Approvals are distinct and every transaction's count fits a `u32`.
    pub open spec fn wf(&self) -> bool {
        &&& forall|i: int, j: int| 0 <= i < j < self.approvals@.len() ==> #[trigger] self.approvals@[i] != #[trigger] self.approvals@[j]
        &&& forall|tx: u64| #[trigger] approvals_for(self.approvals@, tx) <= u32::MAX
    }

    /// Whether `signer` approved transaction `tx`.
    pub open spec fn approved(&self, tx: u64, signer: Address) -> bool {
        self.approvals@.contains((tx, signer))
    }

    /// Who may configure the multi-signature settings.
    pub open spec fn admin_check(&self, caller: Address) -> Result<(), MultiSigError> {
        match self.admin {
            None => Err(MultiSigError::NotInitialized),
            Some(a) => if a != caller { Err(MultiSigError::Unauthorized) } else { Ok(()) },
        }
    }

    /// Whether the signer set and threshold allow approvals.
    pub open spec fn configured(&self) -> bool {
        self.signers@.len() > 0 && self.threshold > 0 && self.threshold <= self.signers@.len()
    }

    /// Uninitialised state: no signers, threshold zero, every amount below the high-value
    /// threshold.
    pub fn new() -> (r: MultisigState)
        ensures
            r.wf(),
            r.admin is None,
            r.signers@.len() == 0,
            r.threshold == 0,
            r.high_value_threshold == i128::MAX,
            r.next_tx_id == 0,
            r.approvals@.len() == 0,
    {
        let r = MultisigState {
            admin: None,
            signers: Vec::new(),
            threshold: 0,
            high_value_threshold: i128::MAX,
            next_tx_id: 0,
            approvals: Vec::new(),
        };
        assert forall|tx: u64| #[trigger] approvals_for(r.approvals@, tx) <= u32::MAX by {}
        r
    }

    /// Sets the admin and resets the configuration; fails when an admin is set.
    pub fn initialize_state(&mut self, admin: Address) -> (r: Result<(), MultiSigError>)
        requires
            old(self).wf(),
        ensures
            final(self).wf(),
            old(self).admin is Some ==> r == Err::<(), MultiSigError>(MultiSigError::AlreadyInitialized) && *final(self) == *old(self),
            old(self).admin is None ==> r is Ok && final(self).admin == Some(admin) && final(self).signers@.len() == 0
                && final(self).threshold == 0 && final(self).high_value_threshold == i128::MAX
                && final(self).next_tx_id == 0 && final(self).approvals == old(self).approvals,
    {
        if self.admin.is_some() {
            return Err(MultiSigError::AlreadyInitialized);
        }
        self.admin = Some(admin);
        self.signers = Vec::new();
        self.threshold = 0;
        self.high_value_threshold = i128::MAX;
        self.next_tx_id = 0;
        Ok(())
    }

    /// The admin.
    pub fn get_admin(&self) -> (r: Result<Address, MultiSigError>)
        ensures
            self.admin matches Some(a) ==> r == Ok::<Address, MultiSigError>(a),
            self.admin is None ==> r == Err::<Address, MultiSigError>(MultiSigError::NotInitialized),
    {
        match self.admin {
            Some(a) => Ok(a),
            None => Err(MultiSigError::NotInitialized),
        }
    }

    /// Checks that `caller` is the admin.
    pub fn require_admin(&self, caller: Address) -> (r: Result<(), MultiSigError>)
        ensures
            r == self.admin_check(caller),
    {
        match self.admin {
            None => Err(MultiSigError::NotInitialized),
            Some(a) => if a != caller { Err(MultiSigError::Unauthorized) } else { Ok(()) },
        }
    }

    /// Replaces the signer set and threshold (admin only, valid configuration only).
    pub fn set_signers(&mut self, caller: Address, signers: Vec<Address>, threshold: u32) -> (r: Result<(), MultiSigError>)
        requires
            old(self).wf(),
        ensures
            final(self).wf(),
            old(self).admin_check(caller) is Err ==> r == old(self).admin_check(caller),
            old(self).admin_check(caller) is Ok ==> r == signer_config_check(signers@, threshold),
            r is Err ==> *final(self) == *old(self),
            r is Ok ==> *final(self) == (MultisigState { signers, threshold, ..*old(self) }),
    {
        self.require_admin(caller)?;
        validate_signer_config(signers.as_slice(), threshold)?;
        self.signers = signers;
        self.threshold = threshold;
        Ok(())
    }

    /// Sets the amount from which transactions need approval (admin only, not negative).
    pub fn set_high_value_threshold(&mut self, caller: Address, amount: i128) -> (r: Result<(), MultiSigError>)
        requires
            old(self).wf(),
        ensures
            final(self).wf(),
            old(self).admin_check(caller) is Err ==> r == old(self).admin_check(caller),
            old(self).admin_check(caller) is Ok && amount < 0 ==> r == Err::<(), MultiSigError>(MultiSigError::InvalidAmount),
            old(self).admin_check(caller) is Ok && amount >= 0 ==> r is Ok,
            r is Err ==> *final(self) == *old(self),
            r is Ok ==> *final(self) == (MultisigState { high_value_threshold: amount, ..*old(self) }),
    {
        self.require_admin(caller)?;
        if amount < 0 {
            return Err(MultiSigError::InvalidAmount);
        }
        self.high_value_threshold = amount;
        Ok(())
    }

    /// The signers.
    pub fn get_signers(&self) -> (r: Vec<Address>)
        ensures
            r@ == self.signers@,
    {
        vstd::slice::slice_to_vec(self.signers.as_slice())
    }

    /// The approval threshold.
    pub fn get_threshold(&self) -> (r: u32)
        ensures
            r == self.threshold,
    {
        self.threshold
    }

    /// The amount from which transactions need approval.
    pub fn get_high_value_threshold(&self) -> (r: i128)
        ensures
            r == self.high_value_threshold,
    {
        self.high_value_threshold
    }

    /// Fails unless signers and a usable threshold are configured.
    pub fn ensure_multisig_configured(&self) -> (r: Result<(), MultiSigError>)
        ensures
            self.configured() ==> r is Ok,
            !self.configured() ==> r == Err::<(), MultiSigError>(MultiSigError::MultisigNotConfigured),
    {
        if self.signers.len() == 0 || self.threshold == 0 || self.threshold as usize > self.signers.len() {
            return Err(MultiSigError::MultisigNotConfigured);
        }
        Ok(())
    }

    /// Whether `signer` is a configured signer.
    pub fn is_signer(&self, signer: Address) -> (r: bool)
        ensures
            r == self.signers@.contains(signer),
    {
        contains_address(self.signers.as_slice(), signer)
    }

    /// Fails unless `signer` is a configured signer.
    pub fn require_signer(&self, signer: Address) -> (r: Result<(), MultiSigError>)
        ensures
            self.signers@.contains(signer) ==> r is Ok,
            !self.signers@.contains(signer) ==> r == Err::<(), MultiSigError>(MultiSigError::UnauthorizedSigner),
    {
        if !self.is_signer(signer) {
            return Err(MultiSigError::UnauthorizedSigner);
        }
        Ok(())
    }

    /// Hands out the next transaction id.
    pub fn next_tx_id(&mut self) -> (r: Result<u64, MultiSigError>)
        requires
            old(self).wf(),
        ensures
            final(self).wf(),
            old(self).next_tx_id == u64::MAX ==> r == Err::<u64, MultiSigError>(MultiSigError::Overflow) && *final(self) == *old(self),
            old(self).next_tx_id < u64::MAX ==> r == Ok::<u64, MultiSigError>((old(self).next_tx_id + 1) as u64)
                && *final(self) == (MultisigState { next_tx_id: (old(self).next_tx_id + 1) as u64, ..*old(self) }),
    {
        if self.next_tx_id == u64::MAX {
            return Err(MultiSigError::Overflow);
        }
        self.next_tx_id = self.next_tx_id + 1;
        Ok(self.next_tx_id)
    }

    /// Whether `signer` approved transaction `tx_id`.
    pub fn has_approval(&self, tx_id: u64, signer: Address) -> (r: bool)
        ensures
            r == self.approved(tx_id, signer),
    {
        let mut i: usize = 0;
        while i < self.approvals.len()
            invariant
                i <= self.approvals@.len(),
                forall|j: int| 0 <= j < i ==> self.approvals@[j] != (tx_id, signer),
            decreases self.approvals@.len() - i,
        {
            let (t, s) = self.approvals[i];
            if t == tx_id && s == signer {
                assert(self.approvals@[i as int] == (tx_id, signer));
                return true;
            }
            i = i + 1;
        }
        false
    }

    /// Number of signers who approved transaction `tx_id`.
    pub fn get_approval_count(&self, tx_id: u64) -> (r: u32)
        requires
            self.wf(),
        ensures
            r == approvals_for(self.approvals@, tx_id),
    {
        let mut count: u32 = 0;
        let mut i: usize = 0;
        while i < self.approvals.len()
            invariant
                self.wf(),
                i <= self.approvals@.len(),
                count == approvals_for(self.approvals@.take(i as int), tx_id),
            decreases self.approvals@.len() - i,
        {
            proof {
                assert(self.approvals@.take(i as int + 1) =~= self.approvals@.take(i as int).push(self.approvals@[i as int]));
                lemma_approvals_push(self.approvals@.take(i as int), self.approvals@[i as int], tx_id);
                lemma_approvals_prefix(self.approvals@, i as int + 1, tx_id);
            }
            if self.approvals[i].0 == tx_id {
                count = count + 1;
            }
            i = i + 1;
        }
        assert(self.approvals@.take(self.approvals@.len() as int) =~= self.approvals@);
        count
    }

    /// Records `signer`'s approval of transaction `tx_id` and returns the new approval count.
    pub fn record_approval(&mut self, tx_id: u64, signer: Address) -> (r: Result<u32, MultiSigError>)
        requires
            old(self).wf(),
        ensures
            final(self).wf(),
            old(self).approved(tx_id, signer) ==> r == Err::<u32, MultiSigError>(MultiSigError::DuplicateApproval),
            !old(self).approved(tx_id, signer) && approvals_for(old(self).approvals@, tx_id) == u32::MAX
                ==> r == Err::<u32, MultiSigError>(MultiSigError::Overflow),
            r is Err ==> *final(self) == *old(self),
            !old(self).approved(tx_id, signer) && approvals_for(old(self).approvals@, tx_id) < u32::MAX ==> {
                &&& r == Ok::<u32, MultiSigError>((approvals_for(old(self).approvals@, tx_id) + 1) as u32)
                &&& final(self).approvals@ == old(self).approvals@.push((tx_id, signer))
                &&& final(self).admin == old(self).admin
                &&& final(self).signers == old(self).signers
                &&& final(self).threshold == old(self).threshold
                &&& final(self).high_value_threshold == old(self).high_value_threshold
                &&& final(self).next_tx_id == old(self).next_tx_id
            },
    {
        if self.has_approval(tx_id, signer) {
            return Err(MultiSigError::DuplicateApproval);
        }
        let current = self.get_approval_count(tx_id);
        if current == u32::MAX {
            return Err(MultiSigError::Overflow);
        }
        let ghost old_approvals = self.approvals@;
        self.approvals.push((tx_id, signer));
        proof {
            assert forall|t: u64| #[trigger] approvals_for(self.approvals@, t) <= u32::MAX by {
                lemma_approvals_push(old_approvals, (tx_id, signer), t);
                assert(approvals_for(old_approvals, t) <= u32::MAX);
            }
            assert forall|i: int, j: int| 0 <= i < j < self.approvals@.len()
                implies #[trigger] self.approvals@[i] != #[trigger] self.approvals@[j] by {
                if j == old_approvals.len() {
                    assert(self.approvals@[i] == old_approvals[i]);
                    assert(old_approvals.contains(old_approvals[i]));
                } else {
                    assert(self.approvals@[i] == old_approvals[i]);
                    assert(self.approvals@[j] == old_approvals[j]);
                }
            }
        }
        Ok(current + 1)
    }
}

/// Counts over a prefix never exceed the count over the whole sequence.
proof fn lemma_approvals_prefix(s: Seq<(u64, Address)>, n: int, tx: u64)
    requires
        0 <= n <= s.len(),
    ensures
        approvals_for(s.take(n), tx) <= approvals_for(s, tx),
    decreases s.len() - n,
{
    if n < s.len() {
        lemma_approvals_prefix(s, n + 1, tx);
        assert(s.take(n + 1) =~= s.take(n).push(s[n]));
        lemma_approvals_push(s.take(n), s[n], tx);
    } else {
        assert(s.take(n) =~= s);
    }
}

} // verus!
