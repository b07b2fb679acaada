//! The fee contract: a configurable percentage fee with rounding modes, min/max bounds,
//! priority multipliers, treasury routing, per-user and per-category accounting,
//! refunds, escrow, snapshots and distribution to recipients.
use vstd::prelude::*;
use std::collections::HashMap;
use crate::fee_math::{trunc_div, fits_i128};

verus! {

broadcast use vstd::std_specs::hash::group_hash_axioms;

/// Account identifier used by the contracts.
pub type Address = u64;

/// Rounding applied when converting a basis-point product to a whole fee.
#[derive(Copy, Clone, Debug, PartialEq, Eq, Structural)]
pub enum RoundingMode {
    /// Round down (floor).
    Floor,
    /// Round half up.
    Round,
    /// Round up (ceiling).
    Ceiling,
}

impl RoundingMode {
    /// Mode with the given code: 0 Floor, 1 Round, 2 Ceiling.
    pub fn from_u32(value: u32) -> (r: Option<RoundingMode>)
        ensures
            r == rounding_mode_from_code(value),
    {
        match value {
            0 => Some(RoundingMode::Floor),
            1 => Some(RoundingMode::Round),
            2 => Some(RoundingMode::Ceiling),
            _ => None,
        }
    }

    /// Code of the mode.
    pub fn to_u32(self) -> (r: u32)
        ensures
            r == rounding_mode_code(self),
            rounding_mode_from_code(r) == Some(self),
    {
        match self {
            RoundingMode::Floor => 0,
            RoundingMode::Round => 1,
            RoundingMode::Ceiling => 2,
        }
    }
}

/// Mode with the given code.
pub open spec fn rounding_mode_from_code(value: u32) -> Option<RoundingMode> {
    if value == 0 {
        Some(RoundingMode::Floor)
    } else if value == 1 {
        Some(RoundingMode::Round)
    } else if value == 2 {
        Some(RoundingMode::Ceiling)
    } else {
        None
    }
}

/// Code of a mode.
pub open spec fn rounding_mode_code(m: RoundingMode) -> u32 {
    match m {
        RoundingMode::Floor => 0,
        RoundingMode::Round => 1,
        RoundingMode::Ceiling => 2,
    }
}

/// Categories under which collected fees are reported.
#[derive(Copy, Clone, Debug, PartialEq, Eq, Structural)]
pub enum FeeCategory {
    Transaction,
    Priority,
    CrossContract,
    Batch,
    TokenTransfer,
    WalletCreation,
    Other,
}

impl FeeCategory {
    /// Category with the given code, 0 (Transaction) to 6 (Other).
    pub fn from_u32(value: u32) -> (r: Option<FeeCategory>)
        ensures
            r == fee_category_from_code(value),
    {
        match value {
            0 => Some(FeeCategory::Transaction),
            1 => Some(FeeCategory::Priority),
            2 => Some(FeeCategory::CrossContract),
            3 => Some(FeeCategory::Batch),
            4 => Some(FeeCategory::TokenTransfer),
            5 => Some(FeeCategory::WalletCreation),
            6 => Some(FeeCategory::Other),
            _ => None,
        }
    }

    /// Code of the category.
    pub fn to_u32(self) -> (r: u32)
        ensures
            r == fee_category_code(self),
            r < 7,
            fee_category_from_code(r) == Some(self),
    {
        match self {
            FeeCategory::Transaction => 0,
            FeeCategory::Priority => 1,
            FeeCategory::CrossContract => 2,
            FeeCategory::Batch => 3,
            FeeCategory::TokenTransfer => 4,
            FeeCategory::WalletCreation => 5,
            FeeCategory::Other => 6,
        }
    }
}

/// Category with the given code.
pub open spec fn fee_category_from_code(value: u32) -> Option<FeeCategory> {
    if value == 0 {
        Some(FeeCategory::Transaction)
    } else if value == 1 {
        Some(FeeCategory::Priority)
    } else if value == 2 {
        Some(FeeCategory::CrossContract)
    } else if value == 3 {
        Some(FeeCategory::Batch)
    } else if value == 4 {
        Some(FeeCategory::TokenTransfer)
    } else if value == 5 {
        Some(FeeCategory::WalletCreation)
    } else if value == 6 {
        Some(FeeCategory::Other)
    } else {
        None
    }
}

/// Code of a category.
pub open spec fn fee_category_code(c: FeeCategory) -> u32 {
    match c {
        FeeCategory::Transaction => 0,
        FeeCategory::Priority => 1,
        FeeCategory::CrossContract => 2,
        FeeCategory::Batch => 3,
        FeeCategory::TokenTransfer => 4,
        FeeCategory::WalletCreation => 5,
        FeeCategory::Other => 6,
    }
}

/// Execution priority; higher levels pay higher fees.
#[derive(Copy, Clone, Debug, PartialEq, Eq, Structural)]
pub enum PriorityLevel {
    Low,
    Medium,
    High,
    Urgent,
}

impl PriorityLevel {
    /// Level with the given code, 0 (Low) to 3 (Urgent).
    pub fn from_u32(value: u32) -> (r: Option<PriorityLevel>)
        ensures
            r == priority_from_code(value),
    {
        match value {
            0 => Some(PriorityLevel::Low),
            1 => Some(PriorityLevel::Medium),
            2 => Some(PriorityLevel::High),
            3 => Some(PriorityLevel::Urgent),
            _ => None,
        }
    }

    /// Code of the level.
    pub fn to_u32(self) -> (r: u32)
        ensures
            r == priority_code(self),
            priority_from_code(r) == Some(self),
    {
        match self {
            PriorityLevel::Low => 0,
            PriorityLevel::Medium => 1,
            PriorityLevel::High => 2,
            PriorityLevel::Urgent => 3,
        }
    }
}

/// Level with the given code.
pub open spec fn priority_from_code(value: u32) -> Option<PriorityLevel> {
    if value == 0 {
        Some(PriorityLevel::Low)
    } else if value == 1 {
        Some(PriorityLevel::Medium)
    } else if value == 2 {
        Some(PriorityLevel::High)
    } else if value == 3 {
        Some(PriorityLevel::Urgent)
    } else {
        None
    }
}

/// Code of a level.
pub open spec fn priority_code(p: PriorityLevel) -> u32 {
    match p {
        PriorityLevel::Low => 0,
        PriorityLevel::Medium => 1,
        PriorityLevel::High => 2,
        PriorityLevel::Urgent => 3,
    }
}

/// Multipliers, in basis points, applied to the base rate for each priority level.
#[derive(Copy, Clone, Debug, PartialEq, Eq, Structural)]
pub struct PriorityFeeConfig {
    pub low_multiplier_bps: u32,
    pub medium_multiplier_bps: u32,
    pub high_multiplier_bps: u32,
    pub urgent_multiplier_bps: u32,
}

impl PriorityFeeConfig {
    /// 0.8x, 1.0x, 1.5x and 2.0x.
    pub fn default_config() -> (r: PriorityFeeConfig)
        ensures
            r == default_priority_config(),
    {
        PriorityFeeConfig {
            low_multiplier_bps: 8000,
            medium_multiplier_bps: 10000,
            high_multiplier_bps: 15000,
            urgent_multiplier_bps: 20000,
        }
    }

    /// Multiplier of a level.
    pub open spec fn multiplier(self, priority: PriorityLevel) -> u32 {
        match priority {
            PriorityLevel::Low => self.low_multiplier_bps,
            PriorityLevel::Medium => self.medium_multiplier_bps,
            PriorityLevel::High => self.high_multiplier_bps,
            PriorityLevel::Urgent => self.urgent_multiplier_bps,
        }
    }

    /// Whether multipliers never decrease with the level.
    pub open spec fn ascending(self) -> bool {
        self.low_multiplier_bps <= self.medium_multiplier_bps
            && self.medium_multiplier_bps <= self.high_multiplier_bps
            && self.high_multiplier_bps <= self.urgent_multiplier_bps
    }

    /// The multiplier for `priority`, in basis points.
    pub fn get_multiplier_bps(&self, priority: PriorityLevel) -> (r: u32)
        ensures
            r == self.multiplier(priority),
    {
        match priority {
            PriorityLevel::Low => self.low_multiplier_bps,
            PriorityLevel::Medium => self.medium_multiplier_bps,
            PriorityLevel::High => self.high_multiplier_bps,
            PriorityLevel::Urgent => self.urgent_multiplier_bps,
        }
    }

    /// Whether multipliers are in ascending order (higher priority never pays less).
    pub fn is_valid(&self) -> (r: bool)
        ensures
            r == self.ascending(),
    {
        self.low_multiplier_bps <= self.medium_multiplier_bps
            && self.medium_multiplier_bps <= self.high_multiplier_bps
            && self.high_multiplier_bps <= self.urgent_multiplier_bps
    }
}

/// The default priority multipliers.
pub open spec fn default_priority_config() -> PriorityFeeConfig {
    PriorityFeeConfig {
        low_multiplier_bps: 8000,
        medium_multiplier_bps: 10000,
        high_multiplier_bps: 15000,
        urgent_multiplier_bps: 20000,
    }
}

/// Totals captured at one point in time.
#[derive(Copy, Clone, Debug, PartialEq, Eq, Structural)]
pub struct FeeSnapshot {
    pub total_collected: i128,
    pub treasury_collected: i128,
    pub distributed: i128,
    pub created_at: u64,
    pub period_start: u64,
}

/// Number of snapshots taken and the time of the latest.
#[derive(Copy, Clone, Debug, PartialEq, Eq, Structural)]
pub struct SnapshotMetadata {
    pub count: u64,
    pub latest_timestamp: u64,
}

/// A distribution recipient and its share in basis points.
#[derive(Copy, Clone, Debug, PartialEq, Eq, Structural)]
pub struct FeeRecipient {
    pub address: Address,
    pub share_bps: u32,
}

/// Errors of the fee contract.
#[derive(Copy, Clone, Debug, PartialEq, Eq, Structural)]
pub enum FeeError {
    NotInitialized,
    AlreadyInitialized,
    Unauthorized,
    InvalidPercentage,
    InvalidAmount,
    Overflow,
    InvalidRefundAmount,
    InsufficientFeeBalance,
    InvalidDistribution,
    DistributionSumsToWrong,
    NoDistributionConfigured,
    InvalidFeeBound,
    InvalidFeeBoundRange,
    InvalidPriorityLevel,
    InvalidPriorityConfig,
    NoEscrowedFees,
    TreasuryNotConfigured,
    InvalidTreasuryPercentage,
    InvalidRoundingMode,
    InvalidFeeCategory,
    InvalidSnapshotPeriod,
}

/// Contract error code of each fee error.
pub open spec fn fee_error_code(e: FeeError) -> u32 {
    match e {
        FeeError::NotInitialized => 1,
        FeeError::AlreadyInitialized => 2,
        FeeError::Unauthorized => 3,
        FeeError::InvalidPercentage => 4,
        FeeError::InvalidAmount => 5,
        FeeError::Overflow => 6,
        FeeError::InvalidRefundAmount => 7,
        FeeError::InsufficientFeeBalance => 8,
        FeeError::InvalidDistribution => 9,
        FeeError::DistributionSumsToWrong => 10,
        FeeError::NoDistributionConfigured => 11,
        FeeError::InvalidFeeBound => 12,
        FeeError::InvalidFeeBoundRange => 13,
        FeeError::InvalidPriorityLevel => 14,
        FeeError::InvalidPriorityConfig => 15,
        FeeError::NoEscrowedFees => 16,
        FeeError::TreasuryNotConfigured => 17,
        FeeError::InvalidTreasuryPercentage => 18,
        FeeError::InvalidRoundingMode => 19,
        FeeError::InvalidFeeCategory => 20,
        FeeError::InvalidSnapshotPeriod => 21,
    }
}

impl FeeError {
    /// The contract error code of this error.
    pub fn code(&self) -> (r: u32)
        ensures
            r == fee_error_code(*self),
    {
        match self {
            FeeError::NotInitialized => 1,
            FeeError::AlreadyInitialized => 2,
            FeeError::Unauthorized => 3,
            FeeError::InvalidPercentage => 4,
            FeeError::InvalidAmount => 5,
            FeeError::Overflow => 6,
            FeeError::InvalidRefundAmount => 7,
            FeeError::InsufficientFeeBalance => 8,
            FeeError::InvalidDistribution => 9,
            FeeError::DistributionSumsToWrong => 10,
            FeeError::NoDistributionConfigured => 11,
            FeeError::InvalidFeeBound => 12,
            FeeError::InvalidFeeBoundRange => 13,
            FeeError::InvalidPriorityLevel => 14,
            FeeError::InvalidPriorityConfig => 15,
            FeeError::NoEscrowedFees => 16,
            FeeError::TreasuryNotConfigured => 17,
            FeeError::InvalidTreasuryPercentage => 18,
            FeeError::InvalidRoundingMode => 19,
            FeeError::InvalidFeeCategory => 20,
            FeeError::InvalidSnapshotPeriod => 21,
        }
    }
}

/// Value stored under `k`, or zero.
pub open spec fn amount_or_zero(m: Map<Address, i128>, k: Address) -> i128 {
    if m.contains_key(k) { m[k] } else { 0 }
}

/// Reads the value stored under `k`, or zero.
fn read_amount(m: &HashMap<Address, i128>, k: Address) -> (r: i128)
    ensures
        r == amount_or_zero(m@, k),
{
    match m.get(&k) {
        Some(v) => *v,
        None => 0,
    }
}

/// Whole fee from the basis-point product `raw` (non-negative) under `mode`.
pub open spec fn rounded_fee(raw: int, mode: RoundingMode) -> int {
    match mode {
        RoundingMode::Floor => raw / 10_000,
        RoundingMode::Round => (raw + 5_000) / 10_000,
        RoundingMode::Ceiling => if raw % 10_000 == 0 { raw / 10_000 } else { raw / 10_000 + 1 },
    }
}

/// `fee` clamped to `[min_fee, max_fee]` (the minimum is applied first).
pub open spec fn clamp_fee(fee: int, min_fee: int, max_fee: int) -> int {
    if fee < min_fee { min_fee } else if fee > max_fee { max_fee } else { fee }
}

/// Fee on `amount` at rate `pct` basis points: `InvalidAmount` for non-positive amounts,
/// `Overflow` when the product (or the half added for rounding) leaves `i128`,
/// otherwise the rounded fee clamped to the bounds.
pub open spec fn fee_at_rate(amount: i128, pct: u32, mode: RoundingMode, min_fee: i128, max_fee: i128) -> Result<i128, FeeError> {
    if amount <= 0 {
        Err(FeeError::InvalidAmount)
    } else if amount * pct > i128::MAX {
        Err(FeeError::Overflow)
    } else if mode == RoundingMode::Round && amount * pct + 5_000 > i128::MAX {
        Err(FeeError::Overflow)
    } else {
        Ok(clamp_fee(rounded_fee(amount * pct, mode), min_fee as int, max_fee as int) as i128)
    }
}

/// The rate used for a priority level: base rate times multiplier over 10_000, kept to 32 bits.
pub open spec fn adjusted_rate(base: u32, multiplier: u32) -> u32 {
    ((base as int * multiplier as int) / 10_000) as u32
}

/// Treasury part of `fee` at `pct` basis points (`None` when the product overflows).
pub open spec fn treasury_part(fee: i128, pct: u32) -> Option<int> {
    if pct == 0 {
        Some(0)
    } else if !fits_i128(fee * pct) {
        None
    } else {
        Some(trunc_div(fee * pct, 10_000))
    }
}

/// What a fee deduction charged and where it goes.
#[derive(Copy, Clone, Debug, PartialEq, Eq, Structural)]
pub struct DeductOutcome {
    /// Amount left after the fee.
    pub net: i128,
    /// Fee charged.
    pub fee: i128,
    /// Part of the fee routed to the treasury (credited there by the caller when positive).
    pub treasury_amount: i128,
    /// Account whose authorisation pays the fee (the payer's delegate, if set).
    pub fee_payer: Address,
}

/// State of the fee contract.
pub struct FeesContract {
    pub admin: Option<Address>,
    pub fee_percentage: u32,
    pub total_fees_collected: i128,
    pub user_fees_accrued: HashMap<Address, i128>,
    pub distribution: Option<Vec<FeeRecipient>>,
    pub recipient_fees: HashMap<Address, i128>,
    pub min_fee: i128,
    pub max_fee: i128,
    pub priority_config: PriorityFeeConfig,
    pub escrowed: HashMap<Address, i128>,
    pub delegates: HashMap<Address, Address>,
    pub treasury: Option<Address>,
    pub treasury_percentage: u32,
    pub total_treasury_fees: i128,
    pub rounding_mode: RoundingMode,
    pub user_categories: HashMap<Address, FeeCategory>,
    pub category_fees: Vec<i128>,
    pub snapshot_metadata: SnapshotMetadata,
    pub snapshots: HashMap<u64, FeeSnapshot>,
}

impl FeesContract {
    /// Invariant kept by every operation.
    pub open spec fn wf(&self) -> bool {
        &&& self.category_fees@.len() == 7
        &&& self.fee_percentage <= 10_000
        &&& self.treasury_percentage <= 10_000
        &&& 0 <= self.min_fee <= self.max_fee
        &&& self.priority_config.ascending()
        &&& self.admin is None ==> self.fee_percentage == 0
        &&& self.distribution matches Some(rs) ==> valid_distribution(rs@)
    }

    /// Cumulative fees of a category.
    pub open spec fn category_total(&self, c: FeeCategory) -> i128 {
        self.category_fees@[fee_category_code(c) as int]
    }

    /// Category a user's fees are reported under (Transaction unless set).
    pub open spec fn category_of(&self, user: Address) -> FeeCategory {
        if self.user_categories@.contains_key(user) { self.user_categories@[user] } else { FeeCategory::Transaction }
    }

    /// Fee for `amount` under the current configuration.
    pub open spec fn fee_for(&self, amount: i128) -> Result<i128, FeeError> {
        fee_at_rate(amount, self.fee_percentage, self.rounding_mode, self.min_fee, self.max_fee)
    }

    /// Fee for `amount` at `priority` under the current configuration.
    pub open spec fn fee_for_priority(&self, amount: i128, priority: PriorityLevel) -> Result<i128, FeeError> {
        fee_at_rate(amount, adjusted_rate(self.fee_percentage, self.priority_config.multiplier(priority)),
            self.rounding_mode, self.min_fee, self.max_fee)
    }

    /// An uninitialised contract.
    pub fn new() -> (r: FeesContract)
        ensures
            r.wf(),
            r.admin is None,
            r.fee_percentage == 0,
            r.total_fees_collected == 0,
            r.user_fees_accrued@ == Map::<Address, i128>::empty(),
            r.distribution is None,
            r.recipient_fees@ == Map::<Address, i128>::empty(),
            r.min_fee == 0,
            r.max_fee == i128::MAX,
            r.priority_config == default_priority_config(),
            r.escrowed@ == Map::<Address, i128>::empty(),
            r.delegates@ == Map::<Address, Address>::empty(),
            r.treasury is None,
            r.treasury_percentage == 0,
            r.total_treasury_fees == 0,
            r.rounding_mode == RoundingMode::Round,
            r.user_categories@ == Map::<Address, FeeCategory>::empty(),
            forall|i: int| 0 <= i < 7 ==> r.category_fees@[i] == 0,
            r.snapshot_metadata == (SnapshotMetadata { count: 0, latest_timestamp: 0 }),
            r.snapshots@ == Map::<u64, FeeSnapshot>::empty(),
    {
        let mut category_fees: Vec<i128> = Vec::new();
        let mut i: usize = 0;
        while i < 7
            invariant
                i <= 7,
                category_fees@.len() == i,
                forall|j: int| 0 <= j < i ==> category_fees@[j] == 0,
            decreases 7 - i,
        {
            category_fees.push(0);
            i = i + 1;
        }
        FeesContract {
            admin: None,
            fee_percentage: 0,
            total_fees_collected: 0,
            user_fees_accrued: HashMap::new(),
            distribution: None,
            recipient_fees: HashMap::new(),
            min_fee: 0,
            max_fee: i128::MAX,
            priority_config: PriorityFeeConfig::default_config(),
            escrowed: HashMap::new(),
            delegates: HashMap::new(),
            treasury: None,
            treasury_percentage: 0,
            total_treasury_fees: 0,
            rounding_mode: RoundingMode::Round,
            user_categories: HashMap::new(),
            category_fees,
            snapshot_metadata: SnapshotMetadata { count: 0, latest_timestamp: 0 },
            snapshots: HashMap::new(),
        }
    }

    /// `NotInitialized` before initialisation, `Unauthorized` for anyone but the admin.
    fn require_admin(&self, caller: Address) -> (r: Result<(), FeeError>)
        ensures
            self.admin is None ==> r == Err::<(), FeeError>(FeeError::NotInitialized),
            self.admin matches Some(a) ==> r == (if a == caller { Ok::<(), FeeError>(()) } else {
                Err::<(), FeeError>(FeeError::Unauthorized)
            }),
    {
        match self.admin {
            None => Err(FeeError::NotInitialized),
            Some(a) => if a == caller { Ok(()) } else { Err(FeeError::Unauthorized) },
        }
    }

    /// Sets the admin and the initial rate; only once, and the rate must be at most 10_000.
    pub fn initialize(&mut self, admin: Address, percentage_bps: u32) -> (r: Result<(), FeeError>)
        requires
            old(self).wf(),
        ensures
            final(self).wf(),
            old(self).admin is Some ==> r == Err::<(), FeeError>(FeeError::AlreadyInitialized),
            old(self).admin is None && percentage_bps > 10_000 ==> r == Err::<(), FeeError>(FeeError::InvalidPercentage),
            r is Ok <==> old(self).admin is None && percentage_bps <= 10_000,
            r is Ok ==> *final(self) == (FeesContract {
                admin: Some(admin),
                fee_percentage: percentage_bps,
                total_fees_collected: 0,
                ..*old(self)
            }),
            r is Err ==> *final(self) == *old(self),
    {
        if self.admin.is_some() {
            return Err(FeeError::AlreadyInitialized);
        }
        if percentage_bps > 10_000 {
            return Err(FeeError::InvalidPercentage);
        }
        self.admin = Some(admin);
        self.fee_percentage = percentage_bps;
        self.total_fees_collected = 0;
        Ok(())
    }

    /// Changes the rate (admin only, at most 10_000).
    pub fn set_percentage(&mut self, caller: Address, percentage_bps: u32) -> (r: Result<(), FeeError>)
        requires
            old(self).wf(),
        ensures
            final(self).wf(),
            old(self).admin is None ==> r == Err::<(), FeeError>(FeeError::NotInitialized),
            old(self).admin matches Some(a) && a != caller ==> r == Err::<(), FeeError>(FeeError::Unauthorized),
            old(self).admin == Some(caller) && percentage_bps > 10_000 ==> r == Err::<(), FeeError>(FeeError::InvalidPercentage),
            r is Ok <==> old(self).admin == Some(caller) && percentage_bps <= 10_000,
            r is Ok ==> *final(self) == (FeesContract { fee_percentage: percentage_bps, ..*old(self) }),
            r is Err ==> *final(self) == *old(self),
    {
        match self.require_admin(caller) {
            Err(e) => { return Err(e); },
            Ok(()) => {},
        }
        if percentage_bps > 10_000 {
            return Err(FeeError::InvalidPercentage);
        }
        self.fee_percentage = percentage_bps;
        Ok(())
    }

    /// Current rate in basis points (zero before initialisation).
    pub fn get_percentage(&self) -> (r: u32)
        ensures
            r == self.fee_percentage,
    {
        self.fee_percentage
    }

    /// Fee on `amount` at `pct` basis points under the configured rounding and bounds.
    fn fee_at(&self, amount: i128, pct: u32) -> (r: Result<i128, FeeError>)
        ensures
            r == fee_at_rate(amount, pct, self.rounding_mode, self.min_fee, self.max_fee),
    {
        if amount <= 0 {
            return Err(FeeError::InvalidAmount);
        }
        let raw_fee = match amount.checked_mul(pct as i128) {
            Some(v) => v,
            None => { return Err(FeeError::Overflow); },
        };
        let fee = match self.rounding_mode {
            RoundingMode::Floor => raw_fee / 10_000,
            RoundingMode::Round => {
                if raw_fee > i128::MAX - 5_000 {
                    return Err(FeeError::Overflow);
                }
                (raw_fee + 5_000) / 10_000
            },
            RoundingMode::Ceiling => {
                if raw_fee % 10_000 == 0 {
                    raw_fee / 10_000
                } else {
                    raw_fee / 10_000 + 1
                }
            },
        };
        if fee < self.min_fee {
            return Ok(self.min_fee);
        }
        if fee > self.max_fee {
            return Ok(self.max_fee);
        }
        Ok(fee)
    }

    /// Fee on `amount` at the current rate, rounded by the configured mode and clamped to
    /// the configured bounds (see [`fee_at_rate`]).
    pub fn calculate_fee(&self, amount: i128) -> (r: Result<i128, FeeError>)
        ensures
            r == self.fee_for(amount),
    {
        self.fee_at(amount, self.fee_percentage)
    }

    /// Fee on `amount` at the current rate adjusted by the multiplier of `priority`.
    pub fn calculate_fee_with_priority(&self, amount: i128, priority: PriorityLevel) -> (r: Result<i128, FeeError>)
        ensures
            r == self.fee_for_priority(amount, priority),
    {
        if amount <= 0 {
            return Err(FeeError::InvalidAmount);
        }
        let multiplier_bps = self.priority_config.get_multiplier_bps(priority);
        let base = self.fee_percentage as u64;
        let mult = multiplier_bps as u64;
        proof {
            assert(base * mult <= u64::MAX) by (nonlinear_arith)
                requires base <= u32::MAX, mult <= u32::MAX;
        }
        let product = base * mult / 10_000;
        let adjusted_pct = #[verifier::truncate] (product as u32);
        self.fee_at(amount, adjusted_pct)
    }

    /// Rounding hook kept for completeness: every mode is already applied when the fee is
    /// computed, so the fee is returned unchanged.
    fn apply_rounding(fee: i128, mode: RoundingMode) -> (r: i128)
        ensures
            r == fee,
    {
        match mode {
            RoundingMode::Floor => fee,
            RoundingMode::Round => fee,
            RoundingMode::Ceiling => fee,
        }
    }
}


/// Fields other than the fee accounting totals are equal.
pub open spec fn same_config(a: &FeesContract, b: &FeesContract) -> bool {
    &&& a.admin == b.admin
    &&& a.fee_percentage == b.fee_percentage
    &&& a.distribution == b.distribution
    &&& a.recipient_fees@ == b.recipient_fees@
    &&& a.min_fee == b.min_fee
    &&& a.max_fee == b.max_fee
    &&& a.priority_config == b.priority_config
    &&& a.delegates@ == b.delegates@
    &&& a.treasury == b.treasury
    &&& a.treasury_percentage == b.treasury_percentage
    &&& a.rounding_mode == b.rounding_mode
    &&& a.user_categories@ == b.user_categories@
    &&& a.snapshot_metadata == b.snapshot_metadata
    &&& a.snapshots@ == b.snapshots@
}

/// Whether recording `fee` for `payer` stays within `i128`: the treasury part is
/// computable and every running total it is added to stays representable.
pub open spec fn can_record(c: &FeesContract, payer: Address, fee: i128) -> bool {
    &&& treasury_part(fee, c.treasury_percentage) is Some
    &&& c.total_treasury_fees + treasury_part(fee, c.treasury_percentage)->0 <= i128::MAX
    &&& c.category_total(c.category_of(payer)) + fee <= i128::MAX
    &&& c.total_fees_collected + (fee - treasury_part(fee, c.treasury_percentage)->0) <= i128::MAX
    &&& amount_or_zero(c.user_fees_accrued@, payer) + fee <= i128::MAX
}

/// `new` is `old` after recording `fee` paid by `payer`, of which `t` goes to the treasury:
/// the treasury total grows by `t`, the payer's category and the payer's accrued fees by
/// `fee`, the collected total by `fee - t`; escrow and configuration are untouched.
pub open spec fn fee_recorded(old: &FeesContract, new: &FeesContract, payer: Address, fee: i128, t: int) -> bool {
    &&& same_config(old, new)
    &&& new.escrowed@ == old.escrowed@
    &&& new.total_treasury_fees == old.total_treasury_fees + t
    &&& new.category_fees@ == old.category_fees@.update(fee_category_code(old.category_of(payer)) as int,
        (old.category_total(old.category_of(payer)) + fee) as i128)
    &&& new.total_fees_collected == old.total_fees_collected + fee - t
    &&& new.user_fees_accrued@ == old.user_fees_accrued@.insert(payer,
        (amount_or_zero(old.user_fees_accrued@, payer) + fee) as i128)
}

/// Whether all shares before index `n` are at most 10_000.
pub open spec fn shares_small_before(rs: Seq<FeeRecipient>, n: int) -> bool {
    forall|j: int| 0 <= j < n ==> (#[trigger] rs[j]).share_bps <= 10_000
}

/// Whether the running share total stays within `u32` for the first `n` additions.
pub open spec fn sums_fit_before(rs: Seq<FeeRecipient>, n: int) -> bool {
    forall|j: int| 0 <= j < n ==> share_sum(#[trigger] rs.take(j + 1)) <= u32::MAX
}

/// Validation of a distribution overflows the running total at some recipient.
pub open spec fn distribution_overflows(rs: Seq<FeeRecipient>) -> bool {
    exists|i: int| 0 <= i < rs.len() && shares_small_before(rs, i + 1) && sums_fit_before(rs, i)
        && share_sum(#[trigger] rs.take(i + 1)) > u32::MAX
}

/// Validation of a distribution meets a share above 10_000 before any overflow.
pub open spec fn distribution_has_oversized(rs: Seq<FeeRecipient>) -> bool {
    exists|i: int| 0 <= i < rs.len() && (#[trigger] rs[i]).share_bps > 10_000 && shares_small_before(rs, i)
        && sums_fit_before(rs, i)
}

/// Share of `total` for one recipient, rounded down.
pub open spec fn recipient_share(total: int, r: FeeRecipient) -> int {
    total * r.share_bps / 10_000
}

/// Accumulated fees per recipient after crediting the first recipients of `rs` their share of `total`.
pub open spec fn credited(base: Map<Address, i128>, rs: Seq<FeeRecipient>, total: int) -> Map<Address, int>
    decreases rs.len(),
{
    if rs.len() == 0 {
        Map::new(|a: Address| base.contains_key(a), |a: Address| base[a] as int)
    } else {
        let m = credited(base, rs.drop_last(), total);
        let a = rs.last().address;
        m.insert(a, (if m.contains_key(a) { m[a] } else { 0 }) + recipient_share(total, rs.last()))
    }
}

/// Sum of the shares paid out to the first recipients of `rs`.
pub open spec fn paid_sum(rs: Seq<FeeRecipient>, total: int) -> int
    decreases rs.len(),
{
    if rs.len() == 0 { 0 } else { paid_sum(rs.drop_last(), total) + recipient_share(total, rs.last()) }
}

/// Crediting recipient `i` (after the ones before it) would leave `i128`.
pub open spec fn credit_overflows_at(base: Map<Address, i128>, rs: Seq<FeeRecipient>, total: int, i: int) -> bool {
    ||| total * rs[i].share_bps > i128::MAX
    ||| credited(base, rs.take(i + 1), total)[rs[i].address] > i128::MAX
}

/// A fee computed under bounds `0 <= min_fee <= max_fee` lies within them.
pub proof fn lemma_fee_within_bounds(amount: i128, pct: u32, mode: RoundingMode, min_fee: i128, max_fee: i128)
    requires
        0 <= min_fee <= max_fee,
    ensures
        fee_at_rate(amount, pct, mode, min_fee, max_fee) matches Ok(f) ==> min_fee <= f <= max_fee,
{
}

impl FeesContract {
    /// Account that pays fees for `payer`: its delegate if one is set.
    pub open spec fn delegate_of(&self, payer: Address) -> Address {
        if self.delegates@.contains_key(payer) { self.delegates@[payer] } else { payer }
    }

    /// Category fees of `user` are reported under.
    fn get_user_category(&self, user: Address) -> (r: FeeCategory)
        ensures
            r == self.category_of(user),
    {
        match self.user_categories.get(&user) {
            Some(c) => *c,
            None => FeeCategory::Transaction,
        }
    }

    /// Treasury portion of `total_fee` and the remainder.
    fn calculate_treasury_portion(&self, total_fee: i128) -> (r: Result<(i128, i128), FeeError>)
        requires
            self.wf(),
            total_fee >= 0,
        ensures
            treasury_part(total_fee, self.treasury_percentage) is None ==> r == Err::<(i128, i128), FeeError>(FeeError::Overflow),
            treasury_part(total_fee, self.treasury_percentage) matches Some(t) ==> r == Ok::<(i128, i128), FeeError>(
                (t as i128, (total_fee - t) as i128)),
            r matches Ok((t, rest)) ==> 0 <= t <= total_fee && t + rest == total_fee,
    {
        if self.treasury_percentage == 0 {
            return Ok((0, total_fee));
        }
        let pct = self.treasury_percentage as i128;
        match total_fee.checked_mul(pct) {
            Some(p) => {
                let t = p / 10_000;
                proof {
                    assert(0 <= (total_fee * pct) / 10_000 <= total_fee) by (nonlinear_arith)
                        requires total_fee >= 0, 0 <= pct <= 10_000;
                }
                Ok((t, total_fee - t))
            },
            None => Err(FeeError::Overflow),
        }
    }

    /// Adds a charged `fee` to the treasury, category, collected and per-payer totals, all or nothing.
    fn record_fee(&mut self, payer: Address, fee: i128) -> (r: Result<i128, FeeError>)
        requires
            old(self).wf(),
            fee >= 0,
        ensures
            final(self).wf(),
            r is Ok <==> can_record(old(self), payer, fee),
            r matches Ok(t) ==> t == treasury_part(fee, old(self).treasury_percentage)->0
                && fee_recorded(old(self), final(self), payer, fee, t as int) && 0 <= t <= fee,
            r is Err ==> r == Err::<i128, FeeError>(FeeError::Overflow) && *final(self) == *old(self),
    {
        let (t, remaining) = match self.calculate_treasury_portion(fee) {
            Ok(v) => v,
            Err(e) => { return Err(e); },
        };
        let new_treasury = if t > 0 {
            match self.total_treasury_fees.checked_add(t) {
                Some(v) => v,
                None => { return Err(FeeError::Overflow); },
            }
        } else {
            self.total_treasury_fees
        };
        let category = self.get_user_category(payer);
        let idx = category.to_u32() as usize;
        let new_category = match self.category_fees[idx].checked_add(fee) {
            Some(v) => v,
            None => { return Err(FeeError::Overflow); },
        };
        let new_total = match self.total_fees_collected.checked_add(remaining) {
            Some(v) => v,
            None => { return Err(FeeError::Overflow); },
        };
        let user_fees = read_amount(&self.user_fees_accrued, payer);
        let new_user = match user_fees.checked_add(fee) {
            Some(v) => v,
            None => { return Err(FeeError::Overflow); },
        };
        self.total_treasury_fees = new_treasury;
        self.category_fees.set(idx, new_category);
        self.total_fees_collected = new_total;
        self.user_fees_accrued.insert(payer, new_user);
        Ok(t)
    }

    /// Charges the configured fee on `amount` for `payer`: returns the net amount, the fee,
    /// the treasury part and the account that pays (the payer's delegate if set), and adds the
    /// fee to the accounting (see [`fee_recorded`]). Fails with `NotInitialized` before
    /// initialisation, with the error of [`FeesContract::calculate_fee`], or with `Overflow`
    /// when a total would leave `i128`; nothing changes on failure.
    pub fn deduct_fee(&mut self, payer: Address, amount: i128) -> (r: Result<DeductOutcome, FeeError>)
        requires
            old(self).wf(),
        ensures
            final(self).wf(),
            old(self).admin is None ==> r == Err::<DeductOutcome, FeeError>(FeeError::NotInitialized),
            old(self).admin is Some ==> match old(self).fee_for(amount) {
                Err(e) => r == Err::<DeductOutcome, FeeError>(e),
                Ok(fee) => if can_record(old(self), payer, fee) {
                    let t = treasury_part(fee, old(self).treasury_percentage)->0;
                    &&& r == Ok::<DeductOutcome, FeeError>(DeductOutcome {
                        net: (amount - fee) as i128,
                        fee,
                        treasury_amount: t as i128,
                        fee_payer: old(self).delegate_of(payer),
                    })
                    &&& fee_recorded(old(self), final(self), payer, fee, t)
                } else {
                    r == Err::<DeductOutcome, FeeError>(FeeError::Overflow)
                },
            },
            r matches Ok(o) ==> o.net + o.fee == amount && 0 <= o.treasury_amount <= o.fee,
            r is Err ==> *final(self) == *old(self),
    {
        if self.admin.is_none() {
            return Err(FeeError::NotInitialized);
        }
        let fee = match self.calculate_fee(amount) {
            Ok(f) => f,
            Err(e) => { return Err(e); },
        };
        proof {
            lemma_fee_within_bounds(amount, self.fee_percentage, self.rounding_mode, self.min_fee, self.max_fee);
        }
        let net = amount - fee;
        let fee_payer = match self.delegates.get(&payer) {
            Some(d) => *d,
            None => payer,
        };
        let t = match self.record_fee(payer, fee) {
            Ok(t) => t,
            Err(e) => { return Err(e); },
        };
        Ok(DeductOutcome { net, fee, treasury_amount: t, fee_payer })
    }

    /// Like [`FeesContract::deduct_fee`] at the rate adjusted for `priority`; no delegation.
    pub fn deduct_fee_with_priority(&mut self, payer: Address, amount: i128, priority: PriorityLevel) -> (r: Result<DeductOutcome, FeeError>)
        requires
            old(self).wf(),
        ensures
            final(self).wf(),
            old(self).admin is None ==> r == Err::<DeductOutcome, FeeError>(FeeError::NotInitialized),
            old(self).admin is Some ==> match old(self).fee_for_priority(amount, priority) {
                Err(e) => r == Err::<DeductOutcome, FeeError>(e),
                Ok(fee) => if can_record(old(self), payer, fee) {
                    let t = treasury_part(fee, old(self).treasury_percentage)->0;
                    &&& r == Ok::<DeductOutcome, FeeError>(DeductOutcome {
                        net: (amount - fee) as i128,
                        fee,
                        treasury_amount: t as i128,
                        fee_payer: payer,
                    })
                    &&& fee_recorded(old(self), final(self), payer, fee, t)
                } else {
                    r == Err::<DeductOutcome, FeeError>(FeeError::Overflow)
                },
            },
            r matches Ok(o) ==> o.net + o.fee == amount && 0 <= o.treasury_amount <= o.fee,
            r is Err ==> *final(self) == *old(self),
    {
        if self.admin.is_none() {
            return Err(FeeError::NotInitialized);
        }
        let fee = match self.calculate_fee_with_priority(amount, priority) {
            Ok(f) => f,
            Err(e) => { return Err(e); },
        };
        proof {
            lemma_fee_within_bounds(amount, adjusted_rate(self.fee_percentage, self.priority_config.multiplier(priority)),
                self.rounding_mode, self.min_fee, self.max_fee);
        }
        let net = amount - fee;
        let t = match self.record_fee(payer, fee) {
            Ok(t) => t,
            Err(e) => { return Err(e); },
        };
        Ok(DeductOutcome { net, fee, treasury_amount: t, fee_payer: payer })
    }

    /// Charges the fee on `amount` and holds it in the payer's escrow instead of the totals;
    /// returns `(net, fee)`.
    pub fn deduct_fee_to_escrow(&mut self, payer: Address, amount: i128) -> (r: Result<(i128, i128), FeeError>)
        requires
            old(self).wf(),
        ensures
            final(self).wf(),
            old(self).admin is None ==> r == Err::<(i128, i128), FeeError>(FeeError::NotInitialized),
            old(self).admin is Some ==> match old(self).fee_for(amount) {
                Err(e) => r == Err::<(i128, i128), FeeError>(e),
                Ok(fee) => if amount_or_zero(old(self).escrowed@, payer) + fee <= i128::MAX {
                    &&& r == Ok::<(i128, i128), FeeError>(((amount - fee) as i128, fee))
                    &&& *final(self) == (FeesContract { escrowed: final(self).escrowed, ..*old(self) })
                    &&& final(self).escrowed@ == old(self).escrowed@.insert(payer,
                        (amount_or_zero(old(self).escrowed@, payer) + fee) as i128)
                } else {
                    r == Err::<(i128, i128), FeeError>(FeeError::Overflow)
                },
            },
            r is Err ==> *final(self) == *old(self),
    {
        if self.admin.is_none() {
            return Err(FeeError::NotInitialized);
        }
        let fee = match self.calculate_fee(amount) {
            Ok(f) => f,
            Err(e) => { return Err(e); },
        };
        proof {
            lemma_fee_within_bounds(amount, self.fee_percentage, self.rounding_mode, self.min_fee, self.max_fee);
        }
        let net = amount - fee;
        let escrowed = read_amount(&self.escrowed, payer);
        let updated = match escrowed.checked_add(fee) {
            Some(v) => v,
            None => { return Err(FeeError::Overflow); },
        };
        self.escrowed.insert(payer, updated);
        Ok((net, fee))
    }

    /// Moves `user`'s escrowed fees into the collected total and clears the escrow (admin only).
    pub fn release_escrow(&mut self, admin: Address, user: Address) -> (r: Result<(), FeeError>)
        requires
            old(self).wf(),
        ensures
            final(self).wf(),
            old(self).admin is None ==> r == Err::<(), FeeError>(FeeError::NotInitialized),
            old(self).admin matches Some(a) && a != admin ==> r == Err::<(), FeeError>(FeeError::Unauthorized),
            old(self).admin == Some(admin) ==> {
                if amount_or_zero(old(self).escrowed@, user) == 0 {
                    r == Err::<(), FeeError>(FeeError::NoEscrowedFees)
                } else if !fits_i128(old(self).total_fees_collected + old(self).escrowed@[user]) {
                    r == Err::<(), FeeError>(FeeError::Overflow)
                } else {
                    &&& r is Ok
                    &&& final(self).total_fees_collected == old(self).total_fees_collected + old(self).escrowed@[user]
                    &&& final(self).escrowed@ == old(self).escrowed@.remove(user)
                    &&& *final(self) == (FeesContract {
                        escrowed: final(self).escrowed,
                        total_fees_collected: final(self).total_fees_collected,
                        ..*old(self)
                    })
                }
            },
            r is Err ==> *final(self) == *old(self),
    {
        match self.require_admin(admin) {
            Err(e) => { return Err(e); },
            Ok(()) => {},
        }
        let escrowed = match self.escrowed.get(&user) {
            Some(v) => *v,
            None => { return Err(FeeError::NoEscrowedFees); },
        };
        if escrowed == 0 {
            return Err(FeeError::NoEscrowedFees);
        }
        let total = match self.total_fees_collected.checked_add(escrowed) {
            Some(v) => v,
            None => { return Err(FeeError::Overflow); },
        };
        self.total_fees_collected = total;
        self.escrowed.remove(&user);
        Ok(())
    }

    /// Sets the account that pays fees on behalf of `user`.
    pub fn set_fee_delegate(&mut self, user: Address, delegate: Address)
        requires
            old(self).wf(),
        ensures
            final(self).wf(),
            final(self).delegates@ == old(self).delegates@.insert(user, delegate),
            *final(self) == (FeesContract { delegates: final(self).delegates, ..*old(self) }),
    {
        self.delegates.insert(user, delegate);
    }

    /// Sets the treasury and the share of each fee routed to it (admin only, at most 10_000).
    pub fn set_treasury(&mut self, caller: Address, treasury: Address, treasury_percentage_bps: u32) -> (r: Result<(), FeeError>)
        requires
            old(self).wf(),
        ensures
            final(self).wf(),
            old(self).admin is None ==> r == Err::<(), FeeError>(FeeError::NotInitialized),
            old(self).admin matches Some(a) && a != caller ==> r == Err::<(), FeeError>(FeeError::Unauthorized),
            old(self).admin == Some(caller) && treasury_percentage_bps > 10_000
                ==> r == Err::<(), FeeError>(FeeError::InvalidTreasuryPercentage),
            r is Ok <==> old(self).admin == Some(caller) && treasury_percentage_bps <= 10_000,
            r is Ok ==> *final(self) == (FeesContract {
                treasury: Some(treasury),
                treasury_percentage: treasury_percentage_bps,
                ..*old(self)
            }),
            r is Err ==> *final(self) == *old(self),
    {
        match self.require_admin(caller) {
            Err(e) => { return Err(e); },
            Ok(()) => {},
        }
        if treasury_percentage_bps > 10_000 {
            return Err(FeeError::InvalidTreasuryPercentage);
        }
        self.treasury = Some(treasury);
        self.treasury_percentage = treasury_percentage_bps;
        Ok(())
    }

    /// The treasury, if configured.
    pub fn get_treasury(&self) -> (r: Option<Address>)
        ensures
            r == self.treasury,
    {
        self.treasury
    }

    /// Share of each fee routed to the treasury, in basis points.
    pub fn get_treasury_percentage(&self) -> (r: u32)
        ensures
            r == self.treasury_percentage,
    {
        self.treasury_percentage
    }

    /// Total routed to the treasury.
    pub fn get_total_treasury_fees(&self) -> (r: i128)
        ensures
            r == self.total_treasury_fees,
    {
        self.total_treasury_fees
    }

    /// Sets the rounding mode (admin only).
    /// Sets how basis-point products are rounded to whole fees (admin only).
    pub fn set_rounding_mode(&mut self, caller: Address, mode: RoundingMode) -> (r: Result<(), FeeError>)
        requires
            old(self).wf(),
        ensures
            final(self).wf(),
            old(self).admin is None ==> r == Err::<(), FeeError>(FeeError::NotInitialized),
            old(self).admin matches Some(a) && a != caller ==> r == Err::<(), FeeError>(FeeError::Unauthorized),
            r is Ok <==> old(self).admin == Some(caller),
            r is Ok ==> *final(self) == (FeesContract { rounding_mode: mode, ..*old(self) }),
            r is Err ==> *final(self) == *old(self),
    {
        match self.require_admin(caller) {
            Err(e) => { return Err(e); },
            Ok(()) => {},
        }
        self.rounding_mode = mode;
        Ok(())
    }

    /// The rounding mode (Round unless set).
    pub fn get_rounding_mode(&self) -> (r: RoundingMode)
        ensures
            r == self.rounding_mode,
    {
        self.rounding_mode
    }

    /// Sets the category `user`'s fees are reported under (admin only).
    pub fn set_user_fee_category(&mut self, caller: Address, user: Address, category: FeeCategory) -> (r: Result<(), FeeError>)
        requires
            old(self).wf(),
        ensures
            final(self).wf(),
            old(self).admin is None ==> r == Err::<(), FeeError>(FeeError::NotInitialized),
            old(self).admin matches Some(a) && a != caller ==> r == Err::<(), FeeError>(FeeError::Unauthorized),
            r is Ok <==> old(self).admin == Some(caller),
            r is Ok ==> final(self).user_categories@ == old(self).user_categories@.insert(user, category)
                && *final(self) == (FeesContract { user_categories: final(self).user_categories, ..*old(self) }),
            r is Err ==> *final(self) == *old(self),
    {
        match self.require_admin(caller) {
            Err(e) => { return Err(e); },
            Ok(()) => {},
        }
        self.user_categories.insert(user, category);
        Ok(())
    }

    /// Category of `user` (Transaction unless set).
    pub fn get_user_fee_category(&self, user: Address) -> (r: FeeCategory)
        ensures
            r == self.category_of(user),
    {
        self.get_user_category(user)
    }

    /// Cumulative fees charged in `category`.
    pub fn get_category_fees(&self, category: FeeCategory) -> (r: i128)
        requires
            self.wf(),
        ensures
            r == self.category_total(category),
    {
        self.category_fees[category.to_u32() as usize]
    }

    /// Records a snapshot of the totals for the period starting at `period_start`, taken at
    /// time `now` (admin only; the period start must be non-zero).
    pub fn create_fee_snapshot(&mut self, caller: Address, period_start: u64, now: u64) -> (r: Result<(), FeeError>)
        requires
            old(self).wf(),
        ensures
            final(self).wf(),
            old(self).admin is None ==> r == Err::<(), FeeError>(FeeError::NotInitialized),
            old(self).admin matches Some(a) && a != caller ==> r == Err::<(), FeeError>(FeeError::Unauthorized),
            old(self).admin == Some(caller) ==> {
                if period_start == 0 {
                    r == Err::<(), FeeError>(FeeError::InvalidSnapshotPeriod)
                } else if !fits_i128(old(self).total_fees_collected - old(self).total_treasury_fees) {
                    r == Err::<(), FeeError>(FeeError::Overflow)
                } else {
                    &&& r is Ok
                    &&& final(self).snapshots@ == old(self).snapshots@.insert(period_start, FeeSnapshot {
                        total_collected: old(self).total_fees_collected,
                        treasury_collected: old(self).total_treasury_fees,
                        distributed: (old(self).total_fees_collected - old(self).total_treasury_fees) as i128,
                        created_at: now,
                        period_start,
                    })
                    &&& final(self).snapshot_metadata == (SnapshotMetadata {
                        count: if old(self).snapshot_metadata.count == u64::MAX { u64::MAX } else {
                            (old(self).snapshot_metadata.count + 1) as u64
                        },
                        latest_timestamp: now,
                    })
                    &&& *final(self) == (FeesContract {
                        snapshots: final(self).snapshots,
                        snapshot_metadata: final(self).snapshot_metadata,
                        ..*old(self)
                    })
                }
            },
            r is Err ==> *final(self) == *old(self),
    {
        match self.require_admin(caller) {
            Err(e) => { return Err(e); },
            Ok(()) => {},
        }
        if period_start == 0 {
            return Err(FeeError::InvalidSnapshotPeriod);
        }
        let total_collected = self.total_fees_collected;
        let treasury_collected = self.total_treasury_fees;
        let distributed = match total_collected.checked_sub(treasury_collected) {
            Some(v) => v,
            None => { return Err(FeeError::Overflow); },
        };
        let snapshot = FeeSnapshot { total_collected, treasury_collected, distributed, created_at: now, period_start };
        self.snapshots.insert(period_start, snapshot);
        let count = self.snapshot_metadata.count.saturating_add(1);
        self.snapshot_metadata = SnapshotMetadata { count, latest_timestamp: now };
        Ok(())
    }

    /// The snapshot for the period starting at `period_start`, if taken.
    pub fn get_fee_snapshot(&self, period_start: u64) -> (r: Option<FeeSnapshot>)
        ensures
            r == (if self.snapshots@.contains_key(period_start) { Some(self.snapshots@[period_start]) } else { None }),
    {
        match self.snapshots.get(&period_start) {
            Some(s) => Some(*s),
            None => None,
        }
    }

    /// Snapshot count and latest time.
    pub fn get_snapshot_metadata(&self) -> (r: SnapshotMetadata)
        ensures
            r == self.snapshot_metadata,
    {
        self.snapshot_metadata
    }

    /// Cumulative fees collected (less refunds, reset by distribution).
    pub fn get_total_collected(&self) -> (r: i128)
        ensures
            r == self.total_fees_collected,
    {
        self.total_fees_collected
    }

    /// Fees accrued by `user` (zero if none).
    pub fn get_user_fees_accrued(&self, user: Address) -> (r: i128)
        ensures
            r == amount_or_zero(self.user_fees_accrued@, user),
    {
        read_amount(&self.user_fees_accrued, user)
    }

    /// Refunds `refund_amount` of `user`'s accrued fees (admin only): the amount must be
    /// positive and at most what the user accrued; it is taken off the user's and the
    /// collected totals.
    pub fn refund_fee(&mut self, caller: Address, user: Address, refund_amount: i128) -> (r: Result<i128, FeeError>)
        requires
            old(self).wf(),
        ensures
            final(self).wf(),
            old(self).admin is None ==> r == Err::<i128, FeeError>(FeeError::NotInitialized),
            old(self).admin matches Some(a) && a != caller ==> r == Err::<i128, FeeError>(FeeError::Unauthorized),
            old(self).admin == Some(caller) ==> {
                if refund_amount <= 0 {
                    r == Err::<i128, FeeError>(FeeError::InvalidRefundAmount)
                } else if amount_or_zero(old(self).user_fees_accrued@, user) < refund_amount {
                    r == Err::<i128, FeeError>(FeeError::InsufficientFeeBalance)
                } else if old(self).total_fees_collected - refund_amount < i128::MIN {
                    r == Err::<i128, FeeError>(FeeError::Overflow)
                } else {
                    &&& r == Ok::<i128, FeeError>(refund_amount)
                    &&& final(self).total_fees_collected == old(self).total_fees_collected - refund_amount
                    &&& final(self).user_fees_accrued@ == old(self).user_fees_accrued@.insert(user,
                        (amount_or_zero(old(self).user_fees_accrued@, user) - refund_amount) as i128)
                    &&& *final(self) == (FeesContract {
                        total_fees_collected: final(self).total_fees_collected,
                        user_fees_accrued: final(self).user_fees_accrued,
                        ..*old(self)
                    })
                }
            },
            r is Err ==> *final(self) == *old(self),
    {
        match self.require_admin(caller) {
            Err(e) => { return Err(e); },
            Ok(()) => {},
        }
        if refund_amount <= 0 {
            return Err(FeeError::InvalidRefundAmount);
        }
        let user_fees = read_amount(&self.user_fees_accrued, user);
        if user_fees < refund_amount {
            return Err(FeeError::InsufficientFeeBalance);
        }
        let total = match self.total_fees_collected.checked_sub(refund_amount) {
            Some(v) => v,
            None => { return Err(FeeError::Overflow); },
        };
        self.total_fees_collected = total;
        self.user_fees_accrued.insert(user, user_fees - refund_amount);
        Ok(refund_amount)
    }

    /// Sets the minimum and maximum fee (admin only; both non-negative, maximum not below minimum).
    pub fn set_fee_bounds(&mut self, caller: Address, min_fee: i128, max_fee: i128) -> (r: Result<(), FeeError>)
        requires
            old(self).wf(),
        ensures
            final(self).wf(),
            old(self).admin is None ==> r == Err::<(), FeeError>(FeeError::NotInitialized),
            old(self).admin matches Some(a) && a != caller ==> r == Err::<(), FeeError>(FeeError::Unauthorized),
            old(self).admin == Some(caller) && (min_fee < 0 || max_fee < 0) ==> r == Err::<(), FeeError>(FeeError::InvalidFeeBound),
            old(self).admin == Some(caller) && min_fee >= 0 && max_fee >= 0 && max_fee < min_fee
                ==> r == Err::<(), FeeError>(FeeError::InvalidFeeBoundRange),
            r is Ok <==> old(self).admin == Some(caller) && 0 <= min_fee <= max_fee,
            r is Ok ==> *final(self) == (FeesContract { min_fee, max_fee, ..*old(self) }),
            r is Err ==> *final(self) == *old(self),
    {
        match self.require_admin(caller) {
            Err(e) => { return Err(e); },
            Ok(()) => {},
        }
        if min_fee < 0 || max_fee < 0 {
            return Err(FeeError::InvalidFeeBound);
        }
        if max_fee < min_fee {
            return Err(FeeError::InvalidFeeBoundRange);
        }
        self.min_fee = min_fee;
        self.max_fee = max_fee;
        Ok(())
    }

    /// Minimum fee (zero unless set).
    pub fn get_min_fee(&self) -> (r: i128)
        ensures
            r == self.min_fee,
    {
        self.min_fee
    }

    /// Maximum fee (`i128::MAX` unless set).
    pub fn get_max_fee(&self) -> (r: i128)
        ensures
            r == self.max_fee,
    {
        self.max_fee
    }

    /// Sets the priority multipliers (admin only; they must be in ascending order).
    pub fn set_priority_multipliers(&mut self, caller: Address, low_multiplier_bps: u32, medium_multiplier_bps: u32,
        high_multiplier_bps: u32, urgent_multiplier_bps: u32) -> (r: Result<(), FeeError>)
        requires
            old(self).wf(),
        ensures
            final(self).wf(),
            old(self).admin is None ==> r == Err::<(), FeeError>(FeeError::NotInitialized),
            old(self).admin matches Some(a) && a != caller ==> r == Err::<(), FeeError>(FeeError::Unauthorized),
            r is Ok <==> old(self).admin == Some(caller) && low_multiplier_bps <= medium_multiplier_bps
                && medium_multiplier_bps <= high_multiplier_bps && high_multiplier_bps <= urgent_multiplier_bps,
            old(self).admin == Some(caller) && r is Err ==> r == Err::<(), FeeError>(FeeError::InvalidPriorityConfig),
            r is Ok ==> *final(self) == (FeesContract {
                priority_config: PriorityFeeConfig { low_multiplier_bps, medium_multiplier_bps, high_multiplier_bps,
                    urgent_multiplier_bps },
                ..*old(self)
            }),
            r is Err ==> *final(self) == *old(self),
    {
        match self.require_admin(caller) {
            Err(e) => { return Err(e); },
            Ok(()) => {},
        }
        let config = PriorityFeeConfig { low_multiplier_bps, medium_multiplier_bps, high_multiplier_bps, urgent_multiplier_bps };
        if !config.is_valid() {
            return Err(FeeError::InvalidPriorityConfig);
        }
        self.priority_config = config;
        Ok(())
    }

    /// The priority multipliers.
    pub fn get_priority_config(&self) -> (r: PriorityFeeConfig)
        ensures
            r == self.priority_config,
    {
        self.priority_config
    }

    /// The multiplier of `priority`.
    pub fn get_priority_multiplier(&self, priority: PriorityLevel) -> (r: u32)
        ensures
            r == self.priority_config.multiplier(priority),
    {
        self.priority_config.get_multiplier_bps(priority)
    }
}


/// An `i128`-valued map seen with integer values.
pub open spec fn int_view(m: Map<Address, i128>) -> Map<Address, int> {
    Map::new(|a: Address| m.contains_key(a), |a: Address| m[a] as int)
}

/// Adding one more recipient to a prefix adds its share.
proof fn lemma_share_sum_step(rs: Seq<FeeRecipient>, i: int)
    requires
        0 <= i < rs.len(),
    ensures
        share_sum(rs.take(i + 1)) == share_sum(rs.take(i)) + rs[i].share_bps,
{
    assert(rs.take(i + 1).drop_last() =~= rs.take(i));
}

/// A prefix never has a larger share total than the whole list.
proof fn lemma_share_sum_prefix(rs: Seq<FeeRecipient>, i: int)
    requires
        0 <= i <= rs.len(),
    ensures
        0 <= share_sum(rs.take(i)) <= share_sum(rs),
    decreases rs.len() - i,
{
    if i == rs.len() {
        assert(rs.take(i) =~= rs);
        lemma_share_sum_nonneg(rs);
    } else {
        lemma_share_sum_step(rs, i);
        lemma_share_sum_prefix(rs, i + 1);
        lemma_share_sum_nonneg(rs.take(i));
    }
}

/// Share totals are non-negative.
proof fn lemma_share_sum_nonneg(rs: Seq<FeeRecipient>)
    ensures
        share_sum(rs) >= 0,
    decreases rs.len(),
{
    if rs.len() > 0 {
        lemma_share_sum_nonneg(rs.drop_last());
    }
}

/// Paying one more recipient adds its share to the paid total and to its account.
proof fn lemma_paid_step(base: Map<Address, i128>, rs: Seq<FeeRecipient>, total: int, i: int)
    requires
        0 <= i < rs.len(),
    ensures
        paid_sum(rs.take(i + 1), total) == paid_sum(rs.take(i), total) + recipient_share(total, rs[i]),
        credited(base, rs.take(i + 1), total) == ({
            let m = credited(base, rs.take(i), total);
            m.insert(rs[i].address, (if m.contains_key(rs[i].address) { m[rs[i].address] } else { 0 })
                + recipient_share(total, rs[i]))
        }),
{
    assert(rs.take(i + 1).drop_last() =~= rs.take(i));
}

impl FeesContract {
    /// Sets the distribution recipients (admin only). Fails with `InvalidDistribution` for an
    /// empty list or when a share above 10_000 is met, with `Overflow` when the running share
    /// total leaves `u32` first, and with `DistributionSumsToWrong` unless the shares add up
    /// to exactly 10_000.
    #[verifier::loop_isolation(false)]
    pub fn set_distribution(&mut self, caller: Address, recipients: Vec<FeeRecipient>) -> (r: Result<(), FeeError>)
        requires
            old(self).wf(),
        ensures
            final(self).wf(),
            old(self).admin is None ==> r == Err::<(), FeeError>(FeeError::NotInitialized),
            old(self).admin matches Some(a) && a != caller ==> r == Err::<(), FeeError>(FeeError::Unauthorized),
            old(self).admin == Some(caller) ==> {
                let rs = recipients@;
                if rs.len() == 0 || distribution_has_oversized(rs) {
                    r == Err::<(), FeeError>(FeeError::InvalidDistribution)
                } else if distribution_overflows(rs) {
                    r == Err::<(), FeeError>(FeeError::Overflow)
                } else if share_sum(rs) != 10_000 {
                    r == Err::<(), FeeError>(FeeError::DistributionSumsToWrong)
                } else {
                    &&& r is Ok
                    &&& valid_distribution(rs)
                    &&& final(self).distribution matches Some(v) && v@ == rs
                    &&& *final(self) == (FeesContract { distribution: final(self).distribution, ..*old(self) })
                }
            },
            r is Err ==> *final(self) == *old(self),
    {
        match self.require_admin(caller) {
            Err(e) => { return Err(e); },
            Ok(()) => {},
        }
        let ghost rs = recipients@;
        let n = recipients.len();
        if n == 0 {
            return Err(FeeError::InvalidDistribution);
        }
        let mut total_bps: u32 = 0;
        let mut i: usize = 0;
        while i < n
            invariant
                n == rs.len(),
                rs == recipients@,
                i <= n,
                total_bps == share_sum(rs.take(i as int)),
                shares_small_before(rs, i as int),
                sums_fit_before(rs, i as int),
            decreases n - i,
        {
            let share = recipients[i].share_bps;
            proof {
                lemma_share_sum_step(rs, i as int);
            }
            if share > 10_000 {
                proof {
                    assert(shares_small_before(rs, i as int) && sums_fit_before(rs, i as int) && rs[i as int].share_bps > 10_000);
                    assert forall|k: int| 0 <= k < rs.len() && shares_small_before(rs, k + 1) && sums_fit_before(rs, k)
                        implies share_sum(#[trigger] rs.take(k + 1)) <= u32::MAX by {
                        if k >= i {
                            assert(rs[i as int].share_bps <= 10_000);
                        }
                    }
                }
                return Err(FeeError::InvalidDistribution);
            }
            match total_bps.checked_add(share) {
                None => {
                    proof {
                        assert(shares_small_before(rs, i + 1));
                        assert(share_sum(rs.take(i + 1)) > u32::MAX);
                        assert forall|b: int| 0 <= b < rs.len() && (#[trigger] rs[b]).share_bps > 10_000
                            && shares_small_before(rs, b) implies !sums_fit_before(rs, b) by {
                            if b <= i {
                                assert(rs[b].share_bps <= 10_000);
                            } else {
                                assert(share_sum(rs.take(i + 1)) > u32::MAX);
                            }
                        }
                    }
                    return Err(FeeError::Overflow);
                },
                Some(v) => { total_bps = v; },
            }
            i = i + 1;
        }
        proof {
            assert(rs.take(n as int) =~= rs);
            assert forall|k: int| 0 <= k < rs.len() && shares_small_before(rs, k + 1) && sums_fit_before(rs, k)
                implies share_sum(#[trigger] rs.take(k + 1)) <= u32::MAX by {
                assert(sums_fit_before(rs, n as int));
            }
            assert forall|b: int| 0 <= b < rs.len() implies (#[trigger] rs[b]).share_bps <= 10_000 by {
                assert(shares_small_before(rs, n as int));
            }
        }
        if total_bps != 10_000 {
            return Err(FeeError::DistributionSumsToWrong);
        }
        self.distribution = Some(recipients);
        Ok(())
    }

    /// The configured recipients (empty if none).
    pub fn get_distribution(&self) -> (r: Vec<FeeRecipient>)
        ensures
            self.distribution matches Some(v) ==> r@ == v@,
            self.distribution is None ==> r@.len() == 0,
    {
        let mut out: Vec<FeeRecipient> = Vec::new();
        match &self.distribution {
            None => {},
            Some(v) => {
                let mut i: usize = 0;
                while i < v.len()
                    invariant
                        i <= v@.len(),
                        out@ == v@.take(i as int),
                    decreases v@.len() - i,
                {
                    out.push(v[i]);
                    i = i + 1;
                    assert(out@ =~= v@.take(i as int));
                }
                assert(v@.take(v@.len() as int) =~= v@);
            },
        }
        out
    }

    /// Pays every recipient its share (rounded down) of the collected total, adds it to the
    /// recipient's accumulated fees and resets the collected total to zero (admin only).
    /// Returns the amount paid, which never exceeds the collected total; nothing happens when
    /// the total is not positive, and `Overflow` leaves everything unchanged.
    #[verifier::loop_isolation(false)]
    pub fn distribute_fees(&mut self, caller: Address) -> (r: Result<i128, FeeError>)
        requires
            old(self).wf(),
        ensures
            final(self).wf(),
            old(self).admin is None ==> r == Err::<i128, FeeError>(FeeError::NotInitialized),
            old(self).admin matches Some(a) && a != caller ==> r == Err::<i128, FeeError>(FeeError::Unauthorized),
            old(self).admin == Some(caller) ==> match old(self).distribution {
                None => r == Err::<i128, FeeError>(FeeError::NoDistributionConfigured),
                Some(v) => {
                    let rs = v@;
                    let total = old(self).total_fees_collected as int;
                    if total <= 0 {
                        r == Ok::<i128, FeeError>(0) && *final(self) == *old(self)
                    } else if exists|j: int| 0 <= j < rs.len()
                        && #[trigger] credit_overflows_at(old(self).recipient_fees@, rs, total, j) {
                        r == Err::<i128, FeeError>(FeeError::Overflow)
                    } else {
                        &&& r == Ok::<i128, FeeError>(paid_sum(rs, total) as i128)
                        &&& 0 <= paid_sum(rs, total) <= total
                        &&& int_view(final(self).recipient_fees@) == credited(old(self).recipient_fees@, rs, total)
                        &&& final(self).total_fees_collected == 0
                        &&& *final(self) == (FeesContract {
                            recipient_fees: final(self).recipient_fees,
                            total_fees_collected: 0,
                            ..*old(self)
                        })
                    }
                },
            },
            r is Err ==> *final(self) == *old(self),
    {
        match self.require_admin(caller) {
            Err(e) => { return Err(e); },
            Ok(()) => {},
        }
        let total = self.total_fees_collected;
        let mut fees = self.recipient_fees.clone();
        let mut total_distributed: i128 = 0;
        match &self.distribution {
            None => { return Err(FeeError::NoDistributionConfigured); },
            Some(recipients) => {
                let ghost rs = recipients@;
                let ghost base = self.recipient_fees@;
                let n = recipients.len();
                if n == 0 {
                    return Err(FeeError::NoDistributionConfigured);
                }
                if total <= 0 {
                    return Ok(0);
                }
                proof {
                    assert(int_view(fees@) =~= credited(base, rs.take(0), total as int));
                    assert(rs.take(0) =~= Seq::<FeeRecipient>::empty());
                }
                let mut i: usize = 0;
                while i < n
                    invariant
                        n == rs.len(),
                        rs == recipients@,
                        base == self.recipient_fees@,
                        valid_distribution(rs),
                        total == self.total_fees_collected,
                        total > 0,
                        i <= n,
                        int_view(fees@) == credited(base, rs.take(i as int), total as int),
                        total_distributed == paid_sum(rs.take(i as int), total as int),
                        0 <= paid_sum(rs.take(i as int), total as int) * 10_000
                            <= total * share_sum(rs.take(i as int)),
                        forall|j: int| 0 <= j < i ==> !#[trigger] credit_overflows_at(base, rs, total as int, j),
                    decreases n - i,
                {
                    let recipient = recipients[i];
                    proof {
                        lemma_paid_step(base, rs, total as int, i as int);
                        lemma_share_sum_step(rs, i as int);
                        lemma_share_sum_prefix(rs, i + 1);
                    }
                    let product = match total.checked_mul(recipient.share_bps as i128) {
                        Some(p) => p,
                        None => {
                            proof {
                                assert(credit_overflows_at(base, rs, total as int, i as int));
                            }
                            return Err(FeeError::Overflow);
                        },
                    };
                    let share = product / 10_000;
                    proof {
                        let t = total as int;
                        let b = recipient.share_bps as int;
                        assert(0 <= (t * b) / 10_000 && ((t * b) / 10_000) * 10_000 <= t * b) by (nonlinear_arith)
                            requires t > 0, b >= 0;
                        assert(t * share_sum(rs.take(i + 1)) == t * share_sum(rs.take(i as int)) + t * b) by (nonlinear_arith)
                            requires share_sum(rs.take(i + 1)) == share_sum(rs.take(i as int)) + b;
                        assert(t * share_sum(rs.take(i + 1)) <= t * 10_000) by (nonlinear_arith)
                            requires t > 0, share_sum(rs.take(i + 1)) <= 10_000;
                    }
                    let current = read_amount(&fees, recipient.address);
                    proof {
                        assert(int_view(fees@).contains_key(recipient.address) == fees@.contains_key(recipient.address));
                    }
                    let updated = match current.checked_add(share) {
                        Some(v) => v,
                        None => {
                            proof {
                                assert(credit_overflows_at(base, rs, total as int, i as int));
                            }
                            return Err(FeeError::Overflow);
                        },
                    };
                    fees.insert(recipient.address, updated);
                    total_distributed = total_distributed + share;
                    proof {
                        assert(int_view(fees@) =~= credited(base, rs.take(i + 1), total as int));
                        assert(!credit_overflows_at(base, rs, total as int, i as int));
                    }
                    i = i + 1;
                }
                proof {
                    assert(rs.take(n as int) =~= rs);
                    let t = total as int;
                    let p = paid_sum(rs, t);
                    assert(p * 10_000 <= t * 10_000);
                    assert(p <= t) by (nonlinear_arith) requires p * 10_000 <= t * 10_000;
                    assert(p >= 0) by (nonlinear_arith) requires p * 10_000 >= 0;
                }
            },
        }
        self.recipient_fees = fees;
        self.total_fees_collected = 0;
        Ok(total_distributed)
    }

    /// Fees accumulated by `recipient` through distributions.
    pub fn get_recipient_fees_accumulated(&self, recipient: Address) -> (r: i128)
        ensures
            r == amount_or_zero(self.recipient_fees@, recipient),
    {
        read_amount(&self.recipient_fees, recipient)
    }
}

/// Whether a distribution is non-empty, every share is at most 10_000 and the shares add up to 10_000.
pub open spec fn valid_distribution(rs: Seq<FeeRecipient>) -> bool {
    &&& rs.len() > 0
    &&& forall|i: int| 0 <= i < rs.len() ==> (#[trigger] rs[i]).share_bps <= 10_000
    &&& share_sum(rs) == 10_000
}

/// Sum of the shares of a list of recipients.
pub open spec fn share_sum(rs: Seq<FeeRecipient>) -> int
    decreases rs.len(),
{
    if rs.len() == 0 { 0 } else { share_sum(rs.drop_last()) + rs.last().share_bps }
}

} // verus!

verus! {

/// Rounding never reverses the order of two basis-point products.
proof fn lemma_rounded_fee_monotone(a: int, b: int, mode: RoundingMode)
    requires
        0 <= a <= b,
    ensures
        rounded_fee(a, mode) <= rounded_fee(b, mode),
{
    assert(a / 10_000 <= b / 10_000) by (nonlinear_arith) requires 0 <= a <= b;
    assert((a + 5_000) / 10_000 <= (b + 5_000) / 10_000) by (nonlinear_arith) requires 0 <= a <= b;
    if a / 10_000 == b / 10_000 {
        assert(a % 10_000 <= b % 10_000) by (nonlinear_arith)
            requires 0 <= a <= b, a / 10_000 == b / 10_000;
    }
}

/// Higher priority never pays less: with ascending multipliers, for the same amount the fee
/// at a higher level is at least the fee at a lower level (when both are computed).
pub proof fn lemma_priority_fee_monotone(c: &FeesContract, amount: i128, p1: PriorityLevel, p2: PriorityLevel)
    requires
        c.wf(),
        priority_code(p1) <= priority_code(p2),
        c.fee_for_priority(amount, p1) is Ok,
        c.fee_for_priority(amount, p2) is Ok,
    ensures
        c.fee_for_priority(amount, p1)->Ok_0 <= c.fee_for_priority(amount, p2)->Ok_0,
{
    let m1 = c.priority_config.multiplier(p1) as int;
    let m2 = c.priority_config.multiplier(p2) as int;
    let base = c.fee_percentage as int;
    assert(m1 <= m2);
    assert((base * m2) / 10_000 <= m2) by (nonlinear_arith) requires 0 <= base <= 10_000, 0 <= m2;
    assert(base * m1 <= base * m2) by (nonlinear_arith) requires 0 <= base, m1 <= m2;
    assert((base * m1) / 10_000 <= (base * m2) / 10_000) by (nonlinear_arith) requires base * m1 <= base * m2, 0 <= base * m1;
    assert(0 <= base * m1) by (nonlinear_arith) requires 0 <= base, 0 <= m1;
    let r1 = adjusted_rate(c.fee_percentage, c.priority_config.multiplier(p1));
    let r2 = adjusted_rate(c.fee_percentage, c.priority_config.multiplier(p2));
    assert(r1 as int == (base * m1) / 10_000);
    assert(r2 as int == (base * m2) / 10_000);
    assert(amount * r1 <= amount * r2) by (nonlinear_arith) requires amount > 0, r1 <= r2;
    assert(0 <= amount * r1) by (nonlinear_arith) requires amount > 0, r1 >= 0;
    lemma_rounded_fee_monotone(amount * r1, amount * r2, c.rounding_mode);
}

} // verus!
