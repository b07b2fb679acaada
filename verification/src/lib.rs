//! Verified core of the StellarSpend contracts: fee arithmetic, escrow accounting,
//! multi-signature approvals, budgets, categories and payment schedules.
pub mod text;
pub mod fee_math;
pub mod shared;
pub mod fees;
pub mod fee_escrow;
pub mod wallet;
pub mod merchant;
pub mod recurring;
pub mod categories;
pub mod budgets;
pub mod multisig;
pub mod withdrawal;
pub mod withdrawal_utils;
pub mod savings_multisig;
pub mod savings;
pub mod goals;
pub mod rate_limit;
pub mod rewards;
