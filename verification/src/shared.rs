//! Helpers shared by every contract: amount, address and batch-size validation,
//! description sanitising, asset-symbol normalisation and reference identifiers.
use vstd::prelude::*;
use crate::text::{hex_fixed, push_hex_fixed};

verus! {

/// Maximum allowed description length, in bytes.
pub const MAX_DESCRIPTION_LENGTH: u32 = 256;

/// Common error definitions shared across contracts; the codes are stable.
#[derive(Copy, Clone, Debug, PartialEq, Eq, Structural)]
pub enum SharedError {
    Unauthorized,
    NotInitialized,
    AlreadyInitialized,
    InvalidInput,
    InvalidLength,
    MissingRequiredField,
    ValueOutOfRange,
    InvalidStateTransition,
    ResourceNotFound,
    ResourceAlreadyExists,
    ResourceUnavailable,
    InsufficientBalance,
    InvalidAmount,
    ArithmeticOverflow,
    ArithmeticUnderflow,
    TooEarly,
    Expired,
    DeadlineExceeded,
    InvalidState,
    ResourceLocked,
    AlreadyCompleted,
    VersionMismatch,
    MigrationFailed,
    InternalError,
}

impl SharedError {
    /// The stable numeric code of the error.
    pub fn code(&self) -> (r: u32)
        ensures
            r == shared_error_code(*self),
    {
        match self {
            SharedError::Unauthorized => 1,
            SharedError::NotInitialized => 2,
            SharedError::AlreadyInitialized => 3,
            SharedError::InvalidInput => 10,
            SharedError::InvalidLength => 11,
            SharedError::MissingRequiredField => 12,
            SharedError::ValueOutOfRange => 13,
            SharedError::InvalidStateTransition => 14,
            SharedError::ResourceNotFound => 20,
            SharedError::ResourceAlreadyExists => 21,
            SharedError::ResourceUnavailable => 22,
            SharedError::InsufficientBalance => 30,
            SharedError::InvalidAmount => 31,
            SharedError::ArithmeticOverflow => 32,
            SharedError::ArithmeticUnderflow => 33,
            SharedError::TooEarly => 40,
            SharedError::Expired => 41,
            SharedError::DeadlineExceeded => 42,
            SharedError::InvalidState => 50,
            SharedError::ResourceLocked => 51,
            SharedError::AlreadyCompleted => 52,
            SharedError::VersionMismatch => 60,
            SharedError::MigrationFailed => 61,
            SharedError::InternalError => 99,
        }
    }
}

/// Stable numeric code of each [`SharedError`].
pub open spec fn shared_error_code(e: SharedError) -> u32 {
    match e {
        SharedError::Unauthorized => 1,
        SharedError::NotInitialized => 2,
        SharedError::AlreadyInitialized => 3,
        SharedError::InvalidInput => 10,
        SharedError::InvalidLength => 11,
        SharedError::MissingRequiredField => 12,
        SharedError::ValueOutOfRange => 13,
        SharedError::InvalidStateTransition => 14,
        SharedError::ResourceNotFound => 20,
        SharedError::ResourceAlreadyExists => 21,
        SharedError::ResourceUnavailable => 22,
        SharedError::InsufficientBalance => 30,
        SharedError::InvalidAmount => 31,
        SharedError::ArithmeticOverflow => 32,
        SharedError::ArithmeticUnderflow => 33,
        SharedError::TooEarly => 40,
        SharedError::Expired => 41,
        SharedError::DeadlineExceeded => 42,
        SharedError::InvalidState => 50,
        SharedError::ResourceLocked => 51,
        SharedError::AlreadyCompleted => 52,
        SharedError::VersionMismatch => 60,
        SharedError::MigrationFailed => 61,
        SharedError::InternalError => 99,
    }
}

/// Shared validation errors for simple reusable helpers.
#[derive(Copy, Clone, Debug, PartialEq, Eq, Structural)]
pub enum ValidationError {
    NegativeAmount,
    InvalidAddress,
}

/// Accepts zero and positive amounts.
pub fn validate_amount(amount: i128) -> (r: Result<(), ValidationError>)
    ensures
        r is Ok <==> amount >= 0,
        r is Err ==> r == Err::<(), ValidationError>(ValidationError::NegativeAmount),
{
    if amount < 0 {
        Err(ValidationError::NegativeAmount)
    } else {
        Ok(())
    }
}

/// Whether `b` is an uppercase letter or a base-32 digit (`2`..`7`).
pub open spec fn is_strkey_byte(b: u8) -> bool {
    (65 <= b <= 90) || (50 <= b <= 55)
}

/// A 56-byte Stellar key: `G` (account) or `C` (contract) prefix, base-32 characters only.
pub open spec fn is_valid_strkey(address: Seq<u8>) -> bool {
    &&& address.len() == 56
    &&& (address[0] == 71u8 || address[0] == 67u8)
    &&& forall|i: int| 0 <= i < 56 ==> is_strkey_byte(#[trigger] address[i])
}

/// Validates the textual form of a user address (see [`is_valid_strkey`]).
pub fn validate_user_address(address: &[u8]) -> (r: Result<(), ValidationError>)
    ensures
        r is Ok <==> is_valid_strkey(address@),
        r is Err ==> r == Err::<(), ValidationError>(ValidationError::InvalidAddress),
{
    if address.len() != 56 {
        return Err(ValidationError::InvalidAddress);
    }
    let prefix = address[0];
    if prefix != 71u8 && prefix != 67u8 {
        return Err(ValidationError::InvalidAddress);
    }
    let mut i: usize = 0;
    while i < 56
        invariant
            address@.len() == 56,
            i <= 56,
            forall|j: int| 0 <= j < i ==> is_strkey_byte(#[trigger] address@[j]),
        decreases 56 - i,
    {
        let b = address[i];
        let is_upper_alpha = b >= 65u8 && b <= 90u8;
        let is_base32_digit = b >= 50u8 && b <= 55u8;
        if !is_upper_alpha && !is_base32_digit {
            return Err(ValidationError::InvalidAddress);
        }
        i = i + 1;
    }
    Ok(())
}

/// Accepts a batch size in `1..=max_batch_size`.
pub fn validate_batch_size(batch_size: u32, max_batch_size: u32) -> (r: Result<(), SharedError>)
    ensures
        r is Ok <==> 0 < batch_size <= max_batch_size,
        r is Err ==> r == Err::<(), SharedError>(SharedError::InvalidLength),
{
    if batch_size == 0 || batch_size > max_batch_size {
        return Err(SharedError::InvalidLength);
    }
    Ok(())
}

/// Letters, digits, space and the punctuation `. , - _ ! ? '`.
pub open spec fn allowed_description_byte(b: u8) -> bool {
    ||| 97 <= b <= 122
    ||| 65 <= b <= 90
    ||| 48 <= b <= 57
    ||| b == 32u8
    ||| b == 46u8
    ||| b == 44u8
    ||| b == 45u8
    ||| b == 95u8
    ||| b == 33u8
    ||| b == 63u8
    ||| b == 39u8
}

/// Whether `byte` may appear in a description.
pub fn is_allowed_ascii(byte: u8) -> (r: bool)
    ensures
        r == allowed_description_byte(byte),
{
    (byte >= 97u8 && byte <= 122u8) || (byte >= 65u8 && byte <= 90u8) || (byte >= 48u8
        && byte <= 57u8) || byte == 32u8 || byte == 46u8 || byte == 44u8 || byte == 45u8 || byte
        == 95u8 || byte == 33u8 || byte == 63u8 || byte == 39u8
}

/// Validates a user-provided description given as UTF-8 bytes: non-empty, at most
/// [`MAX_DESCRIPTION_LENGTH`] bytes, and only bytes accepted by [`is_allowed_ascii`].
pub fn sanitize_description(description: &[u8]) -> (r: Result<(), SharedError>)
    ensures
        description@.len() == 0 ==> r == Err::<(), SharedError>(SharedError::MissingRequiredField),
        description@.len() > MAX_DESCRIPTION_LENGTH ==> r == Err::<(), SharedError>(SharedError::InvalidLength),
        0 < description@.len() <= MAX_DESCRIPTION_LENGTH ==> r == (if forall|i: int|
            0 <= i < description@.len() ==> allowed_description_byte(#[trigger] description@[i]) {
            Ok::<(), SharedError>(())
        } else {
            Err::<(), SharedError>(SharedError::InvalidInput)
        }),
{
    let len = description.len();
    if len == 0 {
        return Err(SharedError::MissingRequiredField);
    }
    if len > MAX_DESCRIPTION_LENGTH as usize {
        return Err(SharedError::InvalidLength);
    }
    let mut i: usize = 0;
    while i < len
        invariant
            len == description@.len(),
            0 < len <= MAX_DESCRIPTION_LENGTH,
            i <= len,
            forall|j: int| 0 <= j < i ==> allowed_description_byte(#[trigger] description@[j]),
        decreases len - i,
    {
        if !is_allowed_ascii(description[i]) {
            return Err(SharedError::InvalidInput);
        }
        i = i + 1;
    }
    Ok(())
}

/// ASCII uppercase of one byte (other bytes are unchanged).
pub open spec fn upper_byte(b: u8) -> u8 {
    if 97 <= b <= 122 { (b - 32) as u8 } else { b }
}

/// Normalises an asset symbol by converting its letters to uppercase.
pub fn normalize_asset_symbol(symbol: &[u8]) -> (r: Vec<u8>)
    ensures
        r@.len() == symbol@.len(),
        forall|i: int| 0 <= i < symbol@.len() ==> #[trigger] r@[i] == upper_byte(symbol@[i]),
{
    let mut out: Vec<u8> = Vec::new();
    let mut i: usize = 0;
    while i < symbol.len()
        invariant
            i <= symbol@.len(),
            out@.len() == i,
            forall|j: int| 0 <= j < i ==> #[trigger] out@[j] == upper_byte(symbol@[j]),
        decreases symbol@.len() - i,
    {
        let b = symbol[i];
        if b >= 97u8 && b <= 122u8 {
            out.push(b - 32);
        } else {
            out.push(b);
        }
        i = i + 1;
    }
    out
}

/// A named counter kept by a contract.
pub struct CounterEntry {
    pub key: Vec<u8>,
    pub value: u64,
}

/// Named counters, each starting at zero.
pub struct Counters {
    pub entries: Vec<CounterEntry>,
}

impl Counters {
    /// The value of the counter `key` (zero when it was never incremented).
    pub open spec fn value_of(self, key: Seq<u8>) -> u64 {
        let i = choose|i: int| 0 <= i < self.entries@.len() && #[trigger] self.entries@[i].key@ == key;
        if exists|i: int| 0 <= i < self.entries@.len() && #[trigger] self.entries@[i].key@ == key {
            self.entries@[i].value
        } else {
            0
        }
    }

    /// Keys are distinct.
    pub open spec fn wf(self) -> bool {
        forall|i: int, j: int|
            0 <= i < self.entries@.len() && 0 <= j < self.entries@.len() && i != j
                ==> #[trigger] self.entries@[i].key@ != #[trigger] self.entries@[j].key@
    }

    /// No counter yet.
    pub fn new() -> (r: Counters)
        ensures
            r.wf(),
            forall|k: Seq<u8>| r.value_of(k) == 0,
    {
        Counters { entries: Vec::new() }
    }

    /// Index of the counter `key`, if present.
    fn find(&self, key: &[u8]) -> (r: Option<usize>)
        ensures
            r matches Some(i) ==> i < self.entries@.len() && self.entries@[i as int].key@ == key@,
            r is None ==> forall|i: int| 0 <= i < self.entries@.len() ==> #[trigger] self.entries@[i].key@ != key@,
    {
        let mut i: usize = 0;
        while i < self.entries.len()
            invariant
                i <= self.entries@.len(),
                forall|j: int| 0 <= j < i ==> #[trigger] self.entries@[j].key@ != key@,
            decreases self.entries@.len() - i,
        {
            if crate::text::bytes_eq(self.entries[i].key.as_slice(), key) {
                return Some(i);
            }
            i = i + 1;
        }
        None
    }

    /// Increments the counter `key` and returns its new value.
    pub fn increment_counter(&mut self, key: &[u8]) -> (r: u64)
        requires
            old(self).wf(),
            old(self).value_of(key@) < u64::MAX,
        ensures
            final(self).wf(),
            r == old(self).value_of(key@) + 1,
            final(self).value_of(key@) == r,
            forall|k: Seq<u8>| k != key@ ==> final(self).value_of(k) == old(self).value_of(k),
    {
        match self.find(key) {
            Some(i) => {
                let ghost old_entries = self.entries@;
                let v = self.entries[i].value + 1;
                let k = self.entries[i].key.clone();
                assert(k@ == old_entries[i as int].key@);
                self.entries.set(i, CounterEntry { key: k, value: v });
                assert forall|k2: Seq<u8>| k2 != key@ implies self.value_of(k2) == old(self).value_of(k2) by {
                    if exists|j: int| 0 <= j < old_entries.len() && #[trigger] old_entries[j].key@ == k2 {
                        let j = choose|j: int| 0 <= j < old_entries.len() && #[trigger] old_entries[j].key@ == k2;
                        assert(self.entries@[j].key@ == k2);
                    }
                    if exists|j: int| 0 <= j < self.entries@.len() && #[trigger] self.entries@[j].key@ == k2 {
                        let j = choose|j: int| 0 <= j < self.entries@.len() && #[trigger] self.entries@[j].key@ == k2;
                        assert(old_entries[j].key@ == k2);
                    }
                }
                assert(self.entries@[i as int].key@ == key@);
                v
            },
            None => {
                let ghost old_entries = self.entries@;
                self.entries.push(CounterEntry { key: vstd::slice::slice_to_vec(key), value: 1 });
                assert(self.entries@[old_entries.len() as int].key@ == key@);
                assert forall|k2: Seq<u8>| k2 != key@ implies self.value_of(k2) == old(self).value_of(k2) by {
                    if exists|j: int| 0 <= j < old_entries.len() && #[trigger] old_entries[j].key@ == k2 {
                        let j = choose|j: int| 0 <= j < old_entries.len() && #[trigger] old_entries[j].key@ == k2;
                        assert(self.entries@[j].key@ == k2);
                    }
                    if exists|j: int| 0 <= j < self.entries@.len() && #[trigger] self.entries@[j].key@ == k2 {
                        let j = choose|j: int| 0 <= j < self.entries@.len() && #[trigger] self.entries@[j].key@ == k2;
                        assert(j < old_entries.len());
                        assert(old_entries[j].key@ == k2);
                    }
                }
                1
            },
        }
    }

    /// Increments the counter `key` and derives the reference `TXN-<ledger><counter>`, where
    /// `<ledger>` is `ledger_seq` as eight lowercase hexadecimal digits and `<counter>` the
    /// low 32 bits of the new counter value as eight hexadecimal digits.
    pub fn generate_transaction_reference_id(&mut self, ledger_seq: u32, counter_key: &[u8]) -> (r: String)
        requires
            old(self).wf(),
            old(self).value_of(counter_key@) < u64::MAX,
        ensures
            final(self).wf(),
            final(self).value_of(counter_key@) == old(self).value_of(counter_key@) + 1,
            forall|k: Seq<u8>| k != counter_key@ ==> final(self).value_of(k) == old(self).value_of(k),
            r@ == "TXN-"@ + hex_fixed(ledger_seq as nat, 8) + hex_fixed(final(self).value_of(counter_key@) as nat, 8),
    {
        let tx_counter = self.increment_counter(counter_key);
        let mut out = String::from_str("TXN-");
        push_hex_fixed(&mut out, ledger_seq as u64, 8);
        push_hex_fixed(&mut out, tx_counter, 8);
        out
    }
}

/// Whether `x` occurs in `v`.
pub fn contains_address(v: &[u64], x: u64) -> (r: bool)
    ensures
        r == v@.contains(x),
{
    let mut i: usize = 0;
    while i < v.len()
        invariant
            i <= v@.len(),
            forall|j: int| 0 <= j < i ==> v@[j] != x,
        decreases v@.len() - i,
    {
        if v[i] == x {
            assert(v@[i as int] == x);
            return true;
        }
        i = i + 1;
    }
    false
}

} // verus!
