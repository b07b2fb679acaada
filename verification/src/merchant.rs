//! Merchant registry and transaction tagging: merchants are registered by the admin with a
//! name and category tags, transactions are tagged with a merchant, and per-merchant
//! transaction indexes and spend analytics are kept up to date.
use vstd::prelude::*;
use crate::fees::Address;
use crate::text::{bytes_eq, contains_bytes, copy_bytes, holds_bytes};

verus! {

/// Longest merchant name, in bytes.
pub const MAX_MERCHANT_NAME_LEN: u32 = 64;

/// Longest category tag, in bytes.
pub const MAX_TAG_LEN: u32 = 32;

/// Most category tags a merchant may carry.
pub const MAX_TAGS_PER_MERCHANT: u32 = 10;

/// Most transaction ids returned by one query.
pub const MAX_QUERY_RESULTS: u32 = 100;

/// A registered merchant.
pub struct Merchant {
    pub id: Vec<u8>,
    pub name: Vec<u8>,
    pub tags: Vec<Vec<u8>>,
    pub address: Option<Address>,
    pub registered_at: u64,
    pub active: bool,
}

/// The link between one transaction and a merchant.
pub struct TransactionMerchantTag {
    pub tx_id: u64,
    pub merchant_id: Vec<u8>,
    pub amount: i128,
    pub asset: Vec<u8>,
    pub timestamp: u64,
    pub note: Vec<u8>,
}

/// Running totals of the transactions tagged with one merchant.
pub struct MerchantAnalytics {
    pub merchant_id: Vec<u8>,
    pub tx_count: u32,
    pub total_volume: i128,
    pub last_tx_at: u64,
}

/// State of the merchant-tagging contract.
///
/// `merchants` is in registration order; `merchant_transactions[i]` and `analytics[i]`
/// belong to `merchants[i]`. Removing a tag leaves the index and the analytics as they were.
pub struct MerchantTaggingContract {
    pub admin: Option<Address>,
    pub merchants: Vec<Merchant>,
    pub merchant_transactions: Vec<Vec<u64>>,
    pub analytics: Vec<Option<MerchantAnalytics>>,
    pub tags: Vec<TransactionMerchantTag>,
    pub total_tagged: u32,
}

/// Whether `caller` may act as the admin.
pub open spec fn admin_check(admin: Option<Address>, caller: Address) -> Result<(), &'static str> {
    match admin {
        None => Err("not initialized"),
        Some(a) => if a != caller { Err("unauthorized") } else { Ok(()) },
    }
}

/// Validation of a merchant name.
pub open spec fn name_check(name: Seq<u8>) -> Result<(), &'static str> {
    if name.len() > MAX_MERCHANT_NAME_LEN {
        Err("name too long")
    } else if name.len() == 0 {
        Err("name cannot be empty")
    } else {
        Ok(())
    }
}

/// Whether some tag of `tags` is longer than `MAX_TAG_LEN`.
pub open spec fn has_long_tag(tags: Seq<Vec<u8>>) -> bool {
    exists|k: int| 0 <= k < tags.len() && (#[trigger] tags[k])@.len() > MAX_TAG_LEN
}

/// Validation of a merchant's category tags.
pub open spec fn tags_check(tags: Seq<Vec<u8>>) -> Result<(), &'static str> {
    if tags.len() > MAX_TAGS_PER_MERCHANT {
        Err("too many tags")
    } else if has_long_tag(tags) {
        Err("tag too long")
    } else {
        Ok(())
    }
}

/// Validation of the new fields of a merchant update.
pub open spec fn update_check(name: Option<Vec<u8>>, tags: Option<Vec<Vec<u8>>>) -> Result<(), &'static str> {
    let n = match name { Some(n) => name_check(n@), None => Ok(()) };
    let t = match tags { Some(t) => tags_check(t@), None => Ok(()) };
    if n is Err { n } else { t }
}

/// The ids, in order, of the merchants of `ms` that carry the category tag `tag`.
pub open spec fn ids_with_tag(ms: Seq<Merchant>, tag: Seq<u8>) -> Seq<Seq<u8>>
    decreases ms.len(),
{
    if ms.len() == 0 {
        Seq::empty()
    } else {
        let rest = ids_with_tag(ms.drop_last(), tag);
        if holds_bytes(ms.last().tags@, tag) { rest.push(ms.last().id@) } else { rest }
    }
}

/// At most the first `MAX_QUERY_RESULTS` entries of `s`.
pub open spec fn capped(s: Seq<u64>) -> Seq<u64> {
    if s.len() <= MAX_QUERY_RESULTS { s } else { s.take(MAX_QUERY_RESULTS as int) }
}

impl MerchantTaggingContract {
    /// Structural invariant: parallel per-merchant tables, distinct merchant ids, distinct
    /// (transaction, merchant) tags, no merchant count above the global count, and each
    /// merchant's count equal to the length of its transaction index.
    pub open spec fn wf(&self) -> bool {
        &&& self.admin is None ==> self.merchants@.len() == 0 && self.tags@.len() == 0
        &&& self.merchant_transactions@.len() == self.merchants@.len()
        &&& self.analytics@.len() == self.merchants@.len()
        &&& forall|i: int, j: int| 0 <= i < j < self.merchants@.len()
            ==> (#[trigger] self.merchants@[i]).id@ != (#[trigger] self.merchants@[j]).id@
        &&& forall|i: int, j: int| 0 <= i < j < self.tags@.len()
            ==> !(#[trigger] self.tags@[i].tx_id == #[trigger] self.tags@[j].tx_id
                && self.tags@[i].merchant_id@ == self.tags@[j].merchant_id@)
        &&& forall|i: int| 0 <= i < self.analytics@.len() ==>
            (#[trigger] self.analytics@[i] matches Some(a) ==> a.tx_count <= self.total_tagged)
        &&& forall|i: int| 0 <= i < self.analytics@.len() ==> match #[trigger] self.analytics@[i] {
            Some(a) => a.tx_count == self.merchant_transactions@[i]@.len(),
            None => self.merchant_transactions@[i]@.len() == 0,
        }
    }

    /// Whether a merchant with id `id` is registered.
    pub open spec fn has_merchant(&self, id: Seq<u8>) -> bool {
        exists|i: int| 0 <= i < self.merchants@.len() && (#[trigger] self.merchants@[i]).id@ == id
    }

    /// Position of the merchant with id `id` (meaningful when it is registered).
    pub open spec fn merchant_index(&self, id: Seq<u8>) -> int {
        choose|i: int| 0 <= i < self.merchants@.len() && (#[trigger] self.merchants@[i]).id@ == id
    }

    /// Whether transaction `tx_id` is tagged with merchant `id`.
    pub open spec fn has_tag(&self, tx_id: u64, id: Seq<u8>) -> bool {
        exists|i: int| 0 <= i < self.tags@.len() && (#[trigger] self.tags@[i]).tx_id == tx_id
            && self.tags@[i].merchant_id@ == id
    }

    /// Position of the tag of `(tx_id, id)` (meaningful when it exists).
    pub open spec fn tag_index(&self, tx_id: u64, id: Seq<u8>) -> int {
        choose|i: int| 0 <= i < self.tags@.len() && (#[trigger] self.tags@[i]).tx_id == tx_id
            && self.tags@[i].merchant_id@ == id
    }

    /// Tagged volume of merchant `id` so far.
    pub open spec fn volume_of(&self, id: Seq<u8>) -> i128 {
        match self.analytics@[self.merchant_index(id)] {
            Some(a) => a.total_volume,
            None => 0,
        }
    }

    /// Tagged count of merchant `id` so far.
    pub open spec fn count_of(&self, id: Seq<u8>) -> u32 {
        match self.analytics@[self.merchant_index(id)] {
            Some(a) => a.tx_count,
            None => 0,
        }
    }

    /// The transactions ever tagged with merchant `id`, in tagging order.
    pub open spec fn transactions_of(&self, id: Seq<u8>) -> Seq<u64> {
        if self.has_merchant(id) { self.merchant_transactions@[self.merchant_index(id)]@ } else { Seq::empty() }
    }

    /// Outcome of a registration request, before any change.
    pub open spec fn register_check(&self, caller: Address, id: Seq<u8>, name: Seq<u8>, tags: Seq<Vec<u8>>) -> Result<(), &'static str> {
        if admin_check(self.admin, caller) is Err {
            admin_check(self.admin, caller)
        } else if self.has_merchant(id) {
            Err("merchant already exists")
        } else if name_check(name) is Err {
            name_check(name)
        } else {
            tags_check(tags)
        }
    }

    /// Outcome of a tagging request, before any change.
    pub open spec fn tag_check(&self, tx_id: u64, id: Seq<u8>, amount: i128) -> Result<(), &'static str> {
        if amount <= 0 {
            Err("amount must be positive")
        } else if !self.has_merchant(id) {
            Err("merchant not found")
        } else if !self.merchants@[self.merchant_index(id)].active {
            Err("merchant inactive")
        } else if self.has_tag(tx_id, id) {
            Err("already tagged")
        } else if self.volume_of(id) + amount > i128::MAX {
            Err("volume overflow")
        } else {
            Ok(())
        }
    }

    /// The merchant at a position is the one `merchant_index` names.
    proof fn lemma_merchant_index(&self, i: int)
        requires
            self.wf(),
            0 <= i < self.merchants@.len(),
        ensures
            self.has_merchant(self.merchants@[i].id@),
            self.merchant_index(self.merchants@[i].id@) == i,
    {
        let id = self.merchants@[i].id@;
        assert(self.has_merchant(id));
        let j = self.merchant_index(id);
        if j != i {
            if j < i {
                assert(self.merchants@[j].id@ != self.merchants@[i].id@);
            } else {
                assert(self.merchants@[i].id@ != self.merchants@[j].id@);
            }
        }
    }

    /// The tag at a position is the one `tag_index` names.
    proof fn lemma_tag_index(&self, i: int)
        requires
            self.wf(),
            0 <= i < self.tags@.len(),
        ensures
            self.has_tag(self.tags@[i].tx_id, self.tags@[i].merchant_id@),
            self.tag_index(self.tags@[i].tx_id, self.tags@[i].merchant_id@) == i,
    {
        let t = self.tags@[i];
        assert(self.has_tag(t.tx_id, t.merchant_id@));
        let j = self.tag_index(t.tx_id, t.merchant_id@);
        if j != i {
            if j < i {
                assert(!(self.tags@[j].tx_id == self.tags@[i].tx_id && self.tags@[j].merchant_id@ == self.tags@[i].merchant_id@));
            } else {
                assert(!(self.tags@[i].tx_id == self.tags@[j].tx_id && self.tags@[i].merchant_id@ == self.tags@[j].merchant_id@));
            }
        }
    }

    /// An uninitialised contract with no merchants.
    pub fn new() -> (r: MerchantTaggingContract)
        ensures
            r.wf(),
            r.admin is None,
            r.merchants@.len() == 0,
            r.tags@.len() == 0,
            r.total_tagged == 0,
    {
        MerchantTaggingContract {
            admin: None,
            merchants: Vec::new(),
            merchant_transactions: Vec::new(),
            analytics: Vec::new(),
            tags: Vec::new(),
            total_tagged: 0,
        }
    }

    /// Sets the admin; fails with "already initialized" when one is set.
    pub fn init(&mut self, admin: Address) -> (r: Result<(), &'static str>)
        requires
            old(self).wf(),
        ensures
            final(self).wf(),
            old(self).admin is Some ==> r == Err::<(), &'static str>("already initialized") && *final(self) == *old(self),
            old(self).admin is None ==> r is Ok && *final(self) == (MerchantTaggingContract {
                admin: Some(admin),
                total_tagged: 0,
                ..*old(self)
            }),
    {
        if self.admin.is_some() {
            return Err("already initialized");
        }
        self.admin = Some(admin);
        self.total_tagged = 0;
        Ok(())
    }

    /// The admin; fails with "not initialized" before `init`.
    pub fn get_admin(&self) -> (r: Result<Address, &'static str>)
        ensures
            self.admin matches Some(a) ==> r == Ok::<Address, &'static str>(a),
            self.admin is None ==> r == Err::<Address, &'static str>("not initialized"),
    {
        match self.admin {
            Some(a) => Ok(a),
            None => Err("not initialized"),
        }
    }

    /// Checks that `caller` is the admin.
    fn require_admin(&self, caller: Address) -> (r: Result<(), &'static str>)
        ensures
            r == admin_check(self.admin, caller),
    {
        match self.admin {
            None => Err("not initialized"),
            Some(a) => if a != caller { Err("unauthorized") } else { Ok(()) },
        }
    }

    /// Checks a merchant name: at most `MAX_MERCHANT_NAME_LEN` bytes and not empty.
    pub fn validate_name(name: &[u8]) -> (r: Result<(), &'static str>)
        ensures
            r == name_check(name@),
    {
        if name.len() > MAX_MERCHANT_NAME_LEN as usize {
            return Err("name too long");
        }
        if name.len() == 0 {
            return Err("name cannot be empty");
        }
        Ok(())
    }

    /// Checks category tags: at most `MAX_TAGS_PER_MERCHANT`, each at most `MAX_TAG_LEN` bytes.
    pub fn validate_tags(tags: &Vec<Vec<u8>>) -> (r: Result<(), &'static str>)
        ensures
            r == tags_check(tags@),
    {
        if tags.len() > MAX_TAGS_PER_MERCHANT as usize {
            return Err("too many tags");
        }
        let mut i: usize = 0;
        while i < tags.len()
            invariant
                tags@.len() <= MAX_TAGS_PER_MERCHANT,
                i <= tags@.len(),
                forall|k: int| 0 <= k < i ==> (#[trigger] tags@[k])@.len() <= MAX_TAG_LEN,
            decreases tags@.len() - i,
        {
            if tags[i].len() > MAX_TAG_LEN as usize {
                assert(tags@[i as int]@.len() > MAX_TAG_LEN);
                assert(has_long_tag(tags@));
                return Err("tag too long");
            }
            i = i + 1;
        }
        Ok(())
    }

    /// Position of the merchant with id `id`.
    fn find_merchant(&self, id: &[u8]) -> (r: Option<usize>)
        requires
            self.wf(),
        ensures
            r matches Some(i) ==> i < self.merchants@.len() && self.merchants@[i as int].id@ == id@
                && self.has_merchant(id@) && self.merchant_index(id@) == i,
            r is None ==> !self.has_merchant(id@),
    {
        let mut i: usize = 0;
        while i < self.merchants.len()
            invariant
                self.wf(),
                i <= self.merchants@.len(),
                forall|j: int| 0 <= j < i ==> (#[trigger] self.merchants@[j]).id@ != id@,
            decreases self.merchants@.len() - i,
        {
            if bytes_eq(self.merchants[i].id.as_slice(), id) {
                proof { self.lemma_merchant_index(i as int); }
                return Some(i);
            }
            i = i + 1;
        }
        None
    }

    /// Position of the tag of `(tx_id, merchant_id)`.
    fn find_tag(&self, tx_id: u64, merchant_id: &[u8]) -> (r: Option<usize>)
        requires
            self.wf(),
        ensures
            r matches Some(i) ==> i < self.tags@.len() && self.has_tag(tx_id, merchant_id@)
                && self.tag_index(tx_id, merchant_id@) == i,
            r is None ==> !self.has_tag(tx_id, merchant_id@),
    {
        let mut i: usize = 0;
        while i < self.tags.len()
            invariant
                self.wf(),
                i <= self.tags@.len(),
                forall|j: int| 0 <= j < i ==> !((#[trigger] self.tags@[j]).tx_id == tx_id && self.tags@[j].merchant_id@ == merchant_id@),
            decreases self.tags@.len() - i,
        {
            if self.tags[i].tx_id == tx_id && bytes_eq(self.tags[i].merchant_id.as_slice(), merchant_id) {
                proof { self.lemma_tag_index(i as int); }
                return Some(i);
            }
            i = i + 1;
        }
        None
    }

    /// Registers a merchant (admin only), active, with an empty transaction index.
    pub fn register_merchant(&mut self, caller: Address, id: Vec<u8>, name: Vec<u8>, tags: Vec<Vec<u8>>, address: Option<Address>, now: u64) -> (r: Result<(), &'static str>)
        requires
            old(self).wf(),
        ensures
            final(self).wf(),
            r == old(self).register_check(caller, id@, name@, tags@),
            r is Err ==> *final(self) == *old(self),
            r is Ok ==> {
                &&& final(self).merchants@ == old(self).merchants@.push(Merchant {
                    id, name, tags, address, registered_at: now, active: true,
                })
                &&& final(self).merchant_transactions@.len() == old(self).merchant_transactions@.len() + 1
                &&& final(self).merchant_transactions@.drop_last() == old(self).merchant_transactions@
                &&& final(self).merchant_transactions@.last()@.len() == 0
                &&& final(self).analytics@ == old(self).analytics@.push(None)
                &&& final(self).tags == old(self).tags
                &&& final(self).admin == old(self).admin
                &&& final(self).total_tagged == old(self).total_tagged
            },
    {
        if let Err(e) = self.require_admin(caller) {
            return Err(e);
        }
        if self.find_merchant(id.as_slice()).is_some() {
            return Err("merchant already exists");
        }
        if let Err(e) = Self::validate_name(name.as_slice()) {
            return Err(e);
        }
        if let Err(e) = Self::validate_tags(&tags) {
            return Err(e);
        }
        let ghost old_self = *self;
        let ghost idv = id@;
        let merchant = Merchant { id, name, tags, address, registered_at: now, active: true };
        self.merchants.push(merchant);
        self.merchant_transactions.push(Vec::new());
        self.analytics.push(None);
        proof {
            assert(self.merchant_transactions@.drop_last() =~= old_self.merchant_transactions@);
            assert forall|i: int, j: int| 0 <= i < j < self.merchants@.len()
                implies (#[trigger] self.merchants@[i]).id@ != (#[trigger] self.merchants@[j]).id@ by {
                if j == self.merchants@.len() - 1 {
                    assert(old_self.merchants@[i] == self.merchants@[i]);
                    if self.merchants@[i].id@ == idv {
                        assert(old_self.has_merchant(idv));
                    }
                } else {
                    assert(old_self.merchants@[i] == self.merchants@[i]);
                    assert(old_self.merchants@[j] == self.merchants@[j]);
                }
            }
            assert forall|i: int| 0 <= i < self.analytics@.len() implies
                (#[trigger] self.analytics@[i] matches Some(a) ==> a.tx_count <= self.total_tagged) by {
                if i < old_self.analytics@.len() {
                    assert(self.analytics@[i] == old_self.analytics@[i]);
                }
            }
            assert forall|i: int| 0 <= i < self.analytics@.len() implies match #[trigger] self.analytics@[i] {
                Some(a) => a.tx_count == self.merchant_transactions@[i]@.len(),
                None => self.merchant_transactions@[i]@.len() == 0,
            } by {
                if i < old_self.analytics@.len() {
                    assert(self.analytics@[i] == old_self.analytics@[i]);
                    assert(self.merchant_transactions@[i] == old_self.merchant_transactions@[i]);
                }
            }
        }
        Ok(())
    }

    /// Updates a merchant's name, tags or address (admin only); `None` leaves a field as it is.
    pub fn update_merchant(&mut self, caller: Address, id: &[u8], name: Option<Vec<u8>>, tags: Option<Vec<Vec<u8>>>, address: Option<Address>) -> (r: Result<(), &'static str>)
        requires
            old(self).wf(),
        ensures
            final(self).wf(),
            admin_check(old(self).admin, caller) is Err ==> r == admin_check(old(self).admin, caller),
            admin_check(old(self).admin, caller) is Ok && !old(self).has_merchant(id@) ==> r == Err::<(), &'static str>("merchant not found"),
            admin_check(old(self).admin, caller) is Ok && old(self).has_merchant(id@) ==> r == update_check(name, tags),
            r is Err ==> *final(self) == *old(self),
            r is Ok ==> {
                let i = old(self).merchant_index(id@);
                let m = old(self).merchants@[i];
                &&& final(self).merchants@ == old(self).merchants@.update(i, Merchant {
                    name: match name { Some(n) => n, None => m.name },
                    tags: match tags { Some(t) => t, None => m.tags },
                    address: match address { Some(a) => Some(a), None => m.address },
                    ..m
                })
                &&& final(self).merchant_transactions == old(self).merchant_transactions
                &&& final(self).analytics == old(self).analytics
                &&& final(self).tags == old(self).tags
                &&& final(self).admin == old(self).admin
                &&& final(self).total_tagged == old(self).total_tagged
            },
    {
        if let Err(e) = self.require_admin(caller) {
            return Err(e);
        }
        let i = match self.find_merchant(id) {
            Some(i) => i,
            None => { return Err("merchant not found"); },
        };
        if let Some(n) = &name {
            if let Err(e) = Self::validate_name(n.as_slice()) {
                return Err(e);
            }
        }
        if let Some(t) = &tags {
            if let Err(e) = Self::validate_tags(t) {
                return Err(e);
            }
        }
        let ghost old_self = *self;
        let m = self.merchants.remove(i);
        let updated = Merchant {
            id: m.id,
            name: match name { Some(n) => n, None => m.name },
            tags: match tags { Some(t) => t, None => m.tags },
            address: match address { Some(a) => Some(a), None => m.address },
            registered_at: m.registered_at,
            active: m.active,
        };
        self.merchants.insert(i, updated);
        proof {
            assert(self.merchants@ =~= old_self.merchants@.update(i as int, updated));
            assert forall|a: int, b: int| 0 <= a < b < self.merchants@.len()
                implies (#[trigger] self.merchants@[a]).id@ != (#[trigger] self.merchants@[b]).id@ by {
                assert(old_self.merchants@[a].id@ != old_self.merchants@[b].id@);
            }
        }
        Ok(())
    }

    /// Deactivates a merchant (admin only); its tags are kept.
    pub fn deactivate_merchant(&mut self, caller: Address, id: &[u8]) -> (r: Result<(), &'static str>)
        requires
            old(self).wf(),
        ensures
            final(self).wf(),
            admin_check(old(self).admin, caller) is Err ==> r == admin_check(old(self).admin, caller),
            admin_check(old(self).admin, caller) is Ok && !old(self).has_merchant(id@) ==> r == Err::<(), &'static str>("merchant not found"),
            admin_check(old(self).admin, caller) is Ok && old(self).has_merchant(id@) ==> r is Ok,
            r is Err ==> *final(self) == *old(self),
            r is Ok ==> {
                let i = old(self).merchant_index(id@);
                &&& final(self).merchants@ == old(self).merchants@.update(i, Merchant { active: false, ..old(self).merchants@[i] })
                &&& final(self).merchant_transactions == old(self).merchant_transactions
                &&& final(self).analytics == old(self).analytics
                &&& final(self).tags == old(self).tags
                &&& final(self).admin == old(self).admin
                &&& final(self).total_tagged == old(self).total_tagged
            },
    {
        if let Err(e) = self.require_admin(caller) {
            return Err(e);
        }
        let i = match self.find_merchant(id) {
            Some(i) => i,
            None => { return Err("merchant not found"); },
        };
        let ghost old_self = *self;
        let mut m = self.merchants.remove(i);
        m.active = false;
        self.merchants.insert(i, m);
        proof {
            assert(self.merchants@ =~= old_self.merchants@.update(i as int, m));
            assert forall|a: int, b: int| 0 <= a < b < self.merchants@.len()
                implies (#[trigger] self.merchants@[a]).id@ != (#[trigger] self.merchants@[b]).id@ by {
                assert(old_self.merchants@[a].id@ != old_self.merchants@[b].id@);
            }
        }
        Ok(())
    }

    /// The merchant with id `id`, if registered.
    pub fn get_merchant(&self, id: &[u8]) -> (r: Option<&Merchant>)
        requires
            self.wf(),
        ensures
            r is None <==> !self.has_merchant(id@),
            r matches Some(m) ==> *m == self.merchants@[self.merchant_index(id@)],
    {
        match self.find_merchant(id) {
            Some(i) => Some(&self.merchants[i]),
            None => None,
        }
    }

    /// The ids of all registered merchants, in registration order.
    pub fn list_merchants(&self) -> (r: Vec<Vec<u8>>)
        ensures
            r@.len() == self.merchants@.len(),
            forall|i: int| 0 <= i < r@.len() ==> (#[trigger] r@[i])@ == self.merchants@[i].id@,
    {
        let mut r: Vec<Vec<u8>> = Vec::new();
        let mut i: usize = 0;
        while i < self.merchants.len()
            invariant
                i <= self.merchants@.len(),
                r@.len() == i,
                forall|j: int| 0 <= j < i ==> (#[trigger] r@[j])@ == self.merchants@[j].id@,
            decreases self.merchants@.len() - i,
        {
            r.push(copy_bytes(&self.merchants[i].id));
            i = i + 1;
        }
        r
    }

    /// Tags transaction `tx_id` with an active merchant and updates that merchant's
    /// transaction index and analytics and the global count.
    pub fn tag_transaction(&mut self, tx_id: u64, merchant_id: &Vec<u8>, amount: i128, asset: Vec<u8>, note: Vec<u8>, now: u64) -> (r: Result<(), &'static str>)
        requires
            old(self).wf(),
            old(self).total_tagged < u32::MAX,
        ensures
            final(self).wf(),
            r == old(self).tag_check(tx_id, merchant_id@, amount),
            r is Err ==> *final(self) == *old(self),
            r is Ok ==> {
                let i = old(self).merchant_index(merchant_id@);
                let t = final(self).tags@.last();
                &&& final(self).tags@.len() == old(self).tags@.len() + 1
                &&& final(self).tags@.drop_last() == old(self).tags@
                &&& t.tx_id == tx_id && t.merchant_id@ == merchant_id@ && t.amount == amount
                &&& t.asset == asset && t.timestamp == now && t.note == note
                &&& final(self).merchant_transactions@ == old(self).merchant_transactions@.update(i, final(self).merchant_transactions@[i])
                &&& final(self).merchant_transactions@[i]@ == old(self).merchant_transactions@[i]@.push(tx_id)
                &&& final(self).analytics@ == old(self).analytics@.update(i, final(self).analytics@[i])
                &&& final(self).analytics@[i] matches Some(a) && a.merchant_id@ == merchant_id@
                    && a.tx_count == old(self).count_of(merchant_id@) + 1
                    && a.total_volume == old(self).volume_of(merchant_id@) + amount
                    && a.last_tx_at == now
                &&& final(self).total_tagged == old(self).total_tagged + 1
                &&& final(self).merchants == old(self).merchants
                &&& final(self).admin == old(self).admin
            },
    {
        if amount <= 0 {
            return Err("amount must be positive");
        }
        let i = match self.find_merchant(merchant_id.as_slice()) {
            Some(i) => i,
            None => { return Err("merchant not found"); },
        };
        if !self.merchants[i].active {
            return Err("merchant inactive");
        }
        if self.find_tag(tx_id, merchant_id.as_slice()).is_some() {
            return Err("already tagged");
        }
        let (count, volume) = match &self.analytics[i] {
            Some(a) => (a.tx_count, a.total_volume),
            None => (0u32, 0i128),
        };
        let new_volume = match volume.checked_add(amount) {
            Some(v) => v,
            None => { return Err("volume overflow"); },
        };
        proof {
            assert(self.analytics@[i as int] matches Some(a) ==> a.tx_count <= self.total_tagged);
        }
        let ghost old_self = *self;
        let ghost mid = merchant_id@;
        let tag = TransactionMerchantTag {
            tx_id,
            merchant_id: copy_bytes(merchant_id),
            amount,
            asset,
            timestamp: now,
            note,
        };
        self.tags.push(tag);
        let mut ids = self.merchant_transactions.remove(i);
        ids.push(tx_id);
        self.merchant_transactions.insert(i, ids);
        let _ = self.analytics.remove(i);
        let updated = MerchantAnalytics {
            merchant_id: copy_bytes(merchant_id),
            tx_count: count + 1,
            total_volume: new_volume,
            last_tx_at: now,
        };
        self.analytics.insert(i, Some(updated));
        self.total_tagged = self.total_tagged + 1;
        proof {
            assert(self.tags@.drop_last() =~= old_self.tags@);
            assert(self.merchant_transactions@ =~= old_self.merchant_transactions@.update(i as int, self.merchant_transactions@[i as int]));
            assert(self.analytics@ =~= old_self.analytics@.update(i as int, self.analytics@[i as int]));
            assert forall|a: int, b: int| 0 <= a < b < self.tags@.len()
                implies !(#[trigger] self.tags@[a].tx_id == #[trigger] self.tags@[b].tx_id
                    && self.tags@[a].merchant_id@ == self.tags@[b].merchant_id@) by {
                assert(self.tags@[a] == old_self.tags@[a]);
                if b == self.tags@.len() - 1 {
                    if self.tags@[a].tx_id == tx_id && self.tags@[a].merchant_id@ == mid {
                        assert(old_self.has_tag(tx_id, mid));
                    }
                } else {
                    assert(self.tags@[b] == old_self.tags@[b]);
                }
            }
            assert forall|k: int| 0 <= k < self.analytics@.len() implies
                (#[trigger] self.analytics@[k] matches Some(a) ==> a.tx_count <= self.total_tagged) by {
                if k != i {
                    assert(self.analytics@[k] == old_self.analytics@[k]);
                }
            }
            assert forall|k: int| 0 <= k < self.analytics@.len() implies match #[trigger] self.analytics@[k] {
                Some(a) => a.tx_count == self.merchant_transactions@[k]@.len(),
                None => self.merchant_transactions@[k]@.len() == 0,
            } by {
                if k != i {
                    assert(self.analytics@[k] == old_self.analytics@[k]);
                    assert(self.merchant_transactions@[k] == old_self.merchant_transactions@[k]);
                } else {
                    assert(old_self.analytics@[k] == old_self.analytics@[i as int]);
                }
            }
        }
        Ok(())
    }

    /// Removes the tag of `(tx_id, merchant_id)` (admin only); the merchant's index and
    /// analytics are left as they are.
    pub fn remove_tag(&mut self, caller: Address, tx_id: u64, merchant_id: &[u8]) -> (r: Result<(), &'static str>)
        requires
            old(self).wf(),
        ensures
            final(self).wf(),
            admin_check(old(self).admin, caller) is Err ==> r == admin_check(old(self).admin, caller),
            admin_check(old(self).admin, caller) is Ok && !old(self).has_tag(tx_id, merchant_id@) ==> r == Err::<(), &'static str>("tag not found"),
            admin_check(old(self).admin, caller) is Ok && old(self).has_tag(tx_id, merchant_id@) ==> r is Ok,
            r is Err ==> *final(self) == *old(self),
            r is Ok ==> {
                &&& final(self).tags@ == old(self).tags@.remove(old(self).tag_index(tx_id, merchant_id@))
                &&& final(self).merchants == old(self).merchants
                &&& final(self).merchant_transactions == old(self).merchant_transactions
                &&& final(self).analytics == old(self).analytics
                &&& final(self).admin == old(self).admin
                &&& final(self).total_tagged == old(self).total_tagged
            },
    {
        if let Err(e) = self.require_admin(caller) {
            return Err(e);
        }
        let k = match self.find_tag(tx_id, merchant_id) {
            Some(k) => k,
            None => { return Err("tag not found"); },
        };
        let ghost old_tags = self.tags@;
        let _ = self.tags.remove(k);
        proof {
            assert forall|a: int, b: int| 0 <= a < b < self.tags@.len()
                implies !(#[trigger] self.tags@[a].tx_id == #[trigger] self.tags@[b].tx_id
                    && self.tags@[a].merchant_id@ == self.tags@[b].merchant_id@) by {
                let a2 = if a < k { a } else { a + 1 };
                let b2 = if b < k { b } else { b + 1 };
                assert(self.tags@[a] == old_tags[a2]);
                assert(self.tags@[b] == old_tags[b2]);
                assert(!(old_tags[a2].tx_id == old_tags[b2].tx_id && old_tags[a2].merchant_id@ == old_tags[b2].merchant_id@));
            }
        }
        Ok(())
    }

    /// The tag of `(tx_id, merchant_id)`, if present.
    pub fn get_transaction_tag(&self, tx_id: u64, merchant_id: &[u8]) -> (r: Option<&TransactionMerchantTag>)
        requires
            self.wf(),
        ensures
            r is None <==> !self.has_tag(tx_id, merchant_id@),
            r matches Some(t) ==> *t == self.tags@[self.tag_index(tx_id, merchant_id@)],
    {
        match self.find_tag(tx_id, merchant_id) {
            Some(k) => Some(&self.tags[k]),
            None => None,
        }
    }

    /// The transactions tagged with a merchant, in tagging order, at most `MAX_QUERY_RESULTS`.
    pub fn get_merchant_transactions(&self, merchant_id: &[u8]) -> (r: Vec<u64>)
        requires
            self.wf(),
        ensures
            r@ == capped(self.transactions_of(merchant_id@)),
    {
        let i = match self.find_merchant(merchant_id) {
            Some(i) => i,
            None => { return Vec::new(); },
        };
        let all = &self.merchant_transactions[i];
        if all.len() <= MAX_QUERY_RESULTS as usize {
            return vstd::slice::slice_to_vec(all.as_slice());
        }
        let mut capped_ids: Vec<u64> = Vec::new();
        let mut k: usize = 0;
        while k < MAX_QUERY_RESULTS as usize
            invariant
                k <= MAX_QUERY_RESULTS,
                MAX_QUERY_RESULTS < all@.len(),
                capped_ids@ == all@.take(k as int),
            decreases MAX_QUERY_RESULTS - k,
        {
            capped_ids.push(all[k]);
            k = k + 1;
            assert(capped_ids@ =~= all@.take(k as int));
        }
        capped_ids
    }

    /// The analytics of a merchant, once it has been tagged at least once.
    pub fn get_merchant_analytics(&self, merchant_id: &[u8]) -> (r: Option<&MerchantAnalytics>)
        requires
            self.wf(),
        ensures
            !self.has_merchant(merchant_id@) ==> r is None,
            self.has_merchant(merchant_id@) ==> match self.analytics@[self.merchant_index(merchant_id@)] {
                Some(a) => r == Some(&a),
                None => r is None,
            },
    {
        match self.find_merchant(merchant_id) {
            Some(i) => match &self.analytics[i] {
                Some(a) => Some(a),
                None => None,
            },
            None => None,
        }
    }

    /// Number of tagging operations so far.
    pub fn get_total_tagged(&self) -> (r: u32)
        ensures
            r == self.total_tagged,
    {
        self.total_tagged
    }

    /// The ids, in registration order, of the merchants that carry category tag `tag`.
    pub fn get_merchants_by_tag(&self, tag: &[u8]) -> (r: Vec<Vec<u8>>)
        ensures
            crate::text::byte_strings(r@) == ids_with_tag(self.merchants@, tag@),
    {
        let mut r: Vec<Vec<u8>> = Vec::new();
        let mut i: usize = 0;
        while i < self.merchants.len()
            invariant
                i <= self.merchants@.len(),
                crate::text::byte_strings(r@) == ids_with_tag(self.merchants@.take(i as int), tag@),
            decreases self.merchants@.len() - i,
        {
            let ghost before = r@;
            assert(self.merchants@.take(i as int + 1).drop_last() =~= self.merchants@.take(i as int));
            if contains_bytes(&self.merchants[i].tags, tag) {
                r.push(copy_bytes(&self.merchants[i].id));
                assert(crate::text::byte_strings(r@) =~= crate::text::byte_strings(before).push(self.merchants@[i as int].id@));
            }
            i = i + 1;
        }
        assert(self.merchants@.take(self.merchants@.len() as int) =~= self.merchants@);
        r
    }
}

} // verus!
