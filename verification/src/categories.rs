//! Spending categories: the admin creates and renames categories for wallets; a wallet never
//! holds two categories of the same name, and a rename keeps the category's id.
use vstd::prelude::*;
use crate::fees::Address;
use crate::text::{bytes_eq, copy_bytes};

verus! {

/// Errors of the spending-categories contract.
#[derive(Copy, Clone, Debug, PartialEq, Eq, Structural)]
pub enum CategoryError {
    NotInitialized,
    Unauthorized,
    InvalidName,
    DuplicateName,
    CategoryNotFound,
}

impl CategoryError {
    /// The contract error code of this error.
    pub fn code(&self) -> (r: u32)
        ensures
            r == category_error_code(*self),
    {
        match self {
            CategoryError::NotInitialized => 1,
            CategoryError::Unauthorized => 2,
            CategoryError::InvalidName => 3,
            CategoryError::DuplicateName => 4,
            CategoryError::CategoryNotFound => 5,
        }
    }
}

/// Contract error code of each error.
pub open spec fn category_error_code(e: CategoryError) -> u32 {
    match e {
        CategoryError::NotInitialized => 1,
        CategoryError::Unauthorized => 2,
        CategoryError::InvalidName => 3,
        CategoryError::DuplicateName => 4,
        CategoryError::CategoryNotFound => 5,
    }
}

/// A spending category of a wallet.
pub struct SpendingCategory {
    pub category_id: u64,
    pub user: Address,
    pub name: Vec<u8>,
    /// Ledger sequence at creation.
    pub created_at: u64,
    /// Ledger sequence at the last change.
    pub updated_at: u64,
}

/// Whether a category name is acceptable: one to 32 bytes.
pub open spec fn valid_category_name(name: Seq<u8>) -> bool {
    0 < name.len() <= 32
}

/// Checks a category name: it must hold one to 32 bytes.
pub fn validate_category_name(name: &[u8]) -> (r: Result<(), ()>)
    ensures
        r is Ok <==> valid_category_name(name@),
{
    let len = name.len();
    if len == 0 || len > 32 {
        return Err(());
    }
    Ok(())
}

/// The ids, in creation order, of the categories of `cs` owned by `user`.
pub open spec fn categories_of(cs: Seq<SpendingCategory>, user: Address) -> Seq<u64>
    decreases cs.len(),
{
    if cs.len() == 0 {
        Seq::empty()
    } else {
        let rest = categories_of(cs.drop_last(), user);
        if cs.last().user == user { rest.push(cs.last().category_id) } else { rest }
    }
}

/// Whether `c` is a copy of `d`.
pub open spec fn same_category(c: SpendingCategory, d: SpendingCategory) -> bool {
    c.category_id == d.category_id && c.user == d.user && c.name@ == d.name@
        && c.created_at == d.created_at && c.updated_at == d.updated_at
}

/// State of the spending-categories contract: category `k` is at position `k - 1`.
pub struct SpendingCategoriesContract {
    pub admin: Option<Address>,
    pub categories: Vec<SpendingCategory>,
}

impl SpendingCategoriesContract {
    /// Ids follow positions, every stored name is a valid name, and no wallet has two
    /// categories of the same name.
    pub open spec fn wf(&self) -> bool {
        &&& forall|i: int| 0 <= i < self.categories@.len() ==> (#[trigger] self.categories@[i]).category_id == i + 1
            && valid_category_name(self.categories@[i].name@)
        &&& forall|i: int, j: int| 0 <= i < j < self.categories@.len()
            && (#[trigger] self.categories@[i]).user == (#[trigger] self.categories@[j]).user
            ==> self.categories@[i].name@ != self.categories@[j].name@
    }

    /// Whether `user` has a category named `name`.
    pub open spec fn has_name(&self, user: Address, name: Seq<u8>) -> bool {
        exists|i: int| 0 <= i < self.categories@.len() && (#[trigger] self.categories@[i]).user == user
            && self.categories@[i].name@ == name
    }

    /// Whether category `id` exists.
    pub open spec fn has_category(&self, id: u64) -> bool {
        1 <= id <= self.categories@.len()
    }

    /// Who may manage categories.
    pub open spec fn admin_check(&self, caller: Address) -> Result<(), CategoryError> {
        match self.admin {
            None => Err(CategoryError::NotInitialized),
            Some(a) => if a != caller { Err(CategoryError::Unauthorized) } else { Ok(()) },
        }
    }

    /// An uninitialised contract without categories.
    pub fn new() -> (r: SpendingCategoriesContract)
        ensures
            r.wf(),
            r.admin is None,
            r.categories@.len() == 0,
    {
        SpendingCategoriesContract { admin: None, categories: Vec::new() }
    }

    /// Sets the admin; fails with "Contract already initialized" when one is set.
    pub fn initialize(&mut self, admin: Address) -> (r: Result<(), &'static str>)
        requires
            old(self).wf(),
        ensures
            final(self).wf(),
            old(self).admin is Some ==> r == Err::<(), &'static str>("Contract already initialized") && *final(self) == *old(self),
            old(self).admin is None ==> r is Ok && final(self).admin == Some(admin) && final(self).categories == old(self).categories,
    {
        if self.admin.is_some() {
            return Err("Contract already initialized");
        }
        self.admin = Some(admin);
        Ok(())
    }

    /// Checks that `caller` is the admin.
    fn require_admin(&self, caller: Address) -> (r: Result<(), CategoryError>)
        ensures
            r == self.admin_check(caller),
    {
        match self.admin {
            None => Err(CategoryError::NotInitialized),
            Some(a) => if a != caller { Err(CategoryError::Unauthorized) } else { Ok(()) },
        }
    }

    /// Position of a category of `user` named `name`.
    fn find_name(&self, user: Address, name: &[u8]) -> (r: Option<usize>)
        ensures
            r matches Some(i) ==> i < self.categories@.len() && self.categories@[i as int].user == user
                && self.categories@[i as int].name@ == name@,
            r is None <==> !self.has_name(user, name@),
    {
        let mut i: usize = 0;
        while i < self.categories.len()
            invariant
                i <= self.categories@.len(),
                forall|j: int| 0 <= j < i ==> !((#[trigger] self.categories@[j]).user == user && self.categories@[j].name@ == name@),
            decreases self.categories@.len() - i,
        {
            if self.categories[i].user == user && bytes_eq(self.categories[i].name.as_slice(), name) {
                return Some(i);
            }
            i = i + 1;
        }
        None
    }

    /// A copy of the category at position `i`.
    fn copy_category(&self, i: usize) -> (r: SpendingCategory)
        requires
            i < self.categories@.len(),
        ensures
            same_category(r, self.categories@[i as int]),
    {
        let c = &self.categories[i];
        SpendingCategory {
            category_id: c.category_id,
            user: c.user,
            name: copy_bytes(&c.name),
            created_at: c.created_at,
            updated_at: c.updated_at,
        }
    }

    /// Creates category `name` for `user` (admin only) at ledger sequence `ledger_seq`; the
    /// new category gets the next id.
    pub fn create_category(&mut self, caller: Address, user: Address, name: Vec<u8>, ledger_seq: u64) -> (r: Result<SpendingCategory, CategoryError>)
        requires
            old(self).wf(),
            old(self).categories@.len() < u64::MAX,
        ensures
            final(self).wf(),
            old(self).admin_check(caller) is Err ==> r == Err::<SpendingCategory, CategoryError>(old(self).admin_check(caller)->Err_0),
            old(self).admin_check(caller) is Ok && !valid_category_name(name@) ==> r == Err::<SpendingCategory, CategoryError>(CategoryError::InvalidName),
            old(self).admin_check(caller) is Ok && valid_category_name(name@) && old(self).has_name(user, name@)
                ==> r == Err::<SpendingCategory, CategoryError>(CategoryError::DuplicateName),
            old(self).admin_check(caller) is Ok && valid_category_name(name@) && !old(self).has_name(user, name@) ==> r is Ok,
            r is Err ==> *final(self) == *old(self),
            r matches Ok(c) ==> {
                let id = (old(self).categories@.len() + 1) as u64;
                &&& final(self).categories@ == old(self).categories@.push(SpendingCategory {
                    category_id: id,
                    user,
                    name,
                    created_at: ledger_seq,
                    updated_at: ledger_seq,
                })
                &&& same_category(c, final(self).categories@.last())
                &&& final(self).admin == old(self).admin
            },
    {
        if let Err(e) = self.require_admin(caller) {
            return Err(e);
        }
        if validate_category_name(name.as_slice()).is_err() {
            return Err(CategoryError::InvalidName);
        }
        if self.find_name(user, name.as_slice()).is_some() {
            return Err(CategoryError::DuplicateName);
        }
        let ghost old_self = *self;
        let ghost name_v = name@;
        let category_id = self.categories.len() as u64 + 1;
        self.categories.push(SpendingCategory {
            category_id,
            user,
            name,
            created_at: ledger_seq,
            updated_at: ledger_seq,
        });
        proof {
            assert forall|i: int, j: int| 0 <= i < j < self.categories@.len()
                && (#[trigger] self.categories@[i]).user == (#[trigger] self.categories@[j]).user
                implies self.categories@[i].name@ != self.categories@[j].name@ by {
                assert(self.categories@[i] == old_self.categories@[i]);
                if j == self.categories@.len() - 1 {
                    if self.categories@[i].name@ == name_v {
                        assert(old_self.has_name(user, name_v));
                    }
                } else {
                    assert(self.categories@[j] == old_self.categories@[j]);
                }
            }
        }
        Ok(self.copy_category(self.categories.len() - 1))
    }

    /// Renames category `category_id` (admin only) at ledger sequence `ledger_seq`; its id,
    /// owner and creation time stay.
    pub fn rename_category(&mut self, caller: Address, category_id: u64, new_name: Vec<u8>, ledger_seq: u64) -> (r: Result<SpendingCategory, CategoryError>)
        requires
            old(self).wf(),
        ensures
            final(self).wf(),
            old(self).admin_check(caller) is Err ==> r == Err::<SpendingCategory, CategoryError>(old(self).admin_check(caller)->Err_0),
            old(self).admin_check(caller) is Ok && !valid_category_name(new_name@) ==> r == Err::<SpendingCategory, CategoryError>(CategoryError::InvalidName),
            old(self).admin_check(caller) is Ok && valid_category_name(new_name@) && !old(self).has_category(category_id)
                ==> r == Err::<SpendingCategory, CategoryError>(CategoryError::CategoryNotFound),
            old(self).admin_check(caller) is Ok && valid_category_name(new_name@) && old(self).has_category(category_id) ==> {
                let c = old(self).categories@[category_id - 1];
                if c.name@ != new_name@ && old(self).has_name(c.user, new_name@) {
                    r == Err::<SpendingCategory, CategoryError>(CategoryError::DuplicateName)
                } else {
                    r is Ok
                }
            },
            r is Err ==> *final(self) == *old(self),
            r matches Ok(c) ==> {
                let k = category_id - 1;
                &&& final(self).categories@ == old(self).categories@.update(k, SpendingCategory {
                    name: new_name,
                    updated_at: ledger_seq,
                    ..old(self).categories@[k]
                })
                &&& same_category(c, final(self).categories@[k])
                &&& final(self).admin == old(self).admin
            },
    {
        if let Err(e) = self.require_admin(caller) {
            return Err(e);
        }
        if validate_category_name(new_name.as_slice()).is_err() {
            return Err(CategoryError::InvalidName);
        }
        if category_id < 1 || category_id - 1 >= self.categories.len() as u64 {
            return Err(CategoryError::CategoryNotFound);
        }
        let k = (category_id - 1) as usize;
        let user = self.categories[k].user;
        let same = bytes_eq(self.categories[k].name.as_slice(), new_name.as_slice());
        if !same && self.find_name(user, new_name.as_slice()).is_some() {
            return Err(CategoryError::DuplicateName);
        }
        let ghost old_self = *self;
        let ghost name_v = new_name@;
        let c = self.categories.remove(k);
        let updated = SpendingCategory {
            category_id: c.category_id,
            user: c.user,
            name: new_name,
            created_at: c.created_at,
            updated_at: ledger_seq,
        };
        self.categories.insert(k, updated);
        proof {
            assert(self.categories@ =~= old_self.categories@.update(k as int, updated));
            assert forall|i: int, j: int| 0 <= i < j < self.categories@.len()
                && (#[trigger] self.categories@[i]).user == (#[trigger] self.categories@[j]).user
                implies self.categories@[i].name@ != self.categories@[j].name@ by {
                if i == k {
                    if self.categories@[j].name@ == name_v {
                        if same {
                            assert(old_self.categories@[i].name@ == name_v);
                        } else {
                            assert(old_self.has_name(user, name_v));
                        }
                    }
                } else if j == k {
                    if self.categories@[i].name@ == name_v {
                        if same {
                            assert(old_self.categories@[j].name@ == name_v);
                        } else {
                            assert(old_self.has_name(user, name_v));
                        }
                    }
                } else {
                    assert(old_self.categories@[i].name@ != old_self.categories@[j].name@);
                }
            }
        }
        Ok(self.copy_category(k))
    }

    /// Category `category_id`, if it exists.
    pub fn get_category(&self, category_id: u64) -> (r: Option<&SpendingCategory>)
        ensures
            self.has_category(category_id) ==> r == Some(&self.categories@[category_id - 1]),
            !self.has_category(category_id) ==> r is None,
    {
        if category_id < 1 || category_id - 1 >= self.categories.len() as u64 {
            return None;
        }
        Some(&self.categories[(category_id - 1) as usize])
    }

    /// Ids of the categories of `user`, in creation order.
    pub fn get_user_categories(&self, user: Address) -> (r: Vec<u64>)
        ensures
            r@ == categories_of(self.categories@, user),
    {
        let mut r: Vec<u64> = Vec::new();
        let mut i: usize = 0;
        while i < self.categories.len()
            invariant
                i <= self.categories@.len(),
                r@ == categories_of(self.categories@.take(i as int), user),
            decreases self.categories@.len() - i,
        {
            assert(self.categories@.take(i as int + 1).drop_last() =~= self.categories@.take(i as int));
            if self.categories[i].user == user {
                r.push(self.categories[i].category_id);
            }
            i = i + 1;
        }
        assert(self.categories@.take(self.categories@.len() as int) =~= self.categories@);
        r
    }

    /// The admin; fails with "Contract not initialized" before `initialize`.
    pub fn get_admin(&self) -> (r: Result<Address, &'static str>)
        ensures
            self.admin matches Some(a) ==> r == Ok::<Address, &'static str>(a),
            self.admin is None ==> r == Err::<Address, &'static str>("Contract not initialized"),
    {
        match self.admin {
            Some(a) => Ok(a),
            None => Err("Contract not initialized"),
        }
    }

    /// Replaces the admin (current admin only).
    pub fn set_admin(&mut self, current_admin: Address, new_admin: Address) -> (r: Result<(), CategoryError>)
        requires
            old(self).wf(),
        ensures
            final(self).wf(),
            r == old(self).admin_check(current_admin),
            r is Err ==> *final(self) == *old(self),
            r is Ok ==> final(self).admin == Some(new_admin) && final(self).categories == old(self).categories,
    {
        self.require_admin(current_admin)?;
        self.admin = Some(new_admin);
        Ok(())
    }

    /// Number of categories created.
    pub fn get_total_categories(&self) -> (r: u64)
        requires
            self.categories@.len() <= u64::MAX,
        ensures
            r == self.categories@.len(),
    {
        self.categories.len() as u64
    }
}

} // verus!
