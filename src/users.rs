use vstd::prelude::*;
use vstd::string::StringExecFns;
use crate::error::ApiError;
use crate::models::{copy_text, User, UserRole};

verus! {

pub open spec fn has_user(us: Seq<User>, id: u128) -> bool {
    exists|i: int| 0 <= i < us.len() && us[i].id == id
}

pub open spec fn user_at(us: Seq<User>, id: u128) -> User {
    us[choose|i: int| 0 <= i < us.len() && us[i].id == id]
}

pub open spec fn email_taken(us: Seq<User>, store_id: u128, email: Seq<char>) -> bool {
    exists|i: int| 0 <= i < us.len() && us[i].store_id == store_id && us[i].email@ == email
}

pub open spec fn user_by_email(us: Seq<User>, store_id: u128, email: Seq<char>) -> User {
    us[choose|i: int| 0 <= i < us.len() && us[i].store_id == store_id && us[i].email@ == email]
}

/// The account made at registration: a customer, active.
pub open spec fn new_account(
    id: u128,
    store_id: u128,
    email: String,
    password_hash: String,
    first_name: Option<String>,
    last_name: Option<String>,
    now: i64,
) -> User {
    User {
        id,
        store_id,
        email,
        password_hash,
        first_name,
        last_name,
        role: UserRole::Customer,
        is_active: true,
        created_at: now,
        updated_at: now,
    }
}

impl User {
    /// A copy of the account, equal to it field by field.
    pub fn duplicate(&self) -> (r: User)
        ensures
            r == *self,
    {
        User {
            id: self.id,
            store_id: self.store_id,
            email: self.email.clone(),
            password_hash: self.password_hash.clone(),
            first_name: copy_text(&self.first_name),
            last_name: copy_text(&self.last_name),
            role: self.role,
            is_active: self.is_active,
            created_at: self.created_at,
            updated_at: self.updated_at,
        }
    }
}

/// The accounts of all stores: ids are unique, and an email is unique
/// within a store.
#[derive(Debug, Clone)]
pub struct UserStore {
    pub users: Vec<User>,
}

impl UserStore {
    pub open spec fn wf(&self) -> bool {
        &&& forall|i: int, j: int|
            0 <= i < self.users@.len() && 0 <= j < self.users@.len() && i != j
                ==> #[trigger] self.users@[i].id != #[trigger] self.users@[j].id
        &&& forall|i: int, j: int|
            0 <= i < self.users@.len() && 0 <= j < self.users@.len() && i != j && (
            #[trigger] self.users@[i]).store_id == (#[trigger] self.users@[j]).store_id
                ==> self.users@[i].email@ != self.users@[j].email@
    }

    pub fn new() -> (r: Self)
        ensures
            r.wf(),
            r.users@.len() == 0,
    {
        UserStore { users: Vec::new() }
    }

    fn index_of_email(&self, store_id: u128, email: &str) -> (r: Option<usize>)
        requires
            self.wf(),
        ensures
            r is None <==> !email_taken(self.users@, store_id, email@),
            r matches Some(i) ==> i < self.users@.len() && self.users@[i as int] == user_by_email(
                self.users@,
                store_id,
                email@,
            ) && self.users@[i as int].store_id == store_id && self.users@[i as int].email@ == email@,
    {
        let wanted = String::from_str(email);
        let mut i: usize = 0;
        while i < self.users.len()
            invariant
                self.wf(),
                i <= self.users@.len(),
                wanted@ == email@,
                forall|j: int|
                    0 <= j < i ==> !(self.users@[j].store_id == store_id && self.users@[j].email@ == email@),
            decreases self.users@.len() - i,
        {
            let u = &self.users[i];
            if u.store_id == store_id && u.email.eq(&wanted) {
                proof {
                    let k = choose|k: int|
                        0 <= k < self.users@.len() && self.users@[k].store_id == store_id
                            && self.users@[k].email@ == email@;
                    if k != i {
                        assert(self.users@[k].email@ != self.users@[i as int].email@);
                    }
                }
                return Some(i);
            }
            i += 1;
        }
        None
    }

    fn index_of_id(&self, id: u128) -> (r: Option<usize>)
        requires
            self.wf(),
        ensures
            r is None <==> !has_user(self.users@, id),
            r matches Some(i) ==> i < self.users@.len() && self.users@[i as int] == user_at(
                self.users@,
                id,
            ) && self.users@[i as int].id == id,
    {
        let mut i: usize = 0;
        while i < self.users.len()
            invariant
                self.wf(),
                i <= self.users@.len(),
                forall|j: int| 0 <= j < i ==> self.users@[j].id != id,
            decreases self.users@.len() - i,
        {
            if self.users[i].id == id {
                proof {
                    let k = choose|k: int| 0 <= k < self.users@.len() && self.users@[k].id == id;
                    if k != i {
                        assert(self.users@[k].id != self.users@[i as int].id);
                    }
                }
                return Some(i);
            }
            i += 1;
        }
        None
    }

    /// The account of a store with this email.
    pub fn find_user_by_email(&self, store_id: u128, email: &str) -> (r: Option<User>)
        requires
            self.wf(),
        ensures
            r is Some <==> email_taken(self.users@, store_id, email@),
            r matches Some(u) ==> u == user_by_email(self.users@, store_id, email@),
    {
        match self.index_of_email(store_id, email) {
            Some(i) => Some(self.users[i].duplicate()),
            None => None,
        }
    }

    /// The account with this id.
    pub fn find_user_by_id(&self, id: u128) -> (r: Option<User>)
        requires
            self.wf(),
        ensures
            r is Some <==> has_user(self.users@, id),
            r matches Some(u) ==> u == user_at(self.users@, id) && u.id == id,
    {
        match self.index_of_id(id) {
            Some(i) => Some(self.users[i].duplicate()),
            None => None,
        }
    }

    /// Records a new customer account. Fails with `Conflict` where the
    /// email is taken in that store, and with `Database` where the id is
    /// taken; nothing changes then.
    pub fn create_user(
        &mut self,
        id: u128,
        store_id: u128,
        email: String,
        password_hash: String,
        first_name: Option<String>,
        last_name: Option<String>,
        now: i64,
    ) -> (r: Result<User, ApiError>)
        requires
            old(self).wf(),
        ensures
            final(self).wf(),
            r is Ok <==> !email_taken(old(self).users@, store_id, email@) && !has_user(old(self).users@, id),
            r matches Ok(u) ==> u == new_account(id, store_id, email, password_hash, first_name, last_name, now)
                && final(self).users@ == old(self).users@.push(u),
            r matches Err(e) ==> *final(self) == *old(self) && if email_taken(
                old(self).users@,
                store_id,
                email@,
            ) {
                e is Conflict
            } else {
                e is Database
            },
    {
        if self.index_of_email(store_id, email.as_str()).is_some() {
            return Err(ApiError::conflict(String::from_str("Email already registered")));
        }
        if self.index_of_id(id).is_some() {
            return Err(ApiError::Database(String::from_str("user id already in use")));
        }
        let user = User {
            id,
            store_id,
            email,
            password_hash,
            first_name,
            last_name,
            role: UserRole::Customer,
            is_active: true,
            created_at: now,
            updated_at: now,
        };
        let out = user.duplicate();
        let ghost before = self.users@;
        self.users.push(user);
        proof {
            assert forall|i: int, j: int|
                0 <= i < self.users@.len() && 0 <= j < self.users@.len() && i != j implies #[trigger] self.users@[i].id
                != #[trigger] self.users@[j].id by {
                if i < before.len() && j < before.len() {
                    assert(self.users@[i] == before[i] && self.users@[j] == before[j]);
                } else if i < before.len() {
                    assert(self.users@[i] == before[i]);
                } else {
                    assert(self.users@[j] == before[j]);
                }
            }
            assert forall|i: int, j: int|
                0 <= i < self.users@.len() && 0 <= j < self.users@.len() && i != j && (
                #[trigger] self.users@[i]).store_id == (#[trigger] self.users@[j]).store_id implies self.users@[i].email@
                != self.users@[j].email@ by {
                if i < before.len() && j < before.len() {
                    assert(self.users@[i] == before[i] && self.users@[j] == before[j]);
                } else if i < before.len() {
                    assert(self.users@[i] == before[i]);
                } else {
                    assert(self.users@[j] == before[j]);
                }
            }
        }
        Ok(out)
    }

    /// Enables or disables an account; `NotFound` where there is none.
    pub fn set_active(&mut self, id: u128, active: bool, now: i64) -> (r: Result<(), ApiError>)
        requires
            old(self).wf(),
        ensures
            final(self).wf(),
            r is Ok <==> has_user(old(self).users@, id),
            r is Err ==> *final(self) == *old(self),
            r is Ok ==> ({
                let i = choose|i: int| 0 <= i < old(self).users@.len() && old(self).users@[i].id == id;
                final(self).users@ == old(self).users@.update(
                    i,
                    User { is_active: active, updated_at: now, ..old(self).users@[i] },
                )
            }),
    {
        match self.index_of_id(id) {
            None => Err(ApiError::not_found(String::from_str("User not found"))),
            Some(i) => {
                let mut u = self.users[i].duplicate();
                u.is_active = active;
                u.updated_at = now;
                let ghost before = self.users@;
                self.users.set(i, u);
                proof {
                    let k = choose|k: int| 0 <= k < before.len() && before[k].id == id;
                    assert(k == i) by {
                        if k != i {
                            assert(before[k].id != before[i as int].id);
                        }
                    }
                    assert forall|a: int, b: int|
                        0 <= a < self.users@.len() && 0 <= b < self.users@.len() && a != b implies #[trigger] self.users@[a].id
                        != #[trigger] self.users@[b].id by {
                        assert(self.users@[a].id == before[a].id && self.users@[b].id == before[b].id);
                    }
                    assert forall|a: int, b: int|
                        0 <= a < self.users@.len() && 0 <= b < self.users@.len() && a != b && (
                        #[trigger] self.users@[a]).store_id == (#[trigger] self.users@[b]).store_id implies self.users@[a].email@
                        != self.users@[b].email@ by {
                        assert(self.users@[a].email == before[a].email && self.users@[b].email == before[b].email);
                        assert(self.users@[a].store_id == before[a].store_id && self.users@[b].store_id
                            == before[b].store_id);
                    }
                }
                Ok(())
            },
        }
    }
}

} // verus!
