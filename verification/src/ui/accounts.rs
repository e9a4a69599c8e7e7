//! The web UI's handling of account requests: creation, deletion, permission
//! and password changes.
use vstd::prelude::*;
use crate::crypto::{argon2_accepts, check_password, hash_password, password_fits, password_hash_parses, password_verifies, phc_parses};
use crate::ui::requests::account_accepts;
use crate::keyed::{has_key, has_name, index_of_name, key_index, key_set, keys, lemma_key_index_none, lemma_unique_key_set_len, lemma_update_same_key, remove_key, unique_keys, upsert_key, Keyed};
use crate::models::{Account, AccountView, Permission};
use crate::text::{blank, is_blank, owned};
use crate::ui::context::{account_by_id, account_index, limit_error, permission_of_code, Context, OpRep};

verus! {

/// What a request to create an account comes to before it is stored.
pub enum AccountCreation {
    /// Refused, with the reason to show.
    Rejected(String),
    /// Accepted, but the password could not be hashed.
    Failed(String),
    /// Accepted: the permission and the hash of the password to store.
    Ready(Permission, String),
}

/// A refusal or final answer: whether it counts as success, and the message.
pub open spec fn rep_is(r: OpRep, ok: bool, m: Seq<char>) -> bool {
    r.ok == ok && r.message@ == m
}

fn rep(ok: bool, m: &str) -> (r: OpRep)
    ensures
        rep_is(r, ok, m@),
{
    OpRep { ok, message: owned(m) }
}

impl Context {
    /// Whether an account may be created: `Ok(permission)` or the refusal.
    pub open spec fn create_account_decision(&self, requester_id: i32, mail_addr: Seq<char>, password: Seq<char>, perm_code: i32) -> Result<Permission, Seq<char>> {
        match account_by_id(self.accounts@, requester_id) {
            None => Err("Account not found"@),
            Some(q) => if q.perm != Permission::Admin {
                Err("Permission denied"@)
            } else if blank(mail_addr) || password.len() == 0 {
                Err("Mail address and password are required"@)
            } else if has_key(self.accounts@, mail_addr) {
                Err("Account already exists"@)
            } else {
                match permission_of_code(perm_code) {
                    Some(p) => Ok(p),
                    None => Err("Unknown permission"@),
                }
            },
        }
    }

    /// Checks an account creation request.
    pub fn create_account_check(&self, requester_id: i32, mail_addr: &str, password: &str, perm_code: i32) -> (r: Result<Permission, String>)
        ensures
            match self.create_account_decision(requester_id, mail_addr@, password@, perm_code) {
                Ok(p) => r == Ok::<Permission, String>(p),
                Err(m) => r matches Err(e) && e@ == m,
            },
    {
        let q = match self.find_account_by_id(requester_id) {
            Some(a) => a,
            None => return Err(owned("Account not found")),
        };
        if q.perm != Permission::Admin {
            return Err(owned("Permission denied"));
        }
        if is_blank(mail_addr) || password.is_empty() {
            return Err(owned("Mail address and password are required"));
        }
        if has_name(&self.accounts, mail_addr) {
            return Err(owned("Account already exists"));
        }
        self.parse_permission(perm_code)
    }

    /// Checks an account creation request and hashes its password: the
    /// permission and the hash to store, or why the request is refused, or
    /// why the password could not be hashed.
    pub fn create_account_prepare(&self, requester_id: i32, mail_addr: &str, password: &str, perm_code: i32) -> (r: AccountCreation)
        ensures
            match self.create_account_decision(requester_id, mail_addr@, password@, perm_code) {
                Err(m) => r matches AccountCreation::Rejected(e) && e@ == m,
                Ok(p) => if password_fits(password) {
                    r matches AccountCreation::Ready(q, h) && q == p && phc_parses(h@) && argon2_accepts(password@, h@)
                } else {
                    r matches AccountCreation::Failed(e) && e@ == "Password hash error: invalid password"@
                },
            },
    {
        let perm = match self.create_account_check(requester_id, mail_addr, password, perm_code) {
            Ok(p) => p,
            Err(e) => return AccountCreation::Rejected(e),
        };
        match hash_password(password) {
            Ok(h) => AccountCreation::Ready(perm, h),
            Err(e) => AccountCreation::Failed(e),
        }
    }

    /// Records a created account, with no VNIs and no VTEPs.
    pub fn create_account_apply(&mut self, id: i32, mail_addr: &str, password: String, perm: Permission)
        requires
            old(self).wf(),
        ensures
            final(self).wf(),
            account_views_match(final(self).accounts@, old(self).accounts@, AccountView {
                id,
                mail_addr: mail_addr@,
                password: password@,
                perm,
                vnis: Set::empty(),
                vteps: Set::empty(),
            }),
            final(self).rrs == old(self).rrs,
            final(self).vteps == old(self).vteps,
            final(self).vnis == old(self).vnis,
            final(self).vtep_states == old(self).vtep_states,
    {
        let a = Account { id, mail_addr: owned(mail_addr), password, perm, vnis: Vec::new(), vteps: Vec::new() };
        proof {
            assert(keys(a.vnis@) =~= Seq::<i32>::empty());
            assert(keys(a.vteps@) =~= Seq::<Seq<char>>::empty());
            assert(key_set(a.vnis@) =~= Set::<i32>::empty());
            assert(key_set(a.vteps@) =~= Set::<Seq<char>>::empty());
            lemma_key_index_none(old(self).accounts@, a.mail_addr@);
        }
        let ghost av = a;
        upsert_key(&mut self.accounts, a);
        proof {
            assert forall|i: int| 0 <= i < self.accounts@.len() implies (#[trigger] self.accounts@[i]).wf() by {
                if i < old(self).accounts@.len() && self.accounts@[i] != av {
                    assert(self.accounts@[i] == old(self).accounts@[i]);
                }
            }
        }
    }

    /// Whether an account may be deleted: `Ok(the account)` or the refusal.
    pub open spec fn delete_account_decision(&self, requester_id: i32, account_id: i32) -> Result<Account, Seq<char>> {
        match account_by_id(self.accounts@, requester_id) {
            None => Err("Account not found"@),
            Some(q) => if q.perm != Permission::Admin {
                Err("Permission denied"@)
            } else {
                match account_by_id(self.accounts@, account_id) {
                    None => Err("Account not found"@),
                    Some(a) => if a@.vnis.len() != 0 || a@.vteps.len() != 0 {
                        Err("Delete VTEPs and VNIs before deleting the account"@)
                    } else {
                        Ok(a)
                    },
                }
            },
        }
    }

    /// Checks an account deletion request; returns the account to delete.
    pub fn delete_account_check(&self, requester_id: i32, account_id: i32) -> (r: Result<Account, String>)
        requires
            self.wf(),
        ensures
            match self.delete_account_decision(requester_id, account_id) {
                Ok(a) => r matches Ok(b) && b@ == a@,
                Err(m) => r matches Err(e) && e@ == m,
            },
    {
        let q = match self.find_account_by_id(requester_id) {
            Some(a) => a,
            None => return Err(owned("Account not found")),
        };
        if q.perm != Permission::Admin {
            return Err(owned("Permission denied"));
        }
        let i = match self.find_account_index(account_id) {
            Some(i) => i,
            None => return Err(owned("Account not found")),
        };
        let a = &self.accounts[i];
        proof {
            assert(self.accounts@[i as int].wf());
            lemma_unique_key_set_len(a.vnis@);
            lemma_unique_key_set_len(a.vteps@);
        }
        if a.vnis.len() != 0 || a.vteps.len() != 0 {
            return Err(owned("Delete VTEPs and VNIs before deleting the account"));
        }
        Ok(a.copy())
    }

    /// Drops the account with this mail address.
    pub fn remove_account(&mut self, mail_addr: &str)
        requires
            old(self).wf(),
        ensures
            final(self).wf(),
            final(self).accounts@ == match key_index(old(self).accounts@, mail_addr@) {
                Some(i) => old(self).accounts@.remove(i),
                None => old(self).accounts@,
            },
            final(self).rrs == old(self).rrs,
            final(self).vteps == old(self).vteps,
            final(self).vnis == old(self).vnis,
            final(self).vtep_states == old(self).vtep_states,
    {
        proof {
            lemma_key_index_none(old(self).accounts@, mail_addr@);
        }
        if let Some(i) = index_of_name(&self.accounts, mail_addr) {
            self.accounts.remove(i);
            proof {
                assert forall|a: int, b: int| 0 <= a < self.accounts@.len() && 0 <= b < self.accounts@.len() && a != b
                    implies self.accounts@[a].key() != self.accounts@[b].key() by {
                    let aa = if a < i { a } else { a + 1 };
                    let bb = if b < i { b } else { b + 1 };
                    assert(self.accounts@[a] == old(self).accounts@[aa]);
                    assert(self.accounts@[b] == old(self).accounts@[bb]);
                }
                assert forall|j: int| 0 <= j < self.accounts@.len() implies (#[trigger] self.accounts@[j]).wf() by {
                    let jj = if j < i { j } else { j + 1 };
                    assert(self.accounts@[j] == old(self).accounts@[jj]);
                }
            }
        }
    }

    /// Whether a permission change may be made: `Ok(new permission)`, or the answer.
    pub open spec fn update_perm_decision(&self, requester_id: i32, account_id: i32, perm_code: i32) -> Result<Permission, (bool, Seq<char>)> {
        match account_by_id(self.accounts@, requester_id) {
            None => Err((false, "Account not found"@)),
            Some(q) => if q.perm != Permission::Admin {
                Err((false, "Permission denied"@))
            } else {
                match account_by_id(self.accounts@, account_id) {
                    None => Err((false, "Account not found"@)),
                    Some(a) => match permission_of_code(perm_code) {
                        None => Err((false, "Unknown permission"@)),
                        Some(p) => if a.perm == Permission::Admin || p == Permission::Admin {
                            Err((false, "Admin permission cannot be changed"@))
                        } else if a.perm == p {
                            Err((true, "No changes"@))
                        } else {
                            match limit_error(p, a@.vnis.len() as int, a@.vteps.len() as int) {
                                Some(m) => Err((false, m)),
                                None => Ok(p),
                            }
                        },
                    },
                }
            },
        }
    }

    /// Checks a permission change; returns the account as it is to become.
    pub fn update_account_perm_check(&self, requester_id: i32, account_id: i32, perm_code: i32) -> (r: Result<Account, OpRep>)
        requires
            self.wf(),
        ensures
            match self.update_perm_decision(requester_id, account_id, perm_code) {
                Ok(p) => r matches Ok(b) && b@ == (AccountView {
                    perm: p,
                    ..account_by_id(self.accounts@, account_id)->0@
                }) && b.wf(),
                Err((ok, m)) => r matches Err(rp) && rep_is(rp, ok, m),
            },
    {
        let q = match self.find_account_by_id(requester_id) {
            Some(a) => a,
            None => return Err(rep(false, "Account not found")),
        };
        if q.perm != Permission::Admin {
            return Err(rep(false, "Permission denied"));
        }
        let i = match self.find_account_index(account_id) {
            Some(i) => i,
            None => return Err(rep(false, "Account not found")),
        };
        let new_perm = match self.parse_permission(perm_code) {
            Ok(p) => p,
            Err(e) => return Err(OpRep { ok: false, message: e }),
        };
        let a = &self.accounts[i];
        if a.perm == Permission::Admin || new_perm == Permission::Admin {
            return Err(rep(false, "Admin permission cannot be changed"));
        }
        if a.perm == new_perm {
            return Err(rep(true, "No changes"));
        }
        let mut updated = a.copy();
        updated.perm = new_perm;
        proof {
            assert(self.accounts@[i as int].wf());
            lemma_unique_key_set_len(updated.vnis@);
            lemma_unique_key_set_len(updated.vteps@);
        }
        if let Err(e) = self.check_resource_limit(&updated, updated.vnis.len(), updated.vteps.len()) {
            return Err(OpRep { ok: false, message: e });
        }
        Ok(updated)
    }

    /// Sets the permission of the (first) account with this id.
    pub fn set_account_perm(&mut self, account_id: i32, perm: Permission)
        requires
            old(self).wf(),
        ensures
            final(self).wf(),
            match account_index(old(self).accounts@, account_id) {
                Some(i) => final(self).accounts@ == old(self).accounts@.update(i, final(self).accounts@[i])
                    && final(self).accounts@[i]@ == (AccountView { perm, ..old(self).accounts@[i]@ }),
                None => final(self).accounts@ == old(self).accounts@,
            },
            final(self).rrs == old(self).rrs,
            final(self).vteps == old(self).vteps,
            final(self).vnis == old(self).vnis,
            final(self).vtep_states == old(self).vtep_states,
    {
        if let Some(i) = self.find_account_index(account_id) {
            let mut a = self.accounts.remove(i);
            a.perm = perm;
            self.accounts.insert(i, a);
            proof {
                assert(self.accounts@ =~= old(self).accounts@.update(i as int, a));
                lemma_update_same_key(old(self).accounts@, i as int, a);
                assert forall|j: int| 0 <= j < self.accounts@.len() implies (#[trigger] self.accounts@[j]).wf() by {
                    if j != i {
                        assert(self.accounts@[j] == old(self).accounts@[j]);
                    }
                }
            }
        }
    }

    /// Whether a password change may be made: `Ok(())` or the refusal.
    pub open spec fn change_password_decision(&self, account_id: i32, current_password: Seq<char>, new_password: Seq<char>) -> Result<(), Seq<char>> {
        match account_by_id(self.accounts@, account_id) {
            None => Err("Account not found"@),
            Some(a) => if new_password.len() == 0 {
                Err("New password is required"@)
            } else if !phc_parses(a.password@) {
                Err("Stored password hash is invalid"@)
            } else if !argon2_accepts(current_password, a.password@) {
                Err("Current password is incorrect"@)
            } else {
                Ok(())
            },
        }
    }

    /// Checks a password change request.
    pub fn change_password_check(&self, account_id: i32, current_password: &str, new_password: &str) -> (r: Result<(), String>)
        ensures
            match self.change_password_decision(account_id, current_password@, new_password@) {
                Ok(()) => r is Ok,
                Err(m) => r matches Err(e) && e@ == m,
            },
    {
        let a = match self.find_account_by_id(account_id) {
            Some(a) => a,
            None => return Err(owned("Account not found")),
        };
        if new_password.is_empty() {
            return Err(owned("New password is required"));
        }
        if !password_hash_parses(a.password.as_str()) {
            return Err(owned("Stored password hash is invalid"));
        }
        if !password_verifies(current_password, a.password.as_str()) {
            return Err(owned("Current password is incorrect"));
        }
        Ok(())
    }

    /// Stores a new password hash for the (first) account with this id;
    /// returns the account as changed, to be stored.
    pub fn set_account_password(&mut self, account_id: i32, password: String) -> (r: Option<Account>)
        requires
            old(self).wf(),
        ensures
            final(self).wf(),
            match account_index(old(self).accounts@, account_id) {
                Some(i) => {
                    &&& final(self).accounts@ == old(self).accounts@.update(i, final(self).accounts@[i])
                    &&& final(self).accounts@[i]@ == (AccountView { password: password@, ..old(self).accounts@[i]@ })
                    &&& r matches Some(a) && a@ == final(self).accounts@[i]@
                },
                None => final(self).accounts@ == old(self).accounts@ && r is None,
            },
            final(self).rrs == old(self).rrs,
            final(self).vteps == old(self).vteps,
            final(self).vnis == old(self).vnis,
            final(self).vtep_states == old(self).vtep_states,
    {
        match self.find_account_index(account_id) {
            Some(i) => {
                let mut a = self.accounts.remove(i);
                a.password = password;
                self.accounts.insert(i, a);
                proof {
                    assert(self.accounts@ =~= old(self).accounts@.update(i as int, a));
                    lemma_update_same_key(old(self).accounts@, i as int, a);
                    assert forall|j: int| 0 <= j < self.accounts@.len() implies (#[trigger] self.accounts@[j]).wf() by {
                        if j != i {
                            assert(self.accounts@[j] == old(self).accounts@[j]);
                        }
                    }
                }
                Some(self.accounts[i].copy())
            },
            None => None,
        }
    }
}

/// What a password change came to.
pub enum PasswordChange {
    /// Refused, with the message; nothing changed.
    Rejected(String),
    /// Hashing the new password failed, with the message; nothing changed.
    Failed(String),
    /// The new hash is stored; the account as changed, to be stored.
    Changed(Option<Account>),
}

impl Context {
    /// Changes an account's password: the current one must be right and the
    /// new one not empty; the new one is hashed with a fresh salt and stored,
    /// and the account signs in with it from then on.
    pub fn change_password(&mut self, account_id: i32, current_password: &str, new_password: &str) -> (r: PasswordChange)
        requires
            old(self).wf(),
        ensures
            final(self).wf(),
            match old(self).change_password_decision(account_id, current_password@, new_password@) {
                Err(m) => r matches PasswordChange::Rejected(e) && e@ == m && *final(self) == *old(self),
                Ok(()) => match r {
                    PasswordChange::Failed(_) => *final(self) == *old(self),
                    PasswordChange::Changed(acc) => {
                        let i = account_index(old(self).accounts@, account_id)->0;
                        &&& account_index(old(self).accounts@, account_id) is Some
                        &&& final(self).accounts@ == old(self).accounts@.update(i, final(self).accounts@[i])
                        &&& final(self).accounts@[i]@ == (AccountView { password: final(self).accounts@[i].password@, ..old(self).accounts@[i]@ })
                        &&& account_accepts(final(self).accounts@[i], new_password@)
                        &&& acc matches Some(a) && a@ == final(self).accounts@[i]@
                        &&& final(self).rrs == old(self).rrs
                        &&& final(self).vteps == old(self).vteps
                        &&& final(self).vnis == old(self).vnis
                        &&& final(self).vtep_states == old(self).vtep_states
                    },
                    PasswordChange::Rejected(_) => false,
                },
            },
    {
        match self.change_password_check(account_id, current_password, new_password) {
            Err(e) => return PasswordChange::Rejected(e),
            Ok(()) => {},
        }
        let hash = match hash_password(new_password) {
            Ok(h) => h,
            Err(e) => return PasswordChange::Failed(e),
        };
        let ghost h = hash@;
        let acc = self.set_account_password(account_id, hash);
        proof {
            let i = account_index(old(self).accounts@, account_id)->0;
            assert(self.accounts@[i].password@ == h);
        }
        PasswordChange::Changed(acc)
    }
}

/// The accounts after adding or replacing `a` (by mail address).
pub open spec fn account_views_match(after: Seq<Account>, before: Seq<Account>, a: AccountView) -> bool {
    match key_index(before, a.mail_addr) {
        Some(i) => after.len() == before.len() && after[i]@ == a && forall|j: int| 0 <= j < before.len() && j != i ==> after[j] == before[j],
        None => after.len() == before.len() + 1 && after[before.len() as int]@ == a && forall|j: int| 0 <= j < before.len() ==> after[j] == before[j],
    }
}


/// An account created with a hash of a password signs in with that password:
/// after `create_account_apply` with what `hash_password` made of `password`,
/// `auth_account` finds the account by its mail address and accepts it.
pub proof fn lemma_created_account_signs_in(before: Seq<Account>, after: Seq<Account>, a: AccountView, password: Seq<char>)
    requires
        unique_keys(after),
        phc_parses(a.password),
        argon2_accepts(password, a.password),
        account_views_match(after, before, a),
    ensures
        key_index(after, a.mail_addr) matches Some(i) && account_accepts(after[i], password) && after[i].id == a.id,
{
    let i: int = match key_index(before, a.mail_addr) {
        Some(i) => i,
        None => before.len() as int,
    };
    lemma_key_index_none(before, a.mail_addr);
    assert(after[i]@ == a);
    assert(after[i].key() == a.mail_addr);
    crate::keyed::lemma_unique_key_index(after, a.mail_addr, i);
}

} // verus!
