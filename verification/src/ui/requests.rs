//! The web UI's handling of requests that read or create records.
use vstd::prelude::*;
use crate::crypto::{argon2_accepts, check_password, generate_bgp_pass, hash_password, is_alnum_char, password_fits, phc_parses};
use crate::keyed::{
    has_key, index_of_name, key_index, key_set, lemma_key_index_none, lemma_unique_key_set_len,
    sort_by_int, sort_by_text, sorted_by_int, sorted_by_text, unique_keys, upsert_key, int_views,
    text_views, Keyed,
};
use crate::models::{
    account_update_vnis, account_update_vteps, account_views, copy_accounts_where, copy_vnis_where,
    copy_vteps_where, vni_views, vnis_where, vtep_views, vteps_where, Account, AccountView, Permission, Vni, Vtep,
};
use crate::text::{owned, padded4, push_padded4};
use crate::ui::context::{account_by_id, account_index, copy_rr_states, limit_error, rr_state_views, Context, RrVtepStates};
use crate::models::copy_vec;

verus! {

/// The VTEP name given to a reserved id: `gv` and the id zero-padded to four digits.
pub open spec fn vtep_name_spec(id: i32) -> Seq<char> {
    "gv"@ + padded4(id as int)
}

/// The VTEP name for a reserved id.
pub fn vtep_name_for(id: i32) -> (r: String)
    ensures
        r@ == vtep_name_spec(id),
{
    let mut s = owned("gv");
    push_padded4(&mut s, id);
    s
}

/// What the VTEP page shows a requester.
pub struct ListVtepsRep {
    pub requester: Option<Account>,
    pub accounts: Vec<Account>,
    pub vteps: Vec<Vtep>,
    pub assignable_vnis: Vec<Vni>,
    pub vtep_states: Vec<RrVtepStates>,
}

/// What the VNI page shows a requester.
pub struct ListVnisRep {
    pub requester: Option<Account>,
    pub accounts: Vec<Account>,
    pub vnis: Vec<Vni>,
    pub assignable_vteps: Vec<Vtep>,
}

/// The answer to a request for an account by id.
pub struct GetAccountByIdRep {
    pub account: Option<Account>,
}

/// The answer to a sign-in: the account's id, or why not.
pub struct AuthAccountRep {
    pub account_id: Result<i32, String>,
}

/// An account signs in with this password: its stored hash parses and
/// accepts it.
pub open spec fn account_accepts(a: Account, password: Seq<char>) -> bool {
    phc_parses(a.password@) && argon2_accepts(password, a.password@)
}

/// What the account page shows a requester.
pub struct ListAccountsRep {
    pub requester: Option<Account>,
    pub accounts: Vec<Account>,
}

/// The owner a new VTEP or VNI gets: an administrator may name one, others own it themselves.
pub open spec fn owner_for(requester: Account, owner_account_id: Option<i32>) -> i32 {
    if requester.perm == Permission::Admin {
        match owner_account_id {
            Some(o) => o,
            None => requester.id,
        }
    } else {
        requester.id
    }
}

/// An account view with one more VTEP.
pub open spec fn with_vtep(a: AccountView, name: Seq<char>) -> AccountView {
    AccountView { vteps: a.vteps.insert(name), ..a }
}

/// An account view with one more VNI.
pub open spec fn with_vni(a: AccountView, vni: i32) -> AccountView {
    AccountView { vnis: a.vnis.insert(vni), ..a }
}

impl Context {
    /// Whether a VTEP may be created: `Ok(owner id)`, or the message refusing it.
    pub open spec fn create_vtep_decision(&self, requester_id: i32, owner_account_id: Option<i32>, password: Seq<char>) -> Result<i32, Seq<char>> {
        match account_by_id(self.accounts@, requester_id) {
            None => Err("Account not found"@),
            Some(requester) => {
                let owner_id = owner_for(requester, owner_account_id);
                match account_by_id(self.accounts@, owner_id) {
                    None => Err("Owner account not found"@),
                    Some(owner) => if password.len() == 0 {
                        Err("VTEP password is required"@)
                    } else {
                        match limit_error(owner.perm, owner@.vnis.len() as int, owner@.vteps.len() + 1int) {
                            Some(m) => Err(m),
                            None => Ok(owner_id),
                        }
                    },
                }
            },
        }
    }

    /// Whether a VNI may be created: `Ok(owner id)`, or the message refusing it.
    pub open spec fn create_vni_decision(&self, requester_id: i32, owner_account_id: Option<i32>) -> Result<i32, Seq<char>> {
        match account_by_id(self.accounts@, requester_id) {
            None => Err("Account not found"@),
            Some(requester) => {
                let owner_id = owner_for(requester, owner_account_id);
                match account_by_id(self.accounts@, owner_id) {
                    None => Err("Owner account not found"@),
                    Some(owner) => match limit_error(owner.perm, owner@.vnis.len() + 1int, owner@.vteps.len() as int) {
                        Some(m) => Err(m),
                        None => Ok(owner_id),
                    },
                }
            },
        }
    }

    /// A copy of the account with this id.
    pub fn get_account_by_id(&self, account_id: i32) -> (r: GetAccountByIdRep)
        ensures
            match account_by_id(self.accounts@, account_id) {
                Some(a) => r.account matches Some(b) && b@ == a@,
                None => r.account is None,
            },
    {
        match self.find_account_by_id(account_id) {
            Some(a) => GetAccountByIdRep { account: Some(a.copy()) },
            None => GetAccountByIdRep { account: None },
        }
    }

    /// The account signed in to a session: none without a session, else a
    /// copy of the account with the session's account id, if it still exists.
    pub fn current_account(&self, session_account_id: Option<i32>) -> (r: Option<Account>)
        ensures
            match session_account_id {
                None => r is None,
                Some(id) => match account_by_id(self.accounts@, id) {
                    Some(a) => r matches Some(b) && b@ == a@,
                    None => r is None,
                },
            },
    {
        match session_account_id {
            None => None,
            Some(id) => self.get_account_by_id(id).account,
        }
    }

    /// Signs in: the id of the account with this mail address when the password matches its hash.
    pub fn auth_account(&self, mail_addr: &str, password: &str) -> (r: AuthAccountRep)
        ensures
            match key_index(self.accounts@, mail_addr@) {
                Some(i) => if account_accepts(self.accounts@[i], password@) {
                    r.account_id == Ok::<i32, String>(self.accounts@[i].id)
                } else {
                    r.account_id matches Err(e) && e@ == "Auth failed"@
                },
                None => r.account_id matches Err(e) && e@ == "Auth failed"@,
            },
    {
        match index_of_name(&self.accounts, mail_addr) {
            Some(i) => {
                if check_password(password, self.accounts[i].password.as_str()) {
                    AuthAccountRep { account_id: Ok(self.accounts[i].id) }
                } else {
                    AuthAccountRep { account_id: Err(owned("Auth failed")) }
                }
            },
            None => AuthAccountRep { account_id: Err(owned("Auth failed")) },
        }
    }

    /// Checks a VTEP creation request.
    pub fn create_vtep_check(&self, requester_id: i32, owner_account_id: Option<i32>, password: &str) -> (r: Result<i32, String>)
        requires
            self.wf(),
        ensures
            match self.create_vtep_decision(requester_id, owner_account_id, password@) {
                Ok(o) => r == Ok::<i32, String>(o),
                Err(m) => r matches Err(e) && e@ == m,
            },
    {
        let requester = match self.find_account_by_id(requester_id) {
            Some(a) => a,
            None => return Err(owned("Account not found")),
        };
        let owner_id = if requester.perm == Permission::Admin {
            match owner_account_id {
                Some(o) => o,
                None => requester.id,
            }
        } else {
            requester.id
        };
        let oi = match self.find_account_index(owner_id) {
            Some(i) => i,
            None => return Err(owned("Owner account not found")),
        };
        let owner = &self.accounts[oi];
        if password.is_empty() {
            return Err(owned("VTEP password is required"));
        }
        proof {
            assert(self.accounts@[oi as int].wf());
            lemma_unique_key_set_len(owner.vnis@);
            lemma_unique_key_set_len(owner.vteps@);
        }
        // saturating: any count past `usize::MAX` exceeds every limit just as well
        match self.check_resource_limit(owner, owner.vnis.len(), owner.vteps.len().saturating_add(1)) {
            Err(e) => Err(e),
            Ok(()) => Ok(owner_id),
        }
    }
}

} // verus!

verus! {

/// The secrets of a VTEP about to be created: its name, the hash of its
/// password, and its BGP password.
pub struct VtepSecrets {
    pub name: String,
    pub password: String,
    pub bgp_pass: String,
}

/// Makes the secrets of a new VTEP from its reserved id and its password: the
/// name `gvNNNN` of the id, a hash of the password, and nine random letters
/// and digits as BGP password; or why the password could not be hashed.
pub fn create_vtep_secrets(reserved_id: i32, password: &str) -> (r: Result<VtepSecrets, String>)
    ensures
        match r {
            Ok(s) => {
                &&& password_fits(password)
                &&& s.name@ == vtep_name_spec(reserved_id)
                &&& phc_parses(s.password@) && argon2_accepts(password@, s.password@)
                &&& s.bgp_pass@.len() == 9
                &&& forall|i: int| 0 <= i < 9 ==> is_alnum_char(#[trigger] s.bgp_pass@[i])
            },
            Err(e) => !password_fits(password) && e@ == "Password hash error: invalid password"@,
        },
{
    let name = vtep_name_for(reserved_id);
    let bgp_pass = generate_bgp_pass();
    match hash_password(password) {
        Ok(h) => Ok(VtepSecrets { name, password: h, bgp_pass }),
        Err(e) => Err(e),
    }
}

/// The record of a VTEP just created: its row id, its secrets, description
/// and owner; no VNIs, no address, no update yet.
pub fn new_vtep_record(id: i32, secrets: VtepSecrets, description: String, account_id: i32) -> (r: Vtep)
    ensures
        r.id == id,
        r.name@ == secrets.name@,
        r.description@ == description@,
        r.password@ == secrets.password@,
        r.bgp_pass@ == secrets.bgp_pass@,
        r.account_id == account_id,
        r.vnis@.len() == 0,
        r.ipv6_addr is None,
        r.last_update is None,
        r.wf(),
{
    Vtep {
        id,
        name: secrets.name,
        description,
        password: secrets.password,
        bgp_pass: secrets.bgp_pass,
        account_id,
        vnis: Vec::new(),
        ipv6_addr: None,
        last_update: None,
    }
}

/// The record of a VNI just created: its row id, number, description and
/// owner; no VTEPs yet.
pub fn new_vni_record(id: i32, vni: i32, description: String, account_id: i32) -> (r: Vni)
    ensures
        r.id == id,
        r.vni == vni,
        r.description@ == description@,
        r.account_id == account_id,
        r.vteps@.len() == 0,
        r.wf(),
{
    Vni { id, vni, description, account_id, vteps: Vec::new() }
}

impl Context {
    /// Checks a VNI creation request.
    pub fn create_vni_check(&self, requester_id: i32, owner_account_id: Option<i32>) -> (r: Result<i32, String>)
        requires
            self.wf(),
        ensures
            match self.create_vni_decision(requester_id, owner_account_id) {
                Ok(o) => r == Ok::<i32, String>(o),
                Err(m) => r matches Err(e) && e@ == m,
            },
    {
        let requester = match self.find_account_by_id(requester_id) {
            Some(a) => a,
            None => return Err(owned("Account not found")),
        };
        let owner_id = if requester.perm == Permission::Admin {
            match owner_account_id {
                Some(o) => o,
                None => requester.id,
            }
        } else {
            requester.id
        };
        let oi = match self.find_account_index(owner_id) {
            Some(i) => i,
            None => return Err(owned("Owner account not found")),
        };
        let owner = &self.accounts[oi];
        proof {
            assert(self.accounts@[oi as int].wf());
            lemma_unique_key_set_len(owner.vnis@);
            lemma_unique_key_set_len(owner.vteps@);
        }
        match self.check_resource_limit(owner, owner.vnis.len().saturating_add(1), owner.vteps.len()) {
            Err(e) => Err(e),
            Ok(()) => Ok(owner_id),
        }
    }

    /// Records a created VTEP and adds it to its owner's VTEPs; returns the
    /// owner as changed, to be stored.
    pub fn create_vtep_apply(&mut self, vtep: Vtep) -> (owner: Option<Account>)
        requires
            old(self).wf(),
            vtep.wf(),
        ensures
            final(self).wf(),
            final(self).vteps@ == match key_index(old(self).vteps@, vtep.name@) {
                Some(i) => old(self).vteps@.update(i, vtep),
                None => old(self).vteps@.push(vtep),
            },
            match account_index(old(self).accounts@, vtep.account_id) {
                Some(i) => {
                    &&& final(self).accounts@ == old(self).accounts@.update(i, final(self).accounts@[i])
                    &&& final(self).accounts@[i]@ == with_vtep(old(self).accounts@[i]@, vtep.name@)
                    &&& owner matches Some(a) && a@ == final(self).accounts@[i]@
                },
                None => final(self).accounts@ == old(self).accounts@ && owner is None,
            },
            final(self).rrs == old(self).rrs,
            final(self).vnis == old(self).vnis,
            final(self).vtep_states == old(self).vtep_states,
    {
        let name = vtep.name.clone();
        let owner_id = vtep.account_id;
        let ghost v = vtep;
        upsert_key(&mut self.vteps, vtep);
        proof {
            assert forall|i: int| 0 <= i < self.vteps@.len() implies (#[trigger] self.vteps@[i]).wf() by {
                lemma_key_index_none(old(self).vteps@, v.name@);
                if i < old(self).vteps@.len() && self.vteps@[i] != v {
                    assert(self.vteps@[i] == old(self).vteps@[i]);
                }
            }
        }
        match self.find_account_index(owner_id) {
            Some(i) => {
                proof {
                    assert(self.accounts@[i as int].wf());
                }
                account_update_vteps(&mut self.accounts, i, name.as_str(), true);
                proof {
                    assert forall|j: int| 0 <= j < self.accounts@.len() implies (#[trigger] self.accounts@[j]).wf() by {
                        if j != i {
                            assert(self.accounts@[j] == old(self).accounts@[j]);
                        }
                    }
                }
                Some(self.accounts[i].copy())
            },
            None => None,
        }
    }

    /// Records a created VNI and adds it to its owner's VNIs; returns the owner
    /// as changed, to be stored.
    pub fn create_vni_apply(&mut self, vni: Vni) -> (owner: Option<Account>)
        requires
            old(self).wf(),
            vni.wf(),
        ensures
            final(self).wf(),
            final(self).vnis@ == match key_index(old(self).vnis@, vni.vni) {
                Some(i) => old(self).vnis@.update(i, vni),
                None => old(self).vnis@.push(vni),
            },
            match account_index(old(self).accounts@, vni.account_id) {
                Some(i) => {
                    &&& final(self).accounts@ == old(self).accounts@.update(i, final(self).accounts@[i])
                    &&& final(self).accounts@[i]@ == with_vni(old(self).accounts@[i]@, vni.vni)
                    &&& owner matches Some(a) && a@ == final(self).accounts@[i]@
                },
                None => final(self).accounts@ == old(self).accounts@ && owner is None,
            },
            final(self).rrs == old(self).rrs,
            final(self).vteps == old(self).vteps,
            final(self).vtep_states == old(self).vtep_states,
    {
        let number = vni.vni;
        let owner_id = vni.account_id;
        let ghost v = vni;
        upsert_key(&mut self.vnis, vni);
        proof {
            assert forall|i: int| 0 <= i < self.vnis@.len() implies (#[trigger] self.vnis@[i]).wf() by {
                lemma_key_index_none(old(self).vnis@, v.vni);
                if i < old(self).vnis@.len() && self.vnis@[i] != v {
                    assert(self.vnis@[i] == old(self).vnis@[i]);
                }
            }
        }
        match self.find_account_index(owner_id) {
            Some(i) => {
                proof {
                    assert(self.accounts@[i as int].wf());
                }
                account_update_vnis(&mut self.accounts, i, number, true);
                proof {
                    assert forall|j: int| 0 <= j < self.accounts@.len() implies (#[trigger] self.accounts@[j]).wf() by {
                        if j != i {
                            assert(self.accounts@[j] == old(self).accounts@[j]);
                        }
                    }
                }
                Some(self.accounts[i].copy())
            },
            None => None,
        }
    }
}

} // verus!

verus! {

impl Context {
    /// The VTEP page: every account by mail address, the VTEPs and the VNIs the
    /// requester may see, by name and by number, and the VTEP states.
    pub fn list_vteps(&self, requester_id: i32) -> (r: ListVtepsRep)
        requires
            self.wf(),
        ensures
            rr_state_views(r.vtep_states@) == rr_state_views(self.vtep_states@),
            match account_by_id(self.accounts@, requester_id) {
                None => r.requester is None && r.accounts@.len() == 0 && r.vteps@.len() == 0 && r.assignable_vnis@.len() == 0,
                Some(q) => {
                    &&& r.requester matches Some(a) && a@ == q@
                    &&& sorted_by_text(r.accounts@)
                    &&& text_views(r.accounts@).to_multiset() == account_views(self.accounts@).to_multiset()
                    &&& sorted_by_text(r.vteps@)
                    &&& text_views(r.vteps@).to_multiset() == vteps_where(vtep_views(self.vteps@),
                        q.perm == Permission::Admin, q.id).to_multiset()
                    &&& sorted_by_int(r.assignable_vnis@)
                    &&& int_views(r.assignable_vnis@).to_multiset() == vnis_where(vni_views(self.vnis@),
                        q.perm == Permission::Admin, q.id).to_multiset()
                },
            },
    {
        let vtep_states = copy_rr_states(&self.vtep_states);
        let requester = match self.find_account_by_id(requester_id) {
            Some(a) => a.copy(),
            None => {
                return ListVtepsRep {
                    requester: None,
                    accounts: Vec::new(),
                    vteps: Vec::new(),
                    assignable_vnis: Vec::new(),
                    vtep_states,
                };
            },
        };
        let all = requester.perm == Permission::Admin;
        let accounts0 = copy_accounts_where(&self.accounts, true, 0);
        let vteps0 = copy_vteps_where(&self.vteps, all, requester.id);
        let vnis0 = copy_vnis_where(&self.vnis, all, requester.id);
        proof {
            assert(text_views(accounts0@) =~= account_views(accounts0@));
            assert(text_views(vteps0@) =~= vtep_views(vteps0@));
            assert(int_views(vnis0@) =~= vni_views(vnis0@));
        }
        let accounts = sort_by_text(accounts0);
        let vteps = sort_by_text(vteps0);
        let vnis = sort_by_int(vnis0);
        proof {
            crate::models::lemma_accounts_where_all(account_views(self.accounts@), 0);
        }
        ListVtepsRep { requester: Some(requester), accounts, vteps, assignable_vnis: vnis, vtep_states }
    }

    /// The VNI page: every account by mail address, the VNIs and the VTEPs the
    /// requester may see, by number and by name.
    pub fn list_vnis(&self, requester_id: i32) -> (r: ListVnisRep)
        requires
            self.wf(),
        ensures
            match account_by_id(self.accounts@, requester_id) {
                None => r.requester is None && r.accounts@.len() == 0 && r.vnis@.len() == 0 && r.assignable_vteps@.len() == 0,
                Some(q) => {
                    &&& r.requester matches Some(a) && a@ == q@
                    &&& sorted_by_text(r.accounts@)
                    &&& text_views(r.accounts@).to_multiset() == account_views(self.accounts@).to_multiset()
                    &&& sorted_by_int(r.vnis@)
                    &&& int_views(r.vnis@).to_multiset() == vnis_where(vni_views(self.vnis@),
                        q.perm == Permission::Admin, q.id).to_multiset()
                    &&& sorted_by_text(r.assignable_vteps@)
                    &&& text_views(r.assignable_vteps@).to_multiset() == vteps_where(vtep_views(self.vteps@),
                        q.perm == Permission::Admin, q.id).to_multiset()
                },
            },
    {
        let requester = match self.find_account_by_id(requester_id) {
            Some(a) => a.copy(),
            None => {
                return ListVnisRep { requester: None, accounts: Vec::new(), vnis: Vec::new(), assignable_vteps: Vec::new() };
            },
        };
        let all = requester.perm == Permission::Admin;
        let accounts0 = copy_accounts_where(&self.accounts, true, 0);
        let vnis0 = copy_vnis_where(&self.vnis, all, requester.id);
        let vteps0 = copy_vteps_where(&self.vteps, all, requester.id);
        proof {
            assert(text_views(accounts0@) =~= account_views(accounts0@));
            assert(text_views(vteps0@) =~= vtep_views(vteps0@));
            assert(int_views(vnis0@) =~= vni_views(vnis0@));
        }
        let accounts = sort_by_text(accounts0);
        let vnis = sort_by_int(vnis0);
        let vteps = sort_by_text(vteps0);
        proof {
            crate::models::lemma_accounts_where_all(account_views(self.accounts@), 0);
        }
        ListVnisRep { requester: Some(requester), accounts, vnis, assignable_vteps: vteps }
    }

    /// The account page: every account by id, for an administrator only.
    pub fn list_accounts(&self, requester_id: i32) -> (r: ListAccountsRep)
        requires
            self.wf(),
        ensures
            match account_by_id(self.accounts@, requester_id) {
                Some(q) => r.requester matches Some(a) && a@ == q@,
                None => r.requester is None,
            },
            match account_by_id(self.accounts@, requester_id) {
                Some(q) if q.perm == Permission::Admin => {
                    &&& sorted_by_int(r.accounts@)
                    &&& int_views(r.accounts@).to_multiset() == account_views(self.accounts@).to_multiset()
                },
                _ => r.accounts@.len() == 0,
            },
    {
        let requester = self.get_account_by_id(requester_id).account;
        let is_admin = match &requester {
            Some(a) => a.perm == Permission::Admin,
            None => false,
        };
        if !is_admin {
            return ListAccountsRep { requester, accounts: Vec::new() };
        }
        let accounts0 = copy_accounts_where(&self.accounts, true, 0);
        proof {
            assert(int_views(accounts0@) =~= account_views(accounts0@));
            crate::models::lemma_accounts_where_all(account_views(self.accounts@), 0);
        }
        let accounts = sort_by_int(accounts0);
        ListAccountsRep { requester, accounts }
    }
}

/// Filtering by a predicate that holds of everything keeps every element.
pub proof fn lemma_filter_all<A>(s: Seq<A>, p: spec_fn(A) -> bool)
    requires
        forall|a: A| #[trigger] p(a),
    ensures
        s.filter(p) == s,
    decreases s.len(),
{
    reveal(Seq::filter);
    if s.len() > 0 {
        lemma_filter_all(s.drop_last(), p);
        assert(s.drop_last().push(s.last()) =~= s);
    }
}

} // verus!
