//! What the web pages show and what their forms ask for.
pub mod accounts;
pub mod vteps;
pub mod vnis;
pub mod forms;

use vstd::prelude::*;
use crate::models::{Account, Permission};
use crate::text::owned;

verus! {

/// What a visitor may see and do.
#[derive(Clone, Copy, PartialEq, Eq, Structural)]
pub enum Authority {
    Anonymous,
    Admin,
    Free,
    Pro,
}

/// The authority an account's permission gives; a visitor without an account
/// is anonymous.
pub open spec fn authority_of(account: Option<&Account>) -> Authority {
    match account {
        Some(a) => match a.perm {
            Permission::Admin => Authority::Admin,
            Permission::Free => Authority::Free,
            Permission::Pro => Authority::Pro,
        },
        None => Authority::Anonymous,
    }
}

/// The authority of the signed-in account, if any.
pub fn authority_from_account(account: Option<&Account>) -> (r: Authority)
    ensures
        r == authority_of(account),
{
    match account {
        Some(a) => match a.perm {
            Permission::Admin => Authority::Admin,
            Permission::Free => Authority::Free,
            Permission::Pro => Authority::Pro,
        },
        None => Authority::Anonymous,
    }
}

/// The index of the first account with id `id`.
pub open spec fn first_account_with_id(s: Seq<Account>, id: i32) -> Option<int> {
    crate::ui::context::account_index(s, id)
}

/// The mail address of the owner `id`, or `-` when no account has that id.
pub open spec fn owner_mail(accounts: Seq<Account>, id: i32) -> Seq<char> {
    match first_account_with_id(accounts, id) {
        Some(i) => accounts[i].mail_addr@,
        None => "-"@,
    }
}

pub fn owner_mail_addr(accounts: &Vec<Account>, id: i32) -> (r: String)
    ensures
        r@ == owner_mail(accounts@, id),
{
    let mut i: usize = 0;
    while i < accounts.len()
        invariant
            i <= accounts@.len(),
            forall|j: int| 0 <= j < i ==> accounts@[j].id != id,
        decreases accounts@.len() - i,
    {
        if accounts[i].id == id {
            proof {
                crate::ui::context::lemma_first_id_unique(accounts@, id, i as int);
            }
            return accounts[i].mail_addr.clone();
        }
        i = i + 1;
    }
    proof {
        crate::ui::context::lemma_no_id(accounts@, id);
    }
    owned("-")
}

/// An account that may own a VTEP or VNI, as the owner choice lists it.
pub struct OwnerOption {
    pub id: i32,
    pub mail_addr: String,
}

/// The owner choices: every account, in order.
pub fn build_owners(accounts: &Vec<Account>) -> (r: Vec<OwnerOption>)
    ensures
        r@.len() == accounts@.len(),
        forall|i: int| 0 <= i < r@.len() ==> (#[trigger] r@[i]).id == accounts@[i].id && r@[i].mail_addr@ == accounts@[i].mail_addr@,
{
    let mut out: Vec<OwnerOption> = Vec::new();
    let mut i: usize = 0;
    while i < accounts.len()
        invariant
            i <= accounts@.len(),
            out@.len() == i,
            forall|k: int| 0 <= k < i ==> (#[trigger] out@[k]).id == accounts@[k].id && out@[k].mail_addr@ == accounts@[k].mail_addr@,
        decreases accounts@.len() - i,
    {
        out.push(OwnerOption { id: accounts[i].id, mail_addr: accounts[i].mail_addr.clone() });
        i = i + 1;
    }
    out
}

} // verus!
