//! The account page (administrators only).
use vstd::prelude::*;
use crate::models::{Account, Permission};
use crate::text::{owned, str_eq};
use crate::ui::pages::forms::{int_or, or_empty, text_or_empty};
use crate::ui::context::{code_of_permission, perm_label_spec, Context};
use crate::ui::pages::Authority;
use crate::ui::requests::ListAccountsRep;

verus! {

/// One line of the account table.
pub struct AccountRow {
    pub id: i32,
    pub mail_addr: String,
    pub perm_code: i32,
    pub perm_label: String,
    pub vni_count: usize,
    pub vtep_count: usize,
    pub can_change_perm: bool,
}

/// The line of an account: its id, mail address, permission code and name,
/// how many VNIs and VTEPs it owns, and whether its permission may change
/// (not for administrators).
pub open spec fn row_of(r: AccountRow, a: Account) -> bool {
    &&& r.id == a.id
    &&& r.mail_addr@ == a.mail_addr@
    &&& r.perm_code == code_of_permission(a.perm)
    &&& r.perm_label@ == perm_label_spec(a.perm)
    &&& r.vni_count == a.vnis@.len()
    &&& r.vtep_count == a.vteps@.len()
    &&& r.can_change_perm == (a.perm != Permission::Admin)
}

/// The lines of the account table, one per account in order.
pub fn build_rows(rep: &ListAccountsRep) -> (r: Vec<AccountRow>)
    ensures
        r@.len() == rep.accounts@.len(),
        forall|i: int| 0 <= i < r@.len() ==> row_of(#[trigger] r@[i], rep.accounts@[i]),
{
    let mut out: Vec<AccountRow> = Vec::new();
    let mut i: usize = 0;
    while i < rep.accounts.len()
        invariant
            i <= rep.accounts@.len(),
            out@.len() == i,
            forall|k: int| 0 <= k < i ==> row_of(#[trigger] out@[k], rep.accounts@[k]),
        decreases rep.accounts@.len() - i,
    {
        let a = &rep.accounts[i];
        let label = match a.perm {
            Permission::Admin => owned("Admin"),
            Permission::Free => owned("Free"),
            Permission::Pro => owned("Pro"),
        };
        out.push(AccountRow {
            id: a.id,
            mail_addr: a.mail_addr.clone(),
            perm_code: Context::permission_code(a.perm),
            perm_label: label,
            vni_count: a.vnis.len(),
            vtep_count: a.vteps.len(),
            can_change_perm: a.perm != Permission::Admin,
        });
        i = i + 1;
    }
    out
}

/// What a form on the account page asks for.
pub enum AccountsAction {
    Create { mail_addr: String, password: String, perm_code: i32 },
    Delete { account_id: i32 },
    Save { account_id: i32, perm_code: i32 },
    Unknown,
}

pub enum AccountsActionView {
    Create { mail_addr: Seq<char>, password: Seq<char>, perm_code: i32 },
    Delete { account_id: i32 },
    Save { account_id: i32, perm_code: i32 },
    Unknown,
}

impl View for AccountsAction {
    type V = AccountsActionView;

    open spec fn view(&self) -> AccountsActionView {
        match self {
            AccountsAction::Create { mail_addr, password, perm_code } => AccountsActionView::Create {
                mail_addr: mail_addr@,
                password: password@,
                perm_code: *perm_code,
            },
            AccountsAction::Delete { account_id } => AccountsActionView::Delete { account_id: *account_id },
            AccountsAction::Save { account_id, perm_code } => AccountsActionView::Save { account_id: *account_id, perm_code: *perm_code },
            AccountsAction::Unknown => AccountsActionView::Unknown,
        }
    }
}

/// The request of the account form: `create` (a free account unless another
/// permission is chosen), `delete`, `save`; missing fields are empty or 0.
pub open spec fn accounts_action_of(action: Seq<char>, account_id: Option<i32>, mail_addr: Seq<char>, password: Seq<char>, perm: Option<i32>) -> AccountsActionView {
    if action == "create"@ {
        AccountsActionView::Create { mail_addr, password, perm_code: int_or(perm, 2) }
    } else if action == "delete"@ {
        AccountsActionView::Delete { account_id: int_or(account_id, 0) }
    } else if action == "save"@ {
        AccountsActionView::Save { account_id: int_or(account_id, 0), perm_code: int_or(perm, 0) }
    } else {
        AccountsActionView::Unknown
    }
}

/// The fields of the account form.
pub struct AccountsInput {
    pub action: String,
    pub account_id: Option<i32>,
    pub mail_addr: Option<String>,
    pub password: Option<String>,
    pub perm: Option<i32>,
}

/// The request of the account form (see `accounts_action_of`).
pub fn accounts_action(input: AccountsInput) -> (r: AccountsAction)
    ensures
        r@ == accounts_action_of(input.action@, input.account_id, text_or_empty(input.mail_addr), text_or_empty(input.password), input.perm),
{
    let action = input.action.as_str();
    if str_eq(action, "create") {
        AccountsAction::Create {
            mail_addr: or_empty(input.mail_addr),
            password: or_empty(input.password),
            perm_code: match input.perm {
                Some(x) => x,
                None => 2,
            },
        }
    } else if str_eq(action, "delete") {
        AccountsAction::Delete { account_id: match input.account_id {
            Some(x) => x,
            None => 0,
        } }
    } else if str_eq(action, "save") {
        AccountsAction::Save {
            account_id: match input.account_id {
                Some(x) => x,
                None => 0,
            },
            perm_code: match input.perm {
                Some(x) => x,
                None => 0,
            },
        }
    } else {
        AccountsAction::Unknown
    }
}

/// Only administrators see the account page; others go to the top page.
pub fn may_view(auth: Authority) -> (r: bool)
    ensures
        r == (auth == Authority::Admin),
{
    auth == Authority::Admin
}

} // verus!
