//! The VTEP page: one line per VTEP with the VNIs it may join.
use vstd::prelude::*;
use crate::keyed::{contains_key, index_of_id, int_views, key_index, key_set, lemma_key_index_none, lemma_key_set_has_key, sort_by_int, sorted_by_int, IntKeyed, Keyed};
use crate::models::{Account, Permission, Vni, Vtep};
use crate::ui::pages::{owner_mail, owner_mail_addr};
use crate::ui::requests::ListVtepsRep;

verus! {

/// A VNI a VTEP may join, checked when it has joined.
#[derive(Clone, Copy)]
pub struct VniChoice {
    pub vni: i32,
    pub checked: bool,
}

impl IntKeyed for VniChoice {
    type V = (i32, bool);

    open spec fn item_view(&self) -> (i32, bool) {
        (self.vni, self.checked)
    }

    open spec fn int_key(&self) -> int {
        self.vni as int
    }

    fn key_int(&self) -> (k: i64) {
        self.vni as i64
    }
}

/// One line of the VTEP table.
pub struct VtepRow {
    pub name: String,
    pub owner_mail_addr: String,
    pub description: String,
    pub owned_choices: Vec<VniChoice>,
    pub other_choices: Vec<VniChoice>,
}

/// The choice a VNI gives a VTEP.
pub open spec fn choices_of(assignable: Seq<Vni>, vtep: Vtep) -> Seq<(i32, bool)> {
    Seq::new(assignable.len(), |i: int| (assignable[i].vni, vtep@.vnis.contains(assignable[i].vni)))
}

/// The VNI `vni` among the assignable ones belongs to the account `account_id`.
pub open spec fn vni_owned(assignable: Seq<Vni>, vni: i32, account_id: i32) -> bool {
    match key_index(assignable, vni) {
        Some(k) => assignable[k].account_id == account_id,
        None => false,
    }
}

pub open spec fn owned_pred(assignable: Seq<Vni>, account_id: i32) -> spec_fn((i32, bool)) -> bool {
    |c: (i32, bool)| vni_owned(assignable, c.0, account_id)
}

pub open spec fn other_pred(assignable: Seq<Vni>, account_id: i32) -> spec_fn((i32, bool)) -> bool {
    |c: (i32, bool)| !vni_owned(assignable, c.0, account_id)
}

/// The requester is an administrator.
pub open spec fn requester_is_admin(requester: Option<Account>) -> bool {
    requester matches Some(a) && a.perm == Permission::Admin
}

/// The line of a VTEP: its name, its owner's mail address, its description,
/// and the choices of every assignable VNI; an administrator sees the VNIs of
/// the VTEP's owner apart from the others. Both lists go by VNI number.
pub open spec fn row_of(r: VtepRow, rep: ListVtepsRep, vtep: Vtep) -> bool {
    let choices = choices_of(rep.assignable_vnis@, vtep);
    let admin = requester_is_admin(rep.requester);
    &&& r.name@ == vtep.name@
    &&& r.owner_mail_addr@ == owner_mail(rep.accounts@, vtep.account_id)
    &&& r.description@ == vtep.description@
    &&& int_views(r.owned_choices@).to_multiset() == (if admin {
        choices.filter(owned_pred(rep.assignable_vnis@, vtep.account_id))
    } else {
        choices
    }).to_multiset()
    &&& int_views(r.other_choices@).to_multiset() == (if admin {
        choices.filter(other_pred(rep.assignable_vnis@, vtep.account_id))
    } else {
        seq![]
    }).to_multiset()
    &&& sorted_by_int(r.owned_choices@)
    &&& sorted_by_int(r.other_choices@)
}

/// Whether the requester is an administrator.
fn is_admin(requester: &Option<Account>) -> (r: bool)
    ensures
        r == requester_is_admin(*requester),
{
    match requester {
        Some(a) => a.perm == Permission::Admin,
        None => false,
    }
}

/// Whether the assignable VNI `vni` belongs to `account_id`.
fn owned_vni(assignable: &Vec<Vni>, vni: i32, account_id: i32) -> (r: bool)
    ensures
        r == vni_owned(assignable@, vni, account_id),
{
    match index_of_id(assignable, vni) {
        Some(k) => assignable[k].account_id == account_id,
        None => false,
    }
}

fn build_row(rep: &ListVtepsRep, vtep: &Vtep, admin: bool) -> (r: VtepRow)
    requires
        admin == requester_is_admin(rep.requester),
    ensures
        row_of(r, *rep, *vtep),
{
    let ghost choices = choices_of(rep.assignable_vnis@, *vtep);
    let ghost op = owned_pred(rep.assignable_vnis@, vtep.account_id);
    let ghost xp = other_pred(rep.assignable_vnis@, vtep.account_id);
    let mut owned: Vec<VniChoice> = Vec::new();
    let mut other: Vec<VniChoice> = Vec::new();
    let mut i: usize = 0;
    while i < rep.assignable_vnis.len()
        invariant
            i <= rep.assignable_vnis@.len(),
            choices == choices_of(rep.assignable_vnis@, *vtep),
            op == owned_pred(rep.assignable_vnis@, vtep.account_id),
            xp == other_pred(rep.assignable_vnis@, vtep.account_id),
            admin == requester_is_admin(rep.requester),
            int_views(owned@) == if admin { choices.take(i as int).filter(op) } else { choices.take(i as int) },
            int_views(other@) == if admin { choices.take(i as int).filter(xp) } else { seq![] },
        decreases rep.assignable_vnis@.len() - i,
    {
        let v = &rep.assignable_vnis[i];
        let checked = contains_key(&vtep.vnis, &v.vni);
        proof {
            lemma_key_set_has_key(vtep.vnis@, v.vni);
            assert(v.vni.key() == v.vni);
        }
        let c = VniChoice { vni: v.vni, checked };
        assert(c.item_view() == choices[i as int]);
        proof {
            reveal(Seq::filter);
            assert(choices.take(i + 1).drop_last() =~= choices.take(i as int));
            assert(choices.take(i + 1).last() == choices[i as int]);
        }
        let ghost bo = owned@;
        let ghost bx = other@;
        if admin {
            if owned_vni(&rep.assignable_vnis, v.vni, vtep.account_id) {
                owned.push(c);
                assert(int_views(owned@) =~= int_views(bo).push(c.item_view()));
            } else {
                other.push(c);
                assert(int_views(other@) =~= int_views(bx).push(c.item_view()));
            }
        } else {
            owned.push(c);
            assert(int_views(owned@) =~= int_views(bo).push(c.item_view()));
        }
        i = i + 1;
    }
    assert(choices.take(i as int) =~= choices);
    let owned_choices = sort_by_int(owned);
    let other_choices = sort_by_int(other);
    VtepRow {
        name: vtep.name.clone(),
        owner_mail_addr: owner_mail_addr(&rep.accounts, vtep.account_id),
        description: vtep.description.clone(),
        owned_choices,
        other_choices,
    }
}

/// The lines of the VTEP table, one per VTEP in order.
pub fn build_rows(rep: &ListVtepsRep) -> (r: Vec<VtepRow>)
    ensures
        r@.len() == rep.vteps@.len(),
        forall|i: int| 0 <= i < r@.len() ==> row_of(#[trigger] r@[i], *rep, rep.vteps@[i]),
{
    let admin = is_admin(&rep.requester);
    let mut out: Vec<VtepRow> = Vec::new();
    let mut i: usize = 0;
    while i < rep.vteps.len()
        invariant
            i <= rep.vteps@.len(),
            admin == requester_is_admin(rep.requester),
            out@.len() == i,
            forall|k: int| 0 <= k < i ==> row_of(#[trigger] out@[k], *rep, rep.vteps@[k]),
        decreases rep.vteps@.len() - i,
    {
        out.push(build_row(rep, &rep.vteps[i], admin));
        i = i + 1;
    }
    out
}

} // verus!
