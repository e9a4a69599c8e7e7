//! The VNI page: one line per VNI with the VTEPs that may join it.
use vstd::prelude::*;
use crate::keyed::{contains_key, index_of_name, key_index, lemma_key_set_has_key, sort_by_text, sorted_by_text, text_views, TextKeyed};
use crate::models::{Vni, Vtep};
use crate::ui::pages::vteps::requester_is_admin;
use crate::ui::pages::{owner_mail, owner_mail_addr};
use crate::ui::requests::ListVnisRep;

verus! {

/// A VTEP that may join a VNI, checked when it has joined.
pub struct VtepChoice {
    pub name: String,
    pub checked: bool,
}

impl TextKeyed for VtepChoice {
    type V = (Seq<char>, bool);

    open spec fn item_view(&self) -> (Seq<char>, bool) {
        (self.name@, self.checked)
    }

    open spec fn text_key(&self) -> Seq<char> {
        self.name@
    }

    fn key_text(&self) -> (k: &str) {
        self.name.as_str()
    }
}

/// One line of the VNI table.
pub struct VniRow {
    pub vni: i32,
    pub owner_mail_addr: String,
    pub description: String,
    pub owned_choices: Vec<VtepChoice>,
    pub other_choices: Vec<VtepChoice>,
}

/// The choice a VTEP gives a VNI.
pub open spec fn choices_of(assignable: Seq<Vtep>, vni: Vni) -> Seq<(Seq<char>, bool)> {
    Seq::new(assignable.len(), |i: int| (assignable[i].name@, vni@.vteps.contains(assignable[i].name@)))
}

/// The VTEP named `name` among the assignable ones belongs to `account_id`.
pub open spec fn vtep_owned(assignable: Seq<Vtep>, name: Seq<char>, account_id: i32) -> bool {
    match key_index(assignable, name) {
        Some(k) => assignable[k].account_id == account_id,
        None => false,
    }
}

pub open spec fn owned_pred(assignable: Seq<Vtep>, account_id: i32) -> spec_fn((Seq<char>, bool)) -> bool {
    |c: (Seq<char>, bool)| vtep_owned(assignable, c.0, account_id)
}

pub open spec fn other_pred(assignable: Seq<Vtep>, account_id: i32) -> spec_fn((Seq<char>, bool)) -> bool {
    |c: (Seq<char>, bool)| !vtep_owned(assignable, c.0, account_id)
}

/// The line of a VNI: its number, its owner's mail address, its description,
/// and the choices of every assignable VTEP; an administrator sees the VTEPs
/// of the VNI's owner apart from the others. Both lists go by name.
pub open spec fn row_of(r: VniRow, rep: ListVnisRep, vni: Vni) -> bool {
    let choices = choices_of(rep.assignable_vteps@, vni);
    let admin = requester_is_admin(rep.requester);
    &&& r.vni == vni.vni
    &&& r.owner_mail_addr@ == owner_mail(rep.accounts@, vni.account_id)
    &&& r.description@ == vni.description@
    &&& text_views(r.owned_choices@).to_multiset() == (if admin {
        choices.filter(owned_pred(rep.assignable_vteps@, vni.account_id))
    } else {
        choices
    }).to_multiset()
    &&& text_views(r.other_choices@).to_multiset() == (if admin {
        choices.filter(other_pred(rep.assignable_vteps@, vni.account_id))
    } else {
        seq![]
    }).to_multiset()
    &&& sorted_by_text(r.owned_choices@)
    &&& sorted_by_text(r.other_choices@)
}

fn owned_vtep(assignable: &Vec<Vtep>, name: &str, account_id: i32) -> (r: bool)
    ensures
        r == vtep_owned(assignable@, name@, account_id),
{
    match index_of_name(assignable, name) {
        Some(k) => assignable[k].account_id == account_id,
        None => false,
    }
}

fn build_row(rep: &ListVnisRep, vni: &Vni, admin: bool) -> (r: VniRow)
    requires
        admin == requester_is_admin(rep.requester),
    ensures
        row_of(r, *rep, *vni),
{
    let ghost choices = choices_of(rep.assignable_vteps@, *vni);
    let ghost op = owned_pred(rep.assignable_vteps@, vni.account_id);
    let ghost xp = other_pred(rep.assignable_vteps@, vni.account_id);
    let mut owned: Vec<VtepChoice> = Vec::new();
    let mut other: Vec<VtepChoice> = Vec::new();
    let mut i: usize = 0;
    while i < rep.assignable_vteps.len()
        invariant
            i <= rep.assignable_vteps@.len(),
            choices == choices_of(rep.assignable_vteps@, *vni),
            op == owned_pred(rep.assignable_vteps@, vni.account_id),
            xp == other_pred(rep.assignable_vteps@, vni.account_id),
            admin == requester_is_admin(rep.requester),
            text_views(owned@) == if admin { choices.take(i as int).filter(op) } else { choices.take(i as int) },
            text_views(other@) == if admin { choices.take(i as int).filter(xp) } else { seq![] },
        decreases rep.assignable_vteps@.len() - i,
    {
        let t = &rep.assignable_vteps[i];
        let checked = contains_key(&vni.vteps, &t.name);
        proof {
            lemma_key_set_has_key(vni.vteps@, t.name@);
        }
        let c = VtepChoice { name: t.name.clone(), checked };
        assert(c.item_view() == choices[i as int]);
        proof {
            reveal(Seq::filter);
            assert(choices.take(i + 1).drop_last() =~= choices.take(i as int));
            assert(choices.take(i + 1).last() == choices[i as int]);
        }
        let ghost bo = owned@;
        let ghost bx = other@;
        let ghost cv = c.item_view();
        if admin {
            if owned_vtep(&rep.assignable_vteps, t.name.as_str(), vni.account_id) {
                owned.push(c);
                assert(text_views(owned@) =~= text_views(bo).push(cv));
            } else {
                other.push(c);
                assert(text_views(other@) =~= text_views(bx).push(cv));
            }
        } else {
            owned.push(c);
            assert(text_views(owned@) =~= text_views(bo).push(cv));
        }
        i = i + 1;
    }
    assert(choices.take(i as int) =~= choices);
    let owned_choices = sort_by_text(owned);
    let other_choices = sort_by_text(other);
    VniRow {
        vni: vni.vni,
        owner_mail_addr: owner_mail_addr(&rep.accounts, vni.account_id),
        description: vni.description.clone(),
        owned_choices,
        other_choices,
    }
}

/// The lines of the VNI table, one per VNI in order.
pub fn build_rows(rep: &ListVnisRep) -> (r: Vec<VniRow>)
    ensures
        r@.len() == rep.vnis@.len(),
        forall|i: int| 0 <= i < r@.len() ==> row_of(#[trigger] r@[i], *rep, rep.vnis@[i]),
{
    let admin = match &rep.requester {
        Some(a) => a.perm == crate::models::Permission::Admin,
        None => false,
    };
    let mut out: Vec<VniRow> = Vec::new();
    let mut i: usize = 0;
    while i < rep.vnis.len()
        invariant
            i <= rep.vnis@.len(),
            admin == requester_is_admin(rep.requester),
            out@.len() == i,
            forall|k: int| 0 <= k < i ==> row_of(#[trigger] out@[k], *rep, rep.vnis@[k]),
        decreases rep.vnis@.len() - i,
    {
        out.push(build_row(rep, &rep.vnis[i], admin));
        i = i + 1;
    }
    out
}

} // verus!
