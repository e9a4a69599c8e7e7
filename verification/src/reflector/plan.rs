//! What a route reflector changes in BGP when its set of VTEPs changes.
use vstd::prelude::*;
use crate::keyed::{has_key, index_of_name, key_index, key_set, lemma_key_index_none, same_key_sets, Keyed};
use crate::models::Vtep;
use crate::reflector::laws::{lemma_sync_same_shape_refreshes_passwords, password_refreshes_from, same_vteps_but_passwords};

verus! {

/// One change to the BGP configuration of a route reflector.
pub enum BgpStep {
    /// Remove the neighbour at this address.
    DelNeighbor(u128),
    /// Remove the route map of this VTEP.
    DelRouteMap(String),
    /// Replace the route map of this VTEP so that it passes these VNIs.
    RepRouteMap(String, Vec<i32>),
    /// Set the password of the neighbour at this address.
    UpdNeighborPass(u128, String),
    /// Add the VTEP at this address as a route-reflector client: address, name, password.
    AddNeighbor(u128, String, String),
}

pub enum BgpStepView {
    DelNeighbor(u128),
    DelRouteMap(Seq<char>),
    RepRouteMap(Seq<char>, Seq<i32>),
    UpdNeighborPass(u128, Seq<char>),
    AddNeighbor(u128, Seq<char>, Seq<char>),
}

impl View for BgpStep {
    type V = BgpStepView;

    open spec fn view(&self) -> BgpStepView {
        match self {
            BgpStep::DelNeighbor(a) => BgpStepView::DelNeighbor(*a),
            BgpStep::DelRouteMap(n) => BgpStepView::DelRouteMap(n@),
            BgpStep::RepRouteMap(n, v) => BgpStepView::RepRouteMap(n@, v@),
            BgpStep::UpdNeighborPass(a, p) => BgpStepView::UpdNeighborPass(*a, p@),
            BgpStep::AddNeighbor(a, n, p) => BgpStepView::AddNeighbor(*a, n@, p@),
        }
    }
}

/// The views of a sequence of steps.
pub open spec fn step_views(s: Seq<BgpStep>) -> Seq<BgpStepView> {
    Seq::new(s.len(), |i: int| s[i]@)
}

/// Removing the neighbour at an address, if there is one.
pub open spec fn del_neighbor_steps(addr: Option<u128>) -> Seq<BgpStepView> {
    match addr {
        Some(a) => seq![BgpStepView::DelNeighbor(a)],
        None => seq![],
    }
}

/// Adding a VTEP as a neighbour, if it has an address.
pub open spec fn add_neighbor_steps(v: Vtep) -> Seq<BgpStepView> {
    match v.ipv6_addr {
        Some(a) => seq![BgpStepView::AddNeighbor(a, v.name@, v.bgp_pass@)],
        None => seq![],
    }
}

/// The steps for a VTEP that is gone.
pub open spec fn gone_steps(o: Vtep) -> Seq<BgpStepView> {
    del_neighbor_steps(o.ipv6_addr) + seq![BgpStepView::DelRouteMap(o.name@)]
}

/// The steps for a VTEP that stays, from its old record `o` to its new one `n`:
/// its route map is replaced when its VNIs differ; with the same address its
/// password is set again, with another address the neighbour moves.
pub open spec fn kept_steps(o: Vtep, n: Vtep) -> Seq<BgpStepView> {
    (if o@.vnis != n@.vnis {
        seq![BgpStepView::RepRouteMap(o.name@, n.vnis@)]
    } else {
        seq![]
    }) + if o.ipv6_addr == n.ipv6_addr {
        match n.ipv6_addr {
            Some(a) => seq![BgpStepView::UpdNeighborPass(a, n.bgp_pass@)],
            None => seq![],
        }
    } else {
        del_neighbor_steps(o.ipv6_addr) + add_neighbor_steps(n)
    }
}

/// The steps for a VTEP that is new.
pub open spec fn added_steps(n: Vtep) -> Seq<BgpStepView> {
    seq![BgpStepView::RepRouteMap(n.name@, n.vnis@)] + add_neighbor_steps(n)
}

/// The steps for the old VTEPs that are gone, in their order.
pub open spec fn gone_side(old: Seq<Vtep>, new: Seq<Vtep>) -> Seq<BgpStepView>
    decreases old.len(),
{
    if old.len() == 0 {
        seq![]
    } else {
        let o = old.last();
        gone_side(old.drop_last(), new) + match key_index(new, o.name@) {
            Some(j) => seq![],
            None => gone_steps(o),
        }
    }
}

/// The steps for the old VTEPs that stay, in their order.
pub open spec fn kept_side(old: Seq<Vtep>, new: Seq<Vtep>) -> Seq<BgpStepView>
    decreases old.len(),
{
    if old.len() == 0 {
        seq![]
    } else {
        let o = old.last();
        kept_side(old.drop_last(), new) + match key_index(new, o.name@) {
            Some(j) => kept_steps(o, new[j]),
            None => seq![],
        }
    }
}

/// The steps for the new VTEPs that were not there before, in their order.
pub open spec fn new_side(old: Seq<Vtep>, new: Seq<Vtep>) -> Seq<BgpStepView>
    decreases new.len(),
{
    if new.len() == 0 {
        seq![]
    } else {
        let n = new.last();
        new_side(old, new.drop_last()) + if has_key(old, n.name@) {
            seq![]
        } else {
            added_steps(n)
        }
    }
}

/// Every step that takes BGP from the VTEPs `old` to the VTEPs `new`: first
/// the VTEPs that are gone, then those that stay, then those that are new.
pub open spec fn bgp_plan(old: Seq<Vtep>, new: Seq<Vtep>) -> Seq<BgpStepView> {
    gone_side(old, new) + kept_side(old, new) + new_side(old, new)
}

fn copy_ints(v: &Vec<i32>) -> (r: Vec<i32>)
    ensures
        r@ == v@,
{
    let mut r: Vec<i32> = Vec::new();
    let mut i: usize = 0;
    while i < v.len()
        invariant
            i <= v.len(),
            r@ == v@.subrange(0, i as int),
        decreases v.len() - i,
    {
        r.push(v[i]);
        i = i + 1;
        assert(r@ =~= v@.subrange(0, i as int));
    }
    assert(v@.subrange(0, v@.len() as int) =~= v@);
    r
}

fn push_del_neighbor(out: &mut Vec<BgpStep>, addr: Option<u128>)
    ensures
        step_views(final(out)@) == step_views(old(out)@) + del_neighbor_steps(addr),
{
    if let Some(a) = addr {
        out.push(BgpStep::DelNeighbor(a));
    }
    assert(step_views(final(out)@) =~= step_views(old(out)@) + del_neighbor_steps(addr));
}

fn push_add_neighbor(out: &mut Vec<BgpStep>, v: &Vtep)
    ensures
        step_views(final(out)@) == step_views(old(out)@) + add_neighbor_steps(*v),
{
    if let Some(a) = v.ipv6_addr {
        out.push(BgpStep::AddNeighbor(a, v.name.clone(), v.bgp_pass.clone()));
    }
    assert(step_views(final(out)@) =~= step_views(old(out)@) + add_neighbor_steps(*v));
}

fn push_route_map(out: &mut Vec<BgpStep>, name: &String, vnis: &Vec<i32>)
    ensures
        step_views(final(out)@) == step_views(old(out)@) + seq![BgpStepView::RepRouteMap(name@, vnis@)],
{
    out.push(BgpStep::RepRouteMap(name.clone(), copy_ints(vnis)));
    assert(step_views(final(out)@) =~= step_views(old(out)@) + seq![BgpStepView::RepRouteMap(name@, vnis@)]);
}

/// The steps for one old VTEP if it is gone.
fn gone_vtep_steps(out: &mut Vec<BgpStep>, o: &Vtep, new: &Vec<Vtep>)
    ensures
        step_views(final(out)@) == step_views(old(out)@) + match key_index(new@, o.name@) {
            Some(j) => seq![],
            None => gone_steps(*o),
        },
{
    let ghost start = step_views(out@);
    match index_of_name(new, o.name.as_str()) {
        None => {
            push_del_neighbor(out, o.ipv6_addr);
            let ghost mid = step_views(out@);
            out.push(BgpStep::DelRouteMap(o.name.clone()));
            assert(step_views(out@) =~= mid.push(BgpStepView::DelRouteMap(o.name@)));
            assert(step_views(out@) =~= start + gone_steps(*o));
        },
        Some(j) => {
            assert(step_views(out@) =~= start + Seq::<BgpStepView>::empty());
        },
    }
}

/// The steps for one old VTEP if it stays.
fn kept_vtep_steps(out: &mut Vec<BgpStep>, o: &Vtep, new: &Vec<Vtep>)
    ensures
        step_views(final(out)@) == step_views(old(out)@) + match key_index(new@, o.name@) {
            Some(j) => kept_steps(*o, new@[j]),
            None => seq![],
        },
{
    let ghost start = step_views(out@);
    match index_of_name(new, o.name.as_str()) {
        None => {
            assert(step_views(out@) =~= start + Seq::<BgpStepView>::empty());
        },
        Some(j) => {
            let n = &new[j];
            let ghost g1 = if o@.vnis != n@.vnis {
                seq![BgpStepView::RepRouteMap(o.name@, n.vnis@)]
            } else {
                seq![]
            };
            if !same_key_sets(&o.vnis, &n.vnis) {
                push_route_map(out, &o.name, &n.vnis);
            }
            assert(step_views(out@) =~= start + g1);
            let ghost mid = step_views(out@);
            if o.ipv6_addr == n.ipv6_addr {
                if let Some(a) = n.ipv6_addr {
                    out.push(BgpStep::UpdNeighborPass(a, n.bgp_pass.clone()));
                }
                assert(step_views(out@) =~= mid + match n.ipv6_addr {
                    Some(a) => seq![BgpStepView::UpdNeighborPass(a, n.bgp_pass@)],
                    None => seq![],
                });
            } else {
                push_del_neighbor(out, o.ipv6_addr);
                push_add_neighbor(out, n);
                assert(step_views(out@) =~= mid + (del_neighbor_steps(o.ipv6_addr) + add_neighbor_steps(*n)));
            }
            assert(step_views(out@) =~= start + kept_steps(*o, new@[j as int]));
        },
    }
}

/// The BGP steps that take a route reflector from the VTEPs `old` to the VTEPs
/// `new`: for each old VTEP that is gone, in order, the steps removing it; then
/// for each old VTEP that stays, in order, the steps updating it; then for each
/// new VTEP that was not there, in order, the steps for adding it. Between
/// two sets of VTEPs with the same names, VNIs and addresses the steps only
/// set each connected VTEP's password again.
pub fn sync_bgp(old: &Vec<Vtep>, new: &Vec<Vtep>) -> (r: Vec<BgpStep>)
    ensures
        step_views(r@) == bgp_plan(old@, new@),
        same_vteps_but_passwords(old@, new@) ==> step_views(r@) == password_refreshes_from(old@, new@),
{
    proof {
        if same_vteps_but_passwords(old@, new@) {
            lemma_sync_same_shape_refreshes_passwords(old@, new@);
        }
    }
    let mut out: Vec<BgpStep> = Vec::new();
    let mut i: usize = 0;
    while i < old.len()
        invariant
            i <= old.len(),
            step_views(out@) == gone_side(old@.subrange(0, i as int), new@),
        decreases old.len() - i,
    {
        gone_vtep_steps(&mut out, &old[i], new);
        proof {
            let t = old@.subrange(0, i + 1);
            assert(t.drop_last() =~= old@.subrange(0, i as int));
            assert(t.last() == old@[i as int]);
        }
        i = i + 1;
    }
    assert(old@.subrange(0, old@.len() as int) =~= old@);
    let ghost gone = step_views(out@);
    let mut i: usize = 0;
    while i < old.len()
        invariant
            i <= old.len(),
            step_views(out@) == gone + kept_side(old@.subrange(0, i as int), new@),
        decreases old.len() - i,
    {
        let ghost before = step_views(out@);
        kept_vtep_steps(&mut out, &old[i], new);
        proof {
            let t = old@.subrange(0, i + 1);
            assert(t.drop_last() =~= old@.subrange(0, i as int));
            assert(t.last() == old@[i as int]);
            assert(step_views(out@) =~= gone + kept_side(t, new@));
        }
        i = i + 1;
    }
    let ghost mid = step_views(out@);
    let mut k: usize = 0;
    while k < new.len()
        invariant
            k <= new.len(),
            step_views(out@) == mid + new_side(old@, new@.subrange(0, k as int)),
        decreases new.len() - k,
    {
        let ghost before = step_views(out@);
        let n = &new[k];
        proof {
            lemma_key_index_none(old@, n.name@);
        }
        if index_of_name(old, n.name.as_str()).is_none() {
            push_route_map(&mut out, &n.name, &n.vnis);
            push_add_neighbor(&mut out, n);
            assert(step_views(out@) =~= before + added_steps(*n));
        }
        proof {
            let t = new@.subrange(0, k + 1);
            assert(t.drop_last() =~= new@.subrange(0, k as int));
            assert(t.last() == new@[k as int]);
            assert(step_views(out@) =~= mid + new_side(old@, t));
        }
        k = k + 1;
    }
    assert(new@.subrange(0, new@.len() as int) =~= new@);
    out
}

} // verus!
