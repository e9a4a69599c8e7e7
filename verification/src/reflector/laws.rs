//! What holds of the route reflector across its operations.
use vstd::prelude::*;
use crate::keyed::{has_key, key_index, lemma_unique_key_index, Keyed};
use crate::models::Vtep;
use crate::reflector::neighbors::{peer_addrs, shares_vni};
use crate::reflector::plan::{added_steps, bgp_plan, gone_side, gone_steps, kept_side, kept_steps, new_side, BgpStepView};
use crate::reflector::events::{neigh_updates, NeighUpdateView};
use crate::keyed::lemma_key_index_none;
use crate::reflector::vteps_wf;

verus! {

/// Setting each VTEP's BGP password again, for the VTEPs that have an address.
pub open spec fn password_refreshes(s: Seq<Vtep>) -> Seq<BgpStepView>
    decreases s.len(),
{
    if s.len() == 0 {
        seq![]
    } else {
        password_refreshes(s.drop_last()) + match s.last().ipv6_addr {
            Some(a) => seq![BgpStepView::UpdNeighborPass(a, s.last().bgp_pass@)],
            None => seq![],
        }
    }
}

/// Refreshing the password of each old VTEP that has an address, with the
/// password its record in `new` holds.
pub open spec fn password_refreshes_from(old: Seq<Vtep>, new: Seq<Vtep>) -> Seq<BgpStepView>
    decreases old.len(),
{
    if old.len() == 0 {
        seq![]
    } else {
        let o = old.last();
        password_refreshes_from(old.drop_last(), new) + match (key_index(new, o.name@), o.ipv6_addr) {
            (Some(j), Some(a)) => seq![BgpStepView::UpdNeighborPass(a, new[j].bgp_pass@)],
            _ => seq![],
        }
    }
}

/// The VTEP `o` has a record in `new` with the same VNIs and address.
pub open spec fn stays_same(new: Seq<Vtep>, o: Vtep) -> bool {
    match key_index(new, o.name@) {
        Some(j) => new[j]@.vnis == o@.vnis && new[j].ipv6_addr == o.ipv6_addr,
        None => false,
    }
}

/// Every VTEP of `old` stays in `new` with the same VNIs and address, and
/// every VTEP of `new` was in `old`.
pub open spec fn same_vteps_but_passwords(old: Seq<Vtep>, new: Seq<Vtep>) -> bool {
    &&& forall|i: int| 0 <= i < old.len() ==> stays_same(new, #[trigger] old[i])
    &&& forall|j: int| 0 <= j < new.len() ==> has_key(old, (#[trigger] new[j]).name@)
}

proof fn lemma_gone_side_none(old: Seq<Vtep>, new: Seq<Vtep>, k: int)
    requires
        same_vteps_but_passwords(old, new),
        0 <= k <= old.len(),
    ensures
        gone_side(old.take(k), new) == Seq::<BgpStepView>::empty(),
    decreases k,
{
    if k > 0 {
        lemma_gone_side_none(old, new, k - 1);
        let p = old.take(k);
        assert(p.drop_last() =~= old.take(k - 1));
        assert(p.last() == old[k - 1]);
        assert(stays_same(new, old[k - 1]));
        assert(gone_side(p, new) =~= Seq::<BgpStepView>::empty());
    } else {
        assert(old.take(0) =~= seq![]);
    }
}

proof fn lemma_kept_side_refreshes(old: Seq<Vtep>, new: Seq<Vtep>, k: int)
    requires
        same_vteps_but_passwords(old, new),
        0 <= k <= old.len(),
    ensures
        kept_side(old.take(k), new) == password_refreshes_from(old.take(k), new),
    decreases k,
{
    if k > 0 {
        lemma_kept_side_refreshes(old, new, k - 1);
        let p = old.take(k);
        assert(p.drop_last() =~= old.take(k - 1));
        assert(p.last() == old[k - 1]);
        let o = old[k - 1];
        assert(stays_same(new, o));
        let j = key_index(new, o.name@).unwrap();
        assert(kept_steps(o, new[j]) =~= match o.ipv6_addr {
            Some(a) => seq![BgpStepView::UpdNeighborPass(a, new[j].bgp_pass@)],
            None => seq![],
        });
    } else {
        assert(old.take(0) =~= seq![]);
    }
}

proof fn lemma_new_side_none(old: Seq<Vtep>, new: Seq<Vtep>, k: int)
    requires
        same_vteps_but_passwords(old, new),
        0 <= k <= new.len(),
    ensures
        new_side(old, new.take(k)) == Seq::<BgpStepView>::empty(),
    decreases k,
{
    if k > 0 {
        lemma_new_side_none(old, new, k - 1);
        let p = new.take(k);
        assert(p.drop_last() =~= new.take(k - 1));
        assert(p.last() == new[k - 1]);
        assert(has_key(old, new[k - 1].name@));
        assert(new_side(old, p) =~= Seq::<BgpStepView>::empty());
    } else {
        assert(new.take(0) =~= seq![]);
    }
}

/// Syncing BGP between two sets of VTEPs with the same names, VNIs and
/// addresses removes and adds nothing: it only sets each connected VTEP's
/// password again, to the one its new record holds.
pub proof fn lemma_sync_same_shape_refreshes_passwords(old: Seq<Vtep>, new: Seq<Vtep>)
    requires
        same_vteps_but_passwords(old, new),
    ensures
        bgp_plan(old, new) == password_refreshes_from(old, new),
{
    lemma_gone_side_none(old, new, old.len() as int);
    lemma_kept_side_refreshes(old, new, old.len() as int);
    lemma_new_side_none(old, new, new.len() as int);
    assert(old.take(old.len() as int) =~= old);
    assert(new.take(new.len() as int) =~= new);
    assert(bgp_plan(old, new) =~= password_refreshes_from(old, new));
}

proof fn lemma_refreshes_same(v: Seq<Vtep>, k: int)
    requires
        vteps_wf(v),
        0 <= k <= v.len(),
    ensures
        password_refreshes_from(v.take(k), v) == password_refreshes(v.take(k)),
    decreases k,
{
    if k > 0 {
        lemma_refreshes_same(v, k - 1);
        let p = v.take(k);
        assert(p.drop_last() =~= v.take(k - 1));
        assert(p.last() == v[k - 1]);
        lemma_unique_key_index(v, v[k - 1].name@, k - 1);
    } else {
        assert(v.take(0) =~= seq![]);
    }
}

/// Syncing BGP from a set of VTEPs to the same set removes and adds nothing:
/// it only sets each connected VTEP's password again.
pub proof fn lemma_sync_same_refreshes_passwords(v: Seq<Vtep>)
    requires
        vteps_wf(v),
    ensures
        bgp_plan(v, v) == password_refreshes(v),
{
    assert forall|i: int| 0 <= i < v.len() implies stays_same(v, #[trigger] v[i]) by {
        lemma_unique_key_index(v, v[i].name@, i);
    }
    assert forall|j: int| 0 <= j < v.len() implies has_key(v, (#[trigger] v[j]).name@) by {
        assert(v[j].key() == v[j].name@);
    }
    lemma_sync_same_shape_refreshes_passwords(v, v);
    lemma_refreshes_same(v, v.len() as int);
    assert(v.take(v.len() as int) =~= v);
}

/// Two connected VTEPs that share a VNI are each other's peers.
pub proof fn lemma_sharing_vteps_are_peers(vteps: Seq<Vtep>, i: int, j: int, c: i32)
    requires
        0 <= i < vteps.len(),
        0 <= j < vteps.len(),
        vteps[i].ipv6_addr is Some,
        vteps[j].ipv6_addr is Some,
        vteps[i].ipv6_addr != vteps[j].ipv6_addr,
        vteps[i].vnis@.contains(c),
        vteps[j].vnis@.contains(c),
    ensures
        peer_addrs(vteps, vteps[i].vnis@, vteps[i].ipv6_addr.unwrap()).contains(vteps[j].ipv6_addr.unwrap()),
        peer_addrs(vteps, vteps[j].vnis@, vteps[j].ipv6_addr.unwrap()).contains(vteps[i].ipv6_addr.unwrap()),
{
    let ki = choose|k: int| 0 <= k < vteps[i].vnis@.len() && vteps[i].vnis@[k] == c;
    let kj = choose|k: int| 0 <= k < vteps[j].vnis@.len() && vteps[j].vnis@[k] == c;
    assert(vteps[j].vnis@.contains(vteps[i].vnis@[ki]));
    assert(shares_vni(vteps[j], vteps[i].vnis@));
    assert(vteps[i].vnis@.contains(vteps[j].vnis@[kj]));
    assert(shares_vni(vteps[i], vteps[j].vnis@));
}

/// A VTEP is never its own peer.
pub proof fn lemma_peers_exclude_own(vteps: Seq<Vtep>, vnis: Seq<i32>, own: u128)
    ensures
        !peer_addrs(vteps, vnis, own).contains(own),
{
}

proof fn lemma_contains_left<A>(a: Seq<A>, b: Seq<A>, x: A)
    requires
        a.contains(x),
    ensures
        (a + b).contains(x),
{
    let i = choose|i: int| 0 <= i < a.len() && a[i] == x;
    assert((a + b)[i] == x);
}

proof fn lemma_contains_right<A>(a: Seq<A>, b: Seq<A>, x: A)
    requires
        b.contains(x),
    ensures
        (a + b).contains(x),
{
    let i = choose|i: int| 0 <= i < b.len() && b[i] == x;
    assert((a + b)[a.len() + i] == x);
}

proof fn lemma_kept_side_has(old: Seq<Vtep>, new: Seq<Vtep>, i: int, x: BgpStepView)
    requires
        0 <= i < old.len(),
        key_index(new, old[i].name@) matches Some(j) && kept_steps(old[i], new[j]).contains(x),
    ensures
        kept_side(old, new).contains(x),
    decreases old.len(),
{
    let p = old.drop_last();
    let tail = match key_index(new, old.last().name@) {
        Some(j) => kept_steps(old.last(), new[j]),
        None => seq![],
    };
    if i == old.len() - 1 {
        lemma_contains_right(kept_side(p, new), tail, x);
    } else {
        assert(p[i] == old[i]);
        lemma_kept_side_has(p, new, i, x);
        lemma_contains_left(kept_side(p, new), tail, x);
    }
}

proof fn lemma_gone_side_has(old: Seq<Vtep>, new: Seq<Vtep>, i: int, x: BgpStepView)
    requires
        0 <= i < old.len(),
        key_index(new, old[i].name@) is None,
        gone_steps(old[i]).contains(x),
    ensures
        gone_side(old, new).contains(x),
    decreases old.len(),
{
    let p = old.drop_last();
    let tail = match key_index(new, old.last().name@) {
        Some(j) => seq![],
        None => gone_steps(old.last()),
    };
    if i == old.len() - 1 {
        lemma_contains_right(gone_side(p, new), tail, x);
    } else {
        assert(p[i] == old[i]);
        lemma_gone_side_has(p, new, i, x);
        lemma_contains_left(gone_side(p, new), tail, x);
    }
}

proof fn lemma_new_side_has(old: Seq<Vtep>, new: Seq<Vtep>, j: int, x: BgpStepView)
    requires
        0 <= j < new.len(),
        !has_key(old, new[j].name@),
        added_steps(new[j]).contains(x),
    ensures
        new_side(old, new).contains(x),
    decreases new.len(),
{
    let p = new.drop_last();
    let tail = if has_key(old, new.last().name@) { seq![] } else { added_steps(new.last()) };
    if j == new.len() - 1 {
        lemma_contains_right(new_side(old, p), tail, x);
    } else {
        assert(p[j] == new[j]);
        lemma_new_side_has(old, p, j, x);
        lemma_contains_left(new_side(old, p), tail, x);
    }
}

/// A VTEP that stays, but with another set of VNIs, has its route map
/// replaced by one for its new VNIs, whatever they are (none included).
pub proof fn lemma_plan_replaces_changed_route_map(old: Seq<Vtep>, new: Seq<Vtep>, i: int, j: int)
    requires
        vteps_wf(new),
        0 <= i < old.len(),
        0 <= j < new.len(),
        old[i].name@ == new[j].name@,
        old[i]@.vnis != new[j]@.vnis,
    ensures
        bgp_plan(old, new).contains(BgpStepView::RepRouteMap(old[i].name@, new[j].vnis@)),
{
    lemma_unique_key_index(new, new[j].name@, j);
    let x = BgpStepView::RepRouteMap(old[i].name@, new[j].vnis@);
    let ks = kept_steps(old[i], new[j]);
    assert(ks[0] == x);
    lemma_kept_side_has(old, new, i, x);
    lemma_contains_right(gone_side(old, new), kept_side(old, new), x);
    lemma_contains_left(gone_side(old, new) + kept_side(old, new), new_side(old, new), x);
}

/// For a VTEP that stays, its route map is replaced exactly when its set of
/// VNIs changes.
pub proof fn lemma_kept_route_map_replaced_iff_vnis_differ(old: Seq<Vtep>, new: Seq<Vtep>, i: int, j: int)
    requires
        vteps_wf(new),
        0 <= i < old.len(),
        0 <= j < new.len(),
        old[i].name@ == new[j].name@,
    ensures
        kept_steps(old[i], new[j]).contains(BgpStepView::RepRouteMap(old[i].name@, new[j].vnis@)) <==> old[i]@.vnis != new[j]@.vnis,
{
    let ks = kept_steps(old[i], new[j]);
    if old[i]@.vnis != new[j]@.vnis {
        assert(ks[0] == BgpStepView::RepRouteMap(old[i].name@, new[j].vnis@));
    } else {
        assert forall|k: int| 0 <= k < ks.len() implies !(ks[k] is RepRouteMap) by {}
    }
}

/// A VTEP that is gone has its route map removed, and its neighbour too when
/// it had an address.
pub proof fn lemma_plan_removes_gone_vtep(old: Seq<Vtep>, new: Seq<Vtep>, i: int)
    requires
        0 <= i < old.len(),
        !has_key(new, old[i].name@),
    ensures
        bgp_plan(old, new).contains(BgpStepView::DelRouteMap(old[i].name@)),
        old[i].ipv6_addr matches Some(a) ==> bgp_plan(old, new).contains(BgpStepView::DelNeighbor(a)),
{
    lemma_key_index_none(new, old[i].name@);
    let g = gone_steps(old[i]);
    let x = BgpStepView::DelRouteMap(old[i].name@);
    assert(g[g.len() - 1] == x);
    lemma_gone_side_has(old, new, i, x);
    lemma_contains_left(gone_side(old, new), kept_side(old, new), x);
    lemma_contains_left(gone_side(old, new) + kept_side(old, new), new_side(old, new), x);
    if let Some(a) = old[i].ipv6_addr {
        let y = BgpStepView::DelNeighbor(a);
        assert(g[0] == y);
        lemma_gone_side_has(old, new, i, y);
        lemma_contains_left(gone_side(old, new), kept_side(old, new), y);
        lemma_contains_left(gone_side(old, new) + kept_side(old, new), new_side(old, new), y);
    }
}

/// A VTEP that is new gets a route map for its VNIs, and becomes a neighbour
/// when it has an address.
pub proof fn lemma_plan_adds_new_vtep(old: Seq<Vtep>, new: Seq<Vtep>, j: int)
    requires
        0 <= j < new.len(),
        !has_key(old, new[j].name@),
    ensures
        bgp_plan(old, new).contains(BgpStepView::RepRouteMap(new[j].name@, new[j].vnis@)),
        new[j].ipv6_addr matches Some(a) ==> bgp_plan(old, new).contains(BgpStepView::AddNeighbor(a, new[j].name@, new[j].bgp_pass@)),
{
    let ad = added_steps(new[j]);
    let x = BgpStepView::RepRouteMap(new[j].name@, new[j].vnis@);
    assert(ad[0] == x);
    lemma_new_side_has(old, new, j, x);
    lemma_contains_right(gone_side(old, new) + kept_side(old, new), new_side(old, new), x);
    if let Some(a) = new[j].ipv6_addr {
        let y = BgpStepView::AddNeighbor(a, new[j].name@, new[j].bgp_pass@);
        assert(ad[1] == y);
        lemma_new_side_has(old, new, j, y);
        lemma_contains_right(gone_side(old, new) + kept_side(old, new), new_side(old, new), y);
    }
}

/// Peer updates after VTEP `changed` changed: each goes to another VTEP (by
/// name) that has an address with an open link, and lists its peers; and
/// every such VTEP gets one.
pub proof fn lemma_neigh_updates_reach_the_others(all: Seq<Vtep>, s: Seq<Vtep>, links: Seq<u128>, changed: Seq<char>)
    ensures
        ({
            let u = neigh_updates(all, s, links, changed);
            &&& forall|i: int| #![trigger u[i]] 0 <= i < u.len() ==> exists|j: int| {
                &&& 0 <= j < s.len()
                &&& (#[trigger] s[j]).name@ != changed
                &&& s[j].ipv6_addr == Some(u[i].addr)
                &&& links.contains(u[i].addr)
                &&& u[i].neighs == peer_addrs(all, s[j].vnis@, u[i].addr)
            }
            &&& forall|j: int| 0 <= j < s.len() && (#[trigger] s[j]).name@ != changed && s[j].ipv6_addr is Some
                && links.contains(s[j].ipv6_addr->0) ==> u.contains(NeighUpdateView {
                    addr: s[j].ipv6_addr->0,
                    neighs: peer_addrs(all, s[j].vnis@, s[j].ipv6_addr->0),
                })
        }),
    decreases s.len(),
{
    let u = neigh_updates(all, s, links, changed);
    if s.len() > 0 {
        let p = s.drop_last();
        lemma_neigh_updates_reach_the_others(all, p, links, changed);
        let up = neigh_updates(all, p, links, changed);
        let v = s.last();
        let tail = match v.ipv6_addr {
            Some(a) if v.name@ != changed && has_key(links, a) => seq![NeighUpdateView { addr: a, neighs: peer_addrs(all, v.vnis@, a) }],
            _ => seq![],
        };
        assert(u == up + tail);
        assert forall|a: u128| has_key(links, a) <==> links.contains(a) by {
            if has_key(links, a) {
                let k = choose|k: int| 0 <= k < links.len() && links[k].key() == a;
                assert(links[k] == a);
            }
            if links.contains(a) {
                let k = choose|k: int| 0 <= k < links.len() && links[k] == a;
                assert(links[k].key() == a);
            }
        }
        assert forall|i: int| #![trigger u[i]] 0 <= i < u.len() implies exists|j: int| {
            &&& 0 <= j < s.len()
            &&& (#[trigger] s[j]).name@ != changed
            &&& s[j].ipv6_addr == Some(u[i].addr)
            &&& links.contains(u[i].addr)
            &&& u[i].neighs == peer_addrs(all, s[j].vnis@, u[i].addr)
        } by {
            if i < up.len() {
                assert(u[i] == up[i]);
                let j = choose|j: int| {
                    &&& 0 <= j < p.len()
                    &&& (#[trigger] p[j]).name@ != changed
                    &&& p[j].ipv6_addr == Some(up[i].addr)
                    &&& links.contains(up[i].addr)
                    &&& up[i].neighs == peer_addrs(all, p[j].vnis@, up[i].addr)
                };
                assert(s[j] == p[j]);
            } else {
                assert(u[i] == tail[i - up.len()]);
                assert(s[s.len() - 1] == v);
            }
        }
        assert forall|j: int| 0 <= j < s.len() && (#[trigger] s[j]).name@ != changed && s[j].ipv6_addr is Some
            && links.contains(s[j].ipv6_addr->0) implies u.contains(NeighUpdateView {
                addr: s[j].ipv6_addr->0,
                neighs: peer_addrs(all, s[j].vnis@, s[j].ipv6_addr->0),
            }) by {
            let x = NeighUpdateView { addr: s[j].ipv6_addr->0, neighs: peer_addrs(all, s[j].vnis@, s[j].ipv6_addr->0) };
            if j < p.len() {
                assert(p[j] == s[j]);
                lemma_contains_left(up, tail, x);
            } else {
                assert(s[j] == v);
                assert(tail[0] == x);
                lemma_contains_right(up, tail, x);
            }
        }
    }
}

} // verus!
