//! How a route reflector answers each event: what it records and what it
//! hands back to be done (BGP steps, state reports, neighbour updates).
use vstd::prelude::*;
use crate::crypto::{argon2_accepts, check_password, phc_parses};
use crate::keyed::{contains_key, has_key, index_of_id, index_of_name, insert_key, key_index, key_set, lemma_key_index_none, lemma_key_set_all, lemma_key_set_has_key, lemma_unique_key_index, lemma_update_same_key, remove_key, unique_keys, Keyed};
use crate::messages::{AddVniMsg, DelVniMsg};
use crate::models::{vtep_views, Vni, Vtep};
use crate::reflector::plan::{bgp_plan, step_views, sync_bgp, BgpStep, BgpStepView};
use crate::reflector::neighbors::{peer_addrs, peers_of};
use crate::reflector::{ddns_renew, ddns_url_of, router_id_of, vnis_wf, vteps_wf, Reflector, VtepStateReport, VtepStateReportView};
use crate::text::{owned, push_i64, signed_decimal};

verus! {

/// The answer to a VTEP that signs in: its name (or why not), its id, its
/// BGP password and the addresses of its peers.
pub struct AuthVtepRep {
    pub vtep_name: Result<String, String>,
    pub vtep_id: i32,
    pub bgp_pass: String,
    pub neighs: Vec<u128>,
}

/// A VTEP signs in with this password.
pub open spec fn vtep_accepts(v: Vtep, password: Seq<char>) -> bool {
    phc_parses(v.password@) && argon2_accepts(password, v.password@)
}

/// The peers to send to the VTEP connected at `addr`.
pub struct NeighUpdate {
    pub addr: u128,
    pub neighs: Vec<u128>,
}

pub struct NeighUpdateView {
    pub addr: u128,
    pub neighs: Set<u128>,
}

impl View for NeighUpdate {
    type V = NeighUpdateView;

    open spec fn view(&self) -> NeighUpdateView {
        NeighUpdateView { addr: self.addr, neighs: self.neighs@.to_set() }
    }
}

pub open spec fn update_views(s: Seq<NeighUpdate>) -> Seq<NeighUpdateView> {
    Seq::new(s.len(), |i: int| s[i]@)
}

/// The peer updates owed after VTEP `changed` changed: one for each other VTEP
/// of `s` (in order) that has an address with a link, listing its peers among `all`.
pub open spec fn neigh_updates(all: Seq<Vtep>, s: Seq<Vtep>, links: Seq<u128>, changed: Seq<char>) -> Seq<NeighUpdateView>
    decreases s.len(),
{
    if s.len() == 0 {
        seq![]
    } else {
        let v = s.last();
        neigh_updates(all, s.drop_last(), links, changed) + match v.ipv6_addr {
            Some(a) if v.name@ != changed && has_key(links, a) => seq![NeighUpdateView { addr: a, neighs: peer_addrs(all, v.vnis@, a) }],
            _ => seq![],
        }
    }
}

/// The state reports of the VTEPs that have a last update, in order.
pub open spec fn state_reports(s: Seq<Vtep>) -> Seq<VtepStateReportView>
    decreases s.len(),
{
    if s.len() == 0 {
        seq![]
    } else {
        let v = s.last();
        state_reports(s.drop_last()) + match v.last_update {
            Some(t) => seq![VtepStateReportView { name: v.name@, ipv6_addr: v.ipv6_addr, last_update: t }],
            None => seq![],
        }
    }
}

pub open spec fn report_views(s: Seq<VtepStateReport>) -> Seq<VtepStateReportView> {
    Seq::new(s.len(), |i: int| s[i]@)
}

/// The text of a message about a VNI number.
pub open spec fn vni_message(prefix: Seq<char>, vni: i32) -> Seq<char> {
    prefix + signed_decimal(vni as int)
}

fn vni_text(prefix: &str, vni: i32) -> (r: String)
    ensures
        r@ == vni_message(prefix@, vni),
{
    let mut s = owned(prefix);
    push_i64(&mut s, vni as i64);
    s
}

fn name_text(prefix: &str, name: &str) -> (r: String)
    ensures
        r@ == prefix@ + name@,
{
    let mut s = owned(prefix);
    s.push_str(name);
    s
}

impl Reflector {
    /// Authenticates VTEP `name` connecting from `rem_addr`. The peers are
    /// listed whenever the name is known; the password decides the rest.
    pub fn auth_vtep(&self, name: &str, password: &str, rem_addr: u128) -> (r: AuthVtepRep)
        requires
            self.wf(),
        ensures
            match key_index(self.vteps@, name@) {
                Some(i) => {
                    let v = self.vteps@[i];
                    &&& r.neighs@.to_set() == peer_addrs(self.vteps@, v.vnis@, rem_addr)
                    &&& if vtep_accepts(v, password@) {
                        &&& r.vtep_name matches Ok(n) && n@ == v.name@
                        &&& r.vtep_id == v.id
                        &&& r.bgp_pass@ == v.bgp_pass@
                    } else {
                        &&& r.vtep_name matches Err(e) && e@ == "Auth failed"@
                        &&& r.vtep_id == -1
                        &&& r.bgp_pass@.len() == 0
                    }
                },
                None => {
                    &&& r.vtep_name matches Err(e) && e@ == "Auth failed"@
                    &&& r.vtep_id == -1
                    &&& r.bgp_pass@.len() == 0
                    &&& r.neighs@.len() == 0
                },
            },
            unique_keys(r.neighs@),
    {
        match index_of_name(&self.vteps, name) {
            None => AuthVtepRep { vtep_name: Err(owned("Auth failed")), vtep_id: -1, bgp_pass: String::new(), neighs: Vec::new() },
            Some(i) => {
                let v = &self.vteps[i];
                let neighs = peers_of(&self.vteps, &v.vnis, rem_addr);
                if check_password(password, v.password.as_str()) {
                    AuthVtepRep { vtep_name: Ok(v.name.clone()), vtep_id: v.id, bgp_pass: v.bgp_pass.clone(), neighs }
                } else {
                    AuthVtepRep { vtep_name: Err(owned("Auth failed")), vtep_id: -1, bgp_pass: String::new(), neighs }
                }
            },
        }
    }

    /// The peer updates owed to the connected VTEPs after VTEP `changed` changed.
    pub fn send_update_neighs(&self, changed: &str) -> (r: Vec<NeighUpdate>)
        ensures
            update_views(r@) == neigh_updates(self.vteps@, self.vteps@, self.links@, changed@),
    {
        let mut out: Vec<NeighUpdate> = Vec::new();
        let mut j: usize = 0;
        while j < self.vteps.len()
            invariant
                j <= self.vteps@.len(),
                update_views(out@) == neigh_updates(self.vteps@, self.vteps@.subrange(0, j as int), self.links@, changed@),
            decreases self.vteps@.len() - j,
        {
            let ghost before = update_views(out@);
            let v = &self.vteps[j];
            let other = !crate::text::str_eq(v.name.as_str(), changed);
            if let Some(a) = v.ipv6_addr {
                if other && contains_key(&self.links, &a) {
                    let neighs = peers_of(&self.vteps, &v.vnis, a);
                    out.push(NeighUpdate { addr: a, neighs });
                }
            }
            proof {
                let t = self.vteps@.subrange(0, j + 1);
                assert(t.drop_last() =~= self.vteps@.subrange(0, j as int));
                assert(t.last() == self.vteps@[j as int]);
                assert(update_views(out@) =~= neigh_updates(self.vteps@, t, self.links@, changed@));
            }
            j = j + 1;
        }
        assert(self.vteps@.subrange(0, self.vteps@.len() as int) =~= self.vteps@);
        out
    }

    /// A VTEP connected from `addr`: its link is recorded.
    pub fn link_opened(&mut self, addr: u128)
        requires
            old(self).wf(),
        ensures
            final(self).wf(),
            key_set(final(self).links@) == key_set(old(self).links@).insert(addr),
            final(self).rr_id == old(self).rr_id,
            final(self).loc_addr == old(self).loc_addr,
            final(self).vteps == old(self).vteps,
            final(self).vnis == old(self).vnis,
    {
        insert_key(&mut self.links, addr);
    }

    /// The web UI added a VNI; it must not have VTEPs yet and must be new.
    pub fn add_vni(&mut self, msg: AddVniMsg) -> (r: Result<(), String>)
        requires
            old(self).wf(),
            msg.vni.wf(),
        ensures
            final(self).wf(),
            match r {
                Ok(()) => {
                    &&& msg.vni.vteps@.len() == 0 && !has_key(old(self).vnis@, msg.vni.vni)
                    &&& final(self).vnis@ == old(self).vnis@.push(msg.vni)
                },
                Err(e) => {
                    &&& e@ == if msg.vni.vteps@.len() != 0 {
                        vni_message("VNI must not have VTEP "@, msg.vni.vni)
                    } else {
                        vni_message("VNI already exists "@, msg.vni.vni)
                    }
                    &&& msg.vni.vteps@.len() != 0 || has_key(old(self).vnis@, msg.vni.vni)
                    &&& final(self).vnis == old(self).vnis
                },
            },
            final(self).rr_id == old(self).rr_id,
            final(self).loc_addr == old(self).loc_addr,
            final(self).vteps == old(self).vteps,
            final(self).links == old(self).links,
    {
        let vni = msg.vni;
        if vni.vteps.len() != 0 {
            return Err(vni_text("VNI must not have VTEP ", vni.vni));
        }
        proof {
            lemma_key_index_none(self.vnis@, vni.vni);
        }
        if index_of_id(&self.vnis, vni.vni).is_some() {
            return Err(vni_text("VNI already exists ", vni.vni));
        }
        let ghost v = vni;
        self.vnis.push(vni);
        proof {
            assert forall|a: int, b: int| 0 <= a < self.vnis@.len() && 0 <= b < self.vnis@.len() && a != b implies self.vnis@[a].key() != self.vnis@[b].key() by {
                if a == old(self).vnis@.len() as int {
                    assert(old(self).vnis@[b].key() != v.vni);
                }
                if b == old(self).vnis@.len() as int {
                    assert(old(self).vnis@[a].key() != v.vni);
                }
            }
        }
        Ok(())
    }

    /// The web UI deleted a VNI; it must not have VTEPs and must be known.
    pub fn del_vni(&mut self, msg: &DelVniMsg) -> (r: Result<(), String>)
        requires
            old(self).wf(),
        ensures
            final(self).wf(),
            match r {
                Ok(()) => {
                    &&& msg.vni.vteps@.len() == 0
                    &&& key_index(old(self).vnis@, msg.vni.vni) matches Some(i)
                    &&& final(self).vnis@ == old(self).vnis@.remove(i)
                },
                Err(e) => {
                    &&& e@ == if msg.vni.vteps@.len() != 0 {
                        vni_message("VNI must not have VTEP "@, msg.vni.vni)
                    } else {
                        vni_message("VNI not exists "@, msg.vni.vni)
                    }
                    &&& msg.vni.vteps@.len() != 0 || !has_key(old(self).vnis@, msg.vni.vni)
                    &&& final(self).vnis == old(self).vnis
                },
            },
            final(self).rr_id == old(self).rr_id,
            final(self).loc_addr == old(self).loc_addr,
            final(self).vteps == old(self).vteps,
            final(self).links == old(self).links,
    {
        let vni = &msg.vni;
        if vni.vteps.len() != 0 {
            return Err(vni_text("VNI must not have VTEP ", vni.vni));
        }
        proof {
            lemma_key_index_none(self.vnis@, vni.vni);
        }
        match index_of_id(&self.vnis, vni.vni) {
            None => Err(vni_text("VNI not exists ", vni.vni)),
            Some(i) => {
                self.vnis.remove(i);
                proof {
                    let o = old(self).vnis@;
                    assert forall|a: int, b: int| 0 <= a < self.vnis@.len() && 0 <= b < self.vnis@.len() && a != b implies self.vnis@[a].key() != self.vnis@[b].key() by {
                        let aa = if a < i { a } else { a + 1 };
                        let bb = if b < i { b } else { b + 1 };
                        assert(self.vnis@[a] == o[aa]);
                        assert(self.vnis@[b] == o[bb]);
                    }
                    assert forall|k: int| 0 <= k < self.vnis@.len() implies (#[trigger] self.vnis@[k]).wf() by {
                        let kk = if k < i { k } else { k + 1 };
                        assert(self.vnis@[k] == o[kk]);
                    }
                }
                Ok(())
            },
        }
    }
}


/// Copies of VTEP records, in order.
pub fn copy_vteps(v: &Vec<Vtep>) -> (r: Vec<Vtep>)
    ensures
        vtep_views(r@) == vtep_views(v@),
        vteps_wf(v@) ==> vteps_wf(r@),
{
    let mut r: Vec<Vtep> = Vec::new();
    let mut i: usize = 0;
    while i < v.len()
        invariant
            i <= v@.len(),
            r@.len() == i,
            forall|k: int| 0 <= k < i ==> (#[trigger] r@[k])@ == v@[k]@ && r@[k].wf() == v@[k].wf(),
        decreases v@.len() - i,
    {
        r.push(v[i].copy());
        i = i + 1;
    }
    assert(vtep_views(r@) =~= vtep_views(v@));
    proof {
        if vteps_wf(v@) {
            assert forall|a: int, b: int| 0 <= a < r@.len() && 0 <= b < r@.len() && a != b implies r@[a].key() != r@[b].key() by {
                assert(r@[a]@ == v@[a]@);
                assert(r@[b]@ == v@[b]@);
            }
            assert forall|k: int| 0 <= k < r@.len() implies (#[trigger] r@[k]).wf() by {
                assert(r@[k].wf() == v@[k].wf());
            }
        }
    }
    r
}

/// Sets the address and last update of the VTEP at `i`.
fn set_vtep_state(vs: &mut Vec<Vtep>, i: usize, addr: Option<u128>, last: Option<u64>)
    requires
        i < old(vs)@.len(),
    ensures
        final(vs)@ == old(vs)@.update(i as int, (Vtep { ipv6_addr: addr, last_update: last, ..old(vs)@[i as int] })),
{
    let mut v = vs.remove(i);
    v.ipv6_addr = addr;
    v.last_update = last;
    vs.insert(i, v);
    assert(final(vs)@ =~= old(vs)@.update(i as int, (Vtep { ipv6_addr: addr, last_update: last, ..old(vs)@[i as int] })));
}

/// Replacing a VTEP by one with the same name and VNIs keeps the records well formed.
proof fn lemma_vteps_wf_update(s: Seq<Vtep>, i: int, x: Vtep)
    requires
        vteps_wf(s),
        0 <= i < s.len(),
        x.name@ == s[i].name@,
        x.wf(),
    ensures
        vteps_wf(s.update(i, x)),
        forall|k: Seq<char>| #[trigger] key_index(s.update(i, x), k) == key_index(s, k),
{
    lemma_update_same_key(s, i, x);
    assert forall|k: int| 0 <= k < s.len() implies (#[trigger] s.update(i, x)[k]).wf() by {
        if k != i {
            assert(s.update(i, x)[k] == s[k]);
        }
    }
}

/// Removing a VTEP keeps the records well formed.
proof fn lemma_vteps_wf_remove(s: Seq<Vtep>, i: int)
    requires
        vteps_wf(s),
        0 <= i < s.len(),
    ensures
        vteps_wf(s.remove(i)),
{
    let t = s.remove(i);
    assert forall|a: int, b: int| 0 <= a < t.len() && 0 <= b < t.len() && a != b implies t[a].key() != t[b].key() by {
        let aa = if a < i { a } else { a + 1 };
        let bb = if b < i { b } else { b + 1 };
        assert(t[a] == s[aa]);
        assert(t[b] == s[bb]);
    }
    assert forall|k: int| 0 <= k < t.len() implies (#[trigger] t[k]).wf() by {
        let kk = if k < i { k } else { k + 1 };
        assert(t[k] == s[kk]);
    }
}

/// The state a route reflector reports for a VTEP.
pub open spec fn report_of(name: Seq<char>, addr: Option<u128>, now: u64) -> VtepStateReportView {
    VtepStateReportView { name, ipv6_addr: addr, last_update: now }
}

/// What follows a VTEP's registration: BGP steps, its new state, and the peer
/// updates for the other VTEPs.
pub struct VtepRegistration {
    pub steps: Vec<BgpStep>,
    pub state: VtepStateReport,
    pub updates: Vec<NeighUpdate>,
}

/// What follows a VTEP's disconnection.
pub struct VtepExit {
    pub steps: Vec<BgpStep>,
    pub state: Option<VtepStateReport>,
    pub updates: Vec<NeighUpdate>,
}

impl Reflector {
    /// VTEP `name` registered from `rem_addr` at `now`. An unknown VTEP is
    /// ignored. A VTEP that was at another address leaves its old neighbour
    /// and link behind; it becomes a neighbour at its new address.
    pub fn vtep_registered(&mut self, name: &str, rem_addr: u128, now: u64) -> (r: Option<VtepRegistration>)
        requires
            old(self).wf(),
        ensures
            final(self).wf(),
            final(self).rr_id == old(self).rr_id,
            final(self).loc_addr == old(self).loc_addr,
            final(self).vnis == old(self).vnis,
            match key_index(old(self).vteps@, name@) {
                None => {
                    &&& r is None
                    &&& final(self).vteps == old(self).vteps
                    &&& final(self).links == old(self).links
                },
                Some(i) => {
                    let v = old(self).vteps@[i];
                    let moved = match v.ipv6_addr {
                        Some(a) => a != rem_addr,
                        None => false,
                    };
                    &&& r matches Some(g)
                    &&& final(self).vteps@ == old(self).vteps@.update(i, (Vtep { ipv6_addr: Some(rem_addr), last_update: Some(now), ..v }))
                    &&& key_set(final(self).links@) == if moved {
                        key_set(old(self).links@).remove(v.ipv6_addr.unwrap())
                    } else {
                        key_set(old(self).links@)
                    }
                    &&& step_views(g.steps@) == (if moved {
                        seq![BgpStepView::DelNeighbor(v.ipv6_addr.unwrap())]
                    } else {
                        seq![]
                    }) + seq![BgpStepView::AddNeighbor(rem_addr, v.name@, v.bgp_pass@)]
                    &&& g.state@ == report_of(v.name@, Some(rem_addr), now)
                    &&& update_views(g.updates@) == neigh_updates(final(self).vteps@, final(self).vteps@, final(self).links@, name@)
                },
            },
    {
        let i = match index_of_name(&self.vteps, name) {
            Some(i) => i,
            None => return None,
        };
        let ghost v = self.vteps@[i as int];
        let mut steps: Vec<BgpStep> = Vec::new();
        if let Some(a) = self.vteps[i].ipv6_addr {
            if a != rem_addr {
                remove_key(&mut self.links, &a);
                steps.push(BgpStep::DelNeighbor(a));
            }
        }
        steps.push(BgpStep::AddNeighbor(rem_addr, self.vteps[i].name.clone(), self.vteps[i].bgp_pass.clone()));
        set_vtep_state(&mut self.vteps, i, Some(rem_addr), Some(now));
        proof {
            lemma_vteps_wf_update(old(self).vteps@, i as int, self.vteps@[i as int]);
        }
        let state = VtepStateReport { name: self.vteps[i].name.clone(), ipv6_addr: Some(rem_addr), last_update: now };
        let updates = self.send_update_neighs(name);
        let ghost moved = match v.ipv6_addr {
            Some(a) => a != rem_addr,
            None => false,
        };
        assert(step_views(steps@) =~= (if moved {
            seq![BgpStepView::DelNeighbor(v.ipv6_addr.unwrap())]
        } else {
            seq![]
        }) + seq![BgpStepView::AddNeighbor(rem_addr, v.name@, v.bgp_pass@)]);
        Some(VtepRegistration { steps, state, updates })
    }

    /// VTEP `name` disconnected from `rem_addr` at `now`: its link and the
    /// neighbour at that address go; a known VTEP still at that address loses
    /// its address.
    pub fn vtep_exit(&mut self, name: &str, rem_addr: u128, now: u64) -> (r: VtepExit)
        requires
            old(self).wf(),
        ensures
            final(self).wf(),
            final(self).rr_id == old(self).rr_id,
            final(self).loc_addr == old(self).loc_addr,
            final(self).vnis == old(self).vnis,
            key_set(final(self).links@) == key_set(old(self).links@).remove(rem_addr),
            step_views(r.steps@) == seq![BgpStepView::DelNeighbor(rem_addr)],
            match key_index(old(self).vteps@, name@) {
                None => {
                    &&& final(self).vteps == old(self).vteps
                    &&& r.state is None
                    &&& r.updates@.len() == 0
                },
                Some(i) => {
                    let v = old(self).vteps@[i];
                    &&& if v.ipv6_addr == Some(rem_addr) {
                        &&& final(self).vteps@ == old(self).vteps@.update(i, (Vtep { ipv6_addr: None, last_update: Some(now), ..v }))
                        &&& r.state matches Some(s) && s@ == report_of(v.name@, None, now)
                    } else {
                        &&& final(self).vteps == old(self).vteps
                        &&& r.state is None
                    }
                    &&& update_views(r.updates@) == neigh_updates(final(self).vteps@, final(self).vteps@, final(self).links@, name@)
                },
            },
    {
        remove_key(&mut self.links, &rem_addr);
        let mut steps: Vec<BgpStep> = Vec::new();
        steps.push(BgpStep::DelNeighbor(rem_addr));
        assert(step_views(steps@) =~= seq![BgpStepView::DelNeighbor(rem_addr)]);
        let i = match index_of_name(&self.vteps, name) {
            Some(i) => i,
            None => return VtepExit { steps, state: None, updates: Vec::new() },
        };
        let mut state: Option<VtepStateReport> = None;
        if self.vteps[i].ipv6_addr == Some(rem_addr) {
            set_vtep_state(&mut self.vteps, i, None, Some(now));
            proof {
                lemma_vteps_wf_update(old(self).vteps@, i as int, self.vteps@[i as int]);
            }
            state = Some(VtepStateReport { name: self.vteps[i].name.clone(), ipv6_addr: None, last_update: now });
        }
        let updates = self.send_update_neighs(name);
        VtepExit { steps, state, updates }
    }

    /// The web UI added a VTEP; it must not have VNIs yet and must be new.
    pub fn add_vtep(&mut self, vtep: Vtep) -> (r: Result<Vec<BgpStep>, String>)
        requires
            old(self).wf(),
            vtep.wf(),
        ensures
            final(self).wf(),
            final(self).rr_id == old(self).rr_id,
            final(self).loc_addr == old(self).loc_addr,
            final(self).vnis == old(self).vnis,
            final(self).links == old(self).links,
            match r {
                Ok(steps) => {
                    &&& vtep.vnis@.len() == 0 && !has_key(old(self).vteps@, vtep.name@)
                    &&& vtep_views(final(self).vteps@) == vtep_views(old(self).vteps@).push(vtep@)
                    &&& step_views(steps@) == bgp_plan(old(self).vteps@, final(self).vteps@)
                },
                Err(e) => {
                    &&& e@ == if vtep.vnis@.len() != 0 {
                        "VTEP must not have VNI "@ + vtep.name@
                    } else {
                        "VTEP already exists "@ + vtep.name@
                    }
                    &&& vtep.vnis@.len() != 0 || has_key(old(self).vteps@, vtep.name@)
                    &&& final(self).vteps == old(self).vteps
                },
            },
    {
        if vtep.vnis.len() != 0 {
            return Err(name_text("VTEP must not have VNI ", vtep.name.as_str()));
        }
        proof {
            lemma_key_index_none(self.vteps@, vtep.name@);
        }
        if index_of_name(&self.vteps, vtep.name.as_str()).is_some() {
            return Err(name_text("VTEP already exists ", vtep.name.as_str()));
        }
        let mut vteps = copy_vteps(&self.vteps);
        let ghost x = vtep;
        vteps.push(vtep);
        proof {
            let o = vtep_views(old(self).vteps@);
            let n = old(self).vteps@.len() as int;
            assert(vtep_views(vteps@) =~= o.push(x@));
            assert(!has_key(old(self).vteps@, x.name@));
            assert forall|a: int| 0 <= a < n implies vteps@[a].key() == (#[trigger] old(self).vteps@[a]).key() by {
                assert(vtep_views(vteps@)[a] == vteps@[a]@);
                assert(o[a] == old(self).vteps@[a]@);
            }
            assert(vteps@[n] == x);
            assert forall|a: int, b: int| 0 <= a < vteps@.len() && 0 <= b < vteps@.len() && a != b implies vteps@[a].key() != vteps@[b].key() by {
                if a < n && b < n {
                    assert(vteps@[a].key() == old(self).vteps@[a].key());
                    assert(vteps@[b].key() == old(self).vteps@[b].key());
                } else if a < n {
                    assert(vteps@[a].key() == old(self).vteps@[a].key());
                } else if b < n {
                    assert(vteps@[b].key() == old(self).vteps@[b].key());
                }
            }
            assert forall|k: int| 0 <= k < vteps@.len() implies (#[trigger] vteps@[k]).wf() by {}
        }
        let steps = sync_bgp(&self.vteps, &vteps);
        self.vteps = vteps;
        Ok(steps)
    }

    /// The web UI deleted a VTEP; it must not have VNIs and must be known.
    pub fn del_vtep(&mut self, vtep: &Vtep) -> (r: Result<Vec<BgpStep>, String>)
        requires
            old(self).wf(),
        ensures
            final(self).wf(),
            final(self).rr_id == old(self).rr_id,
            final(self).loc_addr == old(self).loc_addr,
            final(self).vnis == old(self).vnis,
            match r {
                Ok(steps) => {
                    &&& vtep.vnis@.len() == 0
                    &&& key_index(old(self).vteps@, vtep.name@) matches Some(i)
                    &&& vtep_views(final(self).vteps@) == vtep_views(old(self).vteps@).remove(i)
                    &&& key_set(final(self).links@) == match old(self).vteps@[i].ipv6_addr {
                        Some(a) => key_set(old(self).links@).remove(a),
                        None => key_set(old(self).links@),
                    }
                    &&& step_views(steps@) == bgp_plan(old(self).vteps@, final(self).vteps@)
                },
                Err(e) => {
                    &&& e@ == if vtep.vnis@.len() != 0 {
                        "VTEP must not have VNI "@ + vtep.name@
                    } else {
                        "VTEP not exists "@ + vtep.name@
                    }
                    &&& vtep.vnis@.len() != 0 || !has_key(old(self).vteps@, vtep.name@)
                    &&& final(self).vteps == old(self).vteps
                    &&& final(self).links == old(self).links
                },
            },
    {
        if vtep.vnis.len() != 0 {
            return Err(name_text("VTEP must not have VNI ", vtep.name.as_str()));
        }
        proof {
            lemma_key_index_none(self.vteps@, vtep.name@);
        }
        let i = match index_of_name(&self.vteps, vtep.name.as_str()) {
            Some(i) => i,
            None => return Err(name_text("VTEP not exists ", vtep.name.as_str())),
        };
        if let Some(a) = self.vteps[i].ipv6_addr {
            remove_key(&mut self.links, &a);
        }
        let mut vteps = copy_vteps(&self.vteps);
        let ghost pre = vteps@;
        assert(vtep_views(pre).len() == pre.len());
        vteps.remove(i);
        proof {
            assert(vtep_views(vteps@) =~= vtep_views(old(self).vteps@).remove(i as int));
            lemma_vteps_wf_remove(pre, i as int);
        }
        let steps = sync_bgp(&self.vteps, &vteps);
        self.vteps = vteps;
        Ok(steps)
    }
}


/// The VTEPs `new`, each keeping the address and last update of the old VTEP
/// of its name.
pub open spec fn merge_states(old: Seq<Vtep>, new: Seq<Vtep>) -> Seq<Vtep> {
    Seq::new(new.len(), |i: int| match key_index(old, new[i].name@) {
        Some(j) => (Vtep { ipv6_addr: old[j].ipv6_addr, last_update: old[j].last_update, ..new[i] }),
        None => new[i],
    })
}

/// The addresses of the old VTEPs whose name is not among the new ones.
pub open spec fn gone_addrs(old: Seq<Vtep>, new: Seq<Vtep>) -> Set<u128> {
    Set::new(|a: u128| exists|j: int| 0 <= j < old.len() && old[j].ipv6_addr == Some(a) && !has_key(new, #[trigger] old[j].name@))
}

/// Removing the neighbours of the VTEPs that have an address, in order.
pub open spec fn addr_dels(s: Seq<Vtep>) -> Seq<BgpStepView>
    decreases s.len(),
{
    if s.len() == 0 {
        seq![]
    } else {
        addr_dels(s.drop_last()) + match s.last().ipv6_addr {
            Some(a) => seq![BgpStepView::DelNeighbor(a)],
            None => seq![],
        }
    }
}

/// What follows the route reflector's registration at the web UI.
pub struct RrRegistration {
    pub router_id: Option<u32>,
    pub steps: Vec<BgpStep>,
    pub states: Vec<VtepStateReport>,
}

/// What follows a change of the local address.
pub struct LocChange {
    pub steps: Vec<BgpStep>,
    pub ddns_url: Option<String>,
}

/// The state reports of the VTEPs that have a last update.
pub fn state_reports_of(vs: &Vec<Vtep>) -> (r: Vec<VtepStateReport>)
    ensures
        report_views(r@) == state_reports(vs@),
{
    let mut out: Vec<VtepStateReport> = Vec::new();
    let mut i: usize = 0;
    while i < vs.len()
        invariant
            i <= vs@.len(),
            report_views(out@) == state_reports(vs@.subrange(0, i as int)),
        decreases vs@.len() - i,
    {
        if let Some(t) = vs[i].last_update {
            out.push(VtepStateReport { name: vs[i].name.clone(), ipv6_addr: vs[i].ipv6_addr, last_update: t });
        }
        proof {
            let s = vs@.subrange(0, i + 1);
            assert(s.drop_last() =~= vs@.subrange(0, i as int));
            assert(s.last() == vs@[i as int]);
            assert(report_views(out@) =~= state_reports(s));
        }
        i = i + 1;
    }
    assert(vs@.subrange(0, vs@.len() as int) =~= vs@);
    out
}

impl Reflector {
    /// The web UI changed a VTEP's VNIs and a VNI's VTEPs together; both must
    /// be known. The VTEP keeps its address and last update.
    pub fn mod_vtep_vni(&mut self, vtep: Vtep, vni: Vni) -> (r: Result<Vec<BgpStep>, String>)
        requires
            old(self).wf(),
            vtep.wf(),
            vni.wf(),
        ensures
            final(self).wf(),
            final(self).rr_id == old(self).rr_id,
            final(self).loc_addr == old(self).loc_addr,
            final(self).links == old(self).links,
            match (key_index(old(self).vteps@, vtep.name@), key_index(old(self).vnis@, vni.vni)) {
                (Some(i), Some(k)) => {
                    let o = old(self).vteps@[i];
                    &&& r matches Ok(steps)
                    &&& vtep_views(final(self).vteps@) == vtep_views(old(self).vteps@).update(
                        i,
                        (Vtep { ipv6_addr: o.ipv6_addr, last_update: o.last_update, ..vtep })@,
                    )
                    &&& final(self).vnis@ == old(self).vnis@.update(k, vni)
                    &&& step_views(steps@) == bgp_plan(old(self).vteps@, final(self).vteps@)
                },
                (None, _) => {
                    &&& r matches Err(e) && e@ == "VTEP not exists "@ + vtep.name@
                    &&& final(self).vteps == old(self).vteps
                    &&& final(self).vnis == old(self).vnis
                },
                (Some(_), None) => {
                    &&& r matches Err(e) && e@ == vni_message("VNI not exists "@, vni.vni)
                    &&& final(self).vteps == old(self).vteps
                    &&& final(self).vnis == old(self).vnis
                },
            },
    {
        let i = match index_of_name(&self.vteps, vtep.name.as_str()) {
            Some(i) => i,
            None => return Err(name_text("VTEP not exists ", vtep.name.as_str())),
        };
        let k = match index_of_id(&self.vnis, vni.vni) {
            Some(k) => k,
            None => return Err(vni_text("VNI not exists ", vni.vni)),
        };
        let mut v = vtep;
        v.ipv6_addr = self.vteps[i].ipv6_addr;
        v.last_update = self.vteps[i].last_update;
        let ghost merged = v;
        let mut vteps = copy_vteps(&self.vteps);
        let ghost pre = vteps@;
        assert(vtep_views(pre).len() == pre.len());
        crate::keyed::replace_at(&mut vteps, i, v);
        proof {
            assert(vtep_views(vteps@) =~= vtep_views(old(self).vteps@).update(i as int, merged@));
            assert(pre[i as int].name@ == old(self).vteps@[i as int].name@) by {
                assert(vtep_views(pre)[i as int] == pre[i as int]@);
            }
            lemma_vteps_wf_update(pre, i as int, merged);
        }
        let steps = sync_bgp(&self.vteps, &vteps);
        self.vteps = vteps;
        let ghost x = vni;
        crate::keyed::replace_at(&mut self.vnis, k, vni);
        proof {
            lemma_update_same_key(old(self).vnis@, k as int, x);
            assert forall|m: int| 0 <= m < self.vnis@.len() implies (#[trigger] self.vnis@[m]).wf() by {
                if m != k {
                    assert(self.vnis@[m] == old(self).vnis@[m]);
                }
            }
        }
        Ok(steps)
    }

    /// The route reflector registered at the web UI with id `rr_id` and got
    /// its VTEPs and VNIs. A new id brings a new router id. VTEPs that stay
    /// keep their address and last update; the links of VTEPs that are gone
    /// are dropped; BGP follows; every VTEP with a last update is reported.
    pub fn rr_registered(&mut self, rr_id: i32, vteps: Vec<Vtep>, vnis: Vec<Vni>) -> (r: RrRegistration)
        requires
            old(self).wf(),
            vteps_wf(vteps@),
            vnis_wf(vnis@),
        ensures
            final(self).wf(),
            final(self).rr_id == rr_id,
            match r.router_id {
                Some(id) => rr_id != old(self).rr_id && exists|random: u32| random < 0x10000 && id == router_id_of(rr_id, random),
                None => rr_id == old(self).rr_id,
            },
            final(self).vteps@ == merge_states(old(self).vteps@, vteps@),
            final(self).vnis@ == vnis@,
            key_set(final(self).links@) == key_set(old(self).links@).difference(gone_addrs(old(self).vteps@, vteps@)),
            step_views(r.steps@) == bgp_plan(old(self).vteps@, final(self).vteps@),
            report_views(r.states@) == state_reports(final(self).vteps@),
            final(self).loc_addr == old(self).loc_addr,
            final(self).ddns_hostkey == old(self).ddns_hostkey,
    {
        let mut router_id: Option<u32> = None;
        if rr_id != self.rr_id {
            self.rr_id = rr_id;
            router_id = Some(self.router_id());
        }
        let mut vteps = vteps;
        let ghost input = vteps@;
        let mut i: usize = 0;
        while i < vteps.len()
            invariant
                i <= vteps@.len(),
                vteps@.len() == input.len(),
                forall|k: int| 0 <= k < i ==> vteps@[k] == merge_states(self.vteps@, input)[k],
                forall|k: int| i <= k < vteps@.len() ==> vteps@[k] == input[k],
                self.rr_id == rr_id,
                self.vteps == old(self).vteps,
                self.links == old(self).links,
                self.loc_addr == old(self).loc_addr,
                self.ddns_hostkey == old(self).ddns_hostkey,
            decreases vteps@.len() - i,
        {
            match index_of_name(&self.vteps, vteps[i].name.as_str()) {
                Some(j) => {
                    let a = self.vteps[j].ipv6_addr;
                    let t = self.vteps[j].last_update;
                    set_vtep_state(&mut vteps, i, a, t);
                },
                None => {},
            }
            i = i + 1;
        }
        assert(vteps@ =~= merge_states(self.vteps@, input));
        assert forall|k: Seq<char>| has_key(vteps@, k) == has_key(input, k) by {
            if has_key(vteps@, k) {
                let m = choose|m: int| 0 <= m < vteps@.len() && vteps@[m].key() == k;
                assert(input[m].key() == k);
            }
            if has_key(input, k) {
                let m = choose|m: int| 0 <= m < input.len() && input[m].key() == k;
                assert(vteps@[m].key() == k);
            }
        }
        let mut j: usize = 0;
        while j < self.vteps.len()
            invariant
                j <= self.vteps@.len(),
                self.vteps == old(self).vteps,
                self.rr_id == rr_id,
                self.loc_addr == old(self).loc_addr,
                self.ddns_hostkey == old(self).ddns_hostkey,
                self.vnis == old(self).vnis,
                unique_keys(self.links@),
                forall|k: Seq<char>| has_key(vteps@, k) == has_key(input, k),
                key_set(self.links@) == key_set(old(self).links@).difference(gone_addrs(self.vteps@.subrange(0, j as int), input)),
            decreases self.vteps@.len() - j,
        {
            let ghost before = key_set(self.links@);
            proof {
                lemma_key_index_none(vteps@, self.vteps@[j as int].name@);
            }
            if index_of_name(&vteps, self.vteps[j].name.as_str()).is_none() {
                if let Some(a) = self.vteps[j].ipv6_addr {
                    remove_key(&mut self.links, &a);
                }
            }
            proof {
                let s = self.vteps@.subrange(0, j + 1);
                let p = self.vteps@.subrange(0, j as int);
                assert forall|a: u128| #[trigger] gone_addrs(s, input).contains(a) <==> gone_addrs(p, input).contains(a) || (self.vteps@[j as int].ipv6_addr == Some(a) && !has_key(input, self.vteps@[j as int].name@)) by {
                    if gone_addrs(s, input).contains(a) {
                        let m = choose|m: int| 0 <= m < s.len() && s[m].ipv6_addr == Some(a) && !has_key(input, #[trigger] s[m].name@);
                        if m < j {
                            assert(p[m] == s[m]);
                        }
                    }
                    if gone_addrs(p, input).contains(a) {
                        let m = choose|m: int| 0 <= m < p.len() && p[m].ipv6_addr == Some(a) && !has_key(input, #[trigger] p[m].name@);
                        assert(s[m] == p[m]);
                    }
                    if self.vteps@[j as int].ipv6_addr == Some(a) && !has_key(input, self.vteps@[j as int].name@) {
                        assert(s[j as int] == self.vteps@[j as int]);
                    }
                }
                assert(key_set(self.links@) =~= key_set(old(self).links@).difference(gone_addrs(s, input)));
            }
            j = j + 1;
        }
        assert(self.vteps@.subrange(0, self.vteps@.len() as int) =~= self.vteps@);
        proof {
            let m = merge_states(old(self).vteps@, input);
            assert forall|k: int| 0 <= k < m.len() implies m[k].name@ == input[k].name@ && m[k].vnis == input[k].vnis by {}
            assert forall|a: int, b: int| 0 <= a < m.len() && 0 <= b < m.len() && a != b implies m[a].key() != m[b].key() by {
                assert(m[a].key() == input[a].key());
                assert(m[b].key() == input[b].key());
            }
            assert forall|k: int| 0 <= k < m.len() implies (#[trigger] m[k]).wf() by {
                assert(m[k].vnis == input[k].vnis);
                assert(input[k].wf());
            }
        }
        let steps = sync_bgp(&self.vteps, &vteps);
        self.vteps = vteps;
        self.vnis = vnis;
        let states = state_reports_of(&self.vteps);
        RrRegistration { router_id, steps, states }
    }

    /// The local address changed to `loc_addr` at `now`: every link and
    /// neighbour goes, every VTEP loses its address, and the dynamic DNS name
    /// is renewed for the new address.
    pub fn loc_addr_changed(&mut self, loc_addr: Option<u128>, now: u64) -> (r: LocChange)
        requires
            old(self).wf(),
        ensures
            final(self).wf(),
            final(self).links@.len() == 0,
            step_views(r.steps@) == addr_dels(old(self).vteps@),
            final(self).vteps@ == Seq::new(
                old(self).vteps@.len(),
                |i: int| (Vtep { ipv6_addr: None, last_update: Some(now), ..old(self).vteps@[i] }),
            ),
            match r.ddns_url {
                Some(u) => ddns_url_of(old(self).ddns_hostkey@, loc_addr) == Some(u@),
                None => ddns_url_of(old(self).ddns_hostkey@, loc_addr) is None,
            },
            final(self).loc_addr == loc_addr,
            final(self).rr_id == old(self).rr_id,
            final(self).vnis == old(self).vnis,
            final(self).ddns_hostkey == old(self).ddns_hostkey,
    {
        self.links = Vec::new();
        let mut steps: Vec<BgpStep> = Vec::new();
        let mut i: usize = 0;
        while i < self.vteps.len()
            invariant
                i <= self.vteps@.len(),
                self.vteps@.len() == old(self).vteps@.len(),
                forall|k: int| 0 <= k < i ==> self.vteps@[k] == (Vtep { ipv6_addr: None, last_update: Some(now), ..old(self).vteps@[k] }),
                forall|k: int| i <= k < self.vteps@.len() ==> self.vteps@[k] == old(self).vteps@[k],
                step_views(steps@) == addr_dels(old(self).vteps@.subrange(0, i as int)),
                vteps_wf(self.vteps@),
                self.links@.len() == 0,
                self.rr_id == old(self).rr_id,
                self.vnis == old(self).vnis,
                self.ddns_hostkey == old(self).ddns_hostkey,
                self.loc_addr == old(self).loc_addr,
            decreases self.vteps@.len() - i,
        {
            if let Some(a) = self.vteps[i].ipv6_addr {
                steps.push(BgpStep::DelNeighbor(a));
            }
            let ghost cur = self.vteps@;
            set_vtep_state(&mut self.vteps, i, None, Some(now));
            proof {
                lemma_vteps_wf_update(cur, i as int, self.vteps@[i as int]);
                let s = old(self).vteps@.subrange(0, i + 1);
                assert(s.drop_last() =~= old(self).vteps@.subrange(0, i as int));
                assert(s.last() == old(self).vteps@[i as int]);
                assert(step_views(steps@) =~= addr_dels(s));
            }
            i = i + 1;
        }
        assert(old(self).vteps@.subrange(0, old(self).vteps@.len() as int) =~= old(self).vteps@);
        assert(self.vteps@ =~= Seq::new(
            old(self).vteps@.len(),
            |i: int| (Vtep { ipv6_addr: None, last_update: Some(now), ..old(self).vteps@[i] }),
        ));
        let ddns_url = ddns_renew(self.ddns_hostkey.as_str(), loc_addr);
        self.loc_addr = loc_addr;
        LocChange { steps, ddns_url }
    }
}

} // verus!
