//! The VTEP's state and its answers to events from its route reflectors, its
//! local interface and its control tool.
use vstd::prelude::*;
use crate::bgp::{cmd_views, Cmd, CmdView};
use crate::keyed::{insert_key, key_difference, key_set, keys, unique_keys};
use crate::models::copy_vec;
use crate::config::vtep::VtepConfig;
use crate::text::{decimal, owned, push_u64};
use crate::vtep::setup::{update_bgp, update_bgp_plan, update_vni, update_vni_cmds, NeighborChange};

verus! {

/// A VNI and the interface that joins its bridge.
pub struct VniPort {
    pub vni: u32,
    pub ifname: String,
}

/// What a VTEP knows: its two route reflectors, its VNIs, its local address,
/// the remote address and BGP password of each route reflector, the peers it
/// lets through and the peers each route reflector allows.
pub struct VtepAgent {
    pub rr_hosts: Vec<String>,
    pub vnis: Vec<VniPort>,
    pub loc_addr: Option<u128>,
    pub rem_addrs: Vec<Option<u128>>,
    pub bgp_pass: Vec<String>,
    pub neighs_active: Vec<u128>,
    pub neighs_allowed: Vec<Vec<u128>>,
}

/// Peers to stop and to start letting through.
pub struct NeighSync {
    pub dels: Vec<u128>,
    pub adds: Vec<u128>,
}

/// What follows a change of the local address: the VXLAN commands, and the
/// BGP changes for each route reflector.
pub struct LocUpdate {
    pub vni_cmds: Vec<Cmd>,
    pub bgp: Vec<Vec<NeighborChange>>,
}

/// The peers that either route reflector allows.
pub open spec fn allowed_union(allowed: Seq<Vec<u128>>) -> Set<u128> {
    key_set(allowed[0]@).union(key_set(allowed[1]@))
}

/// The VXLAN commands for every VNI when the local address moves.
pub open spec fn vnis_update_cmds(vnis: Seq<VniPort>, cur: Option<u128>, next: Option<u128>) -> Seq<CmdView>
    decreases vnis.len(),
{
    if vnis.len() == 0 {
        seq![]
    } else {
        vnis_update_cmds(vnis.drop_last(), cur, next) + update_vni_cmds(vnis.last().vni, cur, next)
    }
}

/// Some VNI entry has number `vni`.
pub open spec fn has_vni(vnis: Seq<VniPort>, vni: u32) -> bool {
    exists|i: int| 0 <= i < vnis.len() && vnis[i].vni == vni
}

pub open spec fn index_message(prefix: Seq<char>, i: usize) -> Seq<char> {
    prefix + decimal(i as nat)
}

fn index_text(prefix: &str, i: usize) -> (r: String)
    ensures
        r@ == index_message(prefix@, i),
{
    let mut s = owned(prefix);
    push_u64(&mut s, i as u64);
    s
}

impl VtepAgent {
    /// Two route reflectors; every set of peers holds each address once.
    pub open spec fn wf(&self) -> bool {
        &&& self.rr_hosts@.len() == 2
        &&& self.rem_addrs@.len() == 2
        &&& self.bgp_pass@.len() == 2
        &&& self.neighs_allowed@.len() == 2
        &&& unique_keys(self.neighs_active@)
        &&& unique_keys(self.neighs_allowed@[0]@)
        &&& unique_keys(self.neighs_allowed@[1]@)
    }

    /// A VTEP before anything happened: no addresses, passwords or peers.
    pub fn new(rr_hosts: Vec<String>, vnis: Vec<VniPort>) -> (r: VtepAgent)
        requires
            rr_hosts@.len() == 2,
        ensures
            r.wf(),
            r.rr_hosts == rr_hosts,
            r.vnis == vnis,
            r.loc_addr is None,
            r.rem_addrs@ == seq![None::<u128>, None::<u128>],
            r.bgp_pass@.len() == 2 && r.bgp_pass@[0]@.len() == 0 && r.bgp_pass@[1]@.len() == 0,
            r.neighs_active@.len() == 0,
            r.neighs_allowed@[0]@.len() == 0 && r.neighs_allowed@[1]@.len() == 0,
    {
        let mut rem_addrs: Vec<Option<u128>> = Vec::new();
        rem_addrs.push(None);
        rem_addrs.push(None);
        let mut bgp_pass: Vec<String> = Vec::new();
        bgp_pass.push(String::new());
        bgp_pass.push(String::new());
        let mut neighs_allowed: Vec<Vec<u128>> = Vec::new();
        neighs_allowed.push(Vec::new());
        neighs_allowed.push(Vec::new());
        assert(rem_addrs@ =~= seq![None::<u128>, None::<u128>]);
        VtepAgent { rr_hosts, vnis, loc_addr: None, rem_addrs, bgp_pass, neighs_active: Vec::new(), neighs_allowed }
    }

    /// Lets through exactly the peers that either route reflector allows.
    pub fn sync_neighs(&mut self) -> (r: NeighSync)
        requires
            old(self).wf(),
        ensures
            final(self).wf(),
            key_set(final(self).neighs_active@) == allowed_union(old(self).neighs_allowed@),
            key_set(r.dels@) == key_set(old(self).neighs_active@).difference(allowed_union(old(self).neighs_allowed@)),
            key_set(r.adds@) == allowed_union(old(self).neighs_allowed@).difference(key_set(old(self).neighs_active@)),
            unique_keys(r.dels@),
            unique_keys(r.adds@),
            final(self).neighs_allowed == old(self).neighs_allowed,
            final(self).rr_hosts == old(self).rr_hosts,
            final(self).vnis == old(self).vnis,
            final(self).loc_addr == old(self).loc_addr,
            final(self).rem_addrs == old(self).rem_addrs,
            final(self).bgp_pass == old(self).bgp_pass,
    {
        let mut allowed = copy_vec(&self.neighs_allowed[0]);
        let second = &self.neighs_allowed[1];
        let mut k: usize = 0;
        while k < second.len()
            invariant
                k <= second@.len(),
                unique_keys(allowed@),
                key_set(allowed@) == key_set(self.neighs_allowed@[0]@).union(key_set(second@.subrange(0, k as int))),
            decreases second@.len() - k,
        {
            insert_key(&mut allowed, second[k]);
            proof {
                let s = second@.subrange(0, k + 1);
                assert(keys(s) =~= keys(second@.subrange(0, k as int)).push(second@[k as int]));
                crate::keyed::lemma_to_set_push(keys(second@.subrange(0, k as int)), second@[k as int]);
                assert(key_set(allowed@) =~= key_set(self.neighs_allowed@[0]@).union(key_set(s)));
            }
            k = k + 1;
        }
        assert(second@.subrange(0, second@.len() as int) =~= second@);
        let dels = key_difference(&self.neighs_active, &allowed);
        let adds = key_difference(&allowed, &self.neighs_active);
        self.neighs_active = allowed;
        NeighSync { dels, adds }
    }
}


/// The wrapped error of a setup that failed: `<prefix><vni>:<ifname> error: <e>`.
pub open spec fn vni_error(prefix: Seq<char>, vni: u32, ifname: Seq<char>, e: Seq<char>) -> Seq<char> {
    prefix + decimal(vni as nat) + seq![':'] + ifname + " error: "@ + e
}

/// The error of setting up a configured VNI at start.
pub fn setup_vni_error(vni: u32, ifname: &str, e: &str) -> (r: String)
    ensures
        r@ == vni_error("Setup VNI "@, vni, ifname@, e@),
{
    let mut s = owned("Setup VNI ");
    push_u64(&mut s, vni as u64);
    s.push(':');
    s.push_str(ifname);
    s.push_str(" error: ");
    s.push_str(e);
    s
}

fn set_at<T>(v: &mut Vec<T>, i: usize, x: T)
    requires
        i < old(v)@.len(),
    ensures
        final(v)@ == old(v)@.update(i as int, x),
{
    crate::keyed::replace_at(v, i, x);
}

impl VtepAgent {
    /// Registered at route reflector `rr_index` (0 or 1): its BGP password and
    /// the peers it allows are recorded, and the peers are synchronised.
    pub fn vtep_registered(&mut self, rr_index: usize, bgp_pass: String, neighs: Vec<u128>) -> (r: Result<NeighSync, String>)
        requires
            old(self).wf(),
            unique_keys(neighs@),
        ensures
            final(self).wf(),
            match r {
                Ok(sync) => {
                    &&& rr_index < 2
                    &&& final(self).bgp_pass@ == old(self).bgp_pass@.update(rr_index as int, bgp_pass)
                    &&& final(self).neighs_allowed@ == old(self).neighs_allowed@.update(rr_index as int, neighs)
                    &&& key_set(final(self).neighs_active@) == allowed_union(final(self).neighs_allowed@)
                    &&& key_set(sync.dels@) == key_set(old(self).neighs_active@).difference(allowed_union(final(self).neighs_allowed@))
                    &&& key_set(sync.adds@) == allowed_union(final(self).neighs_allowed@).difference(key_set(old(self).neighs_active@))
                },
                Err(e) => {
                    &&& rr_index >= 2
                    &&& e@ == index_message("VTEP registration from invalid RR index: "@, rr_index)
                    &&& *final(self) == *old(self)
                },
            },
            final(self).rr_hosts == old(self).rr_hosts,
            final(self).vnis == old(self).vnis,
            final(self).loc_addr == old(self).loc_addr,
            final(self).rem_addrs == old(self).rem_addrs,
    {
        if rr_index >= 2 {
            return Err(index_text("VTEP registration from invalid RR index: ", rr_index));
        }
        set_at(&mut self.bgp_pass, rr_index, bgp_pass);
        set_at(&mut self.neighs_allowed, rr_index, neighs);
        Ok(self.sync_neighs())
    }

    /// Route reflector `rr_index` sent the peers it allows now; the peers are
    /// synchronised.
    pub fn update_neighs(&mut self, rr_index: usize, neighs: Vec<u128>) -> (r: Result<NeighSync, String>)
        requires
            old(self).wf(),
            unique_keys(neighs@),
        ensures
            final(self).wf(),
            match r {
                Ok(sync) => {
                    &&& rr_index < 2
                    &&& final(self).neighs_allowed@ == old(self).neighs_allowed@.update(rr_index as int, neighs)
                    &&& key_set(final(self).neighs_active@) == allowed_union(final(self).neighs_allowed@)
                    &&& key_set(sync.dels@) == key_set(old(self).neighs_active@).difference(allowed_union(final(self).neighs_allowed@))
                    &&& key_set(sync.adds@) == allowed_union(final(self).neighs_allowed@).difference(key_set(old(self).neighs_active@))
                },
                Err(e) => {
                    &&& rr_index >= 2
                    &&& e@ == index_message("Neighbor update from invalid RR index: "@, rr_index)
                    &&& *final(self) == *old(self)
                },
            },
            final(self).rr_hosts == old(self).rr_hosts,
            final(self).vnis == old(self).vnis,
            final(self).loc_addr == old(self).loc_addr,
            final(self).rem_addrs == old(self).rem_addrs,
            final(self).bgp_pass == old(self).bgp_pass,
    {
        if rr_index >= 2 {
            return Err(index_text("Neighbor update from invalid RR index: ", rr_index));
        }
        set_at(&mut self.neighs_allowed, rr_index, neighs);
        Ok(self.sync_neighs())
    }

    /// The remote address of route reflector `rr_index` changed; the BGP
    /// session follows it (see `update_bgp_plan`).
    pub fn rem_addr_changed(&mut self, rr_index: usize, rem_addr: Option<u128>) -> (r: Result<Vec<NeighborChange>, String>)
        requires
            old(self).wf(),
        ensures
            final(self).wf(),
            match r {
                Ok(changes) => {
                    &&& rr_index < 2
                    &&& changes@ == update_bgp_plan(old(self).loc_addr, old(self).loc_addr, old(self).rem_addrs@[rr_index as int], rem_addr)
                    &&& final(self).rem_addrs@ == old(self).rem_addrs@.update(rr_index as int, rem_addr)
                },
                Err(e) => {
                    &&& rr_index >= 2
                    &&& e@ == index_message("Remote address change from invalid RR index: "@, rr_index)
                    &&& final(self).rem_addrs == old(self).rem_addrs
                },
            },
            final(self).rr_hosts == old(self).rr_hosts,
            final(self).vnis == old(self).vnis,
            final(self).loc_addr == old(self).loc_addr,
            final(self).bgp_pass == old(self).bgp_pass,
            final(self).neighs_active == old(self).neighs_active,
            final(self).neighs_allowed == old(self).neighs_allowed,
    {
        if rr_index >= 2 {
            return Err(index_text("Remote address change from invalid RR index: ", rr_index));
        }
        let changes = update_bgp(self.loc_addr, self.loc_addr, self.rem_addrs[rr_index], rem_addr);
        set_at(&mut self.rem_addrs, rr_index, rem_addr);
        Ok(changes)
    }

    /// The local address changed: every VXLAN interface and both BGP sessions
    /// follow it.
    pub fn loc_addr_changed(&mut self, loc_addr: Option<u128>) -> (r: LocUpdate)
        requires
            old(self).wf(),
        ensures
            final(self).wf(),
            cmd_views(r.vni_cmds@) == vnis_update_cmds(old(self).vnis@, old(self).loc_addr, loc_addr),
            r.bgp@.len() == 2,
            r.bgp@[0]@ == update_bgp_plan(old(self).loc_addr, loc_addr, old(self).rem_addrs@[0], old(self).rem_addrs@[0]),
            r.bgp@[1]@ == update_bgp_plan(old(self).loc_addr, loc_addr, old(self).rem_addrs@[1], old(self).rem_addrs@[1]),
            final(self).loc_addr == loc_addr,
            final(self).rr_hosts == old(self).rr_hosts,
            final(self).vnis == old(self).vnis,
            final(self).rem_addrs == old(self).rem_addrs,
            final(self).bgp_pass == old(self).bgp_pass,
            final(self).neighs_active == old(self).neighs_active,
            final(self).neighs_allowed == old(self).neighs_allowed,
    {
        let mut vni_cmds: Vec<Cmd> = Vec::new();
        let mut i: usize = 0;
        while i < self.vnis.len()
            invariant
                i <= self.vnis@.len(),
                cmd_views(vni_cmds@) == vnis_update_cmds(self.vnis@.subrange(0, i as int), self.loc_addr, loc_addr),
            decreases self.vnis@.len() - i,
        {
            let ghost before = cmd_views(vni_cmds@);
            let mut c = update_vni(self.vnis[i].vni, self.loc_addr, loc_addr);
            vni_cmds.append(&mut c);
            proof {
                let s = self.vnis@.subrange(0, i + 1);
                assert(s.drop_last() =~= self.vnis@.subrange(0, i as int));
                assert(s.last() == self.vnis@[i as int]);
                assert(cmd_views(vni_cmds@) =~= vnis_update_cmds(s, self.loc_addr, loc_addr));
            }
            i = i + 1;
        }
        assert(self.vnis@.subrange(0, self.vnis@.len() as int) =~= self.vnis@);
        let mut bgp: Vec<Vec<NeighborChange>> = Vec::new();
        bgp.push(update_bgp(self.loc_addr, loc_addr, self.rem_addrs[0], self.rem_addrs[0]));
        bgp.push(update_bgp(self.loc_addr, loc_addr, self.rem_addrs[1], self.rem_addrs[1]));
        self.loc_addr = loc_addr;
        LocUpdate { vni_cmds, bgp }
    }

    /// Whether VNI `vni` may be added: it must not be configured yet.
    pub fn add_vni_check(&self, vni: u32) -> (r: Result<(), String>)
        ensures
            match r {
                Ok(()) => !has_vni(self.vnis@, vni),
                Err(e) => has_vni(self.vnis@, vni) && e@ == "VNI "@ + decimal(vni as nat) + " is already exists"@,
            },
    {
        let mut i: usize = 0;
        while i < self.vnis.len()
            invariant
                i <= self.vnis@.len(),
                forall|k: int| 0 <= k < i ==> self.vnis@[k].vni != vni,
            decreases self.vnis@.len() - i,
        {
            if self.vnis[i].vni == vni {
                let mut e = owned("VNI ");
                push_u64(&mut e, vni as u64);
                e.push_str(" is already exists");
                return Err(e);
            }
            i = i + 1;
        }
        Ok(())
    }

    /// VNI `vni` on `ifname` was set up with result `setup`: on success it is
    /// recorded.
    pub fn add_vni_done(&mut self, vni: u32, ifname: String, setup: Result<(), String>) -> (r: Result<(), String>)
        ensures
            match setup {
                Ok(()) => r is Ok && final(self).vnis@ == old(self).vnis@.push(VniPort { vni, ifname }),
                Err(e) => r matches Err(m) && m@ == vni_error("Add VNI "@, vni, ifname@, e@) && final(self).vnis == old(self).vnis,
            },
            final(self).rr_hosts == old(self).rr_hosts,
            final(self).loc_addr == old(self).loc_addr,
            final(self).rem_addrs == old(self).rem_addrs,
            final(self).bgp_pass == old(self).bgp_pass,
            final(self).neighs_active == old(self).neighs_active,
            final(self).neighs_allowed == old(self).neighs_allowed,
    {
        match setup {
            Err(e) => {
                let mut m = owned("Add VNI ");
                push_u64(&mut m, vni as u64);
                m.push(':');
                m.push_str(ifname.as_str());
                m.push_str(" error: ");
                m.push_str(e.as_str());
                Err(m)
            },
            Ok(()) => {
                self.vnis.push(VniPort { vni, ifname });
                Ok(())
            },
        }
    }

    /// Whether VNI `vni` may be removed: it must be configured.
    pub fn del_vni_check(&self, vni: u32) -> (r: Result<(), String>)
        ensures
            match r {
                Ok(()) => has_vni(self.vnis@, vni),
                Err(e) => !has_vni(self.vnis@, vni) && e@ == "VNI "@ + decimal(vni as nat) + " is not exist"@,
            },
    {
        let mut i: usize = 0;
        while i < self.vnis.len()
            invariant
                i <= self.vnis@.len(),
                forall|k: int| 0 <= k < i ==> self.vnis@[k].vni != vni,
            decreases self.vnis@.len() - i,
        {
            if self.vnis[i].vni == vni {
                return Ok(());
            }
            i = i + 1;
        }
        let mut e = owned("VNI ");
        push_u64(&mut e, vni as u64);
        e.push_str(" is not exist");
        Err(e)
    }

    /// VNI `vni` was removed with result `result`: on success every entry of
    /// it goes, the others stay in order.
    pub fn del_vni_done(&mut self, vni: u32, result: Result<(), String>) -> (r: Result<(), String>)
        ensures
            match result {
                Ok(()) => r is Ok && final(self).vnis@ == old(self).vnis@.filter(|p: VniPort| p.vni != vni),
                Err(e) => r matches Err(m) && m@ == "Delete VNI "@ + decimal(vni as nat) + " error: "@ + e@ && final(self).vnis == old(self).vnis,
            },
            final(self).rr_hosts == old(self).rr_hosts,
            final(self).loc_addr == old(self).loc_addr,
            final(self).rem_addrs == old(self).rem_addrs,
            final(self).bgp_pass == old(self).bgp_pass,
            final(self).neighs_active == old(self).neighs_active,
            final(self).neighs_allowed == old(self).neighs_allowed,
    {
        match result {
            Err(e) => {
                let mut m = owned("Delete VNI ");
                push_u64(&mut m, vni as u64);
                m.push_str(" error: ");
                m.push_str(e.as_str());
                Err(m)
            },
            Ok(()) => {
                let mut kept: Vec<VniPort> = Vec::new();
                let mut old_vnis: Vec<VniPort> = Vec::new();
                std::mem::swap(&mut old_vnis, &mut self.vnis);
                let ghost all = old_vnis@;
                let ghost keep = |p: VniPort| p.vni != vni;
                proof {
                    reveal(Seq::filter);
                }
                while old_vnis.len() > 0
                    invariant
                        keep == (|p: VniPort| p.vni != vni),
                        all == old(self).vnis@,
                        old_vnis@.len() <= all.len(),
                        old_vnis@ == all.subrange(all.len() - old_vnis@.len(), all.len() as int),
                        kept@ == all.subrange(0, all.len() - old_vnis@.len()).filter(keep),
                    decreases old_vnis@.len(),
                {
                    let ghost n = all.len() - old_vnis@.len();
                    let p = old_vnis.remove(0);
                    proof {
                        reveal(Seq::filter);
                        let s = all.subrange(0, n + 1);
                        assert(s.drop_last() =~= all.subrange(0, n));
                        assert(s.last() == p);
                        assert(old_vnis@ =~= all.subrange(all.len() - old_vnis@.len(), all.len() as int));
                    }
                    if p.vni != vni {
                        kept.push(p);
                    }
                    proof {
                        reveal(Seq::filter);
                        let s = all.subrange(0, n + 1);
                        assert(kept@ =~= s.filter(keep));
                    }
                }
                assert(all.subrange(0, all.len() as int) =~= all);
                self.vnis = kept;
                Ok(())
            },
        }
    }
}


impl VtepAgent {
    /// A VTEP for the settings: the name and password are required.
    pub fn from_conf(conf: &VtepConfig) -> (r: Result<VtepAgent, String>)
        requires
            conf.wf(),
        ensures
            match r {
                Ok(a) => {
                    &&& conf.vtep_name@.len() > 0 && conf.vtep_pass@.len() > 0
                    &&& a.wf()
                    &&& a.loc_addr is None
                    &&& a.rr_hosts@.len() == 2 && a.rr_hosts@[0]@ == conf.rr_hosts@[0]@ && a.rr_hosts@[1]@ == conf.rr_hosts@[1]@
                    &&& a.vnis@.len() == conf.vnis@.len()
                    &&& forall|i: int| 0 <= i < a.vnis@.len() ==> (#[trigger] a.vnis@[i]).vni == conf.vnis@[i].vni && a.vnis@[i].ifname@ == conf.vnis@[i].ifname@
                    &&& a.neighs_active@.len() == 0
                },
                Err(e) => e@ == if conf.vtep_name@.len() == 0 {
                    "GVLS_VTEP_NAME required"@
                } else {
                    "GVLS_VTEP_PASS required"@
                } && (conf.vtep_name@.len() == 0 || conf.vtep_pass@.len() == 0),
            },
    {
        if conf.vtep_name.as_str().is_empty() {
            return Err(owned("GVLS_VTEP_NAME required"));
        }
        if conf.vtep_pass.as_str().is_empty() {
            return Err(owned("GVLS_VTEP_PASS required"));
        }
        let mut hosts: Vec<String> = Vec::new();
        hosts.push(conf.rr_hosts[0].clone());
        hosts.push(conf.rr_hosts[1].clone());
        let mut vnis: Vec<VniPort> = Vec::new();
        let mut i: usize = 0;
        while i < conf.vnis.len()
            invariant
                i <= conf.vnis@.len(),
                vnis@.len() == i,
                forall|k: int| 0 <= k < i ==> (#[trigger] vnis@[k]).vni == conf.vnis@[k].vni && vnis@[k].ifname@ == conf.vnis@[k].ifname@,
            decreases conf.vnis@.len() - i,
        {
            vnis.push(VniPort { vni: conf.vnis[i].vni, ifname: conf.vnis[i].ifname.clone() });
            i = i + 1;
        }
        Ok(VtepAgent::new(hosts, vnis))
    }
}

/// Synchronising the peers twice changes nothing the second time: once the
/// peers let through are those allowed, none is removed or added.
pub proof fn lemma_sync_neighs_settles(active: Seq<u128>, allowed: Seq<Vec<u128>>)
    requires
        key_set(active) == allowed_union(allowed),
    ensures
        key_set(active).difference(allowed_union(allowed)) == Set::<u128>::empty(),
        allowed_union(allowed).difference(key_set(active)) == Set::<u128>::empty(),
{
    assert(key_set(active).difference(allowed_union(allowed)) =~= Set::<u128>::empty());
    assert(allowed_union(allowed).difference(key_set(active)) =~= Set::<u128>::empty());
}

/// The peers let through after a synchronisation are those before, less the
/// ones removed, with the ones added.
pub proof fn lemma_sync_neighs_delta(before: Set<u128>, allowed: Set<u128>, dels: Set<u128>, adds: Set<u128>)
    requires
        dels == before.difference(allowed),
        adds == allowed.difference(before),
    ensures
        allowed == before.difference(dels).union(adds),
        dels.disjoint(adds),
{
    assert(allowed =~= before.difference(dels).union(adds));
    assert(dels.disjoint(adds));
}

} // verus!
