//! The route reflector: it mirrors the VTEPs and VNIs of the web UI into BGP,
//! and tells each connected VTEP which peers it may reach.
pub mod plan;
pub mod neighbors;
pub mod events;
pub mod laws;

use vstd::prelude::*;
use crate::bgp::{cmd_views, ops_add_neighbor, ops_del_neighbor, ops_del_route_map, ops_rep_route_map, ops_upd_neighbor_pass, BgpOps, Cmd, CmdView};
use crate::config::rr::RrConfig;
use crate::crypto::random_below;
use crate::keyed::key_set;
use crate::reflector::plan::{BgpStep, BgpStepView};
use crate::keyed::unique_keys;
use crate::models::{Vni, Vtep};
use crate::net::{ipv6_display, ipv6_text};
use crate::text::owned;

verus! {

/// What a route reflector knows: its id at the web UI, its local address, the
/// VTEPs and VNIs it mirrors, and the addresses of the VTEPs connected to it.
pub struct Reflector {
    pub rr_id: i32,
    pub ddns_hostkey: String,
    pub loc_addr: Option<u128>,
    pub vteps: Vec<Vtep>,
    pub vnis: Vec<Vni>,
    pub links: Vec<u128>,
}

/// A VTEP's state as a route reflector reports it to the web UI.
pub struct VtepStateReport {
    pub name: String,
    pub ipv6_addr: Option<u128>,
    pub last_update: u64,
}

pub struct VtepStateReportView {
    pub name: Seq<char>,
    pub ipv6_addr: Option<u128>,
    pub last_update: u64,
}

impl View for VtepStateReport {
    type V = VtepStateReportView;

    open spec fn view(&self) -> VtepStateReportView {
        VtepStateReportView { name: self.name@, ipv6_addr: self.ipv6_addr, last_update: self.last_update }
    }
}

/// The VTEPs are keyed by name, the VNIs by number, and each holds a set.
pub open spec fn vteps_wf(s: Seq<Vtep>) -> bool {
    &&& unique_keys(s)
    &&& forall|i: int| 0 <= i < s.len() ==> (#[trigger] s[i]).wf()
}

pub open spec fn vnis_wf(s: Seq<Vni>) -> bool {
    &&& unique_keys(s)
    &&& forall|i: int| 0 <= i < s.len() ==> (#[trigger] s[i]).wf()
}

impl Reflector {
    /// No VTEP name, VNI number or link address occurs twice.
    pub open spec fn wf(&self) -> bool {
        &&& vteps_wf(self.vteps@)
        &&& vnis_wf(self.vnis@)
        &&& unique_keys(self.links@)
    }

    /// A route reflector that knows nothing yet.
    pub fn new(ddns_hostkey: String) -> (r: Reflector)
        ensures
            r.wf(),
            r.rr_id == -1,
            r.ddns_hostkey == ddns_hostkey,
            r.loc_addr is None,
            r.vteps@.len() == 0,
            r.vnis@.len() == 0,
            r.links@.len() == 0,
    {
        Reflector { rr_id: -1, ddns_hostkey, loc_addr: None, vteps: Vec::new(), vnis: Vec::new(), links: Vec::new() }
    }
}

/// The router id of a route reflector with id `rr_id`: `172.16.0.0/12` holds
/// the low 28 bits of a positive id; otherwise the id is `169.254.x.y` with the
/// 16 random bits `random`.
pub open spec fn router_id_of(rr_id: i32, random: u32) -> u32 {
    if rr_id > 0 {
        0xac100000u32 | ((rr_id as u32) & 0x0fffffffu32)
    } else {
        0xa9fe0000u32 | random
    }
}

/// The router id for `rr_id`, with `random` as the random part.
pub fn router_id_from(rr_id: i32, random: u32) -> (r: u32)
    requires
        random < 0x10000,
    ensures
        r == router_id_of(rr_id, random),
{
    if rr_id > 0 {
        let bits: u32 = rr_id as u32 & 0x0fffffffu32;
        0xac100000u32 | bits
    } else {
        0xa9fe0000u32 | random
    }
}

impl Reflector {
    /// The BGP router id: derived from the id at the web UI when there is one,
    /// otherwise a random link-local one.
    pub fn router_id(&self) -> (r: u32)
        ensures
            exists|random: u32| random < 0x10000 && r == router_id_of(self.rr_id, random),
    {
        let random = random_below(0x10000);
        router_id_from(self.rr_id, random)
    }
}

/// The dynamic DNS renewal request for the new local address: none without a
/// host key or an address.
pub open spec fn ddns_url_of(hostkey: Seq<char>, addr: Option<u128>) -> Option<Seq<char>> {
    match addr {
        Some(a) if hostkey.len() > 0 => Some("https://ddnsapi-v6.open.ad.jp/api/renew/?"@ + hostkey + seq!['='] + ipv6_display(a)),
        _ => None,
    }
}

/// The URL that renews the dynamic DNS name of the route reflector.
pub fn ddns_renew(hostkey: &str, newaddr: Option<u128>) -> (r: Option<String>)
    ensures
        match r {
            Some(u) => ddns_url_of(hostkey@, newaddr) == Some(u@),
            None => ddns_url_of(hostkey@, newaddr) is None,
        },
{
    if hostkey.is_empty() {
        return None;
    }
    let a = match newaddr {
        Some(a) => a,
        None => return None,
    };
    let mut url = owned("https://ddnsapi-v6.open.ad.jp/api/renew/?");
    url.push_str(hostkey);
    url.push('=');
    let t = ipv6_text(a);
    url.push_str(t.as_str());
    assert(url@ =~= "https://ddnsapi-v6.open.ad.jp/api/renew/?"@ + hostkey@ + seq!['='] + ipv6_display(a));
    Some(url)
}


impl Reflector {
    /// A route reflector for the settings: the web UI's address and the name
    /// and password there are required.
    pub fn from_conf(conf: &RrConfig) -> (r: Result<Reflector, String>)
        ensures
            match r {
                Ok(rr) => {
                    &&& conf.ui_addr is Some && conf.rr_name@.len() > 0 && conf.rr_pass@.len() > 0
                    &&& rr.wf() && rr.rr_id == -1 && rr.ddns_hostkey@ == conf.ddns_hostkey@ && rr.loc_addr is None
                    &&& rr.vteps@.len() == 0 && rr.vnis@.len() == 0 && rr.links@.len() == 0
                },
                Err(e) => e@ == if conf.ui_addr is None {
                    "gvls-ui address required"@
                } else if conf.rr_name@.len() == 0 {
                    "GVLS_RR_NAME required"@
                } else {
                    "GVLS_RR_PASS required"@
                } && (conf.ui_addr is None || conf.rr_name@.len() == 0 || conf.rr_pass@.len() == 0),
            },
    {
        if conf.ui_addr.is_none() {
            return Err(owned("gvls-ui address required"));
        }
        if conf.rr_name.as_str().is_empty() {
            return Err(owned("GVLS_RR_NAME required"));
        }
        if conf.rr_pass.as_str().is_empty() {
            return Err(owned("GVLS_RR_PASS required"));
        }
        Ok(Reflector::new(conf.ddns_hostkey.clone()))
    }
}

/// The commands of a BGP step, with the route reflector's local address: a
/// VTEP is added as a route-reflector client.
pub open spec fn step_cmds(ops: BgpOps, asnum: u32, loc_addr: Option<u128>, step: BgpStepView) -> Seq<CmdView> {
    match step {
        BgpStepView::DelNeighbor(a) => ops_del_neighbor(ops, asnum, a),
        BgpStepView::DelRouteMap(n) => ops_del_route_map(ops, n),
        BgpStepView::RepRouteMap(n, v) => ops_rep_route_map(ops, n, v),
        BgpStepView::UpdNeighborPass(a, p) => ops_upd_neighbor_pass(ops, asnum, a, p),
        BgpStepView::AddNeighbor(a, n, p) => ops_add_neighbor(ops, asnum, a, loc_addr, n, p, true),
    }
}

/// The commands that carry out a BGP step.
pub fn bgp_step_cmds(ops: &BgpOps, asnum: u32, loc_addr: Option<u128>, step: &BgpStep) -> (r: Vec<Cmd>)
    requires
        step matches BgpStep::RepRouteMap(_, v) ==> 2 * v@.len() + 1 <= u64::MAX,
    ensures
        cmd_views(r@) == step_cmds(*ops, asnum, loc_addr, step@),
{
    match step {
        BgpStep::DelNeighbor(a) => ops.del_neighbor(asnum, *a),
        BgpStep::DelRouteMap(n) => ops.del_route_map(n.as_str()),
        BgpStep::RepRouteMap(n, v) => ops.rep_route_map(n.as_str(), v),
        BgpStep::UpdNeighborPass(a, p) => ops.upd_neighbor_pass(asnum, *a, p.as_str()),
        BgpStep::AddNeighbor(a, n, p) => ops.add_neighbor(asnum, *a, loc_addr, n.as_str(), p.as_str(), true),
    }
}

/// Whether a VTEP's peers differ from those it was last sent: an update is
/// sent only then.
pub fn neighs_differ(sent: &Vec<u128>, neighs: &Vec<u128>) -> (r: bool)
    ensures
        r == (key_set(sent@) != key_set(neighs@)),
{
    !crate::keyed::same_key_sets(sent, neighs)
}

} // verus!
