use gvls::bgp::{BgpOps, BgpOpsFrr};
use gvls::crypto::hash_password;
use gvls::models::{Vni, Vtep};
use gvls::reflector::neighbors::peers_of;
use gvls::reflector::plan::{sync_bgp, BgpStep};
use gvls::reflector::{bgp_step_cmds, ddns_renew, neighs_differ, router_id_from, Reflector};

const A1: u128 = 0x2001_0db8_0000_0000_0000_0000_0000_0001;
const A2: u128 = 0x2001_0db8_0000_0000_0000_0000_0000_0002;
const A3: u128 = 0x2001_0db8_0000_0000_0000_0000_0000_0003;

fn vtep(name: &str, vnis: Vec<i32>, addr: Option<u128>) -> Vtep {
    Vtep {
        id: 1,
        name: name.to_string(),
        description: String::new(),
        password: "h".to_string(),
        bgp_pass: "bp".to_string(),
        account_id: 1,
        vnis,
        ipv6_addr: addr,
        last_update: None,
    }
}

fn sorted(mut v: Vec<u128>) -> Vec<u128> {
    v.sort();
    v
}

#[test]
fn router_ids() {
    assert_eq!(router_id_from(5, 0), 0xac10_0005);
    assert_eq!(router_id_from(0x1234_5678, 9), 0xac10_0000 | 0x0234_5678);
    assert_eq!(router_id_from(-1, 0x1234), 0xa9fe_1234);
    assert_eq!(router_id_from(0, 0), 0xa9fe_0000);
    let mut r = Reflector::new(String::new());
    let id = r.router_id();
    assert_eq!(id & 0xffff_0000, 0xa9fe_0000);
    r.rr_id = 3;
    assert_eq!(r.router_id(), 0xac10_0003);
}

#[test]
fn ddns_urls() {
    assert_eq!(ddns_renew("", Some(A1)), None);
    assert_eq!(ddns_renew("key", None), None);
    assert_eq!(
        ddns_renew("key", Some(A1)),
        Some("https://ddnsapi-v6.open.ad.jp/api/renew/?key=2001:db8::1".to_string())
    );
}

#[test]
fn peers_share_a_vni_and_have_an_address() {
    let vteps = vec![
        vtep("a", vec![10], Some(A1)),
        vtep("b", vec![10, 20], Some(A2)),
        vtep("c", vec![20], Some(A3)),
        vtep("d", vec![10], None),
    ];
    assert_eq!(sorted(peers_of(&vteps, &vec![10], A1)), vec![A2]);
    assert_eq!(sorted(peers_of(&vteps, &vec![10, 20], A2)), vec![A1, A3]);
    assert!(peers_of(&vteps, &vec![30], A1).is_empty());
}

#[test]
fn neighbour_updates_only_on_change() {
    assert!(!neighs_differ(&vec![A1, A2], &vec![A2, A1]));
    assert!(neighs_differ(&vec![A1], &vec![A1, A2]));
    assert!(!neighs_differ(&vec![], &vec![]));
}

#[test]
fn sync_plan() {
    let old = vec![vtep("a", vec![10], Some(A1)), vtep("b", vec![], Some(A2))];
    let new = vec![vtep("a", vec![10, 20], Some(A1)), vtep("c", vec![], Some(A3))];
    let steps = sync_bgp(&old, &new);
    assert_eq!(steps.len(), 6);
    assert!(matches!(&steps[0], BgpStep::DelNeighbor(a) if *a == A2));
    assert!(matches!(&steps[1], BgpStep::DelRouteMap(n) if n == "b"));
    assert!(matches!(&steps[2], BgpStep::RepRouteMap(n, v) if n == "a" && *v == vec![10, 20]));
    assert!(matches!(&steps[3], BgpStep::UpdNeighborPass(a, p) if *a == A1 && p == "bp"));
    assert!(matches!(&steps[4], BgpStep::RepRouteMap(n, v) if n == "c" && v.is_empty()));
    assert!(matches!(&steps[5], BgpStep::AddNeighbor(a, n, p) if *a == A3 && n == "c" && p == "bp"));
}

#[test]
fn gone_vteps_leave_before_kept_ones_move() {
    // "a" moves to the address that "b", listed after it and now gone, had.
    let old = vec![vtep("a", vec![], Some(A1)), vtep("b", vec![], Some(A2))];
    let new = vec![vtep("a", vec![], Some(A2))];
    let steps = sync_bgp(&old, &new);
    assert_eq!(steps.len(), 4);
    assert!(matches!(&steps[0], BgpStep::DelNeighbor(a) if *a == A2));
    assert!(matches!(&steps[1], BgpStep::DelRouteMap(n) if n == "b"));
    assert!(matches!(&steps[2], BgpStep::DelNeighbor(a) if *a == A1));
    assert!(matches!(&steps[3], BgpStep::AddNeighbor(a, n, _) if *a == A2 && n == "a"));
}

#[test]
fn same_vteps_with_new_passwords_only_refresh() {
    let old = vec![vtep("a", vec![10], Some(A1)), vtep("b", vec![10], None)];
    let mut a2 = vtep("a", vec![10], Some(A1));
    a2.bgp_pass = "new".to_string();
    let new = vec![vtep("b", vec![10], None), a2];
    let steps = sync_bgp(&old, &new);
    assert_eq!(steps.len(), 1);
    assert!(matches!(&steps[0], BgpStep::UpdNeighborPass(a, p) if *a == A1 && p == "new"));
}

#[test]
fn a_moved_vtep_moves_its_neighbour() {
    let steps = sync_bgp(&vec![vtep("a", vec![], Some(A1))], &vec![vtep("a", vec![], Some(A2))]);
    assert_eq!(steps.len(), 2);
    assert!(matches!(&steps[0], BgpStep::DelNeighbor(a) if *a == A1));
    assert!(matches!(&steps[1], BgpStep::AddNeighbor(a, _, _) if *a == A2));
}

#[test]
fn step_commands() {
    let ops = BgpOps::Frr(BgpOpsFrr {});
    let c = bgp_step_cmds(&ops, 64512, None, &BgpStep::DelNeighbor(A1));
    assert_eq!(c[0].args[5], "no neighbor 2001:db8::1");
    let c = bgp_step_cmds(&ops, 64512, Some(A2), &BgpStep::AddNeighbor(A1, "a".to_string(), "bp".to_string()));
    assert_eq!(c.len(), 3);
}

#[test]
fn vtep_sign_in_and_registration() {
    let mut r = Reflector::new("key".to_string());
    let mut a = vtep("a", vec![], None);
    a.password = hash_password("vtep-pw").unwrap();
    assert!(r.add_vtep(a).is_ok());
    assert!(r.add_vtep(vtep("a", vec![], None)).is_err());
    assert!(r.add_vtep(vtep("z", vec![1], None)).is_err());
    let ok = r.auth_vtep("a", "vtep-pw", A1);
    assert_eq!(ok.vtep_name, Ok("a".to_string()));
    assert_eq!(ok.bgp_pass, "bp");
    let bad = r.auth_vtep("a", "nope", A1);
    assert_eq!(bad.vtep_name, Err("Auth failed".to_string()));
    assert_eq!(bad.vtep_id, -1);
    let unknown = r.auth_vtep("q", "vtep-pw", A1);
    assert_eq!(unknown.vtep_name, Err("Auth failed".to_string()));
    let reg = r.vtep_registered("a", A1, 1000).unwrap();
    assert_eq!(reg.state.name, "a");
    assert_eq!(reg.state.ipv6_addr, Some(A1));
    assert_eq!(reg.state.last_update, 1000);
    assert!(matches!(&reg.steps[reg.steps.len() - 1], BgpStep::AddNeighbor(x, _, _) if *x == A1));
    assert!(r.vtep_registered("q", A2, 1000).is_none());
    let ex = r.vtep_exit("a", A1, 2000);
    assert_eq!(ex.state.unwrap().ipv6_addr, None);
    assert_eq!(r.vteps[0].ipv6_addr, None);
}

#[test]
fn vnis_from_the_ui() {
    let mut r = Reflector::new(String::new());
    r.add_vtep(vtep("a", vec![], None)).unwrap();
    assert!(r.add_vni(gvls::messages::AddVniMsg { vni: Vni { id: 1, vni: 10, description: String::new(), account_id: 1, vteps: vec![] } }).is_ok());
    let steps = r.mod_vtep_vni(vtep("a", vec![10], None), Vni { id: 1, vni: 10, description: String::new(), account_id: 1, vteps: vec!["a".to_string()] }).unwrap();
    assert!(matches!(&steps[0], BgpStep::RepRouteMap(n, v) if n == "a" && *v == vec![10]));
    assert!(r.mod_vtep_vni(vtep("b", vec![10], None), Vni { id: 1, vni: 10, description: String::new(), account_id: 1, vteps: vec![] }).is_err());
}

#[test]
fn a_new_local_address_drops_every_neighbour() {
    let mut r = Reflector::new("key".to_string());
    r.add_vtep(vtep("a", vec![], None)).unwrap();
    r.vtep_registered("a", A1, 10).unwrap();
    let ch = r.loc_addr_changed(Some(A3), 20);
    assert_eq!(ch.steps.len(), 1);
    assert!(matches!(&ch.steps[0], BgpStep::DelNeighbor(a) if *a == A1));
    assert_eq!(ch.ddns_url, Some("https://ddnsapi-v6.open.ad.jp/api/renew/?key=2001:db8::3".to_string()));
    assert!(r.links.is_empty());
    assert_eq!(r.vteps[0].ipv6_addr, None);
    assert_eq!(r.vteps[0].last_update, Some(20));
}
