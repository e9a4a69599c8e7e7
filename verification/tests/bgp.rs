use gvls::bgp::{BgpOps, BgpOpsFrr, BgpOpsZebraRs, Cmd};

const REM: u128 = 0x2001_0db8_0000_0000_0000_0000_0000_0001;
const LOC: u128 = 0x2001_0db8_0000_0000_0000_0000_0000_0002;

fn args(c: &Cmd) -> Vec<&str> {
    c.args.iter().map(|s| s.as_str()).collect()
}

fn frr() -> BgpOps {
    BgpOps::Frr(BgpOpsFrr {})
}

fn zebra() -> BgpOps {
    BgpOps::ZebraRs(BgpOpsZebraRs {})
}

#[test]
fn backend_names() {
    assert_eq!(frr().name(), "frr");
    assert_eq!(zebra().name(), "zebra-rs");
}

#[test]
fn frr_add_neighbor_without_local_address_does_nothing() {
    assert!(frr().add_neighbor(64512, REM, None, "vtep1", "pw", true).is_empty());
    assert!(zebra().add_neighbor(64512, REM, None, "vtep1", "pw", true).is_empty());
}

#[test]
fn frr_add_neighbor_client() {
    let cmds = frr().add_neighbor(64512, REM, Some(LOC), "vtep1", "secret", false);
    assert_eq!(cmds.len(), 2);
    assert_eq!(cmds[0].program, "vtysh");
    assert_eq!(
        args(&cmds[0]),
        vec![
            "-c", "configure terminal",
            "-c", "router bgp 64512",
            "-c", "neighbor 2001:db8::1 remote-as internal",
            "-c", "neighbor 2001:db8::1 description vtep1",
            "-c", "neighbor 2001:db8::1 password secret",
            "-c", "neighbor 2001:db8::1 update-source 2001:db8::2",
        ]
    );
    assert_eq!(
        args(&cmds[1]),
        vec![
            "-c", "configure terminal",
            "-c", "router bgp 64512",
            "-c", "address-family l2vpn evpn",
            "-c", "neighbor 2001:db8::1 activate",
        ]
    );
}

#[test]
fn frr_add_neighbor_reflector_client_gets_route_maps() {
    let cmds = frr().add_neighbor(65000, REM, Some(LOC), "vtep1", "secret", true);
    assert_eq!(cmds.len(), 3);
    assert_eq!(
        args(&cmds[1]),
        vec![
            "-c", "configure terminal",
            "-c", "router bgp 65000",
            "-c", "address-family l2vpn evpn",
            "-c", "neighbor 2001:db8::1 route-reflector-client",
            "-c", "neighbor 2001:db8::1 route-map gvlm-rm-vtep1 in",
            "-c", "neighbor 2001:db8::1 route-map gvlm-rm-vtep1 out",
        ]
    );
}

#[test]
fn zebra_add_neighbor() {
    let cmds = zebra().add_neighbor(64512, REM, Some(LOC), "vtep1", "secret", true);
    assert_eq!(cmds.len(), 2);
    assert_eq!(cmds[0].program, "vtyctl");
    assert_eq!(
        args(&cmds[0]),
        vec![
            "apply",
            "-c",
            "set router bgp neighbor 2001:db8::1 remote-as 64512\n\
set router bgp neighbor 2001:db8::1 description vtep1\n\
set router bgp neighbor 2001:db8::1 password secret\n\
set router bgp neighbor 2001:db8::1 update-source 2001:db8::2\n\
set router bgp neighbor 2001:db8::1 afi-safi evpn enabled true",
        ]
    );
    assert_eq!(
        args(&cmds[1]),
        vec![
            "apply",
            "-c",
            "set router bgp neighbor 2001:db8::1 route-reflector client true\n\
set router bgp neighbor 2001:db8::1 policy in gvlm-rm-vtep1\n\
set router bgp neighbor 2001:db8::1 policy out gvlm-rm-vtep1",
        ]
    );
}

#[test]
fn del_neighbor_commands() {
    let c = frr().del_neighbor(64512, REM);
    assert_eq!(c.len(), 1);
    assert_eq!(args(&c[0]), vec!["-c", "configure terminal", "-c", "router bgp 64512", "-c", "no neighbor 2001:db8::1"]);
    let z = zebra().del_neighbor(64512, REM);
    assert_eq!(args(&z[0]), vec!["apply", "-c", "delete router bgp neighbor 2001:db8::1"]);
}

#[test]
fn update_source_and_password_commands() {
    let c = frr().upd_neighbor_us(1, REM, LOC);
    assert_eq!(
        args(&c[0]),
        vec!["-c", "configure terminal", "-c", "router bgp 1", "-c", "neighbor 2001:db8::1 update-source 2001:db8::2"]
    );
    let p = frr().upd_neighbor_pass(1, REM, "abc");
    assert_eq!(args(&p[0]), vec!["-c", "configure terminal", "-c", "router bgp 1", "-c", "neighbor 2001:db8::1 password abc"]);
    let zu = zebra().upd_neighbor_us(1, REM, LOC);
    assert_eq!(args(&zu[0]), vec!["apply", "-c", "set router bgp neighbor 2001:db8::1 update-source 2001:db8::2"]);
    let zp = zebra().upd_neighbor_pass(1, REM, "abc");
    assert_eq!(args(&zp[0]), vec!["apply", "-c", "set router bgp neighbor 2001:db8::1 password abc"]);
}

#[test]
fn frr_replace_route_map() {
    let c = frr().rep_route_map("v1", &vec![100]);
    assert_eq!(c.len(), 4);
    assert_eq!(args(&c[0]), vec!["-c", "configure terminal", "-c", "no route-map gvlm-rm-v1"]);
    assert_eq!(
        args(&c[1]),
        vec!["-c", "configure terminal", "-c", "route-map gvlm-rm-v1 permit 1", "-c", "match evpn route-type macip", "-c", "match evpn vni 100"]
    );
    assert_eq!(
        args(&c[2]),
        vec!["-c", "configure terminal", "-c", "route-map gvlm-rm-v1 permit 2", "-c", "match evpn route-type multicast", "-c", "match evpn vni 100"]
    );
    assert_eq!(args(&c[3]), vec!["-c", "configure terminal", "-c", "route-map gvlm-rm-v1 deny 3"]);
}

#[test]
fn frr_replace_route_map_without_vnis_denies_all() {
    let c = frr().rep_route_map("v1", &vec![]);
    assert_eq!(c.len(), 2);
    assert_eq!(args(&c[1]), vec!["-c", "configure terminal", "-c", "route-map gvlm-rm-v1 deny 1"]);
}

#[test]
fn zebra_replace_route_map() {
    let c = zebra().rep_route_map("v1", &vec![7, 8]);
    assert_eq!(c.len(), 5);
    assert_eq!(args(&c[0]), vec!["apply", "-c", "delete policy gvlm-rm-v1"]);
    assert_eq!(
        args(&c[1])[2],
        "set policy gvlm-rm-v1 entry 1 match evpn route-type macip\n\
set policy gvlm-rm-v1 entry 1 match evpn vni 7\n\
set policy gvlm-rm-v1 entry 1 action permit"
    );
    assert_eq!(
        args(&c[2])[2],
        "set policy gvlm-rm-v1 entry 2 match evpn route-type multicast\n\
set policy gvlm-rm-v1 entry 2 match evpn vni 7\n\
set policy gvlm-rm-v1 entry 2 action permit\n"
    );
    assert!(args(&c[4])[2].starts_with("set policy gvlm-rm-v1 entry 4 match evpn route-type multicast"));
}

#[test]
fn negative_vni_in_route_map() {
    let c = frr().rep_route_map("v1", &vec![-5]);
    assert_eq!(args(&c[1])[7], "match evpn vni -5");
}

#[test]
fn init_commands() {
    let c = frr().init(64512);
    assert_eq!(
        args(&c[0]),
        vec![
            "-c", "configure terminal",
            "-c", "ipv6 nht resolve-via-default",
            "-c", "router bgp 64512",
            "-c", "address-family l2vpn evpn",
            "-c", "advertise-all-vni",
        ]
    );
    let z = zebra().init(64512);
    assert_eq!(
        args(&z[0]),
        vec!["apply", "-c", "set router bgp global as 64512\nset router bgp afi-safi evpn advertise-all-vni true"]
    );
}

#[test]
fn delete_route_map_commands() {
    let c = frr().del_route_map("abc");
    assert_eq!(args(&c[0]), vec!["-c", "configure terminal", "-c", "no route-map gvlm-rm-abc"]);
    let z = zebra().del_route_map("abc");
    assert_eq!(args(&z[0]), vec!["apply", "-c", "delete policy gvlm-rm-abc"]);
}
