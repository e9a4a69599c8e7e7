use gvls::bgp::{BgpOps, BgpOpsFrr, Cmd};
use gvls::rtnl::{AddrAttr, AddrMsg};
use gvls::vtep::address::{AddrEvent, AddrSelector};
use gvls::vtep::agent::{setup_vni_error, VniPort, VtepAgent};
use gvls::vtep::setup::{
    add_neigh, add_vni, brname, del_neigh, del_vni, init_neighs, neighbor_change_cmds, update_bgp, update_vni, vniname,
    LinkProbe, NeighborChange, SetupStep,
};

const L1: u128 = 0x2001_0db8_0000_0000_0000_0000_0000_0001;
const L2: u128 = 0x2001_0db8_0000_0000_0000_0000_0000_0002;
const R1: u128 = 0x2001_0db8_0000_0000_0000_0000_0000_00a1;
const R2: u128 = 0x2001_0db8_0000_0000_0000_0000_0000_00a2;

fn line(c: &Cmd) -> String {
    format!("{} {}", c.program, c.args.join(" "))
}

fn lines(cs: &[Cmd]) -> Vec<String> {
    cs.iter().map(line).collect()
}

fn sorted(mut v: Vec<u128>) -> Vec<u128> {
    v.sort();
    v
}

#[test]
fn interface_names() {
    assert_eq!(brname(100), "gvls-br100");
    assert_eq!(vniname(100), "gvls-vni100");
}

#[test]
fn a_new_local_address_recreates_the_vxlan_interface() {
    assert_eq!(
        lines(&update_vni(100, None, Some(L1))),
        vec![
            "ip link delete gvls-vni100",
            "ip link add gvls-vni100 type vxlan local 2001:db8::1 dstport 4789 id 100 nolearning",
            "ip link set gvls-vni100 master gvls-br100 addrgenmode none",
            "ip link set gvls-vni100 type bridge_slave neigh_suppress on learning off",
            "sysctl -w net.ipv6.conf.gvls-vni100.disable_ipv6=1",
            "ip link set gvls-vni100 up",
        ]
    );
    assert!(update_vni(100, Some(L1), Some(L1)).is_empty());
    assert_eq!(lines(&update_vni(100, Some(L1), None)), vec!["ip link delete gvls-vni100"]);
}

#[test]
fn setting_up_a_vni_step_by_step() {
    match add_vni(7, "eth1", Some(L1), &vec![]) {
        SetupStep::Probe(c, LinkProbe::Exists(n)) => {
            assert!(c.is_empty());
            assert_eq!(n, "eth1");
        }
        _ => panic!(),
    }
    match add_vni(7, "eth1", Some(L1), &vec![false]) {
        SetupStep::Done(_, Err(e)) => assert_eq!(e, "Link eth1 not exists"),
        _ => panic!(),
    }
    match add_vni(7, "eth1", Some(L1), &vec![true, false]) {
        SetupStep::Probe(c, LinkProbe::IsBridge(n)) => {
            assert_eq!(lines(&c), vec!["ip link add gvls-br7 type bridge", "ip link set gvls-br7 addrgenmode none"]);
            assert_eq!(n, "gvls-br7");
        }
        _ => panic!(),
    }
    match add_vni(7, "eth1", Some(L1), &vec![true, true, false]) {
        SetupStep::Done(_, Err(e)) => assert_eq!(e, "Link gvls-br7 is not bridge"),
        _ => panic!(),
    }
    match add_vni(7, "eth1", Some(L1), &vec![true, true, true]) {
        SetupStep::Probe(c, LinkProbe::Exists(n)) => {
            assert_eq!(
                lines(&c),
                vec![
                    "sysctl -w net.ipv4.conf.gvls-br7.forwarding=0",
                    "sysctl -w net.ipv6.conf.gvls-br7.forwarding=0",
                    "sysctl -w net.ipv6.conf.gvls-br7.disable_ipv6=1",
                    "ip link set gvls-br7 up",
                ]
            );
            assert_eq!(n, "gvls-vni7");
        }
        _ => panic!(),
    }
    match add_vni(7, "eth1", None, &vec![true, true, true, true]) {
        SetupStep::Done(c, Ok(())) => assert_eq!(
            lines(&c),
            vec![
                "ip link delete gvls-vni7",
                "ip link delete gvls-vni7",
                "sysctl -w net.ipv6.conf.eth1.disable_ipv6=1",
                "ip link set eth1 up",
                "ip link set eth1 master gvls-br7",
            ]
        ),
        _ => panic!(),
    }
}

#[test]
fn removing_a_vni() {
    assert!(matches!(del_vni(7, &vec![]), SetupStep::Probe(_, LinkProbe::Exists(ref n)) if n == "gvls-vni7"));
    match del_vni(7, &vec![true]) {
        SetupStep::Probe(c, LinkProbe::Exists(n)) => {
            assert_eq!(lines(&c), vec!["ip link delete gvls-vni7"]);
            assert_eq!(n, "gvls-br7");
        }
        _ => panic!(),
    }
    match del_vni(7, &vec![false, true]) {
        SetupStep::Done(c, Ok(())) => assert_eq!(lines(&c), vec!["ip link delete gvls-br7"]),
        _ => panic!(),
    }
}

#[test]
fn neighbour_set_commands() {
    assert_eq!(lines(&init_neighs()), vec!["ipset create gvls-neighs hash:net family inet6 hashsize 1024 maxelem 65536"]);
    assert_eq!(lines(&add_neigh(R1)), vec!["ipset add gvls-neighs 2001:db8::a1"]);
    assert_eq!(lines(&del_neigh(R1)), vec!["ipset del gvls-neighs 2001:db8::a1"]);
}

#[test]
fn bgp_session_changes() {
    assert!(update_bgp(None, None, None, None).is_empty());
    assert!(matches!(update_bgp(Some(L1), Some(L1), Some(R1), None).as_slice(), [NeighborChange::Del(a)] if *a == R1));
    assert!(update_bgp(None, None, Some(R1), None).is_empty());
    assert!(matches!(update_bgp(None, Some(L1), None, Some(R1)).as_slice(), [NeighborChange::Add(a, Some(l))] if *a == R1 && *l == L1));
    assert!(matches!(update_bgp(Some(L1), Some(L1), Some(R1), Some(R2)).as_slice(),
        [NeighborChange::Del(a), NeighborChange::Add(b, Some(_))] if *a == R1 && *b == R2));
    assert!(matches!(update_bgp(Some(L1), Some(L2), Some(R1), Some(R1)).as_slice(),
        [NeighborChange::UpdateSource(a, l)] if *a == R1 && *l == L2));
    assert!(update_bgp(Some(L1), Some(L1), Some(R1), Some(R1)).is_empty());
    let ops = BgpOps::Frr(BgpOpsFrr {});
    let c = neighbor_change_cmds(&ops, 64512, "gv0001", "pw", NeighborChange::Add(R1, Some(L1)));
    assert_eq!(c.len(), 2);
}

#[test]
fn peers_follow_both_reflectors() {
    let mut a = VtepAgent::new(vec!["rr1".to_string(), "rr2".to_string()], vec![]);
    let s = a.vtep_registered(0, "bp".to_string(), vec![R1, R2]).unwrap();
    assert_eq!(sorted(s.adds), vec![R1, R2]);
    assert!(s.dels.is_empty());
    let s = a.vtep_registered(1, "bp".to_string(), vec![R2]).unwrap();
    assert!(s.adds.is_empty() && s.dels.is_empty());
    let s = a.update_neighs(0, vec![]).unwrap();
    assert_eq!(s.dels, vec![R1]);
    assert!(s.adds.is_empty());
    assert_eq!(a.neighs_active, vec![R2]);
    assert_eq!(
        a.vtep_registered(2, String::new(), vec![]).err().unwrap(),
        "VTEP registration from invalid RR index: 2"
    );
}

#[test]
fn vni_requests() {
    let mut a = VtepAgent::new(vec!["rr1".to_string(), "rr2".to_string()], vec![VniPort { vni: 5, ifname: "eth1".to_string() }]);
    assert_eq!(a.add_vni_check(5), Err("VNI 5 is already exists".to_string()));
    assert_eq!(a.add_vni_check(6), Ok(()));
    assert_eq!(
        a.add_vni_done(6, "eth2".to_string(), Err("boom".to_string())),
        Err("Add VNI 6:eth2 error: boom".to_string())
    );
    assert_eq!(a.add_vni_done(6, "eth2".to_string(), Ok(())), Ok(()));
    assert_eq!(a.vnis.len(), 2);
    assert_eq!(a.del_vni_check(9), Err("VNI 9 is not exist".to_string()));
    assert_eq!(a.del_vni_done(6, Err("x".to_string())), Err("Delete VNI 6 error: x".to_string()));
    assert_eq!(a.del_vni_done(6, Ok(())), Ok(()));
    assert_eq!(a.vnis.len(), 1);
    assert_eq!(setup_vni_error(5, "eth1", "bad"), "Setup VNI 5:eth1 error: bad");
}

#[test]
fn a_local_address_change_moves_every_vni() {
    let mut a = VtepAgent::new(
        vec!["rr1".to_string(), "rr2".to_string()],
        vec![VniPort { vni: 5, ifname: "eth1".to_string() }, VniPort { vni: 6, ifname: "eth2".to_string() }],
    );
    let u = a.loc_addr_changed(Some(L1));
    assert_eq!(u.vni_cmds.len(), 12);
    assert_eq!(u.bgp.len(), 2);
    assert_eq!(a.loc_addr, Some(L1));
}

fn addr_msg(index: u32, a: u128) -> AddrMsg {
    AddrMsg { index, inet6: true, universe: true, attrs: vec![AddrAttr::Address(Some(a))] }
}

#[test]
fn local_address_selection() {
    let mut s = AddrSelector::new();
    s.init_loc_addrs(Ok(vec![L1, L2]));
    assert_eq!(s.active, Some(L1));
    assert_eq!(s.on_message(3, AddrEvent::Del, &addr_msg(3, L1)), Some(Some(L2)));
    assert_eq!(s.on_message(3, AddrEvent::Del, &addr_msg(4, L2)), None);
    assert_eq!(s.on_message(3, AddrEvent::Del, &addr_msg(3, L2)), Some(None));
    assert_eq!(s.on_message(3, AddrEvent::New, &addr_msg(3, L1)), Some(Some(L1)));
    assert_eq!(s.address_added(L2), None);
    assert_eq!(s.address_deleted(L2), None);
    assert_eq!(s.active, Some(L1));
    let mut t = AddrSelector::new();
    t.init_loc_addrs(Err("no".to_string()));
    assert_eq!(t.active, None);
}

#[test]
fn interface_names_are_distinct() {
    assert_ne!(vniname(1), vniname(10));
    assert_ne!(vniname(12), vniname(21));
    assert_ne!(brname(7), brname(70));
    assert_ne!(vniname(100), brname(100));
}
