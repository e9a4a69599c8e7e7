use gvls::rtnl::{
    get_ifindex, get_ipv6_addrs, is_bridge, is_vxlan, parse_ipv6_addr, AddrAttr, AddrMsg, LinkAttr, LinkInfoItem,
    LinkKind, LinkMsg,
};

const A: u128 = 0x2001_0db8_0000_0000_0000_0000_0000_0001;
const B: u128 = 0x2001_0db8_0000_0000_0000_0000_0000_0002;

fn msg(inet6: bool, universe: bool, attrs: Vec<AddrAttr>) -> AddrMsg {
    AddrMsg { index: 2, inet6, universe, attrs }
}

#[test]
fn a_global_address_is_read() {
    assert_eq!(parse_ipv6_addr(&msg(true, true, vec![AddrAttr::Address(Some(A))])), Some(A));
    assert_eq!(parse_ipv6_addr(&msg(true, true, vec![AddrAttr::Address(Some(A)), AddrAttr::Address(Some(B))])), Some(B));
}

#[test]
fn temporary_local_and_other_families_are_skipped() {
    assert_eq!(parse_ipv6_addr(&msg(true, true, vec![AddrAttr::Address(Some(A)), AddrAttr::Flags(true)])), None);
    assert_eq!(parse_ipv6_addr(&msg(true, false, vec![AddrAttr::Address(Some(A))])), None);
    assert_eq!(parse_ipv6_addr(&msg(false, true, vec![AddrAttr::Address(Some(A))])), None);
    assert_eq!(parse_ipv6_addr(&msg(true, true, vec![AddrAttr::Flags(false), AddrAttr::Other])), None);
}

#[test]
fn addresses_of_an_interface() {
    let msgs = vec![
        msg(true, true, vec![AddrAttr::Address(Some(A))]),
        msg(true, true, vec![AddrAttr::Address(Some(B)), AddrAttr::Flags(true)]),
        msg(true, true, vec![AddrAttr::Address(Some(B))]),
    ];
    assert_eq!(get_ipv6_addrs(&msgs), Ok(vec![A, B]));
    assert_eq!(get_ipv6_addrs(&vec![]), Err("IPv6 address not found".to_string()));
}

#[test]
fn link_kinds_and_index() {
    let br = LinkMsg { index: 7, attrs: vec![LinkAttr::Other, LinkAttr::LinkInfo(vec![LinkInfoItem::Other, LinkInfoItem::Kind(LinkKind::Bridge)])] };
    let vx = LinkMsg { index: 8, attrs: vec![LinkAttr::LinkInfo(vec![LinkInfoItem::Kind(LinkKind::Vxlan)])] };
    assert!(is_bridge(Some(&br)));
    assert!(!is_vxlan(Some(&br)));
    assert!(is_vxlan(Some(&vx)));
    assert!(!is_bridge(None));
    assert_eq!(get_ifindex(Some(&br), "br0"), Ok(7));
    assert_eq!(get_ifindex(None, "br9"), Err("Link br9 not found".to_string()));
}
