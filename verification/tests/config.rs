use gvls::config::ctrl::{parse_ctrl_args, CtrlCommand};
use gvls::config::rr::{RrConfig, RrEnv};
use gvls::config::ui::{UiConfig, UiEnv};
use gvls::config::vtep::{parse_vni_pair, VtepConfig, VtepEnv};
use gvls::bgp::BgpOps;
use gvls::config::AddrSyntax;

fn v(args: &[&str]) -> Vec<String> {
    args.iter().map(|s| s.to_string()).collect()
}

/// The address checks of the arguments, as the standard library's parsers
/// would report them for the texts used in these tests.
fn syn(args: &[String]) -> Vec<AddrSyntax> {
    args.iter()
        .map(|a| {
            let v4 = a.split('.').count() == 4 && a.split('.').all(|p| p.parse::<u8>().is_ok());
            let v6 = a.contains(':') && a.chars().all(|c| c == ':' || c.is_ascii_hexdigit());
            AddrSyntax {
                ipv4: if v4 { None } else { Some("invalid IPv4 address syntax".to_string()) },
                ipv6: if v6 { None } else { Some("invalid IPv6 address syntax".to_string()) },
                ip: if v4 || v6 { None } else { Some("invalid IP address syntax".to_string()) },
            }
        })
        .collect()
}

fn rr(env: RrEnv, args: &[&str]) -> Result<RrConfig, String> {
    let a = v(args);
    RrConfig::from_args(env, &a, &syn(&a))
}

fn ui(env: UiEnv, args: &[&str]) -> Result<UiConfig, String> {
    let a = v(args);
    UiConfig::from_args(env, &a, &syn(&a))
}

fn rr_env() -> RrEnv {
    RrEnv { rr_name: Some("rr1".to_string()), rr_pass: Some("pw".to_string()), ddns_hostkey: None }
}

#[test]
fn number_parsing() {
    let port = |p: &str| rr(rr_env(), &["--src-ifname", "eth0", "--ui-addr", "192.0.2.1", "--ui-port", p]);
    assert_eq!(port("7101").unwrap().ui_port, 7101);
    assert_eq!(port("+80").unwrap().ui_port, 80);
    assert_eq!(port("65535").unwrap().ui_port, 65535);
    assert_eq!(port("65536").err().unwrap(), "gvls-ui port format error: number too large to fit in target type");
    assert_eq!(port("x1").err().unwrap(), "gvls-ui port format error: invalid digit found in string");
    assert_eq!(port("").err().unwrap(), "gvls-ui port format error: cannot parse integer from empty string");
    let asnum = |n: &str| rr(rr_env(), &["--src-ifname", "eth0", "--ui-addr", "192.0.2.1", "--bgp-asnum", n]);
    assert_eq!(asnum("4294967295").unwrap().bgp_asnum, 4294967295);
    assert_eq!(asnum("-1").err().unwrap(), "BGP ASNUM format error: invalid digit found in string");
}

#[test]
fn rr_defaults_and_required_options() {
    let c = rr(rr_env(), &["--src-ifname", "eth0", "--ui-addr", "192.0.2.1"]).unwrap();
    assert_eq!(c.rr_name, "rr1");
    assert_eq!(c.rr_pass, "pw");
    assert_eq!(c.src_ifname, "eth0");
    assert_eq!(c.ui_addr, Some("192.0.2.1".to_string()));
    assert_eq!(c.ui_port, 7101);
    assert_eq!(c.rch_addr, "::1");
    assert_eq!(c.rch_port, 7102);
    assert_eq!(c.ddns_hostkey, "");
    assert!(matches!(c.bgp_ops, BgpOps::ZebraRs(_)));
    assert_eq!(c.bgp_asnum, 64512);
}

#[test]
fn rr_options_override() {
    let c = rr(
        rr_env(),
        &[
            "--src-ifname", "eth0", "--ui-addr", "192.0.2.1", "--ui-port", "9000", "--rch-port", "9001",
            "--bgp-backend", "frr", "--bgp-asnum", "65001", "--rch-addr", "fd00::1",
        ],
    )
    .unwrap();
    assert_eq!(c.rch_addr, "fd00::1");
    assert_eq!(c.ui_port, 9000);
    assert_eq!(c.rch_port, 9001);
    assert!(matches!(c.bgp_ops, BgpOps::Frr(_)));
    assert_eq!(c.bgp_asnum, 65001);
}

#[test]
fn rr_errors() {
    let e = |a: &[&str]| rr(rr_env(), a).err().unwrap();
    assert_eq!(e(&[]), "Source interface name required");
    assert_eq!(e(&["--src-ifname", "eth0"]), "gvls-ui address required");
    assert_eq!(e(&["--src-ifname"]), "Source interface name required");
    assert_eq!(e(&["--bogus"]), "Unknown argument");
    assert_eq!(e(&["-h"]), "");
    assert_eq!(e(&["--bgp-backend", "bird"]), "BGP bakend not supported");
    assert_eq!(e(&["--ui-port", "70000"]), "gvls-ui port format error: number too large to fit in target type");
    assert_eq!(e(&["--bgp-asnum", "x"]), "BGP ASNUM format error: invalid digit found in string");
    assert_eq!(e(&["--ui-addr", "bad"]), "gvls-ui address format error: invalid IPv4 address syntax");
    assert_eq!(e(&["--ui-addr", "fd00::1"]), "gvls-ui address format error: invalid IPv4 address syntax");
    assert_eq!(e(&["--rch-addr", "192.0.2.1"]), "RCH address format error: invalid IPv6 address syntax");
    let no_name = RrEnv { rr_name: None, rr_pass: Some("pw".to_string()), ddns_hostkey: None };
    let r = rr(no_name, &["--src-ifname", "eth0", "--ui-addr", "192.0.2.1"]);
    assert_eq!(r.err().unwrap(), "GVLS_RR_NAME required");
    let no_pass = RrEnv { rr_name: Some("rr".to_string()), rr_pass: None, ddns_hostkey: Some("k".to_string()) };
    let r = rr(no_pass, &["--src-ifname", "eth0", "--ui-addr", "192.0.2.1"]);
    assert_eq!(r.err().unwrap(), "GVLS_RR_PASS required");
}

#[test]
fn vni_pairs() {
    let p = parse_vni_pair("100:eth1").unwrap();
    assert_eq!(p.vni, 100);
    assert_eq!(p.ifname, "eth1");
    assert_eq!(parse_vni_pair("100").err().unwrap(), "VNI and interface name format error");
    assert_eq!(parse_vni_pair("1:a:b").err().unwrap(), "VNI and interface name format error");
    assert_eq!(parse_vni_pair("0:eth1").err().unwrap(), "VNI out of range");
    assert_eq!(parse_vni_pair("16777215:eth1").err().unwrap(), "VNI out of range");
    assert_eq!(parse_vni_pair("16777214:eth1").unwrap().vni, 16777214);
    assert_eq!(parse_vni_pair("x:eth1").err().unwrap(), "VNI format error: invalid digit found in string");
}

fn vtep_env() -> VtepEnv {
    VtepEnv { vtep_name: Some("vtep1".to_string()), vtep_pass: Some("pw".to_string()) }
}

#[test]
fn vtep_config() {
    let c = VtepConfig::from_args(
        vtep_env(),
        &v(&["--src-ifname", "eth0", "--rr1-host", "a.example", "--rr2-host", "b.example", "--vni", "10:br10", "--rr2-port", "8000"]),
    )
    .unwrap();
    assert_eq!(c.vtep_name, "vtep1");
    assert_eq!(c.rr_hosts, v(&["a.example", "b.example"]));
    assert_eq!(c.rr_ports, vec![7102, 8000]);
    assert_eq!(c.vnis.len(), 1);
    assert_eq!(c.vnis[0].vni, 10);
    assert_eq!(c.vnis[0].ifname, "br10");
    assert_eq!(c.bgp_asnum, 64512);
}

#[test]
fn vtep_config_errors() {
    let e = |a: &[&str]| VtepConfig::from_args(vtep_env(), &v(a)).err().unwrap();
    assert_eq!(e(&["--src-ifname", "eth0"]), "gvls-rr #1 host required");
    assert_eq!(e(&["--src-ifname", "eth0", "--rr1-host", "a"]), "gvls-rr #2 host required");
    assert_eq!(e(&["--vni"]), "VNI and interface name error");
    assert_eq!(e(&["--vni", "0:x"]), "VNI out of range");
    let r = VtepConfig::from_args(
        VtepEnv { vtep_name: Some("n".to_string()), vtep_pass: None },
        &v(&["--src-ifname", "eth0", "--rr1-host", "a", "--rr2-host", "b"]),
    );
    assert_eq!(r.err().unwrap(), "GVLS_VTEP_PASS required");
}

#[test]
fn ui_config() {
    let env = UiEnv { db_username: None, db_password: Some("secret".to_string()), db_host: None, db_port: None, db_name: None };
    let c = ui(env, &["--http-port", "8080"]).unwrap();
    assert_eq!(c.http_addr, "127.0.0.1");
    assert_eq!(c.http_port, 8080);
    assert_eq!(c.rch_addr, "127.0.0.1");
    assert_eq!(c.rch_port, 7101);
    assert_eq!(c.db_username, "gvls");
    assert_eq!(c.db_password, "secret");
    assert_eq!(c.db_host, "127.0.0.1");
    assert_eq!(c.db_port, "5432");
    assert_eq!(c.db_name, "gvls");
    let env = UiEnv { db_username: None, db_password: None, db_host: None, db_port: None, db_name: None };
    assert_eq!(ui(env, &["--rch-port"]).err().unwrap(), "RCH port required");
    let env = || UiEnv { db_username: None, db_password: None, db_host: None, db_port: None, db_name: None };
    assert_eq!(ui(env(), &["--http-addr", "bad"]).err().unwrap(), "HTTP address format error: invalid IP address syntax");
    assert_eq!(ui(env(), &["--rch-addr", "x", "--http-port", "1"]).err().unwrap(), "RCH address format error: invalid IP address syntax");
    let c = ui(env(), &["--http-addr", "::", "--rch-addr", "10.0.0.1"]).unwrap();
    assert_eq!(c.http_addr, "::");
    assert_eq!(c.rch_addr, "10.0.0.1");
}

#[test]
fn ctrl_commands() {
    match parse_ctrl_args(&v(&["add-vni", "100", "br100"])) {
        CtrlCommand::AddVni { path, vni, ifname } => {
            assert_eq!(path, "/run/gvls-vtep.sock");
            assert_eq!(vni, Ok(100));
            assert_eq!(ifname, "br100");
        }
        _ => panic!("expected add-vni"),
    }
    match parse_ctrl_args(&v(&["--rch-path", "/tmp/s", "del-vni", "x"])) {
        CtrlCommand::DelVni { path, vni } => {
            assert_eq!(path, "/tmp/s");
            assert_eq!(vni, Err("invalid digit found in string".to_string()));
        }
        _ => panic!("expected del-vni"),
    }
    assert!(matches!(parse_ctrl_args(&v(&["del-vni"])), CtrlCommand::Usage));
    assert!(matches!(parse_ctrl_args(&v(&["x", "--rch-path"])), CtrlCommand::PathMissing));
    match parse_ctrl_args(&v(&["frob"])) {
        CtrlCommand::Unknown(c) => assert_eq!(c, "frob"),
        _ => panic!("expected unknown"),
    }
}
