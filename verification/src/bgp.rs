//! The BGP daemons the service drives, and the commands that configure them:
//! FRR through `vtysh -c <line>...`, zebra-rs through `vtyctl apply -c <text>`.
use vstd::prelude::*;
use crate::net::{ipv4_display, ipv4_text, ipv6_display, ipv6_text};
use crate::text::{decimal, owned, push_i64, push_u64, signed_decimal};

verus! {

/// A program to run with its arguments.
pub struct Cmd {
    pub program: String,
    pub args: Vec<String>,
}

pub struct CmdView {
    pub program: Seq<char>,
    pub args: Seq<Seq<char>>,
}

pub open spec fn text_views(s: Seq<String>) -> Seq<Seq<char>> {
    Seq::new(s.len(), |i: int| s[i]@)
}

impl View for Cmd {
    type V = CmdView;

    open spec fn view(&self) -> CmdView {
        CmdView { program: self.program@, args: text_views(self.args@) }
    }
}

pub open spec fn cmd_views(s: Seq<Cmd>) -> Seq<CmdView> {
    Seq::new(s.len(), |i: int| s[i]@)
}

/// `vtysh` with each line given after its own `-c`.
pub open spec fn vtysh(lines: Seq<Seq<char>>) -> CmdView {
    CmdView {
        program: "vtysh"@,
        args: Seq::new(2 * lines.len(), |i: int| if i % 2 == 0 { "-c"@ } else { lines[i / 2] }),
    }
}

/// `vtyctl apply -c text`.
pub open spec fn vtyctl(text: Seq<char>) -> CmdView {
    CmdView { program: "vtyctl"@, args: seq!["apply"@, "-c"@, text] }
}

/// The name of the route map of a VTEP.
pub open spec fn route_map_name(name: Seq<char>) -> Seq<char> {
    "gvlm-rm-"@ + name
}

pub open spec fn router_bgp(asnum: u32) -> Seq<char> {
    "router bgp "@ + decimal(asnum as nat)
}

/// `neighbor <rem><rest>`.
pub open spec fn nb(rem: u128, rest: Seq<char>) -> Seq<char> {
    "neighbor "@ + ipv6_display(rem) + rest
}

/// `set router bgp neighbor <rem><rest>`.
pub open spec fn zb(rem: u128, rest: Seq<char>) -> Seq<char> {
    "set router bgp neighbor "@ + ipv6_display(rem) + rest
}

pub open spec fn nl() -> Seq<char> {
    seq!['\n']
}

fn text2(a: &str, b: &str) -> (r: String)
    ensures
        r@ == a@ + b@,
{
    let mut s = owned(a);
    s.push_str(b);
    s
}

fn text3(a: &str, b: &str, c: &str) -> (r: String)
    ensures
        r@ == a@ + b@ + c@,
{
    let mut s = owned(a);
    s.push_str(b);
    s.push_str(c);
    s
}

fn router_bgp_line(asnum: u32) -> (r: String)
    ensures
        r@ == router_bgp(asnum),
{
    let mut s = owned("router bgp ");
    push_u64(&mut s, asnum as u64);
    s
}

fn nb_line(rem: &str, rest: &str) -> (r: String)
    ensures
        r@ == "neighbor "@ + rem@ + rest@,
{
    text3("neighbor ", rem, rest)
}

fn zb_line(rem: &str, rest: &str) -> (r: String)
    ensures
        r@ == "set router bgp neighbor "@ + rem@ + rest@,
{
    text3("set router bgp neighbor ", rem, rest)
}

/// Builds `vtysh -c l1 -c l2 ...`.
fn vtysh_cmd(lines: Vec<String>) -> (r: Cmd)
    ensures
        r@ == vtysh(text_views(lines@)),
{
    let mut args: Vec<String> = Vec::new();
    let mut i: usize = 0;
    while i < lines.len()
        invariant
            i <= lines@.len(),
            args@.len() == 2 * i,
            forall|k: int| 0 <= k < 2 * i ==> (#[trigger] args@[k])@ == if k % 2 == 0 { "-c"@ } else { lines@[k / 2]@ },
        decreases lines@.len() - i,
    {
        args.push(owned("-c"));
        args.push(lines[i].clone());
        i = i + 1;
    }
    let r = Cmd { program: owned("vtysh"), args };
    assert(r@.args =~= vtysh(text_views(lines@)).args);
    r
}

fn vtyctl_cmd(text: String) -> (r: Cmd)
    ensures
        r@ == vtyctl(text@),
{
    let mut args: Vec<String> = Vec::new();
    args.push(owned("apply"));
    args.push(owned("-c"));
    args.push(text);
    let r = Cmd { program: owned("vtyctl"), args };
    assert(r@.args =~= vtyctl(r@.args[2]).args);
    r
}

fn route_map_line(name: &str) -> (r: String)
    ensures
        r@ == route_map_name(name@),
{
    text2("gvlm-rm-", name)
}

/// FRR, configured through `vtysh`.
pub struct BgpOpsFrr {}

/// zebra-rs, configured through `vtyctl`.
pub struct BgpOpsZebraRs {}

/// The BGP daemon in use.
pub enum BgpOps {
    Frr(BgpOpsFrr),
    ZebraRs(BgpOpsZebraRs),
}

/// FRR: a neighbour in the local AS with description, password and update
/// source; as a route-reflector client with its route map both ways when
/// `rr`; then activated for EVPN. Nothing without a local address.
pub open spec fn frr_add_neighbor(asnum: u32, rem: u128, loc: Option<u128>, name: Seq<char>, pass: Seq<char>, rr: bool) -> Seq<CmdView> {
    match loc {
        None => seq![],
        Some(l) => {
            let rm = route_map_name(name);
            seq![vtysh(seq![
                "configure terminal"@,
                router_bgp(asnum),
                nb(rem, " remote-as internal"@),
                nb(rem, " description "@ + name),
                nb(rem, " password "@ + pass),
                nb(rem, " update-source "@ + ipv6_display(l)),
            ])] + (if rr {
                seq![vtysh(seq![
                    "configure terminal"@,
                    router_bgp(asnum),
                    "address-family l2vpn evpn"@,
                    nb(rem, " route-reflector-client"@),
                    nb(rem, " route-map "@ + rm + " in"@),
                    nb(rem, " route-map "@ + rm + " out"@),
                ])]
            } else {
                seq![]
            }) + seq![vtysh(seq![
                "configure terminal"@,
                router_bgp(asnum),
                "address-family l2vpn evpn"@,
                nb(rem, " activate"@),
            ])]
        },
    }
}

/// zebra-rs: a neighbour in the AS with description, password, update source
/// and EVPN; as a route-reflector client with its route map both ways when
/// `rr`. Nothing without a local address.
pub open spec fn zebra_add_neighbor(asnum: u32, rem: u128, loc: Option<u128>, name: Seq<char>, pass: Seq<char>, rr: bool) -> Seq<CmdView> {
    match loc {
        None => seq![],
        Some(l) => {
            let rm = route_map_name(name);
            seq![vtyctl(
                zb(rem, " remote-as "@ + decimal(asnum as nat)) + nl() + zb(rem, " description "@ + name) + nl()
                    + zb(rem, " password "@ + pass) + nl() + zb(rem, " update-source "@ + ipv6_display(l)) + nl()
                    + zb(rem, " afi-safi evpn enabled true"@),
            )] + if rr {
                seq![vtyctl(
                    zb(rem, " route-reflector client true"@) + nl() + zb(rem, " policy in "@ + rm) + nl()
                        + zb(rem, " policy out "@ + rm),
                )]
            } else {
                seq![]
            }
        },
    }
}

/// FRR: one route-map entry for a VNI.
pub open spec fn frr_rm_entry(rm: Seq<char>, i: nat, route_type: Seq<char>, vni: i32) -> CmdView {
    vtysh(seq![
        "configure terminal"@,
        "route-map "@ + rm + " permit "@ + decimal(i),
        "match evpn route-type "@ + route_type,
        "match evpn vni "@ + signed_decimal(vni as int),
    ])
}

/// FRR: the entries of the VNIs, two per VNI numbered from `first`.
pub open spec fn frr_rm_entries(rm: Seq<char>, vnis: Seq<i32>) -> Seq<CmdView>
    decreases vnis.len(),
{
    if vnis.len() == 0 {
        seq![]
    } else {
        let k = (vnis.len() - 1) as nat;
        frr_rm_entries(rm, vnis.drop_last()) + seq![
            frr_rm_entry(rm, 2 * k + 1, "macip"@, vnis.last()),
            frr_rm_entry(rm, 2 * k + 2, "multicast"@, vnis.last()),
        ]
    }
}

/// zebra-rs: one route-map entry for a VNI; the multicast entry's text ends
/// with a newline (`trailing`).
pub open spec fn zebra_rm_entry(rm: Seq<char>, i: nat, route_type: Seq<char>, vni: i32, trailing: bool) -> CmdView {
    let e = "set policy "@ + rm + " entry "@ + decimal(i);
    let t = e + " match evpn route-type "@ + route_type + nl() + e + " match evpn vni "@ + signed_decimal(vni as int) + nl() + e
        + " action permit"@;
    vtyctl(if trailing { t + nl() } else { t })
}

/// zebra-rs: the entries of the VNIs, two per VNI.
pub open spec fn zebra_rm_entries(rm: Seq<char>, vnis: Seq<i32>) -> Seq<CmdView>
    decreases vnis.len(),
{
    if vnis.len() == 0 {
        seq![]
    } else {
        let k = (vnis.len() - 1) as nat;
        zebra_rm_entries(rm, vnis.drop_last()) + seq![
            zebra_rm_entry(rm, 2 * k + 1, "macip"@, vnis.last(), false),
            zebra_rm_entry(rm, 2 * k + 2, "multicast"@, vnis.last(), true),
        ]
    }
}

fn frr_rm_entry_cmd(rm: &str, i: u64, route_type: &str, vni: i32) -> (r: Cmd)
    ensures
        r@ == frr_rm_entry(rm@, i as nat, route_type@, vni),
{
    let mut lines: Vec<String> = Vec::new();
    lines.push(owned("configure terminal"));
    let mut l2 = text3("route-map ", rm, " permit ");
    push_u64(&mut l2, i);
    lines.push(l2);
    lines.push(text2("match evpn route-type ", route_type));
    let mut l4 = owned("match evpn vni ");
    push_i64(&mut l4, vni as i64);
    lines.push(l4);
    let ghost ls = text_views(lines@);
    assert(ls =~= seq![
        "configure terminal"@,
        "route-map "@ + rm@ + " permit "@ + decimal(i as nat),
        "match evpn route-type "@ + route_type@,
        "match evpn vni "@ + signed_decimal(vni as int),
    ]);
    vtysh_cmd(lines)
}

fn zebra_rm_entry_cmd(rm: &str, i: u64, route_type: &str, vni: i32, trailing: bool) -> (r: Cmd)
    ensures
        r@ == zebra_rm_entry(rm@, i as nat, route_type@, vni, trailing),
{
    let mut e = text3("set policy ", rm, " entry ");
    push_u64(&mut e, i);
    let mut t = e.clone();
    t.push_str(" match evpn route-type ");
    t.push_str(route_type);
    t.push('\n');
    t.push_str(e.as_str());
    t.push_str(" match evpn vni ");
    push_i64(&mut t, vni as i64);
    t.push('\n');
    t.push_str(e.as_str());
    t.push_str(" action permit");
    if trailing {
        t.push('\n');
    }
    proof {
        let ev = "set policy "@ + rm@ + " entry "@ + decimal(i as nat);
        let tv = ev + " match evpn route-type "@ + route_type@ + nl() + ev + " match evpn vni "@ + signed_decimal(vni as int) + nl()
            + ev + " action permit"@;
        assert(t@ =~= if trailing { tv + nl() } else { tv });
    }
    vtyctl_cmd(t)
}

impl BgpOpsFrr {
    /// Adds a BGP neighbour (see `frr_add_neighbor`).
    pub fn add_neighbor(&self, asnum: u32, rem_addr: u128, loc_addr: Option<u128>, name: &str, pass: &str, rr: bool) -> (r: Vec<Cmd>)
        ensures
            cmd_views(r@) == frr_add_neighbor(asnum, rem_addr, loc_addr, name@, pass@, rr),
    {
        let mut out: Vec<Cmd> = Vec::new();
        let l = match loc_addr {
            Some(l) => l,
            None => {
                assert(cmd_views(out@) =~= seq![]);
                return out;
            },
        };
        let rem = ipv6_text(rem_addr);
        let loc = ipv6_text(l);
        let rm = route_map_line(name);
        let mut c1: Vec<String> = Vec::new();
        c1.push(owned("configure terminal"));
        c1.push(router_bgp_line(asnum));
        c1.push(nb_line(rem.as_str(), " remote-as internal"));
        c1.push(text3("neighbor ", rem.as_str(), text2(" description ", name).as_str()));
        c1.push(text3("neighbor ", rem.as_str(), text2(" password ", pass).as_str()));
        c1.push(text3("neighbor ", rem.as_str(), text2(" update-source ", loc.as_str()).as_str()));
        assert(text_views(c1@) =~= seq![
            "configure terminal"@,
            router_bgp(asnum),
            nb(rem_addr, " remote-as internal"@),
            nb(rem_addr, " description "@ + name@),
            nb(rem_addr, " password "@ + pass@),
            nb(rem_addr, " update-source "@ + ipv6_display(l)),
        ]);
        out.push(vtysh_cmd(c1));
        let ghost g1 = cmd_views(out@);
        if rr {
            let mut c2: Vec<String> = Vec::new();
            c2.push(owned("configure terminal"));
            c2.push(router_bgp_line(asnum));
            c2.push(owned("address-family l2vpn evpn"));
            c2.push(nb_line(rem.as_str(), " route-reflector-client"));
            c2.push(text3("neighbor ", rem.as_str(), text3(" route-map ", rm.as_str(), " in").as_str()));
            c2.push(text3("neighbor ", rem.as_str(), text3(" route-map ", rm.as_str(), " out").as_str()));
            assert(text_views(c2@) =~= seq![
                "configure terminal"@,
                router_bgp(asnum),
                "address-family l2vpn evpn"@,
                nb(rem_addr, " route-reflector-client"@),
                nb(rem_addr, " route-map "@ + route_map_name(name@) + " in"@),
                nb(rem_addr, " route-map "@ + route_map_name(name@) + " out"@),
            ]);
            out.push(vtysh_cmd(c2));
        }
        let ghost g2 = cmd_views(out@);
        let mut c3: Vec<String> = Vec::new();
        c3.push(owned("configure terminal"));
        c3.push(router_bgp_line(asnum));
        c3.push(owned("address-family l2vpn evpn"));
        c3.push(nb_line(rem.as_str(), " activate"));
        assert(text_views(c3@) =~= seq![
            "configure terminal"@,
            router_bgp(asnum),
            "address-family l2vpn evpn"@,
            nb(rem_addr, " activate"@),
        ]);
        out.push(vtysh_cmd(c3));
        assert(cmd_views(out@) =~= frr_add_neighbor(asnum, rem_addr, loc_addr, name@, pass@, rr));
        out
    }

    /// Removes the neighbour at `rem_addr`.
    pub fn del_neighbor(&self, asnum: u32, rem_addr: u128) -> (r: Vec<Cmd>)
        ensures
            cmd_views(r@) == seq![vtysh(seq!["configure terminal"@, router_bgp(asnum), "no neighbor "@ + ipv6_display(rem_addr)])],
    {
        let rem = ipv6_text(rem_addr);
        let mut c: Vec<String> = Vec::new();
        c.push(owned("configure terminal"));
        c.push(router_bgp_line(asnum));
        c.push(text2("no neighbor ", rem.as_str()));
        assert(text_views(c@) =~= seq!["configure terminal"@, router_bgp(asnum), "no neighbor "@ + ipv6_display(rem_addr)]);
        let mut out: Vec<Cmd> = Vec::new();
        out.push(vtysh_cmd(c));
        assert(cmd_views(out@) =~= seq![vtysh(seq!["configure terminal"@, router_bgp(asnum), "no neighbor "@ + ipv6_display(rem_addr)])]);
        out
    }

    /// Sets the update source of the neighbour at `rem_addr`.
    pub fn upd_neighbor_us(&self, asnum: u32, rem_addr: u128, loc_addr: u128) -> (r: Vec<Cmd>)
        ensures
            cmd_views(r@) == seq![vtysh(seq!["configure terminal"@, router_bgp(asnum), nb(rem_addr, " update-source "@ + ipv6_display(loc_addr))])],
    {
        let rem = ipv6_text(rem_addr);
        let loc = ipv6_text(loc_addr);
        let mut c: Vec<String> = Vec::new();
        c.push(owned("configure terminal"));
        c.push(router_bgp_line(asnum));
        c.push(text3("neighbor ", rem.as_str(), text2(" update-source ", loc.as_str()).as_str()));
        assert(text_views(c@) =~= seq!["configure terminal"@, router_bgp(asnum), nb(rem_addr, " update-source "@ + ipv6_display(loc_addr))]);
        let mut out: Vec<Cmd> = Vec::new();
        out.push(vtysh_cmd(c));
        assert(cmd_views(out@) =~= seq![vtysh(seq!["configure terminal"@, router_bgp(asnum), nb(rem_addr, " update-source "@ + ipv6_display(loc_addr))])]);
        out
    }

    /// Sets the password of the neighbour at `rem_addr`.
    pub fn upd_neighbor_pass(&self, asnum: u32, rem_addr: u128, pass: &str) -> (r: Vec<Cmd>)
        ensures
            cmd_views(r@) == seq![vtysh(seq!["configure terminal"@, router_bgp(asnum), nb(rem_addr, " password "@ + pass@)])],
    {
        let rem = ipv6_text(rem_addr);
        let mut c: Vec<String> = Vec::new();
        c.push(owned("configure terminal"));
        c.push(router_bgp_line(asnum));
        c.push(text3("neighbor ", rem.as_str(), text2(" password ", pass).as_str()));
        assert(text_views(c@) =~= seq!["configure terminal"@, router_bgp(asnum), nb(rem_addr, " password "@ + pass@)]);
        let mut out: Vec<Cmd> = Vec::new();
        out.push(vtysh_cmd(c));
        assert(cmd_views(out@) =~= seq![vtysh(seq!["configure terminal"@, router_bgp(asnum), nb(rem_addr, " password "@ + pass@)])]);
        out
    }

    /// Removes the route map of VTEP `name`.
    pub fn del_route_map(&self, name: &str) -> (r: Vec<Cmd>)
        ensures
            cmd_views(r@) == seq![vtysh(seq!["configure terminal"@, "no route-map "@ + route_map_name(name@)])],
    {
        let rm = route_map_line(name);
        let mut c: Vec<String> = Vec::new();
        c.push(owned("configure terminal"));
        c.push(text2("no route-map ", rm.as_str()));
        assert(text_views(c@) =~= seq!["configure terminal"@, "no route-map "@ + route_map_name(name@)]);
        let mut out: Vec<Cmd> = Vec::new();
        out.push(vtysh_cmd(c));
        assert(cmd_views(out@) =~= seq![vtysh(seq!["configure terminal"@, "no route-map "@ + route_map_name(name@)])]);
        out
    }

    /// Replaces the route map of VTEP `name`: it is removed, then two
    /// permitting entries per VNI (MAC/IP and multicast routes) are numbered
    /// from 1, and a final entry denies the rest.
    pub fn rep_route_map(&self, name: &str, vni_ids: &Vec<i32>) -> (r: Vec<Cmd>)
        requires
            2 * vni_ids@.len() + 1 <= u64::MAX,
        ensures
            cmd_views(r@) == seq![vtysh(seq!["configure terminal"@, "no route-map "@ + route_map_name(name@)])]
                + frr_rm_entries(route_map_name(name@), vni_ids@)
                + seq![vtysh(seq![
                    "configure terminal"@,
                    "route-map "@ + route_map_name(name@) + " deny "@ + decimal((2 * vni_ids@.len() + 1) as nat),
                ])],
    {
        let mut out = self.del_route_map(name);
        let ghost head = cmd_views(out@);
        let rm = route_map_line(name);
        let mut k: usize = 0;
        let mut i: u64 = 1;
        while k < vni_ids.len()
            invariant
                k <= vni_ids@.len(),
                2 * vni_ids@.len() + 1 <= u64::MAX,
                i == 2 * k + 1,
                rm@ == route_map_name(name@),
                cmd_views(out@) == head + frr_rm_entries(rm@, vni_ids@.subrange(0, k as int)),
            decreases vni_ids@.len() - k,
        {
            let ghost before = cmd_views(out@);
            let c1 = frr_rm_entry_cmd(rm.as_str(), i, "macip", vni_ids[k]);
            assert(c1@ == frr_rm_entry(rm@, (2 * k + 1) as nat, "macip"@, vni_ids@[k as int]));
            out.push(c1);
            i = i + 1;
            let c2 = frr_rm_entry_cmd(rm.as_str(), i, "multicast", vni_ids[k]);
            assert(c2@ == frr_rm_entry(rm@, (2 * k + 2) as nat, "multicast"@, vni_ids@[k as int]));
            out.push(c2);
            i = i + 1;
            proof {
                let s = vni_ids@.subrange(0, k + 1);
                assert(s.drop_last() =~= vni_ids@.subrange(0, k as int));
                assert(s.last() == vni_ids@[k as int]);
                assert(cmd_views(out@) =~= before + seq![c1@, c2@]);
                assert(frr_rm_entries(rm@, s) == frr_rm_entries(rm@, s.drop_last()) + seq![
                    frr_rm_entry(rm@, (2 * k + 1) as nat, "macip"@, s.last()),
                    frr_rm_entry(rm@, (2 * k + 2) as nat, "multicast"@, s.last()),
                ]);
                assert(cmd_views(out@) =~= head + frr_rm_entries(rm@, s));
            }
            k = k + 1;
        }
        assert(vni_ids@.subrange(0, vni_ids@.len() as int) =~= vni_ids@);
        let ghost mid = cmd_views(out@);
        let mut c: Vec<String> = Vec::new();
        c.push(owned("configure terminal"));
        let mut l = text3("route-map ", rm.as_str(), " deny ");
        push_u64(&mut l, i);
        c.push(l);
        assert(text_views(c@) =~= seq![
            "configure terminal"@,
            "route-map "@ + route_map_name(name@) + " deny "@ + decimal((2 * vni_ids@.len() + 1) as nat),
        ]);
        out.push(vtysh_cmd(c));
        assert(cmd_views(out@) =~= mid + seq![vtysh(seq![
            "configure terminal"@,
            "route-map "@ + route_map_name(name@) + " deny "@ + decimal((2 * vni_ids@.len() + 1) as nat),
        ])]);
        out
    }

    /// Prepares BGP: next hops resolve through the default route, and the AS
    /// advertises all VNIs over EVPN.
    pub fn init(&self, asnum: u32) -> (r: Vec<Cmd>)
        ensures
            cmd_views(r@) == seq![vtysh(seq![
                "configure terminal"@,
                "ipv6 nht resolve-via-default"@,
                router_bgp(asnum),
                "address-family l2vpn evpn"@,
                "advertise-all-vni"@,
            ])],
    {
        let mut c: Vec<String> = Vec::new();
        c.push(owned("configure terminal"));
        c.push(owned("ipv6 nht resolve-via-default"));
        c.push(router_bgp_line(asnum));
        c.push(owned("address-family l2vpn evpn"));
        c.push(owned("advertise-all-vni"));
        let mut out: Vec<Cmd> = Vec::new();
        out.push(vtysh_cmd(c));
        proof {
            assert(text_views(c@) =~= seq![
                "configure terminal"@,
                "ipv6 nht resolve-via-default"@,
                router_bgp(asnum),
                "address-family l2vpn evpn"@,
                "advertise-all-vni"@,
            ]);
        }
        assert(cmd_views(out@) =~= seq![vtysh(seq![
            "configure terminal"@,
            "ipv6 nht resolve-via-default"@,
            router_bgp(asnum),
            "address-family l2vpn evpn"@,
            "advertise-all-vni"@,
        ])]);
        out
    }

    /// Sets the BGP router id.
    pub fn set_router_id(&self, asnum: u32, router_id: u32) -> (r: Vec<Cmd>)
        ensures
            cmd_views(r@) == seq![vtysh(seq!["configure terminal"@, router_bgp(asnum), "bgp router-id "@ + ipv4_display(router_id)])],
    {
        let id = ipv4_text(router_id);
        let mut c: Vec<String> = Vec::new();
        c.push(owned("configure terminal"));
        c.push(router_bgp_line(asnum));
        c.push(text2("bgp router-id ", id.as_str()));
        assert(text_views(c@) =~= seq!["configure terminal"@, router_bgp(asnum), "bgp router-id "@ + ipv4_display(router_id)]);
        let mut out: Vec<Cmd> = Vec::new();
        out.push(vtysh_cmd(c));
        assert(cmd_views(out@) =~= seq![vtysh(seq!["configure terminal"@, router_bgp(asnum), "bgp router-id "@ + ipv4_display(router_id)])]);
        out
    }
}


/// zebra-rs: removing the neighbour at `rem`.
pub open spec fn zebra_del_neighbor(rem: u128) -> Seq<CmdView> {
    seq![vtyctl("delete router bgp neighbor "@ + ipv6_display(rem))]
}

pub open spec fn zebra_del_route_map(name: Seq<char>) -> Seq<CmdView> {
    seq![vtyctl("delete policy "@ + route_map_name(name))]
}

pub open spec fn frr_del_route_map(name: Seq<char>) -> Seq<CmdView> {
    seq![vtysh(seq!["configure terminal"@, "no route-map "@ + route_map_name(name)])]
}

pub open spec fn frr_rep_route_map(name: Seq<char>, vnis: Seq<i32>) -> Seq<CmdView> {
    frr_del_route_map(name) + frr_rm_entries(route_map_name(name), vnis) + seq![vtysh(seq![
        "configure terminal"@,
        "route-map "@ + route_map_name(name) + " deny "@ + decimal((2 * vnis.len() + 1) as nat),
    ])]
}

pub open spec fn zebra_rep_route_map(name: Seq<char>, vnis: Seq<i32>) -> Seq<CmdView> {
    zebra_del_route_map(name) + zebra_rm_entries(route_map_name(name), vnis)
}

impl BgpOpsZebraRs {
    /// Adds a BGP neighbour (see `zebra_add_neighbor`).
    pub fn add_neighbor(&self, asnum: u32, rem_addr: u128, loc_addr: Option<u128>, name: &str, pass: &str, rr: bool) -> (r: Vec<Cmd>)
        ensures
            cmd_views(r@) == zebra_add_neighbor(asnum, rem_addr, loc_addr, name@, pass@, rr),
    {
        let mut out: Vec<Cmd> = Vec::new();
        let l = match loc_addr {
            Some(l) => l,
            None => {
                assert(cmd_views(out@) =~= seq![]);
                return out;
            },
        };
        let rem = ipv6_text(rem_addr);
        let loc = ipv6_text(l);
        let rm = route_map_line(name);
        let mut t = zb_line(rem.as_str(), " remote-as ");
        push_u64(&mut t, asnum as u64);
        t.push('\n');
        t.push_str(zb_line(rem.as_str(), text2(" description ", name).as_str()).as_str());
        t.push('\n');
        t.push_str(zb_line(rem.as_str(), text2(" password ", pass).as_str()).as_str());
        t.push('\n');
        t.push_str(zb_line(rem.as_str(), text2(" update-source ", loc.as_str()).as_str()).as_str());
        t.push('\n');
        t.push_str(zb_line(rem.as_str(), " afi-safi evpn enabled true").as_str());
        assert(t@ =~= zb(rem_addr, " remote-as "@ + decimal(asnum as nat)) + nl() + zb(rem_addr, " description "@ + name@) + nl()
            + zb(rem_addr, " password "@ + pass@) + nl() + zb(rem_addr, " update-source "@ + ipv6_display(l)) + nl()
            + zb(rem_addr, " afi-safi evpn enabled true"@));
        out.push(vtyctl_cmd(t));
        if rr {
            let mut u = zb_line(rem.as_str(), " route-reflector client true");
            u.push('\n');
            u.push_str(zb_line(rem.as_str(), text2(" policy in ", rm.as_str()).as_str()).as_str());
            u.push('\n');
            u.push_str(zb_line(rem.as_str(), text2(" policy out ", rm.as_str()).as_str()).as_str());
            assert(u@ =~= zb(rem_addr, " route-reflector client true"@) + nl() + zb(rem_addr, " policy in "@ + route_map_name(name@)) + nl()
                + zb(rem_addr, " policy out "@ + route_map_name(name@)));
            out.push(vtyctl_cmd(u));
        }
        assert(cmd_views(out@) =~= zebra_add_neighbor(asnum, rem_addr, loc_addr, name@, pass@, rr));
        out
    }

    /// Removes the neighbour at `rem_addr`.
    pub fn del_neighbor(&self, asnum: u32, rem_addr: u128) -> (r: Vec<Cmd>)
        ensures
            cmd_views(r@) == zebra_del_neighbor(rem_addr),
    {
        let rem = ipv6_text(rem_addr);
        let mut out: Vec<Cmd> = Vec::new();
        out.push(vtyctl_cmd(text2("delete router bgp neighbor ", rem.as_str())));
        assert(cmd_views(out@) =~= zebra_del_neighbor(rem_addr));
        out
    }

    /// Sets the update source of the neighbour at `rem_addr`.
    pub fn upd_neighbor_us(&self, asnum: u32, rem_addr: u128, loc_addr: u128) -> (r: Vec<Cmd>)
        ensures
            cmd_views(r@) == seq![vtyctl(zb(rem_addr, " update-source "@ + ipv6_display(loc_addr)))],
    {
        let rem = ipv6_text(rem_addr);
        let loc = ipv6_text(loc_addr);
        let mut out: Vec<Cmd> = Vec::new();
        let t = zb_line(rem.as_str(), text2(" update-source ", loc.as_str()).as_str());
        assert(t@ =~= zb(rem_addr, " update-source "@ + ipv6_display(loc_addr)));
        out.push(vtyctl_cmd(t));
        assert(cmd_views(out@) =~= seq![vtyctl(zb(rem_addr, " update-source "@ + ipv6_display(loc_addr)))]);
        out
    }

    /// Sets the password of the neighbour at `rem_addr`.
    pub fn upd_neighbor_pass(&self, asnum: u32, rem_addr: u128, pass: &str) -> (r: Vec<Cmd>)
        ensures
            cmd_views(r@) == seq![vtyctl(zb(rem_addr, " password "@ + pass@))],
    {
        let rem = ipv6_text(rem_addr);
        let mut out: Vec<Cmd> = Vec::new();
        let t = zb_line(rem.as_str(), text2(" password ", pass).as_str());
        assert(t@ =~= zb(rem_addr, " password "@ + pass@));
        out.push(vtyctl_cmd(t));
        assert(cmd_views(out@) =~= seq![vtyctl(zb(rem_addr, " password "@ + pass@))]);
        out
    }

    /// Removes the route map of VTEP `name`.
    pub fn del_route_map(&self, name: &str) -> (r: Vec<Cmd>)
        ensures
            cmd_views(r@) == zebra_del_route_map(name@),
    {
        let rm = route_map_line(name);
        let mut out: Vec<Cmd> = Vec::new();
        out.push(vtyctl_cmd(text2("delete policy ", rm.as_str())));
        assert(cmd_views(out@) =~= zebra_del_route_map(name@));
        out
    }

    /// Replaces the route map of VTEP `name`: it is removed, then two
    /// permitting entries per VNI are numbered from 1.
    pub fn rep_route_map(&self, name: &str, vni_ids: &Vec<i32>) -> (r: Vec<Cmd>)
        requires
            2 * vni_ids@.len() + 1 <= u64::MAX,
        ensures
            cmd_views(r@) == zebra_rep_route_map(name@, vni_ids@),
    {
        let mut out = self.del_route_map(name);
        let ghost head = cmd_views(out@);
        let rm = route_map_line(name);
        let mut k: usize = 0;
        let mut i: u64 = 1;
        while k < vni_ids.len()
            invariant
                k <= vni_ids@.len(),
                2 * vni_ids@.len() + 1 <= u64::MAX,
                i == 2 * k + 1,
                rm@ == route_map_name(name@),
                cmd_views(out@) == head + zebra_rm_entries(rm@, vni_ids@.subrange(0, k as int)),
            decreases vni_ids@.len() - k,
        {
            let ghost before = cmd_views(out@);
            let c1 = zebra_rm_entry_cmd(rm.as_str(), i, "macip", vni_ids[k], false);
            out.push(c1);
            i = i + 1;
            let c2 = zebra_rm_entry_cmd(rm.as_str(), i, "multicast", vni_ids[k], true);
            out.push(c2);
            i = i + 1;
            proof {
                let s = vni_ids@.subrange(0, k + 1);
                assert(s.drop_last() =~= vni_ids@.subrange(0, k as int));
                assert(s.last() == vni_ids@[k as int]);
                assert(cmd_views(out@) =~= before + seq![c1@, c2@]);
                assert(c1@ == zebra_rm_entry(rm@, (2 * k + 1) as nat, "macip"@, s.last(), false));
                assert(c2@ == zebra_rm_entry(rm@, (2 * k + 2) as nat, "multicast"@, s.last(), true));
                assert(cmd_views(out@) =~= head + zebra_rm_entries(rm@, s));
            }
            k = k + 1;
        }
        assert(vni_ids@.subrange(0, vni_ids@.len() as int) =~= vni_ids@);
        out
    }

    /// Prepares BGP: the AS, advertising all VNIs over EVPN.
    pub fn init(&self, asnum: u32) -> (r: Vec<Cmd>)
        ensures
            cmd_views(r@) == seq![vtyctl("set router bgp global as "@ + decimal(asnum as nat) + nl() + "set router bgp afi-safi evpn advertise-all-vni true"@)],
    {
        let mut t = owned("set router bgp global as ");
        push_u64(&mut t, asnum as u64);
        t.push('\n');
        t.push_str("set router bgp afi-safi evpn advertise-all-vni true");
        assert(t@ =~= "set router bgp global as "@ + decimal(asnum as nat) + nl() + "set router bgp afi-safi evpn advertise-all-vni true"@);
        let mut out: Vec<Cmd> = Vec::new();
        out.push(vtyctl_cmd(t));
        assert(cmd_views(out@) =~= seq![vtyctl("set router bgp global as "@ + decimal(asnum as nat) + nl() + "set router bgp afi-safi evpn advertise-all-vni true"@)]);
        out
    }

    /// Sets the BGP router id.
    pub fn set_router_id(&self, asnum: u32, router_id: u32) -> (r: Vec<Cmd>)
        ensures
            cmd_views(r@) == seq![vtyctl("set router bgp global router-id "@ + ipv4_display(router_id))],
    {
        let id = ipv4_text(router_id);
        let mut out: Vec<Cmd> = Vec::new();
        out.push(vtyctl_cmd(text2("set router bgp global router-id ", id.as_str())));
        assert(cmd_views(out@) =~= seq![vtyctl("set router bgp global router-id "@ + ipv4_display(router_id))]);
        out
    }
}


pub open spec fn frr_del_neighbor(asnum: u32, rem: u128) -> Seq<CmdView> {
    seq![vtysh(seq!["configure terminal"@, router_bgp(asnum), "no neighbor "@ + ipv6_display(rem)])]
}

pub open spec fn frr_upd_neighbor_us(asnum: u32, rem: u128, loc: u128) -> Seq<CmdView> {
    seq![vtysh(seq!["configure terminal"@, router_bgp(asnum), nb(rem, " update-source "@ + ipv6_display(loc))])]
}

pub open spec fn zebra_upd_neighbor_us(rem: u128, loc: u128) -> Seq<CmdView> {
    seq![vtyctl(zb(rem, " update-source "@ + ipv6_display(loc)))]
}

pub open spec fn frr_upd_neighbor_pass(asnum: u32, rem: u128, pass: Seq<char>) -> Seq<CmdView> {
    seq![vtysh(seq!["configure terminal"@, router_bgp(asnum), nb(rem, " password "@ + pass)])]
}

pub open spec fn zebra_upd_neighbor_pass(rem: u128, pass: Seq<char>) -> Seq<CmdView> {
    seq![vtyctl(zb(rem, " password "@ + pass))]
}

pub open spec fn frr_init(asnum: u32) -> Seq<CmdView> {
    seq![vtysh(seq![
        "configure terminal"@,
        "ipv6 nht resolve-via-default"@,
        router_bgp(asnum),
        "address-family l2vpn evpn"@,
        "advertise-all-vni"@,
    ])]
}

pub open spec fn zebra_init(asnum: u32) -> Seq<CmdView> {
    seq![vtyctl("set router bgp global as "@ + decimal(asnum as nat) + nl() + "set router bgp afi-safi evpn advertise-all-vni true"@)]
}

pub open spec fn frr_set_router_id(asnum: u32, router_id: u32) -> Seq<CmdView> {
    seq![vtysh(seq!["configure terminal"@, router_bgp(asnum), "bgp router-id "@ + ipv4_display(router_id)])]
}

pub open spec fn zebra_set_router_id(router_id: u32) -> Seq<CmdView> {
    seq![vtyctl("set router bgp global router-id "@ + ipv4_display(router_id))]
}

/// What `BgpOps::add_neighbor` runs.
pub open spec fn ops_add_neighbor(ops: BgpOps, asnum: u32, rem: u128, loc: Option<u128>, name: Seq<char>, pass: Seq<char>, rr: bool) -> Seq<CmdView> {
    match ops {
        BgpOps::Frr(_) => frr_add_neighbor(asnum, rem, loc, name, pass, rr),
        BgpOps::ZebraRs(_) => zebra_add_neighbor(asnum, rem, loc, name, pass, rr),
    }
}

/// What `BgpOps::del_neighbor` runs.
pub open spec fn ops_del_neighbor(ops: BgpOps, asnum: u32, rem: u128) -> Seq<CmdView> {
    match ops {
        BgpOps::Frr(_) => frr_del_neighbor(asnum, rem),
        BgpOps::ZebraRs(_) => zebra_del_neighbor(rem),
    }
}

/// What `BgpOps::upd_neighbor_us` runs.
pub open spec fn ops_upd_neighbor_us(ops: BgpOps, asnum: u32, rem: u128, loc: u128) -> Seq<CmdView> {
    match ops {
        BgpOps::Frr(_) => frr_upd_neighbor_us(asnum, rem, loc),
        BgpOps::ZebraRs(_) => zebra_upd_neighbor_us(rem, loc),
    }
}

/// What `BgpOps::upd_neighbor_pass` runs.
pub open spec fn ops_upd_neighbor_pass(ops: BgpOps, asnum: u32, rem: u128, pass: Seq<char>) -> Seq<CmdView> {
    match ops {
        BgpOps::Frr(_) => frr_upd_neighbor_pass(asnum, rem, pass),
        BgpOps::ZebraRs(_) => zebra_upd_neighbor_pass(rem, pass),
    }
}

/// What `BgpOps::rep_route_map` runs.
pub open spec fn ops_rep_route_map(ops: BgpOps, name: Seq<char>, vnis: Seq<i32>) -> Seq<CmdView> {
    match ops {
        BgpOps::Frr(_) => frr_rep_route_map(name, vnis),
        BgpOps::ZebraRs(_) => zebra_rep_route_map(name, vnis),
    }
}

/// What `BgpOps::del_route_map` runs.
pub open spec fn ops_del_route_map(ops: BgpOps, name: Seq<char>) -> Seq<CmdView> {
    match ops {
        BgpOps::Frr(_) => frr_del_route_map(name),
        BgpOps::ZebraRs(_) => zebra_del_route_map(name),
    }
}

/// What `BgpOps::init` runs.
pub open spec fn ops_init(ops: BgpOps, asnum: u32) -> Seq<CmdView> {
    match ops {
        BgpOps::Frr(_) => frr_init(asnum),
        BgpOps::ZebraRs(_) => zebra_init(asnum),
    }
}

/// What `BgpOps::set_router_id` runs.
pub open spec fn ops_set_router_id(ops: BgpOps, asnum: u32, router_id: u32) -> Seq<CmdView> {
    match ops {
        BgpOps::Frr(_) => frr_set_router_id(asnum, router_id),
        BgpOps::ZebraRs(_) => zebra_set_router_id(router_id),
    }
}

impl BgpOps {
    /// The name of the daemon, as the options spell it.
    pub fn name(&self) -> (r: String)
        ensures
            r@ == match self {
                BgpOps::Frr(_) => "frr"@,
                BgpOps::ZebraRs(_) => "zebra-rs"@,
            },
    {
        match self {
            BgpOps::Frr(_) => owned("frr"),
            BgpOps::ZebraRs(_) => owned("zebra-rs"),
        }
    }

    /// Adds a BGP neighbour; a route-reflector client when `route_map`.
    pub fn add_neighbor(&self, asnum: u32, rem_addr: u128, loc_addr: Option<u128>, name: &str, pass: &str, route_map: bool) -> (r: Vec<Cmd>)
        ensures
            cmd_views(r@) == ops_add_neighbor(*self, asnum, rem_addr, loc_addr, name@, pass@, route_map),
    {
        match self {
            BgpOps::Frr(o) => o.add_neighbor(asnum, rem_addr, loc_addr, name, pass, route_map),
            BgpOps::ZebraRs(o) => o.add_neighbor(asnum, rem_addr, loc_addr, name, pass, route_map),
        }
    }

    /// Removes the neighbour at `rem_addr`.
    pub fn del_neighbor(&self, asnum: u32, rem_addr: u128) -> (r: Vec<Cmd>)
        ensures
            cmd_views(r@) == ops_del_neighbor(*self, asnum, rem_addr),
    {
        match self {
            BgpOps::Frr(o) => o.del_neighbor(asnum, rem_addr),
            BgpOps::ZebraRs(o) => o.del_neighbor(asnum, rem_addr),
        }
    }

    /// Sets the update source of the neighbour at `rem_addr`.
    pub fn upd_neighbor_us(&self, asnum: u32, rem_addr: u128, loc_addr: u128) -> (r: Vec<Cmd>)
        ensures
            cmd_views(r@) == ops_upd_neighbor_us(*self, asnum, rem_addr, loc_addr),
    {
        match self {
            BgpOps::Frr(o) => o.upd_neighbor_us(asnum, rem_addr, loc_addr),
            BgpOps::ZebraRs(o) => o.upd_neighbor_us(asnum, rem_addr, loc_addr),
        }
    }

    /// Sets the password of the neighbour at `rem_addr`.
    pub fn upd_neighbor_pass(&self, asnum: u32, rem_addr: u128, pass: &str) -> (r: Vec<Cmd>)
        ensures
            cmd_views(r@) == ops_upd_neighbor_pass(*self, asnum, rem_addr, pass@),
    {
        match self {
            BgpOps::Frr(o) => o.upd_neighbor_pass(asnum, rem_addr, pass),
            BgpOps::ZebraRs(o) => o.upd_neighbor_pass(asnum, rem_addr, pass),
        }
    }

    /// Replaces the route map of VTEP `name` with one passing the VNIs.
    pub fn rep_route_map(&self, name: &str, vni_ids: &Vec<i32>) -> (r: Vec<Cmd>)
        requires
            2 * vni_ids@.len() + 1 <= u64::MAX,
        ensures
            cmd_views(r@) == ops_rep_route_map(*self, name@, vni_ids@),
    {
        match self {
            BgpOps::Frr(o) => o.rep_route_map(name, vni_ids),
            BgpOps::ZebraRs(o) => o.rep_route_map(name, vni_ids),
        }
    }

    /// Removes the route map of VTEP `name`.
    pub fn del_route_map(&self, name: &str) -> (r: Vec<Cmd>)
        ensures
            cmd_views(r@) == ops_del_route_map(*self, name@),
    {
        match self {
            BgpOps::Frr(o) => o.del_route_map(name),
            BgpOps::ZebraRs(o) => o.del_route_map(name),
        }
    }

    /// Prepares BGP for EVPN in the AS.
    pub fn init(&self, asnum: u32) -> (r: Vec<Cmd>)
        ensures
            cmd_views(r@) == ops_init(*self, asnum),
    {
        match self {
            BgpOps::Frr(o) => o.init(asnum),
            BgpOps::ZebraRs(o) => o.init(asnum),
        }
    }

    /// Sets the BGP router id.
    pub fn set_router_id(&self, asnum: u32, router_id: u32) -> (r: Vec<Cmd>)
        ensures
            cmd_views(r@) == ops_set_router_id(*self, asnum, router_id),
    {
        match self {
            BgpOps::Frr(o) => o.set_router_id(asnum, router_id),
            BgpOps::ZebraRs(o) => o.set_router_id(asnum, router_id),
        }
    }
}

/// zebra-rs: the `k`-th VNI gets entries `2k+1` (MAC/IP routes) and `2k+2`
/// (multicast routes), both matching that VNI.
proof fn lemma_zebra_rm_entries_at(rm: Seq<char>, vnis: Seq<i32>)
    ensures
        zebra_rm_entries(rm, vnis).len() == 2 * vnis.len(),
        forall|k: int| 0 <= k < vnis.len() ==> {
            &&& #[trigger] zebra_rm_entries(rm, vnis)[2 * k] == zebra_rm_entry(rm, (2 * k + 1) as nat, "macip"@, vnis[k], false)
            &&& zebra_rm_entries(rm, vnis)[2 * k + 1] == zebra_rm_entry(rm, (2 * k + 2) as nat, "multicast"@, vnis[k], true)
        },
    decreases vnis.len(),
{
    if vnis.len() > 0 {
        let p = vnis.drop_last();
        lemma_zebra_rm_entries_at(rm, p);
        assert forall|k: int| 0 <= k < vnis.len() implies {
            &&& #[trigger] zebra_rm_entries(rm, vnis)[2 * k] == zebra_rm_entry(rm, (2 * k + 1) as nat, "macip"@, vnis[k], false)
            &&& zebra_rm_entries(rm, vnis)[2 * k + 1] == zebra_rm_entry(rm, (2 * k + 2) as nat, "multicast"@, vnis[k], true)
        } by {
            if k < p.len() {
                assert(zebra_rm_entries(rm, p)[2 * k] == zebra_rm_entry(rm, (2 * k + 1) as nat, "macip"@, p[k], false));
            }
        }
    }
}

/// FRR: the `k`-th VNI gets entries `2k+1` (MAC/IP routes) and `2k+2`
/// (multicast routes), both matching that VNI.
proof fn lemma_frr_rm_entries_at(rm: Seq<char>, vnis: Seq<i32>)
    ensures
        frr_rm_entries(rm, vnis).len() == 2 * vnis.len(),
        forall|k: int| 0 <= k < vnis.len() ==> {
            &&& #[trigger] frr_rm_entries(rm, vnis)[2 * k] == frr_rm_entry(rm, (2 * k + 1) as nat, "macip"@, vnis[k])
            &&& frr_rm_entries(rm, vnis)[2 * k + 1] == frr_rm_entry(rm, (2 * k + 2) as nat, "multicast"@, vnis[k])
        },
    decreases vnis.len(),
{
    if vnis.len() > 0 {
        let p = vnis.drop_last();
        lemma_frr_rm_entries_at(rm, p);
        assert forall|k: int| 0 <= k < vnis.len() implies {
            &&& #[trigger] frr_rm_entries(rm, vnis)[2 * k] == frr_rm_entry(rm, (2 * k + 1) as nat, "macip"@, vnis[k])
            &&& frr_rm_entries(rm, vnis)[2 * k + 1] == frr_rm_entry(rm, (2 * k + 2) as nat, "multicast"@, vnis[k])
        } by {
            if k < p.len() {
                assert(frr_rm_entries(rm, p)[2 * k] == frr_rm_entry(rm, (2 * k + 1) as nat, "macip"@, p[k]));
            }
        }
    }
}

/// Replacing a route map on zebra-rs first deletes the policy, then for the
/// `k`-th VNI `v` (from 0) writes entry `2k+1` permitting its MAC/IP routes
/// and entry `2k+2` permitting its multicast routes, both matching VNI `v`.
pub proof fn lemma_zebra_route_map_entries(name: Seq<char>, vnis: Seq<i32>)
    ensures
        ({
            let r = zebra_rep_route_map(name, vnis);
            let rm = "gvlm-rm-"@ + name;
            &&& r.len() == 1 + 2 * vnis.len()
            &&& r[0] == vtyctl("delete policy "@ + rm)
            &&& forall|k: int| 0 <= k < vnis.len() ==> {
                let e1 = "set policy "@ + rm + " entry "@ + decimal((2 * k + 1) as nat);
                let e2 = "set policy "@ + rm + " entry "@ + decimal((2 * k + 2) as nat);
                let v = signed_decimal(vnis[k] as int);
                &&& #[trigger] r[1 + 2 * k] == vtyctl(e1 + " match evpn route-type macip\n"@ + e1 + " match evpn vni "@ + v + "\n"@ + e1 + " action permit"@)
                &&& r[2 + 2 * k] == vtyctl(e2 + " match evpn route-type multicast\n"@ + e2 + " match evpn vni "@ + v + "\n"@ + e2 + " action permit\n"@)
            }
        }),
{
    let rm = route_map_name(name);
    lemma_zebra_rm_entries_at(rm, vnis);
    reveal_strlit("\n");
    reveal_strlit(" match evpn route-type macip\n");
    reveal_strlit(" match evpn route-type multicast\n");
    reveal_strlit(" action permit\n");
    reveal_strlit(" match evpn route-type ");
    reveal_strlit("macip");
    reveal_strlit("multicast");
    reveal_strlit(" action permit");
    let r = zebra_rep_route_map(name, vnis);
    assert forall|k: int| 0 <= k < vnis.len() implies {
        let e1 = "set policy "@ + rm + " entry "@ + decimal((2 * k + 1) as nat);
        let e2 = "set policy "@ + rm + " entry "@ + decimal((2 * k + 2) as nat);
        let v = signed_decimal(vnis[k] as int);
        &&& #[trigger] r[1 + 2 * k] == vtyctl(e1 + " match evpn route-type macip\n"@ + e1 + " match evpn vni "@ + v + "\n"@ + e1 + " action permit"@)
        &&& r[2 + 2 * k] == vtyctl(e2 + " match evpn route-type multicast\n"@ + e2 + " match evpn vni "@ + v + "\n"@ + e2 + " action permit\n"@)
    } by {
        let e1 = "set policy "@ + rm + " entry "@ + decimal((2 * k + 1) as nat);
        let e2 = "set policy "@ + rm + " entry "@ + decimal((2 * k + 2) as nat);
        let v = signed_decimal(vnis[k] as int);
        assert(zebra_rm_entries(rm, vnis)[2 * k] == zebra_rm_entry(rm, (2 * k + 1) as nat, "macip"@, vnis[k], false));
        assert(r[1 + 2 * k] == zebra_rm_entries(rm, vnis)[2 * k]);
        assert(r[2 + 2 * k] == zebra_rm_entries(rm, vnis)[2 * k + 1]);
        assert(e1 + " match evpn route-type "@ + "macip"@ + nl() + e1 + " match evpn vni "@ + v + nl() + e1 + " action permit"@
            =~= e1 + " match evpn route-type macip\n"@ + e1 + " match evpn vni "@ + v + "\n"@ + e1 + " action permit"@);
        assert(e2 + " match evpn route-type "@ + "multicast"@ + nl() + e2 + " match evpn vni "@ + v + nl() + e2 + " action permit"@ + nl()
            =~= e2 + " match evpn route-type multicast\n"@ + e2 + " match evpn vni "@ + v + "\n"@ + e2 + " action permit\n"@);
    }
}

/// Replacing a route map on FRR first deletes it, then for the `k`-th VNI `v`
/// (from 0) adds entry `2k+1` permitting its MAC/IP routes and entry `2k+2`
/// permitting its multicast routes, both matching VNI `v`, and ends with an
/// entry that denies everything else.
pub proof fn lemma_frr_route_map_entries(name: Seq<char>, vnis: Seq<i32>)
    ensures
        ({
            let r = frr_rep_route_map(name, vnis);
            let rm = "gvlm-rm-"@ + name;
            &&& r.len() == 2 + 2 * vnis.len()
            &&& r[0] == vtysh(seq!["configure terminal"@, "no route-map "@ + rm])
            &&& forall|k: int| 0 <= k < vnis.len() ==> {
                let v = "match evpn vni "@ + signed_decimal(vnis[k] as int);
                &&& #[trigger] r[1 + 2 * k] == vtysh(seq!["configure terminal"@, "route-map "@ + rm + " permit "@ + decimal((2 * k + 1) as nat), "match evpn route-type macip"@, v])
                &&& r[2 + 2 * k] == vtysh(seq!["configure terminal"@, "route-map "@ + rm + " permit "@ + decimal((2 * k + 2) as nat), "match evpn route-type multicast"@, v])
            }
            &&& r[(1 + 2 * vnis.len()) as int] == vtysh(seq!["configure terminal"@, "route-map "@ + rm + " deny "@ + decimal((2 * vnis.len() + 1) as nat)])
        }),
{
    let rm = route_map_name(name);
    lemma_frr_rm_entries_at(rm, vnis);
    reveal_strlit("match evpn route-type ");
    reveal_strlit("match evpn route-type macip");
    reveal_strlit("match evpn route-type multicast");
    reveal_strlit("macip");
    reveal_strlit("multicast");
    let r = frr_rep_route_map(name, vnis);
    assert forall|k: int| 0 <= k < vnis.len() implies {
        let v = "match evpn vni "@ + signed_decimal(vnis[k] as int);
        &&& #[trigger] r[1 + 2 * k] == vtysh(seq!["configure terminal"@, "route-map "@ + rm + " permit "@ + decimal((2 * k + 1) as nat), "match evpn route-type macip"@, v])
        &&& r[2 + 2 * k] == vtysh(seq!["configure terminal"@, "route-map "@ + rm + " permit "@ + decimal((2 * k + 2) as nat), "match evpn route-type multicast"@, v])
    } by {
        assert(frr_rm_entries(rm, vnis)[2 * k] == frr_rm_entry(rm, (2 * k + 1) as nat, "macip"@, vnis[k]));
        assert(r[1 + 2 * k] == frr_rm_entries(rm, vnis)[2 * k]);
        assert(r[2 + 2 * k] == frr_rm_entries(rm, vnis)[2 * k + 1]);
        assert("match evpn route-type "@ + "macip"@ =~= "match evpn route-type macip"@);
        assert("match evpn route-type "@ + "multicast"@ =~= "match evpn route-type multicast"@);
    }
}

} // verus!
