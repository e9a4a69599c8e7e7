//! How a VTEP sets up its VXLAN segments and BGP session: the commands it
//! runs, and the decisions between the checks it makes on its links.
use vstd::prelude::*;
use crate::bgp::{cmd_views, ops_add_neighbor, ops_del_neighbor, ops_upd_neighbor_us, text_views, BgpOps, Cmd, CmdView};
use crate::net::{ipv6_display, ipv6_text};
use crate::text::{decimal, lemma_decimal_injective, owned, push_u64};

verus! {

/// The bridge of VNI `vni`.
pub open spec fn brname_of(vni: u32) -> Seq<char> {
    "gvls-br"@ + decimal(vni as nat)
}

/// The VXLAN interface of VNI `vni`.
pub open spec fn vniname_of(vni: u32) -> Seq<char> {
    "gvls-vni"@ + decimal(vni as nat)
}

/// Different VNIs have different bridges.
pub proof fn lemma_brname_injective(a: u32, b: u32)
    requires
        brname_of(a) == brname_of(b),
    ensures
        a == b,
{
    let p = "gvls-br"@;
    assert(brname_of(a).subrange(p.len() as int, brname_of(a).len() as int) =~= decimal(a as nat));
    assert(brname_of(b).subrange(p.len() as int, brname_of(b).len() as int) =~= decimal(b as nat));
    lemma_decimal_injective(a as nat, b as nat);
}

/// Different VNIs have different VXLAN interfaces.
pub proof fn lemma_vniname_injective(a: u32, b: u32)
    requires
        vniname_of(a) == vniname_of(b),
    ensures
        a == b,
{
    let p = "gvls-vni"@;
    assert(vniname_of(a).subrange(p.len() as int, vniname_of(a).len() as int) =~= decimal(a as nat));
    assert(vniname_of(b).subrange(p.len() as int, vniname_of(b).len() as int) =~= decimal(b as nat));
    lemma_decimal_injective(a as nat, b as nat);
}

/// A VXLAN interface never has the name of a bridge.
pub proof fn lemma_vniname_not_brname(a: u32, b: u32)
    ensures
        vniname_of(a) != brname_of(b),
{
    reveal_strlit("gvls-vni");
    reveal_strlit("gvls-br");
    assert(vniname_of(a)[5] == 'v');
    assert(brname_of(b)[5] == 'b');
}

/// The name of the bridge of a VNI.
pub fn brname(vni: u32) -> (r: String)
    ensures
        r@ == brname_of(vni),
{
    let mut s = owned("gvls-br");
    push_u64(&mut s, vni as u64);
    s
}

/// The name of the VXLAN interface of a VNI.
pub fn vniname(vni: u32) -> (r: String)
    ensures
        r@ == vniname_of(vni),
{
    let mut s = owned("gvls-vni");
    push_u64(&mut s, vni as u64);
    s
}

/// `ip <args>`.
pub open spec fn ip(args: Seq<Seq<char>>) -> CmdView {
    CmdView { program: "ip"@, args }
}

/// `sysctl -w <val>`.
pub open spec fn sysctl(val: Seq<char>) -> CmdView {
    CmdView { program: "sysctl"@, args: seq!["-w"@, val] }
}

/// `ipset <args>`.
pub open spec fn ipset(args: Seq<Seq<char>>) -> CmdView {
    CmdView { program: "ipset"@, args }
}

fn arg(v: &mut Vec<String>, s: &str)
    ensures
        text_views(final(v)@) == text_views(old(v)@).push(s@),
{
    v.push(owned(s));
    assert(text_views(final(v)@) =~= text_views(old(v)@).push(s@));
}

fn cmd(program: &str, args: Vec<String>) -> (r: Cmd)
    ensures
        r@ == (CmdView { program: program@, args: text_views(args@) }),
{
    Cmd { program: owned(program), args }
}

fn sysctl_cmd(val: String) -> (r: Cmd)
    ensures
        r@ == sysctl(val@),
{
    let ghost v = val@;
    let mut a: Vec<String> = Vec::new();
    a.push(owned("-w"));
    a.push(val);
    assert(a@.len() == 2);
    assert(a@[0]@ == "-w"@);
    assert(a@[1]@ == v);
    assert(text_views(a@) =~= seq!["-w"@, v]);
    let r = cmd("sysctl", a);
    assert(r@.args =~= sysctl(v).args);
    r
}

fn sysctl_line(a: &str, b: &str, c: &str) -> (r: String)
    ensures
        r@ == a@ + b@ + c@,
{
    let mut s = owned(a);
    s.push_str(b);
    s.push_str(c);
    s
}

/// The commands that move the VXLAN interface of `vni` from the local address
/// `cur` to `next`: it is deleted unless it stays; with a new address it is
/// created again, joined to the bridge and brought up.
pub open spec fn update_vni_cmds(vni: u32, cur: Option<u128>, next: Option<u128>) -> Seq<CmdView> {
    let vn = vniname_of(vni);
    let br = brname_of(vni);
    (if next is None || next != cur {
        seq![ip(seq!["link"@, "delete"@, vn])]
    } else {
        seq![]
    }) + match next {
        Some(l) if next != cur => seq![
            ip(seq!["link"@, "add"@, vn, "type"@, "vxlan"@, "local"@, ipv6_display(l), "dstport"@, "4789"@, "id"@, decimal(vni as nat), "nolearning"@]),
            ip(seq!["link"@, "set"@, vn, "master"@, br, "addrgenmode"@, "none"@]),
            ip(seq!["link"@, "set"@, vn, "type"@, "bridge_slave"@, "neigh_suppress"@, "on"@, "learning"@, "off"@]),
            sysctl("net.ipv6.conf."@ + vn + ".disable_ipv6=1"@),
            ip(seq!["link"@, "set"@, vn, "up"@]),
        ],
        _ => seq![],
    }
}

/// The commands that move the VXLAN interface of `vni` to a new local address.
pub fn update_vni(vni: u32, loc_current: Option<u128>, loc_next: Option<u128>) -> (r: Vec<Cmd>)
    ensures
        cmd_views(r@) == update_vni_cmds(vni, loc_current, loc_next),
{
    let br = brname(vni);
    let vn = vniname(vni);
    let mut out: Vec<Cmd> = Vec::new();
    if loc_next.is_none() || loc_next != loc_current {
        let mut a: Vec<String> = Vec::new();
        arg(&mut a, "link");
        arg(&mut a, "delete");
        arg(&mut a, vn.as_str());
        assert(text_views(a@) =~= seq!["link"@, "delete"@, vn@]);
        out.push(cmd("ip", a));
    }
    let ghost first = cmd_views(out@);
    assert(first =~= if loc_next is None || loc_next != loc_current {
        seq![ip(seq!["link"@, "delete"@, vn@])]
    } else {
        seq![]
    });
    if let Some(local) = loc_next {
        if loc_next != loc_current {
            let lt = ipv6_text(local);
            let mut id = String::new();
            push_u64(&mut id, vni as u64);
            let mut a: Vec<String> = Vec::new();
            arg(&mut a, "link");
            arg(&mut a, "add");
            arg(&mut a, vn.as_str());
            arg(&mut a, "type");
            arg(&mut a, "vxlan");
            arg(&mut a, "local");
            arg(&mut a, lt.as_str());
            arg(&mut a, "dstport");
            arg(&mut a, "4789");
            arg(&mut a, "id");
            arg(&mut a, id.as_str());
            arg(&mut a, "nolearning");
            let c1 = cmd("ip", a);
            let mut b: Vec<String> = Vec::new();
            arg(&mut b, "link");
            arg(&mut b, "set");
            arg(&mut b, vn.as_str());
            arg(&mut b, "master");
            arg(&mut b, br.as_str());
            arg(&mut b, "addrgenmode");
            arg(&mut b, "none");
            let c2 = cmd("ip", b);
            let mut c: Vec<String> = Vec::new();
            arg(&mut c, "link");
            arg(&mut c, "set");
            arg(&mut c, vn.as_str());
            arg(&mut c, "type");
            arg(&mut c, "bridge_slave");
            arg(&mut c, "neigh_suppress");
            arg(&mut c, "on");
            arg(&mut c, "learning");
            arg(&mut c, "off");
            let c3 = cmd("ip", c);
            let c4 = sysctl_cmd(sysctl_line("net.ipv6.conf.", vn.as_str(), ".disable_ipv6=1"));
            let mut d: Vec<String> = Vec::new();
            arg(&mut d, "link");
            arg(&mut d, "set");
            arg(&mut d, vn.as_str());
            arg(&mut d, "up");
            let c5 = cmd("ip", d);
            proof {
                assert(c1@.args =~= seq!["link"@, "add"@, vn@, "type"@, "vxlan"@, "local"@, ipv6_display(local), "dstport"@, "4789"@, "id"@, decimal(vni as nat), "nolearning"@]);
                assert(c2@.args =~= seq!["link"@, "set"@, vn@, "master"@, br@, "addrgenmode"@, "none"@]);
                assert(c3@.args =~= seq!["link"@, "set"@, vn@, "type"@, "bridge_slave"@, "neigh_suppress"@, "on"@, "learning"@, "off"@]);
                assert(c5@.args =~= seq!["link"@, "set"@, vn@, "up"@]);
            }
            out.push(c1);
            out.push(c2);
            out.push(c3);
            out.push(c4);
            out.push(c5);
        }
    }
    assert(cmd_views(out@) =~= update_vni_cmds(vni, loc_current, loc_next));
    out
}


/// A check on a network interface: whether it exists, or whether it is a bridge.
pub enum LinkProbe {
    Exists(String),
    IsBridge(String),
}

pub enum LinkProbeView {
    Exists(Seq<char>),
    IsBridge(Seq<char>),
}

impl View for LinkProbe {
    type V = LinkProbeView;

    open spec fn view(&self) -> LinkProbeView {
        match self {
            LinkProbe::Exists(n) => LinkProbeView::Exists(n@),
            LinkProbe::IsBridge(n) => LinkProbeView::IsBridge(n@),
        }
    }
}

/// The next step of a setup: run the commands, then make the check and call
/// again with its answer; or run the commands and finish with the result.
pub enum SetupStep {
    Probe(Vec<Cmd>, LinkProbe),
    Done(Vec<Cmd>, Result<(), String>),
}

pub enum SetupStepView {
    Probe(Seq<CmdView>, LinkProbeView),
    Done(Seq<CmdView>, Result<(), Seq<char>>),
}

impl View for SetupStep {
    type V = SetupStepView;

    open spec fn view(&self) -> SetupStepView {
        match self {
            SetupStep::Probe(c, p) => SetupStepView::Probe(cmd_views(c@), p@),
            SetupStep::Done(c, r) => SetupStepView::Done(cmd_views(c@), match r {
                Ok(()) => Ok(()),
                Err(e) => Err(e@),
            }),
        }
    }
}

pub open spec fn bridge_create_cmds(vni: u32) -> Seq<CmdView> {
    let br = brname_of(vni);
    seq![ip(seq!["link"@, "add"@, br, "type"@, "bridge"@]), ip(seq!["link"@, "set"@, br, "addrgenmode"@, "none"@])]
}

pub open spec fn bridge_setup_cmds(vni: u32) -> Seq<CmdView> {
    let br = brname_of(vni);
    seq![
        sysctl("net.ipv4.conf."@ + br + ".forwarding=0"@),
        sysctl("net.ipv6.conf."@ + br + ".forwarding=0"@),
        sysctl("net.ipv6.conf."@ + br + ".disable_ipv6=1"@),
        ip(seq!["link"@, "set"@, br, "up"@]),
    ]
}

pub open spec fn brport_cmds(vni: u32, ifname: Seq<char>) -> Seq<CmdView> {
    seq![
        sysctl("net.ipv6.conf."@ + ifname + ".disable_ipv6=1"@),
        ip(seq!["link"@, "set"@, ifname, "up"@]),
        ip(seq!["link"@, "set"@, ifname, "master"@, brname_of(vni)]),
    ]
}

/// Setting up VNI `vni` on interface `ifname`, given the answers to the checks
/// so far: the interface must exist; the bridge is created when missing and
/// must be a bridge; it is configured and brought up; a stale VXLAN interface
/// is deleted, a fresh one is made for the local address, and the interface
/// joins the bridge.
pub open spec fn add_vni_plan(vni: u32, ifname: Seq<char>, local: Option<u128>, answers: Seq<bool>) -> SetupStepView {
    let br = brname_of(vni);
    let vn = vniname_of(vni);
    if answers.len() == 0 {
        SetupStepView::Probe(seq![], LinkProbeView::Exists(ifname))
    } else if !answers[0] {
        SetupStepView::Done(seq![], Err("Link "@ + ifname + " not exists"@))
    } else if answers.len() == 1 {
        SetupStepView::Probe(seq![], LinkProbeView::Exists(br))
    } else if answers.len() == 2 {
        SetupStepView::Probe(if !answers[1] { bridge_create_cmds(vni) } else { seq![] }, LinkProbeView::IsBridge(br))
    } else if !answers[2] {
        SetupStepView::Done(seq![], Err("Link "@ + br + " is not bridge"@))
    } else if answers.len() == 3 {
        SetupStepView::Probe(bridge_setup_cmds(vni), LinkProbeView::Exists(vn))
    } else {
        SetupStepView::Done(
            (if answers[3] { seq![ip(seq!["link"@, "delete"@, vn])] } else { seq![] }) + update_vni_cmds(vni, None, local)
                + brport_cmds(vni, ifname),
            Ok(()),
        )
    }
}

/// Removing VNI `vni`, given the answers so far: its VXLAN interface and its
/// bridge are deleted where they exist.
pub open spec fn del_vni_plan(vni: u32, answers: Seq<bool>) -> SetupStepView {
    let br = brname_of(vni);
    let vn = vniname_of(vni);
    if answers.len() == 0 {
        SetupStepView::Probe(seq![], LinkProbeView::Exists(vn))
    } else if answers.len() == 1 {
        SetupStepView::Probe(if answers[0] { seq![ip(seq!["link"@, "delete"@, vn])] } else { seq![] }, LinkProbeView::Exists(br))
    } else {
        SetupStepView::Done(if answers[1] { seq![ip(seq!["link"@, "delete"@, br])] } else { seq![] }, Ok(()))
    }
}

fn ip_cmd(args: Vec<String>) -> (r: Cmd)
    ensures
        r@ == ip(text_views(args@)),
{
    cmd("ip", args)
}

fn ip_link(verb: &str, name: &str) -> (r: Cmd)
    ensures
        r@ == ip(seq!["link"@, verb@, name@]),
{
    let mut a: Vec<String> = Vec::new();
    arg(&mut a, "link");
    arg(&mut a, verb);
    arg(&mut a, name);
    assert(text_views(a@) =~= seq!["link"@, verb@, name@]);
    ip_cmd(a)
}

fn ip_link_set(name: &str, what: &str) -> (r: Cmd)
    ensures
        r@ == ip(seq!["link"@, "set"@, name@, what@]),
{
    let mut a: Vec<String> = Vec::new();
    arg(&mut a, "link");
    arg(&mut a, "set");
    arg(&mut a, name);
    arg(&mut a, what);
    assert(text_views(a@) =~= seq!["link"@, "set"@, name@, what@]);
    ip_cmd(a)
}

fn ip_link_set2(name: &str, what: &str, value: &str) -> (r: Cmd)
    ensures
        r@ == ip(seq!["link"@, "set"@, name@, what@, value@]),
{
    let mut a: Vec<String> = Vec::new();
    arg(&mut a, "link");
    arg(&mut a, "set");
    arg(&mut a, name);
    arg(&mut a, what);
    arg(&mut a, value);
    assert(text_views(a@) =~= seq!["link"@, "set"@, name@, what@, value@]);
    ip_cmd(a)
}

/// The next step of setting up VNI `vni` on `ifname` (see `add_vni_plan`).
pub fn add_vni(vni: u32, ifname: &str, local: Option<u128>, answers: &Vec<bool>) -> (r: SetupStep)
    ensures
        r@ == add_vni_plan(vni, ifname@, local, answers@),
{
    let br = brname(vni);
    let vn = vniname(vni);
    let none: Vec<Cmd> = Vec::new();
    assert(cmd_views(none@) =~= seq![]);
    if answers.len() == 0 {
        return SetupStep::Probe(none, LinkProbe::Exists(owned(ifname)));
    }
    if !answers[0] {
        let mut e = owned("Link ");
        e.push_str(ifname);
        e.push_str(" not exists");
        return SetupStep::Done(none, Err(e));
    }
    if answers.len() == 1 {
        return SetupStep::Probe(none, LinkProbe::Exists(br));
    }
    if answers.len() == 2 {
        let mut cmds: Vec<Cmd> = Vec::new();
        if !answers[1] {
            let mut a: Vec<String> = Vec::new();
            arg(&mut a, "link");
            arg(&mut a, "add");
            arg(&mut a, br.as_str());
            arg(&mut a, "type");
            arg(&mut a, "bridge");
            assert(text_views(a@) =~= seq!["link"@, "add"@, br@, "type"@, "bridge"@]);
            cmds.push(ip_cmd(a));
            cmds.push(ip_link_set2(br.as_str(), "addrgenmode", "none"));
        }
        assert(cmd_views(cmds@) =~= if !answers@[1] { bridge_create_cmds(vni) } else { seq![] });
        return SetupStep::Probe(cmds, LinkProbe::IsBridge(br));
    }
    if !answers[2] {
        let mut e = owned("Link ");
        e.push_str(br.as_str());
        e.push_str(" is not bridge");
        return SetupStep::Done(none, Err(e));
    }
    if answers.len() == 3 {
        let mut cmds: Vec<Cmd> = Vec::new();
        cmds.push(sysctl_cmd(sysctl_line("net.ipv4.conf.", br.as_str(), ".forwarding=0")));
        cmds.push(sysctl_cmd(sysctl_line("net.ipv6.conf.", br.as_str(), ".forwarding=0")));
        cmds.push(sysctl_cmd(sysctl_line("net.ipv6.conf.", br.as_str(), ".disable_ipv6=1")));
        cmds.push(ip_link_set(br.as_str(), "up"));
        assert(cmd_views(cmds@) =~= bridge_setup_cmds(vni));
        return SetupStep::Probe(cmds, LinkProbe::Exists(vn));
    }
    let mut cmds: Vec<Cmd> = Vec::new();
    if answers[3] {
        cmds.push(ip_link("delete", vn.as_str()));
    }
    let ghost c0 = cmd_views(cmds@);
    assert(c0 =~= if answers@[3] { seq![ip(seq!["link"@, "delete"@, vniname_of(vni)])] } else { seq![] });
    let mut upd = update_vni(vni, None, local);
    cmds.append(&mut upd);
    let ghost c1 = cmd_views(cmds@);
    assert(c1 =~= c0 + update_vni_cmds(vni, None, local));
    cmds.push(sysctl_cmd(sysctl_line("net.ipv6.conf.", ifname, ".disable_ipv6=1")));
    cmds.push(ip_link_set(ifname, "up"));
    cmds.push(ip_link_set2(ifname, "master", br.as_str()));
    assert(cmd_views(cmds@) =~= c1 + brport_cmds(vni, ifname@));
    assert(cmd_views(cmds@) =~= (if answers@[3] { seq![ip(seq!["link"@, "delete"@, vniname_of(vni)])] } else { seq![] })
        + update_vni_cmds(vni, None, local) + brport_cmds(vni, ifname@));
    SetupStep::Done(cmds, Ok(()))
}

/// The next step of removing VNI `vni` (see `del_vni_plan`).
pub fn del_vni(vni: u32, answers: &Vec<bool>) -> (r: SetupStep)
    ensures
        r@ == del_vni_plan(vni, answers@),
{
    let br = brname(vni);
    let vn = vniname(vni);
    let mut cmds: Vec<Cmd> = Vec::new();
    if answers.len() == 0 {
        assert(cmd_views(cmds@) =~= seq![]);
        return SetupStep::Probe(cmds, LinkProbe::Exists(vn));
    }
    if answers.len() == 1 {
        if answers[0] {
            cmds.push(ip_link("delete", vn.as_str()));
        }
        assert(cmd_views(cmds@) =~= if answers@[0] { seq![ip(seq!["link"@, "delete"@, vn@])] } else { seq![] });
        return SetupStep::Probe(cmds, LinkProbe::Exists(br));
    }
    if answers[1] {
        cmds.push(ip_link("delete", br.as_str()));
    }
    assert(cmd_views(cmds@) =~= if answers@[1] { seq![ip(seq!["link"@, "delete"@, br@])] } else { seq![] });
    SetupStep::Done(cmds, Ok(()))
}

/// Creating the set of peers the VTEP lets through.
pub fn init_neighs() -> (r: Vec<Cmd>)
    ensures
        cmd_views(r@) == seq![ipset(seq!["create"@, "gvls-neighs"@, "hash:net"@, "family"@, "inet6"@, "hashsize"@, "1024"@, "maxelem"@, "65536"@])],
{
    let mut a: Vec<String> = Vec::new();
    arg(&mut a, "create");
    arg(&mut a, "gvls-neighs");
    arg(&mut a, "hash:net");
    arg(&mut a, "family");
    arg(&mut a, "inet6");
    arg(&mut a, "hashsize");
    arg(&mut a, "1024");
    arg(&mut a, "maxelem");
    arg(&mut a, "65536");
    assert(text_views(a@) =~= seq!["create"@, "gvls-neighs"@, "hash:net"@, "family"@, "inet6"@, "hashsize"@, "1024"@, "maxelem"@, "65536"@]);
    let mut out: Vec<Cmd> = Vec::new();
    out.push(cmd("ipset", a));
    assert(cmd_views(out@) =~= seq![ipset(seq!["create"@, "gvls-neighs"@, "hash:net"@, "family"@, "inet6"@, "hashsize"@, "1024"@, "maxelem"@, "65536"@])]);
    out
}

fn ipset_neigh(verb: &str, neigh: u128) -> (r: Vec<Cmd>)
    ensures
        cmd_views(r@) == seq![ipset(seq![verb@, "gvls-neighs"@, ipv6_display(neigh)])],
{
    let t = ipv6_text(neigh);
    let mut a: Vec<String> = Vec::new();
    arg(&mut a, verb);
    arg(&mut a, "gvls-neighs");
    arg(&mut a, t.as_str());
    assert(text_views(a@) =~= seq![verb@, "gvls-neighs"@, ipv6_display(neigh)]);
    let mut out: Vec<Cmd> = Vec::new();
    out.push(cmd("ipset", a));
    assert(cmd_views(out@) =~= seq![ipset(seq![verb@, "gvls-neighs"@, ipv6_display(neigh)])]);
    out
}

/// Letting a peer through.
pub fn add_neigh(neigh: u128) -> (r: Vec<Cmd>)
    ensures
        cmd_views(r@) == seq![ipset(seq!["add"@, "gvls-neighs"@, ipv6_display(neigh)])],
{
    ipset_neigh("add", neigh)
}

/// No longer letting a peer through.
pub fn del_neigh(neigh: u128) -> (r: Vec<Cmd>)
    ensures
        cmd_views(r@) == seq![ipset(seq!["del"@, "gvls-neighs"@, ipv6_display(neigh)])],
{
    ipset_neigh("del", neigh)
}

/// A change to the BGP session with a route reflector.
#[derive(Clone, Copy, PartialEq, Eq, Structural)]
pub enum NeighborChange {
    /// Remove the neighbour at this address.
    Del(u128),
    /// Add the neighbour at this address with this local address (nothing
    /// happens without one).
    Add(u128, Option<u128>),
    /// Set the update source of the neighbour at this address.
    UpdateSource(u128, u128),
}

/// How the session with a route reflector follows its local and remote
/// addresses: with no remote nothing is needed but removing the old one
/// (when it had a local address); a new remote is added; with both, losing
/// the local address removes it, gaining one adds it, a moved remote is
/// replaced, and a moved local address changes the update source.
pub open spec fn update_bgp_plan(loc_cur: Option<u128>, loc_next: Option<u128>, rem_cur: Option<u128>, rem_next: Option<u128>) -> Seq<NeighborChange> {
    match (rem_cur, rem_next) {
        (None, None) => seq![],
        (Some(c), None) => if loc_cur is Some { seq![NeighborChange::Del(c)] } else { seq![] },
        (None, Some(n)) => seq![NeighborChange::Add(n, loc_next)],
        (Some(c), Some(n)) => match (loc_cur, loc_next) {
            (None, None) => seq![],
            (Some(_), None) => seq![NeighborChange::Del(c)],
            (None, Some(l)) => seq![NeighborChange::Add(n, Some(l))],
            (Some(a), Some(b)) => if c != n {
                seq![NeighborChange::Del(c), NeighborChange::Add(n, Some(b))]
            } else if a != b {
                seq![NeighborChange::UpdateSource(n, b)]
            } else {
                seq![]
            },
        },
    }
}

/// The changes to the session with a route reflector (see `update_bgp_plan`).
pub fn update_bgp(loc_current: Option<u128>, loc_next: Option<u128>, rem_current: Option<u128>, rem_next: Option<u128>) -> (r: Vec<NeighborChange>)
    ensures
        r@ == update_bgp_plan(loc_current, loc_next, rem_current, rem_next),
{
    let mut out: Vec<NeighborChange> = Vec::new();
    match (rem_current, rem_next) {
        (None, None) => {},
        (Some(c), None) => {
            if loc_current.is_some() {
                out.push(NeighborChange::Del(c));
            }
        },
        (None, Some(n)) => {
            out.push(NeighborChange::Add(n, loc_next));
        },
        (Some(c), Some(n)) => match (loc_current, loc_next) {
            (None, None) => {},
            (Some(_), None) => {
                out.push(NeighborChange::Del(c));
            },
            (None, Some(l)) => {
                out.push(NeighborChange::Add(n, Some(l)));
            },
            (Some(a), Some(b)) => {
                if c != n {
                    out.push(NeighborChange::Del(c));
                    out.push(NeighborChange::Add(n, Some(b)));
                } else if a != b {
                    out.push(NeighborChange::UpdateSource(n, b));
                }
            },
        },
    }
    assert(out@ =~= update_bgp_plan(loc_current, loc_next, rem_current, rem_next));
    out
}

/// The commands of one change, for the route reflector `name` with password `pass`.
pub fn neighbor_change_cmds(ops: &BgpOps, asnum: u32, name: &str, pass: &str, change: NeighborChange) -> (r: Vec<Cmd>)
    ensures
        cmd_views(r@) == match change {
            NeighborChange::Del(c) => ops_del_neighbor(*ops, asnum, c),
            NeighborChange::Add(n, l) => ops_add_neighbor(*ops, asnum, n, l, name@, pass@, false),
            NeighborChange::UpdateSource(n, l) => ops_upd_neighbor_us(*ops, asnum, n, l),
        },
{
    match change {
        NeighborChange::Del(c) => ops.del_neighbor(asnum, c),
        NeighborChange::Add(n, l) => ops.add_neighbor(asnum, n, l, name, pass, false),
        NeighborChange::UpdateSource(n, l) => ops.upd_neighbor_us(asnum, n, l),
    }
}

/// Moving the local address of VNI `vni`'s VXLAN interface: to a new address
/// `l`, the interface `gvls-vni<vni>` is deleted and created again with local
/// address `l`, joined to bridge `gvls-br<vni>`, and brought up last; to no
/// address it is only deleted; to the address it has, nothing is done.
pub proof fn lemma_update_vni_follows_local(vni: u32, cur: Option<u128>, next: Option<u128>)
    ensures
        ({
            let r = update_vni_cmds(vni, cur, next);
            let vn = "gvls-vni"@ + decimal(vni as nat);
            let br = "gvls-br"@ + decimal(vni as nat);
            let del = ip(seq!["link"@, "delete"@, vn]);
            let l = next->0;
            &&& (next is Some && next != cur) ==> {
                &&& r.len() == 6
                &&& r[0] == del
                &&& r[1] == ip(seq!["link"@, "add"@, vn, "type"@, "vxlan"@, "local"@, ipv6_display(l), "dstport"@, "4789"@, "id"@, decimal(vni as nat), "nolearning"@])
                &&& r[2] == ip(seq!["link"@, "set"@, vn, "master"@, br, "addrgenmode"@, "none"@])
                &&& r[3] == ip(seq!["link"@, "set"@, vn, "type"@, "bridge_slave"@, "neigh_suppress"@, "on"@, "learning"@, "off"@])
                &&& r[4] == (CmdView { program: "sysctl"@, args: seq!["-w"@, "net.ipv6.conf."@ + vn + ".disable_ipv6=1"@] })
                &&& r[5] == ip(seq!["link"@, "set"@, vn, "up"@])
            }
            &&& next is None ==> r == seq![del]
            &&& (next is Some && next == cur) ==> r.len() == 0
        }),
{
    let r = update_vni_cmds(vni, cur, next);
    if next is None {
        assert(r =~= seq![ip(seq!["link"@, "delete"@, vniname_of(vni)])]);
    }
    if next is Some && next == cur {
        assert(r =~= Seq::<CmdView>::empty());
    }
}

/// Where the session with a route reflector stands: a neighbour at the remote
/// address with the local address as source when both are known, else none.
pub open spec fn session_of(loc: Option<u128>, rem: Option<u128>) -> Option<(u128, u128)> {
    match (rem, loc) {
        (Some(r), Some(l)) => Some((r, l)),
        _ => None,
    }
}

/// What a change does to the session: removing the neighbour at `c` ends a
/// session with `c`; adding one with a local address starts it (without one
/// nothing happens); a new source applies to a session with that neighbour.
pub open spec fn apply_neighbor_change(s: Option<(u128, u128)>, c: NeighborChange) -> Option<(u128, u128)> {
    match c {
        NeighborChange::Del(a) => match s {
            Some((r, _)) if r == a => None,
            _ => s,
        },
        NeighborChange::Add(a, Some(l)) => Some((a, l)),
        NeighborChange::Add(_, None) => s,
        NeighborChange::UpdateSource(a, l) => match s {
            Some((r, _)) if r == a => Some((a, l)),
            _ => s,
        },
    }
}

/// The session after a list of changes, in order.
pub open spec fn apply_neighbor_changes(s: Option<(u128, u128)>, cs: Seq<NeighborChange>) -> Option<(u128, u128)>
    decreases cs.len(),
{
    if cs.len() == 0 {
        s
    } else {
        apply_neighbor_changes(apply_neighbor_change(s, cs[0]), cs.drop_first())
    }
}

/// The changes keep the session in step with the addresses: applied to the
/// session the current addresses give, they give the session of the next
/// addresses, whatever moved (the local address, the remote one, or both).
pub proof fn lemma_update_bgp_follows_addresses(loc_cur: Option<u128>, loc_next: Option<u128>, rem_cur: Option<u128>, rem_next: Option<u128>)
    ensures
        apply_neighbor_changes(session_of(loc_cur, rem_cur), update_bgp_plan(loc_cur, loc_next, rem_cur, rem_next))
            == session_of(loc_next, rem_next),
{
    let cs = update_bgp_plan(loc_cur, loc_next, rem_cur, rem_next);
    reveal_with_fuel(apply_neighbor_changes, 3);
    if cs.len() == 2 {
        assert(cs.drop_first().drop_first() =~= Seq::<NeighborChange>::empty());
        assert(cs.drop_first() =~= seq![cs[1]]);
    } else if cs.len() == 1 {
        assert(cs.drop_first() =~= Seq::<NeighborChange>::empty());
    }
}

} // verus!
