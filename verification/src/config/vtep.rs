//! The VTEP's configuration.
use vstd::prelude::*;
use crate::bgp::{BgpOps, BgpOpsFrr, BgpOpsZebraRs};
use crate::config::rr::opt_text;
use crate::config::{arg_views, parse_u16, parse_u32, u16_of, u32_of};
use crate::keyed::replace_at;
use crate::session::RR_RCH_PORT;
use crate::text::{chars_of, owned, str_eq};
use crate::vtep::agent::VniPort;

verus! {

/// The VTEP's settings.
pub struct VtepConfig {
    pub vtep_name: String,
    pub vtep_pass: String,
    pub src_ifname: String,
    pub rr_hosts: Vec<String>,
    pub rr_ports: Vec<u16>,
    pub vnis: Vec<VniPort>,
    pub bgp_ops: BgpOps,
    pub bgp_asnum: u32,
}

pub struct VtepConfigView {
    pub vtep_name: Seq<char>,
    pub vtep_pass: Seq<char>,
    pub src_ifname: Seq<char>,
    pub rr_hosts: Seq<Seq<char>>,
    pub rr_ports: Seq<u16>,
    pub vnis: Seq<(u32, Seq<char>)>,
    pub zebra: bool,
    pub bgp_asnum: u32,
}

impl View for VtepConfig {
    type V = VtepConfigView;

    open spec fn view(&self) -> VtepConfigView {
        VtepConfigView {
            vtep_name: self.vtep_name@,
            vtep_pass: self.vtep_pass@,
            src_ifname: self.src_ifname@,
            rr_hosts: arg_views(self.rr_hosts@),
            rr_ports: self.rr_ports@,
            vnis: Seq::new(self.vnis@.len(), |i: int| (self.vnis@[i].vni, self.vnis@[i].ifname@)),
            zebra: self.bgp_ops is ZebraRs,
            bgp_asnum: self.bgp_asnum,
        }
    }
}

/// The environment values the VTEP reads: its name and password.
pub struct VtepEnv {
    pub vtep_name: Option<String>,
    pub vtep_pass: Option<String>,
}

pub open spec fn vtep_initial(env: VtepEnv) -> VtepConfigView {
    VtepConfigView {
        vtep_name: opt_text(env.vtep_name, seq![]),
        vtep_pass: opt_text(env.vtep_pass, seq![]),
        src_ifname: seq![],
        rr_hosts: seq![seq![], seq![]],
        rr_ports: seq![RR_RCH_PORT, RR_RCH_PORT],
        vnis: seq![],
        zebra: false,
        bgp_asnum: 64512,
    }
}

pub open spec fn vtep_option(a: Seq<char>) -> bool {
    a == "--src-ifname"@ || a == "--rr1-host"@ || a == "--rr1-port"@ || a == "--rr2-host"@ || a == "--rr2-port"@
        || a == "--vni"@ || a == "--bgp-backend"@ || a == "--bgp-asnum"@
}

pub open spec fn vtep_missing(a: Seq<char>) -> Seq<char> {
    if a == "--src-ifname"@ {
        "Source interface name required"@
    } else if a == "--rr1-host"@ {
        "gvls-rr #1 host required"@
    } else if a == "--rr1-port"@ {
        "gvls-rr #1 port required"@
    } else if a == "--rr2-host"@ {
        "gvls-rr #2 host required"@
    } else if a == "--rr2-port"@ {
        "gvls-rr #2 port required"@
    } else if a == "--vni"@ {
        "VNI and interface name error"@
    } else if a == "--bgp-backend"@ {
        "BGP backend required"@
    } else {
        "BGP ASNUM required"@
    }
}

/// The position of the only `:` of the text, if it has exactly one.
pub open spec fn only_colon(v: Seq<char>) -> Option<int> {
    if exists|k: int| 0 <= k < v.len() && v[k] == ':' && forall|m: int| 0 <= m < v.len() && m != k ==> v[m] != ':' {
        Some(choose|k: int| 0 <= k < v.len() && v[k] == ':' && forall|m: int| 0 <= m < v.len() && m != k ==> v[m] != ':')
    } else {
        None
    }
}

/// A `<vni>:<ifname>` pair: exactly one colon, a number from 1 to 16777214.
pub open spec fn vni_pair(v: Seq<char>) -> Result<(u32, Seq<char>), Seq<char>> {
    match only_colon(v) {
        None => Err("VNI and interface name format error"@),
        Some(k) => match u32_of(v.subrange(0, k)) {
            Err(e) => Err("VNI format error: "@ + e),
            Ok(n) => if 1 <= n <= 16777214 {
                Ok((n, v.subrange(k + 1, v.len() as int)))
            } else {
                Err("VNI out of range"@)
            },
        },
    }
}

pub open spec fn vtep_apply(c: VtepConfigView, a: Seq<char>, v: Seq<char>) -> Result<VtepConfigView, Seq<char>> {
    if a == "--src-ifname"@ {
        Ok(VtepConfigView { src_ifname: v, ..c })
    } else if a == "--rr1-host"@ {
        Ok(VtepConfigView { rr_hosts: c.rr_hosts.update(0, v), ..c })
    } else if a == "--rr1-port"@ {
        match u16_of(v) {
            Ok(p) => Ok(VtepConfigView { rr_ports: c.rr_ports.update(0, p), ..c }),
            Err(e) => Err("gvls-rr #1 port format error: "@ + e),
        }
    } else if a == "--rr2-host"@ {
        Ok(VtepConfigView { rr_hosts: c.rr_hosts.update(1, v), ..c })
    } else if a == "--rr2-port"@ {
        match u16_of(v) {
            Ok(p) => Ok(VtepConfigView { rr_ports: c.rr_ports.update(1, p), ..c }),
            Err(e) => Err("gvls-rr #2 port format error: "@ + e),
        }
    } else if a == "--vni"@ {
        match vni_pair(v) {
            Ok(p) => Ok(VtepConfigView { vnis: c.vnis.push(p), ..c }),
            Err(e) => Err(e),
        }
    } else if a == "--bgp-backend"@ {
        if v == "frr"@ {
            Ok(VtepConfigView { zebra: false, ..c })
        } else if v == "zebra-rs"@ {
            Ok(VtepConfigView { zebra: true, ..c })
        } else {
            Err("BGP bakend not supported"@)
        }
    } else {
        match u32_of(v) {
            Ok(n) => Ok(VtepConfigView { bgp_asnum: n, ..c }),
            Err(e) => Err("BGP ASNUM format error: "@ + e),
        }
    }
}

pub open spec fn vtep_args(c: VtepConfigView, args: Seq<Seq<char>>) -> Result<VtepConfigView, Seq<char>>
    decreases args.len(),
{
    if args.len() == 0 {
        Ok(c)
    } else {
        let a = args[0];
        let rest = args.drop_first();
        if a == "-h"@ || a == "--help"@ {
            Err(seq![])
        } else if !vtep_option(a) {
            Err("Unknown argument"@)
        } else if rest.len() == 0 {
            Err(vtep_missing(a))
        } else {
            match vtep_apply(c, a, rest[0]) {
                Ok(c2) => vtep_args(c2, rest.drop_first()),
                Err(e) => Err(e),
            }
        }
    }
}

/// The complete settings, or why they are not: the source interface, both
/// route reflectors, and the name and password are required.
pub open spec fn vtep_config(env: VtepEnv, args: Seq<Seq<char>>) -> Result<VtepConfigView, Seq<char>> {
    match vtep_args(vtep_initial(env), args) {
        Err(e) => Err(e),
        Ok(c) => if c.src_ifname.len() == 0 {
            Err("Source interface name required"@)
        } else if c.rr_hosts[0].len() == 0 {
            Err("gvls-rr #1 host required"@)
        } else if c.rr_hosts[1].len() == 0 {
            Err("gvls-rr #2 host required"@)
        } else if c.vtep_name.len() == 0 {
            Err("GVLS_VTEP_NAME required"@)
        } else if c.vtep_pass.len() == 0 {
            Err("GVLS_VTEP_PASS required"@)
        } else {
            Ok(c)
        },
    }
}

fn text_of(cs: &Vec<char>, from: usize, to: usize) -> (r: String)
    requires
        from <= to <= cs@.len(),
    ensures
        r@ == cs@.subrange(from as int, to as int),
{
    let mut s = String::new();
    let mut i = from;
    while i < to
        invariant
            from <= i <= to <= cs@.len(),
            s@ == cs@.subrange(from as int, i as int),
        decreases to - i,
    {
        s.push(cs[i]);
        i = i + 1;
        assert(s@ =~= cs@.subrange(from as int, i as int));
    }
    s
}

/// Reads a `<vni>:<ifname>` pair (see `vni_pair`).
pub fn parse_vni_pair(v: &str) -> (r: Result<VniPort, String>)
    ensures
        match vni_pair(v@) {
            Ok(p) => r matches Ok(port) && port.vni == p.0 && port.ifname@ == p.1,
            Err(e) => r matches Err(m) && m@ == e,
        },
{
    let cs = chars_of(v);
    let mut colons: usize = 0;
    let mut pos: usize = 0;
    let mut i: usize = 0;
    while i < cs.len()
        invariant
            i <= cs@.len(),
            cs@ == v@,
            colons <= i,
            colons == 0 ==> forall|m: int| 0 <= m < i ==> cs@[m] != ':',
            colons >= 1 ==> pos < i && cs@[pos as int] == ':',
            colons == 1 ==> forall|m: int| 0 <= m < i && m != pos ==> cs@[m] != ':',
            colons >= 2 ==> exists|m: int| 0 <= m < i && m != pos && cs@[m] == ':',
        decreases cs@.len() - i,
    {
        if cs[i] == ':' {
            if colons == 0 {
                pos = i;
            }
            colons = colons + 1;
        }
        i = i + 1;
    }
    if colons != 1 {
        proof {
            if only_colon(v@) is Some {
                let k = choose|k: int| 0 <= k < v@.len() && v@[k] == ':' && forall|m: int| 0 <= m < v@.len() && m != k ==> v@[m] != ':';
                if colons == 0 {
                    assert(cs@[k] != ':');
                } else {
                    let m = choose|m: int| 0 <= m < i && m != pos && cs@[m] == ':';
                    assert(k == pos || m == k);
                }
            }
        }
        return Err(owned("VNI and interface name format error"));
    }
    proof {
        let k = pos as int;
        assert(v@[k] == ':' && forall|m: int| 0 <= m < v@.len() && m != k ==> v@[m] != ':');
        let c = choose|k: int| 0 <= k < v@.len() && v@[k] == ':' && forall|m: int| 0 <= m < v@.len() && m != k ==> v@[m] != ':';
        assert(c == k);
    }
    let head = text_of(&cs, 0, pos);
    let ifname = text_of(&cs, pos + 1, cs.len());
    match parse_u32(head.as_str()) {
        Err(e) => {
            let mut m = owned("VNI format error: ");
            m.push_str(e.as_str());
            Err(m)
        },
        Ok(n) => {
            if 1 <= n && n <= 16777214 {
                Ok(VniPort { vni: n, ifname })
            } else {
                Err(owned("VNI out of range"))
            }
        },
    }
}

fn vtep_option_exec(a: &str) -> (r: bool)
    ensures
        r == vtep_option(a@),
{
    str_eq(a, "--src-ifname") || str_eq(a, "--rr1-host") || str_eq(a, "--rr1-port") || str_eq(a, "--rr2-host")
        || str_eq(a, "--rr2-port") || str_eq(a, "--vni") || str_eq(a, "--bgp-backend") || str_eq(a, "--bgp-asnum")
}

fn vtep_missing_exec(a: &str) -> (r: String)
    ensures
        r@ == vtep_missing(a@),
{
    if str_eq(a, "--src-ifname") {
        owned("Source interface name required")
    } else if str_eq(a, "--rr1-host") {
        owned("gvls-rr #1 host required")
    } else if str_eq(a, "--rr1-port") {
        owned("gvls-rr #1 port required")
    } else if str_eq(a, "--rr2-host") {
        owned("gvls-rr #2 host required")
    } else if str_eq(a, "--rr2-port") {
        owned("gvls-rr #2 port required")
    } else if str_eq(a, "--vni") {
        owned("VNI and interface name error")
    } else if str_eq(a, "--bgp-backend") {
        owned("BGP backend required")
    } else {
        owned("BGP ASNUM required")
    }
}

fn prefixed(prefix: &str, e: String) -> (r: String)
    ensures
        r@ == prefix@ + e@,
{
    let mut s = owned(prefix);
    s.push_str(e.as_str());
    s
}

impl VtepConfig {
    pub open spec fn wf(&self) -> bool {
        self.rr_hosts@.len() == 2 && self.rr_ports@.len() == 2
    }

    fn apply(&mut self, a: &str, v: &String) -> (r: Result<(), String>)
        requires
            old(self).wf(),
        ensures
            final(self).wf(),
            match vtep_apply(old(self)@, a@, v@) {
                Ok(c) => r is Ok && final(self)@ == c,
                Err(e) => r matches Err(m) && m@ == e,
            },
    {
        let ghost before = self@;
        if str_eq(a, "--src-ifname") {
            self.src_ifname = v.clone();
        } else if str_eq(a, "--rr1-host") {
            replace_at(&mut self.rr_hosts, 0, v.clone());
            assert(self@.rr_hosts =~= before.rr_hosts.update(0, v@));
        } else if str_eq(a, "--rr1-port") {
            match parse_u16(v.as_str()) {
                Ok(p) => {
                    replace_at(&mut self.rr_ports, 0, p);
                },
                Err(e) => return Err(prefixed("gvls-rr #1 port format error: ", e)),
            }
        } else if str_eq(a, "--rr2-host") {
            replace_at(&mut self.rr_hosts, 1, v.clone());
            assert(self@.rr_hosts =~= before.rr_hosts.update(1, v@));
        } else if str_eq(a, "--rr2-port") {
            match parse_u16(v.as_str()) {
                Ok(p) => {
                    replace_at(&mut self.rr_ports, 1, p);
                },
                Err(e) => return Err(prefixed("gvls-rr #2 port format error: ", e)),
            }
        } else if str_eq(a, "--vni") {
            match parse_vni_pair(v.as_str()) {
                Ok(port) => {
                    let ghost pv = (port.vni, port.ifname@);
                    self.vnis.push(port);
                    assert(self@.vnis =~= before.vnis.push(pv));
                },
                Err(e) => return Err(e),
            }
        } else if str_eq(a, "--bgp-backend") {
            if str_eq(v.as_str(), "frr") {
                self.bgp_ops = BgpOps::Frr(BgpOpsFrr {});
            } else if str_eq(v.as_str(), "zebra-rs") {
                self.bgp_ops = BgpOps::ZebraRs(BgpOpsZebraRs {});
            } else {
                return Err(owned("BGP bakend not supported"));
            }
        } else {
            match parse_u32(v.as_str()) {
                Ok(n) => self.bgp_asnum = n,
                Err(e) => return Err(prefixed("BGP ASNUM format error: ", e)),
            }
        }
        Ok(())
    }

    /// Reads the settings from the environment values and the options (the
    /// program name left out); see `vtep_config`.
    pub fn from_args(env: VtepEnv, args: &Vec<String>) -> (r: Result<VtepConfig, String>)
        ensures
            match vtep_config(env, arg_views(args@)) {
                Ok(c) => r matches Ok(conf) && conf@ == c && conf.wf(),
                Err(e) => r matches Err(m) && m@ == e,
            },
    {
        let ghost env0 = env;
        let mut rr_hosts: Vec<String> = Vec::new();
        rr_hosts.push(String::new());
        rr_hosts.push(String::new());
        let mut rr_ports: Vec<u16> = Vec::new();
        rr_ports.push(RR_RCH_PORT);
        rr_ports.push(RR_RCH_PORT);
        let mut conf = VtepConfig {
            vtep_name: match env.vtep_name {
                Some(s) => s,
                None => String::new(),
            },
            vtep_pass: match env.vtep_pass {
                Some(s) => s,
                None => String::new(),
            },
            src_ifname: String::new(),
            rr_hosts,
            rr_ports,
            vnis: Vec::new(),
            bgp_ops: BgpOps::Frr(BgpOpsFrr {}),
            bgp_asnum: 64512,
        };
        assert(conf@.rr_hosts =~= seq![seq![], seq![]]);
        assert(conf@.rr_ports =~= seq![RR_RCH_PORT, RR_RCH_PORT]);
        assert(conf@.vnis =~= seq![]);
        assert(conf@ == vtep_initial(env0));
        let ghost all = arg_views(args@);
        assert(all.subrange(0, all.len() as int) =~= all);
        let mut i: usize = 0;
        while i < args.len()
            invariant
                i <= args@.len(),
                all == arg_views(args@),
                env0 == env,
                conf.wf(),
                vtep_args(vtep_initial(env0), all) == vtep_args(conf@, all.subrange(i as int, all.len() as int)),
            decreases args@.len() - i,
        {
            let ghost rest = all.subrange(i as int, all.len() as int);
            assert(rest[0] == args@[i as int]@);
            assert(rest.drop_first() =~= all.subrange(i + 1, all.len() as int));
            let a = args[i].as_str();
            if str_eq(a, "-h") || str_eq(a, "--help") {
                assert(vtep_args(conf@, rest) == Err::<VtepConfigView, Seq<char>>(seq![]));
                return Err(String::new());
            }
            if !vtep_option_exec(a) {
                return Err(owned("Unknown argument"));
            }
            if i + 1 >= args.len() {
                return Err(vtep_missing_exec(a));
            }
            proof {
                assert(rest.drop_first()[0] == args@[i + 1]@);
                assert(rest.drop_first().drop_first() =~= all.subrange(i + 2, all.len() as int));
            }
            match conf.apply(a, &args[i + 1]) {
                Ok(()) => {},
                Err(e) => return Err(e),
            }
            i = i + 2;
        }
        assert(all.subrange(i as int, all.len() as int) =~= seq![]);
        if conf.src_ifname.as_str().is_empty() {
            return Err(owned("Source interface name required"));
        }
        if conf.rr_hosts[0].as_str().is_empty() {
            return Err(owned("gvls-rr #1 host required"));
        }
        if conf.rr_hosts[1].as_str().is_empty() {
            return Err(owned("gvls-rr #2 host required"));
        }
        if conf.vtep_name.as_str().is_empty() {
            return Err(owned("GVLS_VTEP_NAME required"));
        }
        if conf.vtep_pass.as_str().is_empty() {
            return Err(owned("GVLS_VTEP_PASS required"));
        }
        Ok(conf)
    }
}

} // verus!
