//! The route reflector's configuration.
use vstd::prelude::*;
use crate::bgp::{BgpOps, BgpOpsFrr, BgpOpsZebraRs};
use crate::config::{arg_views, parse_u16, parse_u32, syntax_views, u16_of, u32_of, AddrSyntax, AddrSyntaxView};
use crate::session::{RR_RCH_PORT, UI_RCH_PORT};
use crate::text::{owned, str_eq};

verus! {

/// The route reflector's settings.
pub struct RrConfig {
    pub rr_name: String,
    pub rr_pass: String,
    pub src_ifname: String,
    pub ui_addr: Option<String>,
    pub ui_port: u16,
    pub rch_addr: String,
    pub rch_port: u16,
    pub ddns_hostkey: String,
    pub bgp_ops: BgpOps,
    pub bgp_asnum: u32,
}

pub struct RrConfigView {
    pub rr_name: Seq<char>,
    pub rr_pass: Seq<char>,
    pub src_ifname: Seq<char>,
    pub ui_addr: Option<Seq<char>>,
    pub ui_port: u16,
    pub rch_addr: Seq<char>,
    pub rch_port: u16,
    pub ddns_hostkey: Seq<char>,
    pub zebra: bool,
    pub bgp_asnum: u32,
}

impl View for RrConfig {
    type V = RrConfigView;

    open spec fn view(&self) -> RrConfigView {
        RrConfigView {
            rr_name: self.rr_name@,
            rr_pass: self.rr_pass@,
            src_ifname: self.src_ifname@,
            ui_addr: match self.ui_addr {
                Some(a) => Some(a@),
                None => None,
            },
            ui_port: self.ui_port,
            rch_addr: self.rch_addr@,
            rch_port: self.rch_port,
            ddns_hostkey: self.ddns_hostkey@,
            zebra: self.bgp_ops is ZebraRs,
            bgp_asnum: self.bgp_asnum,
        }
    }
}

/// The environment values the route reflector reads: its name and password at
/// the web UI, and its dynamic DNS host key.
pub struct RrEnv {
    pub rr_name: Option<String>,
    pub rr_pass: Option<String>,
    pub ddns_hostkey: Option<String>,
}

pub open spec fn opt_text(o: Option<String>, default: Seq<char>) -> Seq<char> {
    match o {
        Some(s) => s@,
        None => default,
    }
}

/// The settings before the options: defaults (BGP through zebra-rs unless
/// `--bgp-backend frr` is given), and the environment.
pub open spec fn rr_initial(env: RrEnv) -> RrConfigView {
    RrConfigView {
        rr_name: opt_text(env.rr_name, seq![]),
        rr_pass: opt_text(env.rr_pass, seq![]),
        src_ifname: seq![],
        ui_addr: None,
        ui_port: UI_RCH_PORT,
        rch_addr: "::1"@,
        rch_port: RR_RCH_PORT,
        ddns_hostkey: opt_text(env.ddns_hostkey, seq![]),
        zebra: true,
        bgp_asnum: 64512,
    }
}

/// The options that take a value.
pub open spec fn rr_option(a: Seq<char>) -> bool {
    a == "--src-ifname"@ || a == "--ui-addr"@ || a == "--ui-port"@ || a == "--rch-addr"@ || a == "--rch-port"@
        || a == "--bgp-backend"@ || a == "--bgp-asnum"@
}

/// The error for an option given without its value.
pub open spec fn rr_missing(a: Seq<char>) -> Seq<char> {
    if a == "--src-ifname"@ {
        "Source interface name required"@
    } else if a == "--ui-addr"@ {
        "gvls-ui address required"@
    } else if a == "--ui-port"@ {
        "gvls-ui port required"@
    } else if a == "--rch-addr"@ {
        "RCH address required"@
    } else if a == "--rch-port"@ {
        "RCH port required"@
    } else if a == "--bgp-backend"@ {
        "BGP backend required"@
    } else {
        "BGP ASNUM required"@
    }
}

/// The settings after option `a` with value `v`, or why `v` is wrong; `chk`
/// is what the address parsers made of `v`.
pub open spec fn rr_apply(c: RrConfigView, a: Seq<char>, v: Seq<char>, chk: AddrSyntaxView) -> Result<RrConfigView, Seq<char>> {
    if a == "--src-ifname"@ {
        Ok(RrConfigView { src_ifname: v, ..c })
    } else if a == "--ui-addr"@ {
        match chk.ipv4 {
            None => Ok(RrConfigView { ui_addr: Some(v), ..c }),
            Some(e) => Err("gvls-ui address format error: "@ + e),
        }
    } else if a == "--ui-port"@ {
        match u16_of(v) {
            Ok(p) => Ok(RrConfigView { ui_port: p, ..c }),
            Err(e) => Err("gvls-ui port format error: "@ + e),
        }
    } else if a == "--rch-addr"@ {
        match chk.ipv6 {
            None => Ok(RrConfigView { rch_addr: v, ..c }),
            Some(e) => Err("RCH address format error: "@ + e),
        }
    } else if a == "--rch-port"@ {
        match u16_of(v) {
            Ok(p) => Ok(RrConfigView { rch_port: p, ..c }),
            Err(e) => Err("RCH port format error: "@ + e),
        }
    } else if a == "--bgp-backend"@ {
        if v == "frr"@ {
            Ok(RrConfigView { zebra: false, ..c })
        } else if v == "zebra-rs"@ {
            Ok(RrConfigView { zebra: true, ..c })
        } else {
            Err("BGP bakend not supported"@)
        }
    } else {
        match u32_of(v) {
            Ok(n) => Ok(RrConfigView { bgp_asnum: n, ..c }),
            Err(e) => Err("BGP ASNUM format error: "@ + e),
        }
    }
}

/// The settings after the options `args`: each option with a value in turn;
/// `-h` or `--help` stop with an empty error, anything else is unknown.
/// `chks` holds what the address parsers made of each argument.
pub open spec fn rr_args(c: RrConfigView, args: Seq<Seq<char>>, chks: Seq<AddrSyntaxView>) -> Result<RrConfigView, Seq<char>>
    decreases args.len(),
{
    if args.len() == 0 {
        Ok(c)
    } else {
        let a = args[0];
        let rest = args.drop_first();
        if a == "-h"@ || a == "--help"@ {
            Err(seq![])
        } else if !rr_option(a) {
            Err("Unknown argument"@)
        } else if rest.len() == 0 {
            Err(rr_missing(a))
        } else {
            match rr_apply(c, a, rest[0], chks[1]) {
                Ok(c2) => rr_args(c2, rest.drop_first(), chks.drop_first().drop_first()),
                Err(e) => Err(e),
            }
        }
    }
}

/// The complete settings, or why they are not: after the options, the
/// source interface, the web UI's address, and the name and password are
/// required.
pub open spec fn rr_config(env: RrEnv, args: Seq<Seq<char>>, chks: Seq<AddrSyntaxView>) -> Result<RrConfigView, Seq<char>> {
    match rr_args(rr_initial(env), args, chks) {
        Err(e) => Err(e),
        Ok(c) => if c.src_ifname.len() == 0 {
            Err("Source interface name required"@)
        } else if c.ui_addr is None {
            Err("gvls-ui address required"@)
        } else if c.rr_name.len() == 0 {
            Err("GVLS_RR_NAME required"@)
        } else if c.rr_pass.len() == 0 {
            Err("GVLS_RR_PASS required"@)
        } else {
            Ok(c)
        },
    }
}

fn rr_option_exec(a: &str) -> (r: bool)
    ensures
        r == rr_option(a@),
{
    str_eq(a, "--src-ifname") || str_eq(a, "--ui-addr") || str_eq(a, "--ui-port") || str_eq(a, "--rch-addr") || str_eq(a, "--rch-port")
        || str_eq(a, "--bgp-backend") || str_eq(a, "--bgp-asnum")
}

fn rr_missing_exec(a: &str) -> (r: String)
    ensures
        r@ == rr_missing(a@),
{
    if str_eq(a, "--src-ifname") {
        owned("Source interface name required")
    } else if str_eq(a, "--ui-addr") {
        owned("gvls-ui address required")
    } else if str_eq(a, "--ui-port") {
        owned("gvls-ui port required")
    } else if str_eq(a, "--rch-addr") {
        owned("RCH address required")
    } else if str_eq(a, "--rch-port") {
        owned("RCH port required")
    } else if str_eq(a, "--bgp-backend") {
        owned("BGP backend required")
    } else {
        owned("BGP ASNUM required")
    }
}

fn prefixed(prefix: &str, e: String) -> (r: String)
    ensures
        r@ == prefix@ + e@,
{
    let mut s = owned(prefix);
    s.push_str(e.as_str());
    s
}

impl RrConfig {
    fn apply(&mut self, a: &str, v: &String, chk: &AddrSyntax) -> (r: Result<(), String>)
        ensures
            match rr_apply(old(self)@, a@, v@, chk@) {
                Ok(c) => r is Ok && final(self)@ == c,
                Err(e) => r matches Err(m) && m@ == e,
            },
    {
        if str_eq(a, "--src-ifname") {
            self.src_ifname = v.clone();
        } else if str_eq(a, "--ui-addr") {
            match &chk.ipv4 {
                None => self.ui_addr = Some(v.clone()),
                Some(e) => return Err(prefixed("gvls-ui address format error: ", e.clone())),
            }
        } else if str_eq(a, "--ui-port") {
            match parse_u16(v.as_str()) {
                Ok(p) => self.ui_port = p,
                Err(e) => return Err(prefixed("gvls-ui port format error: ", e)),
            }
        } else if str_eq(a, "--rch-addr") {
            match &chk.ipv6 {
                None => self.rch_addr = v.clone(),
                Some(e) => return Err(prefixed("RCH address format error: ", e.clone())),
            }
        } else if str_eq(a, "--rch-port") {
            match parse_u16(v.as_str()) {
                Ok(p) => self.rch_port = p,
                Err(e) => return Err(prefixed("RCH port format error: ", e)),
            }
        } else if str_eq(a, "--bgp-backend") {
            if str_eq(v.as_str(), "frr") {
                self.bgp_ops = BgpOps::Frr(BgpOpsFrr {});
            } else if str_eq(v.as_str(), "zebra-rs") {
                self.bgp_ops = BgpOps::ZebraRs(BgpOpsZebraRs {});
            } else {
                return Err(owned("BGP bakend not supported"));
            }
        } else {
            match parse_u32(v.as_str()) {
                Ok(n) => self.bgp_asnum = n,
                Err(e) => return Err(prefixed("BGP ASNUM format error: ", e)),
            }
        }
        Ok(())
    }

    /// Reads the settings from the environment values and the options (the
    /// program name left out), with what the address parsers made of each
    /// option (`addrs[i]` of `args[i]`); see `rr_config`.
    pub fn from_args(env: RrEnv, args: &Vec<String>, addrs: &Vec<AddrSyntax>) -> (r: Result<RrConfig, String>)
        requires
            addrs.len() == args.len(),
        ensures
            match rr_config(env, arg_views(args@), syntax_views(addrs@)) {
                Ok(c) => r matches Ok(conf) && conf@ == c,
                Err(e) => r matches Err(m) && m@ == e,
            },
    {
        let ghost env0 = env;
        let mut conf = RrConfig {
            rr_name: match env.rr_name {
                Some(s) => s,
                None => String::new(),
            },
            rr_pass: match env.rr_pass {
                Some(s) => s,
                None => String::new(),
            },
            src_ifname: String::new(),
            ui_addr: None,
            ui_port: UI_RCH_PORT,
            rch_addr: owned("::1"),
            rch_port: RR_RCH_PORT,
            ddns_hostkey: match env.ddns_hostkey {
                Some(s) => s,
                None => String::new(),
            },
            bgp_ops: BgpOps::ZebraRs(BgpOpsZebraRs {}),
            bgp_asnum: 64512,
        };
        assert(conf@ == rr_initial(env0));
        let ghost all = arg_views(args@);
        let ghost chks = syntax_views(addrs@);
        assert(all.subrange(0, all.len() as int) =~= all);
        assert(chks.subrange(0, chks.len() as int) =~= chks);
        let mut i: usize = 0;
        while i < args.len()
            invariant
                i <= args@.len(),
                addrs@.len() == args@.len(),
                all == arg_views(args@),
                chks == syntax_views(addrs@),
                env0 == env,
                rr_args(rr_initial(env0), all, chks) == rr_args(conf@, all.subrange(i as int, all.len() as int), chks.subrange(i as int, chks.len() as int)),
            decreases args@.len() - i,
        {
            let ghost rest = all.subrange(i as int, all.len() as int);
            let ghost crest = chks.subrange(i as int, chks.len() as int);
            assert(rest[0] == args@[i as int]@);
            assert(rest.drop_first() =~= all.subrange(i + 1, all.len() as int));
            let a = args[i].as_str();
            if str_eq(a, "-h") || str_eq(a, "--help") {
                assert(rr_args(conf@, rest, crest) == Err::<RrConfigView, Seq<char>>(seq![]));
                return Err(String::new());
            }
            if !rr_option_exec(a) {
                return Err(owned("Unknown argument"));
            }
            if i + 1 >= args.len() {
                return Err(rr_missing_exec(a));
            }
            proof {
                assert(rest.drop_first()[0] == args@[i + 1]@);
                assert(rest.drop_first().drop_first() =~= all.subrange(i + 2, all.len() as int));
                assert(crest[1] == addrs@[i + 1]@);
                assert(crest.drop_first().drop_first() =~= chks.subrange(i + 2, chks.len() as int));
            }
            match conf.apply(a, &args[i + 1], &addrs[i + 1]) {
                Ok(()) => {},
                Err(e) => return Err(e),
            }
            i = i + 2;
        }
        assert(all.subrange(i as int, all.len() as int) =~= seq![]);
        if conf.src_ifname.as_str().is_empty() {
            return Err(owned("Source interface name required"));
        }
        if conf.ui_addr.is_none() {
            return Err(owned("gvls-ui address required"));
        }
        if conf.rr_name.as_str().is_empty() {
            return Err(owned("GVLS_RR_NAME required"));
        }
        if conf.rr_pass.as_str().is_empty() {
            return Err(owned("GVLS_RR_PASS required"));
        }
        Ok(conf)
    }
}

} // verus!
