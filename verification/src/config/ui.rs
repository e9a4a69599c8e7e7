//! The web UI's configuration.
use vstd::prelude::*;
use crate::config::rr::opt_text;
use crate::config::{arg_views, parse_u16, syntax_views, u16_of, AddrSyntax, AddrSyntaxView};
use crate::session::UI_RCH_PORT;
use crate::text::{owned, str_eq};

verus! {

/// The web UI's settings.
pub struct UiConfig {
    pub http_addr: String,
    pub http_port: u16,
    pub rch_addr: String,
    pub rch_port: u16,
    pub db_username: String,
    pub db_password: String,
    pub db_host: String,
    pub db_port: String,
    pub db_name: String,
}

pub struct UiConfigView {
    pub http_addr: Seq<char>,
    pub http_port: u16,
    pub rch_addr: Seq<char>,
    pub rch_port: u16,
    pub db_username: Seq<char>,
    pub db_password: Seq<char>,
    pub db_host: Seq<char>,
    pub db_port: Seq<char>,
    pub db_name: Seq<char>,
}

impl View for UiConfig {
    type V = UiConfigView;

    open spec fn view(&self) -> UiConfigView {
        UiConfigView {
            http_addr: self.http_addr@,
            http_port: self.http_port,
            rch_addr: self.rch_addr@,
            rch_port: self.rch_port,
            db_username: self.db_username@,
            db_password: self.db_password@,
            db_host: self.db_host@,
            db_port: self.db_port@,
            db_name: self.db_name@,
        }
    }
}

/// The environment values the web UI reads: how to reach its database.
pub struct UiEnv {
    pub db_username: Option<String>,
    pub db_password: Option<String>,
    pub db_host: Option<String>,
    pub db_port: Option<String>,
    pub db_name: Option<String>,
}

pub open spec fn ui_initial(env: UiEnv) -> UiConfigView {
    UiConfigView {
        http_addr: "127.0.0.1"@,
        http_port: 3000,
        rch_addr: "127.0.0.1"@,
        rch_port: UI_RCH_PORT,
        db_username: opt_text(env.db_username, "gvls"@),
        db_password: opt_text(env.db_password, "gvls"@),
        db_host: opt_text(env.db_host, "127.0.0.1"@),
        db_port: opt_text(env.db_port, "5432"@),
        db_name: opt_text(env.db_name, "gvls"@),
    }
}

pub open spec fn ui_option(a: Seq<char>) -> bool {
    a == "--http-addr"@ || a == "--http-port"@ || a == "--rch-addr"@ || a == "--rch-port"@
}

pub open spec fn ui_missing(a: Seq<char>) -> Seq<char> {
    if a == "--http-addr"@ {
        "HTTP address required"@
    } else if a == "--http-port"@ {
        "HTTP port required"@
    } else if a == "--rch-addr"@ {
        "RCH address required"@
    } else {
        "RCH port required"@
    }
}

/// The settings after option `a` with value `v`, or why `v` is wrong; `chk`
/// is what the address parsers made of `v`.
pub open spec fn ui_apply(c: UiConfigView, a: Seq<char>, v: Seq<char>, chk: AddrSyntaxView) -> Result<UiConfigView, Seq<char>> {
    if a == "--http-addr"@ {
        match chk.ip {
            None => Ok(UiConfigView { http_addr: v, ..c }),
            Some(e) => Err("HTTP address format error: "@ + e),
        }
    } else if a == "--http-port"@ {
        match u16_of(v) {
            Ok(p) => Ok(UiConfigView { http_port: p, ..c }),
            Err(e) => Err("HTTP port format error: "@ + e),
        }
    } else if a == "--rch-addr"@ {
        match chk.ip {
            None => Ok(UiConfigView { rch_addr: v, ..c }),
            Some(e) => Err("RCH address format error: "@ + e),
        }
    } else {
        match u16_of(v) {
            Ok(p) => Ok(UiConfigView { rch_port: p, ..c }),
            Err(e) => Err("RCH port format error: "@ + e),
        }
    }
}

/// The settings after the options; `chks` holds what the address parsers made
/// of each argument.
pub open spec fn ui_args(c: UiConfigView, args: Seq<Seq<char>>, chks: Seq<AddrSyntaxView>) -> Result<UiConfigView, Seq<char>>
    decreases args.len(),
{
    if args.len() == 0 {
        Ok(c)
    } else {
        let a = args[0];
        let rest = args.drop_first();
        if a == "-h"@ || a == "--help"@ {
            Err(seq![])
        } else if !ui_option(a) {
            Err("Unknown argument"@)
        } else if rest.len() == 0 {
            Err(ui_missing(a))
        } else {
            match ui_apply(c, a, rest[0], chks[1]) {
                Ok(c2) => ui_args(c2, rest.drop_first(), chks.drop_first().drop_first()),
                Err(e) => Err(e),
            }
        }
    }
}

fn env_or(o: Option<String>, default: &str) -> (r: String)
    ensures
        r@ == opt_text(o, default@),
{
    match o {
        Some(s) => s,
        None => owned(default),
    }
}

fn prefixed(prefix: &str, e: String) -> (r: String)
    ensures
        r@ == prefix@ + e@,
{
    let mut s = owned(prefix);
    s.push_str(e.as_str());
    s
}

impl UiConfig {
    fn apply(&mut self, a: &str, v: &String, chk: &AddrSyntax) -> (r: Result<(), String>)
        ensures
            match ui_apply(old(self)@, a@, v@, chk@) {
                Ok(c) => r is Ok && final(self)@ == c,
                Err(e) => r matches Err(m) && m@ == e,
            },
    {
        if str_eq(a, "--http-addr") {
            match &chk.ip {
                None => self.http_addr = v.clone(),
                Some(e) => return Err(prefixed("HTTP address format error: ", e.clone())),
            }
        } else if str_eq(a, "--http-port") {
            match parse_u16(v.as_str()) {
                Ok(p) => self.http_port = p,
                Err(e) => return Err(prefixed("HTTP port format error: ", e)),
            }
        } else if str_eq(a, "--rch-addr") {
            match &chk.ip {
                None => self.rch_addr = v.clone(),
                Some(e) => return Err(prefixed("RCH address format error: ", e.clone())),
            }
        } else {
            match parse_u16(v.as_str()) {
                Ok(p) => self.rch_port = p,
                Err(e) => return Err(prefixed("RCH port format error: ", e)),
            }
        }
        Ok(())
    }

    /// Reads the settings from the environment values and the options (the
    /// program name left out), with what the address parsers made of each
    /// option (`addrs[i]` of `args[i]`); see `ui_args`.
    pub fn from_args(env: UiEnv, args: &Vec<String>, addrs: &Vec<AddrSyntax>) -> (r: Result<UiConfig, String>)
        requires
            addrs.len() == args.len(),
        ensures
            match ui_args(ui_initial(env), arg_views(args@), syntax_views(addrs@)) {
                Ok(c) => r matches Ok(conf) && conf@ == c,
                Err(e) => r matches Err(m) && m@ == e,
            },
    {
        let ghost env0 = env;
        let mut conf = UiConfig {
            http_addr: owned("127.0.0.1"),
            http_port: 3000,
            rch_addr: owned("127.0.0.1"),
            rch_port: UI_RCH_PORT,
            db_username: env_or(env.db_username, "gvls"),
            db_password: env_or(env.db_password, "gvls"),
            db_host: env_or(env.db_host, "127.0.0.1"),
            db_port: env_or(env.db_port, "5432"),
            db_name: env_or(env.db_name, "gvls"),
        };
        assert(conf@ == ui_initial(env0));
        let ghost all = arg_views(args@);
        let ghost chks = syntax_views(addrs@);
        assert(all.subrange(0, all.len() as int) =~= all);
        assert(chks.subrange(0, chks.len() as int) =~= chks);
        let mut i: usize = 0;
        while i < args.len()
            invariant
                i <= args@.len(),
                addrs@.len() == args@.len(),
                all == arg_views(args@),
                chks == syntax_views(addrs@),
                env0 == env,
                ui_args(ui_initial(env0), all, chks) == ui_args(conf@, all.subrange(i as int, all.len() as int), chks.subrange(i as int, chks.len() as int)),
            decreases args@.len() - i,
        {
            let ghost rest = all.subrange(i as int, all.len() as int);
            let ghost crest = chks.subrange(i as int, chks.len() as int);
            assert(rest[0] == args@[i as int]@);
            assert(rest.drop_first() =~= all.subrange(i + 1, all.len() as int));
            let a = args[i].as_str();
            if str_eq(a, "-h") || str_eq(a, "--help") {
                assert(ui_args(conf@, rest, crest) == Err::<UiConfigView, Seq<char>>(seq![]));
                return Err(String::new());
            }
            let known = str_eq(a, "--http-addr") || str_eq(a, "--http-port") || str_eq(a, "--rch-addr") || str_eq(a, "--rch-port");
            if !known {
                return Err(owned("Unknown argument"));
            }
            if i + 1 >= args.len() {
                let m = if str_eq(a, "--http-addr") {
                    owned("HTTP address required")
                } else if str_eq(a, "--http-port") {
                    owned("HTTP port required")
                } else if str_eq(a, "--rch-addr") {
                    owned("RCH address required")
                } else {
                    owned("RCH port required")
                };
                return Err(m);
            }
            proof {
                assert(rest.drop_first()[0] == args@[i + 1]@);
                assert(rest.drop_first().drop_first() =~= all.subrange(i + 2, all.len() as int));
                assert(crest[1] == addrs@[i + 1]@);
                assert(crest.drop_first().drop_first() =~= chks.subrange(i + 2, chks.len() as int));
            }
            match conf.apply(a, &args[i + 1], &addrs[i + 1]) {
                Ok(()) => {},
                Err(e) => return Err(e),
            }
            i = i + 2;
        }
        assert(all.subrange(i as int, all.len() as int) =~= seq![]);
        Ok(conf)
    }
}

} // verus!
