//! The command line of the VTEP's control tool.
use vstd::prelude::*;
use crate::config::{arg_views, parse_u32, u32_of};
use crate::text::{owned, str_eq};

verus! {

/// What the control tool is asked to do.
pub enum CtrlCommand {
    /// `--rch-path` came without a path.
    PathMissing,
    /// A known command with the wrong number of arguments.
    Usage,
    /// An unknown command.
    Unknown(String),
    /// Add VNI `vni` (or why the number is wrong) on `ifname`, through the socket at `path`.
    AddVni { path: String, vni: Result<u32, String>, ifname: String },
    /// Remove VNI `vni` (or why the number is wrong), through the socket at `path`.
    DelVni { path: String, vni: Result<u32, String> },
}

pub enum CtrlCommandView {
    PathMissing,
    Usage,
    Unknown(Seq<char>),
    AddVni { path: Seq<char>, vni: Result<u32, Seq<char>>, ifname: Seq<char> },
    DelVni { path: Seq<char>, vni: Result<u32, Seq<char>> },
}

pub open spec fn result_view(r: Result<u32, String>) -> Result<u32, Seq<char>> {
    match r {
        Ok(v) => Ok(v),
        Err(e) => Err(e@),
    }
}

impl View for CtrlCommand {
    type V = CtrlCommandView;

    open spec fn view(&self) -> CtrlCommandView {
        match self {
            CtrlCommand::PathMissing => CtrlCommandView::PathMissing,
            CtrlCommand::Usage => CtrlCommandView::Usage,
            CtrlCommand::Unknown(c) => CtrlCommandView::Unknown(c@),
            CtrlCommand::AddVni { path, vni, ifname } => CtrlCommandView::AddVni { path: path@, vni: result_view(*vni), ifname: ifname@ },
            CtrlCommand::DelVni { path, vni } => CtrlCommandView::DelVni { path: path@, vni: result_view(*vni) },
        }
    }
}

/// The socket path and the other arguments, or `None` when `--rch-path`
/// lacks its value.
pub open spec fn ctrl_scan(args: Seq<Seq<char>>, path: Seq<char>, pos: Seq<Seq<char>>) -> Option<(Seq<char>, Seq<Seq<char>>)>
    decreases args.len(),
{
    if args.len() == 0 {
        Some((path, pos))
    } else if args[0] == "--rch-path"@ {
        if args.len() < 2 {
            None
        } else {
            ctrl_scan(args.subrange(2, args.len() as int), args[1], pos)
        }
    } else {
        ctrl_scan(args.drop_first(), path, pos.push(args[0]))
    }
}

/// What the arguments ask for.
pub open spec fn ctrl_command(args: Seq<Seq<char>>) -> CtrlCommandView {
    match ctrl_scan(args, "/run/gvls-vtep.sock"@, seq![]) {
        None => CtrlCommandView::PathMissing,
        Some((path, pos)) => if pos[0] == "add-vni"@ {
            if pos.len() != 3 {
                CtrlCommandView::Usage
            } else {
                CtrlCommandView::AddVni { path, vni: u32_of(pos[1]), ifname: pos[2] }
            }
        } else if pos[0] == "del-vni"@ {
            if pos.len() != 2 {
                CtrlCommandView::Usage
            } else {
                CtrlCommandView::DelVni { path, vni: u32_of(pos[1]) }
            }
        } else {
            CtrlCommandView::Unknown(pos[0])
        },
    }
}

/// Some command is given (unless the path is missing).
pub open spec fn ctrl_has_command(args: Seq<Seq<char>>) -> bool {
    match ctrl_scan(args, "/run/gvls-vtep.sock"@, seq![]) {
        None => true,
        Some((_, pos)) => pos.len() > 0,
    }
}

/// Reads the control tool's arguments (the program name left out).
pub fn parse_ctrl_args(args: &Vec<String>) -> (r: CtrlCommand)
    requires
        ctrl_has_command(arg_views(args@)),
    ensures
        r@ == ctrl_command(arg_views(args@)),
{
    let ghost all = arg_views(args@);
    let mut path = owned("/run/gvls-vtep.sock");
    let mut pos: Vec<String> = Vec::new();
    let mut i: usize = 0;
    assert(all.subrange(0, all.len() as int) =~= all);
    assert(arg_views(pos@) =~= seq![]);
    while i < args.len()
        invariant
            i <= args@.len(),
            all == arg_views(args@),
            ctrl_scan(all, "/run/gvls-vtep.sock"@, seq![]) == ctrl_scan(all.subrange(i as int, all.len() as int), path@, arg_views(pos@)),
        decreases args@.len() - i,
    {
        let ghost rest = all.subrange(i as int, all.len() as int);
        assert(rest[0] == args@[i as int]@);
        if str_eq(args[i].as_str(), "--rch-path") {
            if i + 1 >= args.len() {
                return CtrlCommand::PathMissing;
            }
            assert(rest[1] == args@[i + 1]@);
            assert(rest.subrange(2, rest.len() as int) =~= all.subrange(i + 2, all.len() as int));
            path = args[i + 1].clone();
            i = i + 2;
        } else {
            let ghost before = arg_views(pos@);
            pos.push(args[i].clone());
            assert(arg_views(pos@) =~= before.push(args@[i as int]@));
            assert(rest.drop_first() =~= all.subrange(i + 1, all.len() as int));
            i = i + 1;
        }
    }
    assert(all.subrange(i as int, all.len() as int) =~= seq![]);
    assert(pos@.len() > 0);
    let cmd = pos[0].as_str();
    if str_eq(cmd, "add-vni") {
        if pos.len() != 3 {
            return CtrlCommand::Usage;
        }
        let vni = parse_u32(pos[1].as_str());
        CtrlCommand::AddVni { path, vni, ifname: pos[2].clone() }
    } else if str_eq(cmd, "del-vni") {
        if pos.len() != 2 {
            return CtrlCommand::Usage;
        }
        let vni = parse_u32(pos[1].as_str());
        CtrlCommand::DelVni { path, vni }
    } else {
        CtrlCommand::Unknown(owned(cmd))
    }
}


/// Whether some command is given (or the path is missing), as reading the
/// arguments requires.
pub fn ctrl_command_given(args: &Vec<String>) -> (r: bool)
    ensures
        r == ctrl_has_command(arg_views(args@)),
{
    let ghost all = arg_views(args@);
    let mut i: usize = 0;
    assert(all.subrange(0, all.len() as int) =~= all);
    while i < args.len()
        invariant
            i <= args@.len(),
            all == arg_views(args@),
            ctrl_has_command(all) == match ctrl_scan(all.subrange(i as int, all.len() as int), "/run/gvls-vtep.sock"@, seq![]) {
                None => true,
                Some((_, pos)) => pos.len() > 0,
            },
        decreases args@.len() - i,
    {
        let ghost rest = all.subrange(i as int, all.len() as int);
        assert(rest[0] == args@[i as int]@);
        if str_eq(args[i].as_str(), "--rch-path") {
            if i + 1 >= args.len() {
                return true;
            }
            assert(rest.subrange(2, rest.len() as int) =~= all.subrange(i + 2, all.len() as int));
            proof {
                lemma_scan_path_free(rest.subrange(2, rest.len() as int), rest[1], "/run/gvls-vtep.sock"@);
            }
            i = i + 2;
        } else {
            proof {
                lemma_scan_nonempty(rest.drop_first(), "/run/gvls-vtep.sock"@, seq![rest[0]]);
            }
            return true;
        }
    }
    assert(all.subrange(i as int, all.len() as int) =~= seq![]);
    false
}

/// Which path the scan starts from does not change whether it finds one or
/// how many positional arguments it collects.
pub proof fn lemma_scan_path_free(args: Seq<Seq<char>>, p: Seq<char>, q: Seq<char>)
    ensures
        ctrl_scan(args, p, seq![]) is None <==> ctrl_scan(args, q, seq![]) is None,
        ctrl_scan(args, p, seq![]) matches Some((_, a)) ==> ctrl_scan(args, q, seq![]) matches Some((_, b)) && a == b,
    decreases args.len(),
{
    lemma_scan_path_free_pos(args, p, q, seq![]);
}

pub proof fn lemma_scan_path_free_pos(args: Seq<Seq<char>>, p: Seq<char>, q: Seq<char>, pos: Seq<Seq<char>>)
    ensures
        ctrl_scan(args, p, pos) is None <==> ctrl_scan(args, q, pos) is None,
        ctrl_scan(args, p, pos) matches Some((_, a)) ==> ctrl_scan(args, q, pos) matches Some((_, b)) && a == b,
    decreases args.len(),
{
    if args.len() == 0 {
    } else if args[0] == "--rch-path"@ {
        if args.len() >= 2 {
            assert(ctrl_scan(args, p, pos) == ctrl_scan(args.subrange(2, args.len() as int), args[1], pos));
            assert(ctrl_scan(args, q, pos) == ctrl_scan(args.subrange(2, args.len() as int), args[1], pos));
        }
    } else {
        lemma_scan_path_free_pos(args.drop_first(), p, q, pos.push(args[0]));
    }
}

/// Once a positional argument is collected, a scan that finds a path finds
/// a nonempty list.
pub proof fn lemma_scan_nonempty(args: Seq<Seq<char>>, p: Seq<char>, pos: Seq<Seq<char>>)
    requires
        pos.len() > 0,
    ensures
        ctrl_scan(args, p, pos) matches Some((_, b)) ==> b.len() > 0,
    decreases args.len(),
{
    if args.len() == 0 {
    } else if args[0] == "--rch-path"@ {
        if args.len() >= 2 {
            lemma_scan_nonempty(args.subrange(2, args.len() as int), args[1], pos);
        }
    } else {
        lemma_scan_nonempty(args.drop_first(), p, pos.push(args[0]));
    }
}

} // verus!
