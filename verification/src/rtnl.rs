//! What the service reads from the kernel's routing netlink messages: the
//! IPv6 address an address message announces, and the kind of a link.
use vstd::prelude::*;
use crate::text::owned;

verus! {

/// An attribute of an address message.
pub enum AddrAttr {
    /// An address: `Some` for IPv6, `None` for another family.
    Address(Option<u128>),
    /// Address flags: whether the `Secondary` flag (a temporary address) is set.
    Flags(bool),
    Other,
}

/// An address message, as far as it is read.
pub struct AddrMsg {
    /// The index of the interface it is about.
    pub index: u32,
    /// The address family is IPv6.
    pub inet6: bool,
    /// The scope is global (`Universe`).
    pub universe: bool,
    pub attrs: Vec<AddrAttr>,
}

/// The last IPv6 address among the attributes.
pub open spec fn last_v6(attrs: Seq<AddrAttr>) -> Option<u128>
    decreases attrs.len(),
{
    if attrs.len() == 0 {
        None
    } else {
        match attrs.last() {
            AddrAttr::Address(Some(a)) => Some(a),
            _ => last_v6(attrs.drop_last()),
        }
    }
}

/// Some flags attribute marks the address temporary.
pub open spec fn any_secondary(attrs: Seq<AddrAttr>) -> bool {
    exists|i: int| 0 <= i < attrs.len() && #[trigger] attrs[i] matches AddrAttr::Flags(true)
}

/// The address a message announces: a global IPv6 address that is not
/// temporary, the last one given.
pub open spec fn ipv6_of(inet6: bool, universe: bool, attrs: Seq<AddrAttr>) -> Option<u128> {
    if !inet6 || !universe || any_secondary(attrs) {
        None
    } else {
        last_v6(attrs)
    }
}

/// The usable IPv6 address of an address message, if it has one.
pub fn parse_ipv6_addr(msg: &AddrMsg) -> (r: Option<u128>)
    ensures
        r == ipv6_of(msg.inet6, msg.universe, msg.attrs@),
{
    if !msg.inet6 || !msg.universe {
        return None;
    }
    let mut addr: Option<u128> = None;
    let mut tmpaddr = false;
    let mut i: usize = 0;
    while i < msg.attrs.len()
        invariant
            i <= msg.attrs@.len(),
            addr == last_v6(msg.attrs@.subrange(0, i as int)),
            tmpaddr == any_secondary(msg.attrs@.subrange(0, i as int)),
        decreases msg.attrs@.len() - i,
    {
        let ghost s = msg.attrs@.subrange(0, i + 1);
        let ghost p = msg.attrs@.subrange(0, i as int);
        proof {
            assert(s.drop_last() =~= p);
            assert(s.last() == msg.attrs@[i as int]);
        }
        match &msg.attrs[i] {
            AddrAttr::Address(Some(a)) => {
                addr = Some(*a);
            },
            AddrAttr::Flags(secondary) => {
                if *secondary {
                    tmpaddr = true;
                }
            },
            _ => {},
        }
        proof {
            assert forall|k: int| 0 <= k < p.len() implies p[k] == s[k] by {}
            if any_secondary(s) && !any_secondary(p) {
                let k = choose|k: int| 0 <= k < s.len() && #[trigger] s[k] matches AddrAttr::Flags(true);
                assert(k == i);
            }
            if any_secondary(p) {
                let k = choose|k: int| 0 <= k < p.len() && #[trigger] p[k] matches AddrAttr::Flags(true);
                assert(s[k] == p[k]);
            }
            if msg.attrs@[i as int] matches AddrAttr::Flags(true) {
                assert(s[i as int] matches AddrAttr::Flags(true));
            }
        }
        i = i + 1;
    }
    assert(msg.attrs@.subrange(0, msg.attrs@.len() as int) =~= msg.attrs@);
    if tmpaddr {
        return None;
    }
    addr
}

/// The addresses announced by the messages, in order.
pub open spec fn announced(msgs: Seq<AddrMsg>) -> Seq<u128>
    decreases msgs.len(),
{
    if msgs.len() == 0 {
        seq![]
    } else {
        let m = msgs.last();
        announced(msgs.drop_last()) + match ipv6_of(m.inet6, m.universe, m.attrs@) {
            Some(a) => seq![a],
            None => seq![],
        }
    }
}

/// The usable IPv6 addresses of an interface, from its address messages;
/// an error when there is none.
pub fn get_ipv6_addrs(msgs: &Vec<AddrMsg>) -> (r: Result<Vec<u128>, String>)
    ensures
        match r {
            Ok(v) => v@ == announced(msgs@) && v@.len() > 0,
            Err(e) => announced(msgs@).len() == 0 && e@ == "IPv6 address not found"@,
        },
{
    let mut addrs: Vec<u128> = Vec::new();
    let mut i: usize = 0;
    while i < msgs.len()
        invariant
            i <= msgs@.len(),
            addrs@ == announced(msgs@.subrange(0, i as int)),
        decreases msgs@.len() - i,
    {
        if let Some(a) = parse_ipv6_addr(&msgs[i]) {
            addrs.push(a);
        }
        proof {
            let s = msgs@.subrange(0, i + 1);
            assert(s.drop_last() =~= msgs@.subrange(0, i as int));
            assert(s.last() == msgs@[i as int]);
            assert(addrs@ =~= announced(s));
        }
        i = i + 1;
    }
    assert(msgs@.subrange(0, msgs@.len() as int) =~= msgs@);
    if addrs.len() > 0 {
        Ok(addrs)
    } else {
        Err(owned("IPv6 address not found"))
    }
}

/// The kind of a link.
#[derive(PartialEq, Eq, Structural)]
pub enum LinkKind {
    Bridge,
    Vxlan,
    Other,
}

/// An item of a link's information.
pub enum LinkInfoItem {
    Kind(LinkKind),
    Other,
}

/// An attribute of a link message.
pub enum LinkAttr {
    LinkInfo(Vec<LinkInfoItem>),
    Other,
}

/// A link message, as far as it is read.
pub struct LinkMsg {
    pub index: u32,
    pub attrs: Vec<LinkAttr>,
}

/// The link information items of an attribute.
pub open spec fn info_items(a: LinkAttr) -> Seq<LinkInfoItem> {
    match a {
        LinkAttr::LinkInfo(lis) => lis@,
        LinkAttr::Other => seq![],
    }
}

/// Some link information of the attributes gives the kind `kind`.
pub open spec fn has_kind(attrs: Seq<LinkAttr>, kind: LinkKind) -> bool {
    exists|i: int, j: int|
        0 <= i < attrs.len() && 0 <= j < info_items(attrs[i]).len() && #[trigger] info_items(attrs[i])[j] == LinkInfoItem::Kind(kind)
}

fn info_has_kind(lis: &Vec<LinkInfoItem>, kind: &LinkKind) -> (r: bool)
    ensures
        r == exists|j: int| 0 <= j < lis@.len() && #[trigger] lis@[j] == LinkInfoItem::Kind(*kind),
{
    let mut j: usize = 0;
    while j < lis.len()
        invariant
            j <= lis@.len(),
            forall|k: int| 0 <= k < j ==> #[trigger] lis@[k] != LinkInfoItem::Kind(*kind),
        decreases lis@.len() - j,
    {
        match &lis[j] {
            LinkInfoItem::Kind(k) => {
                if *k == *kind {
                    return true;
                }
            },
            _ => {},
        }
        j = j + 1;
    }
    false
}

/// Whether a link has the kind `kind`; `false` for a missing link.
fn link_has_kind(link: Option<&LinkMsg>, kind: LinkKind) -> (r: bool)
    ensures
        r == match link {
            Some(l) => has_kind(l.attrs@, kind),
            None => false,
        },
{
    let l = match link {
        Some(l) => l,
        None => return false,
    };
    let mut i: usize = 0;
    while i < l.attrs.len()
        invariant
            i <= l.attrs@.len(),
            link == Some(l),
            forall|a: int, j: int|
                0 <= a < i && 0 <= j < info_items(l.attrs@[a]).len() ==> #[trigger] info_items(l.attrs@[a])[j] != LinkInfoItem::Kind(kind),
        decreases l.attrs@.len() - i,
    {
        match &l.attrs[i] {
            LinkAttr::LinkInfo(lis) => {
                if info_has_kind(lis, &kind) {
                    proof {
                        let j = choose|j: int| 0 <= j < lis@.len() && #[trigger] lis@[j] == LinkInfoItem::Kind(kind);
                        assert(info_items(l.attrs@[i as int]) == lis@);
                        assert(info_items(l.attrs@[i as int])[j] == LinkInfoItem::Kind(kind));
                        assert(0 <= j < info_items(l.attrs@[i as int]).len());
                        assert(has_kind(l.attrs@, kind));
                    }
                    return true;
                }
            },
            _ => {},
        }
        i = i + 1;
    }
    false
}

/// Whether the link is a bridge; `false` when it does not exist.
pub fn is_bridge(link: Option<&LinkMsg>) -> (r: bool)
    ensures
        r == match link {
            Some(l) => has_kind(l.attrs@, LinkKind::Bridge),
            None => false,
        },
{
    link_has_kind(link, LinkKind::Bridge)
}

/// Whether the link is a VXLAN interface; `false` when it does not exist.
pub fn is_vxlan(link: Option<&LinkMsg>) -> (r: bool)
    ensures
        r == match link {
            Some(l) => has_kind(l.attrs@, LinkKind::Vxlan),
            None => false,
        },
{
    link_has_kind(link, LinkKind::Vxlan)
}

/// The index of a link, or why there is none.
pub fn get_ifindex(link: Option<&LinkMsg>, ifname: &str) -> (r: Result<u32, String>)
    ensures
        match link {
            Some(l) => r == Ok::<u32, String>(l.index),
            None => r matches Err(e) && e@ == "Link "@ + ifname@ + " not found"@,
        },
{
    match link {
        Some(l) => Ok(l.index),
        None => {
            let mut e = owned("Link ");
            e.push_str(ifname);
            e.push_str(" not found");
            Err(e)
        },
    }
}

} // verus!
