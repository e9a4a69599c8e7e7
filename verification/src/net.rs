//! Addresses as the service writes them: IPv4 in dotted decimal, IPv6 in the
//! recommended text form (RFC 5952), as `Display` of the standard address
//! types writes them.
use vstd::prelude::*;
use crate::text::{decimal, push_u64};

verus! {

/// The dotted-decimal text of the IPv4 address with bits `addr`.
pub open spec fn ipv4_display(addr: u32) -> Seq<char> {
    decimal((addr / 0x1000000) as nat) + seq!['.'] + decimal(((addr / 0x10000) % 0x100) as nat) + seq!['.']
        + decimal(((addr / 0x100) % 0x100) as nat) + seq!['.'] + decimal((addr % 0x100) as nat)
}

/// Writes an IPv4 address in dotted decimal, its most significant octet first.
pub fn ipv4_text(addr: u32) -> (r: String)
    ensures
        r@ == ipv4_display(addr),
{
    let mut s = String::new();
    push_u64(&mut s, (addr / 0x1000000) as u64);
    s.push('.');
    push_u64(&mut s, ((addr / 0x10000) % 0x100) as u64);
    s.push('.');
    push_u64(&mut s, ((addr / 0x100) % 0x100) as u64);
    s.push('.');
    push_u64(&mut s, (addr % 0x100) as u64);
    assert(s@ =~= ipv4_display(addr));
    s
}

/// The `i`-th 16-bit group of an IPv6 address, the most significant first.
pub open spec fn segment(addr: u128, i: int) -> u16 {
    ((addr >> (((7 - i) * 16) as u32)) & 0xffffu128) as u16
}

/// The eight groups of an IPv6 address.
pub open spec fn segments(addr: u128) -> Seq<u16> {
    Seq::new(8, |i: int| segment(addr, i))
}

/// The lowercase hexadecimal digit of `d`.
pub open spec fn hex_digit(d: int) -> char {
    if d < 10 {
        (d + 48) as char
    } else {
        (d + 87) as char
    }
}

/// The lowercase hexadecimal text of a natural number, without leading zeros.
pub open spec fn hex(n: nat) -> Seq<char>
    decreases n,
{
    if n < 16 {
        seq![hex_digit(n as int)]
    } else {
        hex(n / 16).push(hex_digit((n % 16) as int))
    }
}

/// Groups in hexadecimal, separated by colons.
pub open spec fn join_groups(s: Seq<u16>) -> Seq<char>
    decreases s.len(),
{
    if s.len() == 0 {
        seq![]
    } else if s.len() == 1 {
        hex(s[0] as nat)
    } else {
        join_groups(s.drop_last()) + seq![':'] + hex(s.last() as nat)
    }
}

/// Groups `start .. start + len` are all zero.
pub open spec fn zeros_at(s: Seq<u16>, start: int, len: int) -> bool {
    &&& 0 <= start
    &&& 0 <= len
    &&& start + len <= s.len()
    &&& forall|k: int| start <= k < start + len ==> s[k] == 0
}

/// `start, len` is the longest run of zero groups, the first of the longest.
pub open spec fn longest_zeros(s: Seq<u16>, start: int, len: int) -> bool {
    &&& zeros_at(s, start, len)
    &&& forall|st: int, l: int| zeros_at(s, st, l) ==> l <= len
    &&& len > 0 ==> forall|st: int| zeros_at(s, st, len) ==> start <= st
}

/// The address is an IPv4-mapped one (`::ffff:a.b.c.d`).
pub open spec fn ipv4_mapped(addr: u128) -> bool {
    let s = segments(addr);
    &&& s[0] == 0 && s[1] == 0 && s[2] == 0 && s[3] == 0 && s[4] == 0
    &&& s[5] == 0xffff
}

/// The text of an IPv6 address: an IPv4-mapped address as `::ffff:` and the
/// dotted IPv4 address; otherwise the groups in hexadecimal, the first longest
/// run of two or more zero groups written as `::`.
pub open spec fn ipv6_display(addr: u128) -> Seq<char> {
    let s = segments(addr);
    if ipv4_mapped(addr) {
        seq![':', ':', 'f', 'f', 'f', 'f', ':'] + ipv4_display(addr as u32)
    } else {
        let (st, l) = choose|st: int, l: int| longest_zeros(s, st, l);
        if l > 1 {
            join_groups(s.subrange(0, st)) + seq![':', ':'] + join_groups(s.subrange(st + l, 8))
        } else {
            join_groups(s)
        }
    }
}

/// The longest run of zeros is determined: its length always, its start when
/// it is not empty.
pub proof fn lemma_longest_zeros_unique(s: Seq<u16>, a: int, la: int, b: int, lb: int)
    requires
        longest_zeros(s, a, la),
        longest_zeros(s, b, lb),
    ensures
        la == lb,
        la > 0 ==> a == b,
{
}

fn hex_char(d: u16) -> (c: char)
    requires
        d < 16,
    ensures
        c == hex_digit(d as int),
{
    if d < 10 {
        (48u8 + d as u8) as char
    } else {
        (87u8 + d as u8) as char
    }
}

fn push_hex(s: &mut String, n: u16)
    ensures
        final(s)@ == old(s)@ + hex(n as nat),
    decreases n,
{
    if n >= 16 {
        push_hex(s, n / 16);
    }
    s.push(hex_char(n % 16));
    proof {
        assert(old(s)@ + hex(n as nat) =~= final(s)@) by {
            if n >= 16 {
                assert(hex(n as nat) == hex((n / 16) as nat).push(hex_digit((n % 16) as int)));
            }
        }
    }
}

/// Appends groups `from .. to` of `segs`, separated by colons.
fn push_groups(s: &mut String, segs: &Vec<u16>, from: usize, to: usize)
    requires
        from <= to <= segs@.len(),
    ensures
        final(s)@ == old(s)@ + join_groups(segs@.subrange(from as int, to as int)),
{
    let mut i = from;
    while i < to
        invariant
            from <= i <= to <= segs@.len(),
            s@ == old(s)@ + join_groups(segs@.subrange(from as int, i as int)),
        decreases to - i,
    {
        let ghost before = s@;
        if i > from {
            s.push(':');
        }
        push_hex(s, segs[i]);
        proof {
            let t = segs@.subrange(from as int, i + 1);
            assert(t.drop_last() =~= segs@.subrange(from as int, i as int));
            assert(t.last() == segs@[i as int]);
            if i > from {
                assert(join_groups(t) == join_groups(t.drop_last()) + seq![':'] + hex(t.last() as nat));
            } else {
                assert(segs@.subrange(from as int, i as int).len() == 0);
                assert(join_groups(t) == hex(t[0] as nat));
            }
            assert(s@ =~= old(s)@ + join_groups(t));
        }
        i = i + 1;
    }
}

/// Finds the first longest run of zero groups.
fn longest_zero_run(segs: &Vec<u16>) -> (r: (usize, usize))
    ensures
        longest_zeros(segs@, r.0 as int, r.1 as int),
{
    let mut ls: usize = 0;
    let mut ll: usize = 0;
    let mut cs: usize = 0;
    let mut cl: usize = 0;
    let mut i: usize = 0;
    let ghost s = segs@;
    while i < segs.len()
        invariant
            s == segs@,
            i <= s.len(),
            cs + cl == i,
            zeros_at(s, cs as int, cl as int),
            cs > 0 ==> s[cs - 1] != 0,
            zeros_at(s, ls as int, ll as int),
            ls + ll <= i,
            cl <= ll,
            forall|st: int, l: int| zeros_at(s, st, l) && st + l <= i ==> l <= ll,
            ll > 0 ==> forall|st: int| zeros_at(s, st, ll as int) && st + ll <= i ==> ls <= st,
        decreases s.len() - i,
    {
        if segs[i] == 0 {
            cl = cl + 1;
            proof {
                assert forall|st: int, l: int| zeros_at(s, st, l) && st + l == i + 1 && l > 0 implies cs <= st by {
                    if st < cs {
                        assert(s[cs - 1] == 0);
                    }
                }
            }
            if cl > ll {
                ls = cs;
                ll = cl;
            }
        } else {
            proof {
                assert forall|st: int, l: int| zeros_at(s, st, l) && st + l == i + 1 implies l == 0 by {
                    if l > 0 {
                        assert(s[i as int] == 0);
                    }
                }
            }
            cs = i + 1;
            cl = 0;
        }
        i = i + 1;
    }
    (ls, ll)
}

/// Writes an IPv6 address the way `Display` of the standard address type
/// does: RFC 5952 form, IPv4-mapped addresses with a dotted IPv4 tail.
pub fn ipv6_text(addr: u128) -> (r: String)
    ensures
        r@ == ipv6_display(addr),
{
    let mut segs: Vec<u16> = Vec::new();
    let mut i: usize = 0;
    while i < 8
        invariant
            i <= 8,
            segs@.len() == i,
            forall|k: int| 0 <= k < i ==> segs@[k] == segment(addr, k),
        decreases 8 - i,
    {
        segs.push(((addr >> (((7 - i) * 16) as u32)) & 0xffff) as u16);
        i = i + 1;
    }
    assert(segs@ =~= segments(addr));
    let mut s = String::new();
    if segs[0] == 0 && segs[1] == 0 && segs[2] == 0 && segs[3] == 0 && segs[4] == 0 && segs[5] == 0xffff {
        s.push(':');
        s.push(':');
        s.push('f');
        s.push('f');
        s.push('f');
        s.push('f');
        s.push(':');
        let v4 = ipv4_text(addr as u32);
        s.push_str(v4.as_str());
        assert(s@ =~= ipv6_display(addr));
        return s;
    }
    let (ls, ll) = longest_zero_run(&segs);
    proof {
        let (st, l) = choose|st: int, l: int| longest_zeros(segments(addr), st, l);
        assert(longest_zeros(segments(addr), ls as int, ll as int));
        lemma_longest_zeros_unique(segments(addr), ls as int, ll as int, st, l);
    }
    if ll > 1 {
        push_groups(&mut s, &segs, 0, ls);
        s.push(':');
        s.push(':');
        push_groups(&mut s, &segs, ls + ll, 8);
        assert(s@ =~= ipv6_display(addr));
    } else {
        push_groups(&mut s, &segs, 0, 8);
        assert(segs@.subrange(0, 8) =~= segs@);
        assert(s@ =~= ipv6_display(addr));
    }
    s
}

} // verus!
