//! Which peers a VTEP may reach: the connected VTEPs that share a VNI with it.
use vstd::prelude::*;
use crate::keyed::{contains_key, has_key, key_set, lemma_key_set_all, lemma_key_set_has_key, unique_keys, Keyed};
use crate::models::Vtep;

verus! {

/// VTEP `peer` has one of the VNIs `vnis`.
pub open spec fn shares_vni(peer: Vtep, vnis: Seq<i32>) -> bool {
    exists|k: int| 0 <= k < vnis.len() && #[trigger] peer.vnis@.contains(vnis[k])
}

/// The addresses of the VTEPs among `vteps` that have an address and one of the
/// VNIs `vnis`, but for the address `own`.
pub open spec fn peer_addrs(vteps: Seq<Vtep>, vnis: Seq<i32>, own: u128) -> Set<u128> {
    Set::new(|a: u128| a != own && exists|j: int| 0 <= j < vteps.len() && vteps[j].ipv6_addr == Some(a) && #[trigger] shares_vni(vteps[j], vnis))
}

/// Whether `peer` has one of the VNIs `vnis`.
fn has_any_vni(peer: &Vtep, vnis: &Vec<i32>) -> (r: bool)
    ensures
        r == shares_vni(*peer, vnis@),
{
    let mut k: usize = 0;
    while k < vnis.len()
        invariant
            k <= vnis.len(),
            forall|m: int| 0 <= m < k ==> !#[trigger] peer.vnis@.contains(vnis@[m]),
        decreases vnis.len() - k,
    {
        if contains_key(&peer.vnis, &vnis[k]) {
            proof {
                let i = choose|i: int| 0 <= i < peer.vnis@.len() && peer.vnis@[i].key() == vnis@[k as int];
                assert(peer.vnis@[i] == vnis@[k as int]);
                assert(peer.vnis@.contains(vnis@[k as int]));
            }
            return true;
        }
        proof {
            if peer.vnis@.contains(vnis@[k as int]) {
                let i = choose|i: int| 0 <= i < peer.vnis@.len() && peer.vnis@[i] == vnis@[k as int];
                assert(peer.vnis@[i].key() == vnis@[k as int]);
            }
        }
        k = k + 1;
    }
    false
}

/// The peers of a VTEP with the VNIs `vnis` and the address `own`: each
/// address once.
pub fn peers_of(vteps: &Vec<Vtep>, vnis: &Vec<i32>, own: u128) -> (r: Vec<u128>)
    ensures
        unique_keys(r@),
        r@.to_set() == peer_addrs(vteps@, vnis@, own),
{
    let mut out: Vec<u128> = Vec::new();
    let mut j: usize = 0;
    while j < vteps.len()
        invariant
            j <= vteps.len(),
            unique_keys(out@),
            out@.to_set() == peer_addrs(vteps@.subrange(0, j as int), vnis@, own),
        decreases vteps.len() - j,
    {
        let ghost before = out@;
        let ghost pre = vteps@.subrange(0, j as int);
        let ghost post = vteps@.subrange(0, j + 1);
        let shares = has_any_vni(&vteps[j], vnis);
        proof {
            assert forall|x: int| 0 <= x < pre.len() implies pre[x] == post[x] by {}
        }
        if let Some(a) = vteps[j].ipv6_addr {
            if shares && a != own && !contains_key(&out, &a) {
                out.push(a);
                proof {
                    assert forall|x: int, y: int| 0 <= x < out@.len() && 0 <= y < out@.len() && x != y implies out@[x].key() != out@[y].key() by {
                        if x == before.len() {
                            assert(!has_key(before, a));
                            assert(before[y].key() == before[y]);
                        }
                        if y == before.len() {
                            assert(!has_key(before, a));
                            assert(before[x].key() == before[x]);
                        }
                    }
                }
            }
        }
        proof {
            lemma_key_set_has_key(before, vteps@[j as int].ipv6_addr.unwrap_or(0));
            assert forall|b: u128| #[trigger] out@.to_set().contains(b) <==> peer_addrs(post, vnis@, own).contains(b) by {
                if out@.to_set().contains(b) {
                    let x = choose|x: int| 0 <= x < out@.len() && out@[x] == b;
                    if x < before.len() {
                        assert(before.to_set().contains(b));
                        let jj = choose|jj: int| 0 <= jj < pre.len() && pre[jj].ipv6_addr == Some(b) && shares_vni(pre[jj], vnis@);
                        assert(post[jj] == pre[jj]);
                    } else {
                        assert(post[j as int] == vteps@[j as int]);
                    }
                }
                if peer_addrs(post, vnis@, own).contains(b) {
                    let jj = choose|jj: int| 0 <= jj < post.len() && post[jj].ipv6_addr == Some(b) && shares_vni(post[jj], vnis@);
                    if jj < j {
                        assert(pre[jj] == post[jj]);
                        assert(peer_addrs(pre, vnis@, own).contains(b));
                        assert(before.to_set().contains(b));
                        let x = choose|x: int| 0 <= x < before.len() && before[x] == b;
                        assert(out@[x] == b);
                    } else {
                        assert(post[jj] == vteps@[j as int]);
                        if !before.to_set().contains(b) {
                            assert(!has_key(before, b)) by {
                                if has_key(before, b) {
                                    let x = choose|x: int| 0 <= x < before.len() && before[x].key() == b;
                                    assert(before[x] == b);
                                }
                            }
                            assert(out@[out@.len() - 1] == b);
                        } else {
                            let x = choose|x: int| 0 <= x < before.len() && before[x] == b;
                            assert(out@[x] == b);
                        }
                    }
                }
            }
            assert(out@.to_set() =~= peer_addrs(post, vnis@, own));
        }
        j = j + 1;
    }
    assert(vteps@.subrange(0, vteps@.len() as int) =~= vteps@);
    out
}

} // verus!
