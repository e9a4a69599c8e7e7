//! Attaching VNIs to a VTEP and VTEPs to a VNI: the two sides of one relation.
use vstd::prelude::*;
use crate::keyed::{
    contains_key, has_key, index_of_id, index_of_name, insert_key, key_index, key_set, keys,
    is_first_key, lemma_key_index_none, lemma_key_index_some, lemma_key_set_all, sort_by_int, sort_by_text, sorted_by_int,
    sorted_by_text, text_views, unique_keys, IntKeyed, Keyed, TextKeyed,
};
use crate::models::{vni_update_vteps, vtep_update_vnis, Account, Permission, Vni, VniView, Vtep, VtepView};
use crate::text::lex_le;
use crate::text::{owned, push_i64, signed_decimal};
use crate::ui::context::Context;

verus! {

broadcast use vstd::seq_lib::group_to_multiset_ensures;

/// The record of VNI `v`.
pub open spec fn vni_of(s: Seq<Vni>, v: i32) -> Vni {
    s[key_index(s, v)->0]
}

/// The first requested VNI that may not be attached by this requester, and why.
pub open spec fn vni_attach_error(s: Seq<Vni>, requester: Account, req: Seq<i32>) -> Option<Seq<char>>
    decreases req.len(),
{
    if req.len() == 0 {
        None
    } else if !has_key(s, req[0]) {
        Some("VNI "@ + signed_decimal(req[0] as int) + " not found"@)
    } else if requester.perm != Permission::Admin && vni_of(s, req[0]).account_id != requester.id {
        Some("Cannot attach another account's VNI"@)
    } else {
        vni_attach_error(s, requester, req.drop_first())
    }
}

/// The VNIs a VTEP keeps although they are not requested: those of other
/// accounts, which a requester that is not an administrator cannot see.
pub open spec fn kept_vnis(s: Seq<Vni>, requester: Account, current: Set<i32>) -> Set<i32> {
    if requester.perm == Permission::Admin {
        Set::empty()
    } else {
        current.filter(|v: i32| has_key(s, v) && vni_of(s, v).account_id != requester.id)
    }
}

/// The VNIs a VTEP has after an update.
pub open spec fn requested_vnis(s: Seq<Vni>, requester: Account, req: Seq<i32>, current: Set<i32>) -> Set<i32> {
    req.to_set().union(kept_vnis(s, requester, current))
}

/// The view of VNI record `x` once VTEP `name` has left (`removed`) or joined (`added`) it.
pub open spec fn vni_after(x: VniView, name: Seq<char>, added: Set<i32>, removed: Set<i32>) -> VniView {
    if removed.contains(x.vni) {
        VniView { vteps: x.vteps.remove(name), ..x }
    } else if added.contains(x.vni) {
        VniView { vteps: x.vteps.insert(name), ..x }
    } else {
        x
    }
}

/// The first VNI of `req` that this requester may not attach, with the message.
pub fn first_vni_attach_error(vnis: &Vec<Vni>, requester: &Account, req: &Vec<i32>) -> (r: Option<String>)
    ensures
        match vni_attach_error(vnis@, *requester, req@) {
            Some(m) => r matches Some(e) && e@ == m,
            None => r is None,
        },
{
    let mut i: usize = 0;
    assert(req@.skip(0) =~= req@);
    while i < req.len()
        invariant
            i <= req.len(),
            vni_attach_error(vnis@, *requester, req@) == vni_attach_error(vnis@, *requester, req@.skip(i as int)),
        decreases req.len() - i,
    {
        let v = req[i];
        proof {
            assert(req@.skip(i as int)[0] == v);
            assert(req@.skip(i as int).drop_first() =~= req@.skip(i + 1));
            lemma_key_index_none(vnis@, v);
        }
        match index_of_id(vnis, v) {
            None => {
                let mut m = owned("VNI ");
                push_i64(&mut m, v as i64);
                m.append(" not found");
                return Some(m);
            },
            Some(k) => {
                if requester.perm != Permission::Admin && vnis[k].account_id != requester.id {
                    return Some(owned("Cannot attach another account's VNI"));
                }
            },
        }
        i = i + 1;
    }
    None
}

/// The VNIs a VTEP holding `current` has once `req` is applied for this requester.
pub fn compute_requested_vnis(vnis: &Vec<Vni>, requester: &Account, req: &Vec<i32>, current: &Vec<i32>) -> (r: Vec<i32>)
    ensures
        unique_keys(r@),
        key_set(r@) == requested_vnis(vnis@, *requester, req@, key_set(current@)),
{
    let mut out: Vec<i32> = Vec::new();
    let mut i: usize = 0;
    while i < req.len()
        invariant
            i <= req.len(),
            unique_keys(out@),
            key_set(out@) == req@.take(i as int).to_set(),
        decreases req.len() - i,
    {
        insert_key(&mut out, req[i]);
        proof {
            assert(req@.take(i + 1) =~= req@.take(i as int).push(req@[i as int]));
            crate::keyed::lemma_to_set_push(req@.take(i as int), req@[i as int]);
        }
        i = i + 1;
    }
    assert(req@.take(i as int) =~= req@);
    let ghost base = key_set(out@);
    let ghost pred = |v: i32| has_key(vnis@, v) && vni_of(vnis@, v).account_id != requester.id;
    if requester.perm != Permission::Admin {
        let mut k: usize = 0;
        while k < current.len()
            invariant
                k <= current.len(),
                unique_keys(out@),
                requester.perm != Permission::Admin,
                pred == (|v: i32| has_key(vnis@, v) && vni_of(vnis@, v).account_id != requester.id),
                key_set(out@) == base.union(key_set(current@.take(k as int)).filter(pred)),
            decreases current.len() - k,
        {
            let v = current[k];
            proof {
                lemma_key_index_none(vnis@, v);
                assert(current@.take(k + 1) =~= current@.take(k as int).push(v));
                crate::keyed::lemma_key_set_push(current@.take(k as int), v);
            }
            match index_of_id(vnis, v) {
                Some(j) => {
                    if vnis[j].account_id != requester.id {
                        insert_key(&mut out, v);
                        proof {
                            assert(pred(v));
                            assert(key_set(out@) =~= base.union(key_set(current@.take(k + 1)).filter(pred)));
                        }
                    } else {
                        proof {
                            assert(!pred(v));
                            assert(key_set(out@) =~= base.union(key_set(current@.take(k + 1)).filter(pred)));
                        }
                    }
                },
                None => {
                    proof {
                        assert(!pred(v));
                        assert(key_set(out@) =~= base.union(key_set(current@.take(k + 1)).filter(pred)));
                    }
                },
            }
            k = k + 1;
        }
        assert(current@.take(k as int) =~= current@);
        assert(kept_vnis(vnis@, *requester, key_set(current@)) == key_set(current@).filter(pred));
    } else {
        assert(key_set(out@) =~= requested_vnis(vnis@, *requester, req@, key_set(current@)));
    }
    assert(req@.to_set() =~= key_set(req@)) by {
        lemma_key_set_all(req@);
        assert forall|v: i32| req@.to_set().contains(v) <==> key_set(req@).contains(v) by {
            if req@.contains(v) {
                let a = choose|a: int| 0 <= a < req@.len() && req@[a] == v;
                assert(req@[a].key() == v);
            }
            if has_key(req@, v) {
                let a = choose|a: int| 0 <= a < req@.len() && req@[a].key() == v;
                assert(req@[a] == v);
            }
        }
    }
    out
}

/// Moves VTEP `name` out of the VNIs in `removed` and into those in `added`.
pub fn apply_vtep_membership(vnis: &mut Vec<Vni>, name: &str, added: &Vec<i32>, removed: &Vec<i32>)
    requires
        unique_keys(old(vnis)@),
        forall|i: int| 0 <= i < old(vnis)@.len() ==> (#[trigger] old(vnis)@[i]).wf(),
    ensures
        final(vnis)@.len() == old(vnis)@.len(),
        unique_keys(final(vnis)@),
        keys(final(vnis)@) == keys(old(vnis)@),
        forall|i: int| 0 <= i < final(vnis)@.len() ==> (#[trigger] final(vnis)@[i]).wf(),
        forall|i: int| 0 <= i < final(vnis)@.len() ==> (#[trigger] final(vnis)@[i])@ == vni_after(
            old(vnis)@[i]@, name@, key_set(added@), key_set(removed@)),
{
    let mut j: usize = 0;
    while j < vnis.len()
        invariant
            j <= vnis@.len(),
            vnis@.len() == old(vnis)@.len(),
            unique_keys(vnis@),
            keys(vnis@) == keys(old(vnis)@),
            forall|i: int| 0 <= i < vnis@.len() ==> (#[trigger] vnis@[i]).wf(),
            forall|i: int| 0 <= i < j ==> (#[trigger] vnis@[i])@ == vni_after(old(vnis)@[i]@, name@, key_set(added@), key_set(removed@)),
            forall|i: int| j <= i < vnis@.len() ==> #[trigger] vnis@[i] == old(vnis)@[i],
        decreases vnis@.len() - j,
    {
        let v = vnis[j].vni;
        let ghost before = vnis@;
        if contains_key(removed, &v) {
            vni_update_vteps(vnis, j, name, false);
        } else if contains_key(added, &v) {
            vni_update_vteps(vnis, j, name, true);
        }
        proof {
            assert forall|i: int| 0 <= i < vnis@.len() && i != j implies #[trigger] vnis@[i] == before[i] by {}
            assert(keys(vnis@) =~= keys(before));
        }
        j = j + 1;
    }
}

/// The records of the VNIs in `numbers` that exist, by number.
pub fn vni_copies(vnis: &Vec<Vni>, numbers: Vec<i32>) -> (r: Vec<Vni>)
    requires
        unique_keys(numbers@),
    ensures
        unique_keys(r@),
        sorted_by_int(r@),
        key_set(r@) == key_set(numbers@).intersect(key_set(vnis@)),
        forall|k: int| 0 <= k < r@.len() ==> has_key(vnis@, (#[trigger] r@[k]).vni) && r@[k]@ == vni_of(vnis@, r@[k].vni)@,
{
    let sorted = sort_by_int(numbers);
    let ghost ns = crate::keyed::int_views(sorted@);
    proof {
        // sorting keeps the numbers
        assert(crate::keyed::int_views(sorted@) =~= sorted@);
        assert(crate::keyed::int_views(numbers@) =~= numbers@);
        assert forall|x: i32| sorted@.contains(x) <==> numbers@.contains(x) by {
            assert(sorted@.to_multiset().count(x) == numbers@.to_multiset().count(x));
        }
        lemma_key_set_all(sorted@);
        lemma_key_set_all(numbers@);
        assert forall|x: i32| has_key(sorted@, x) <==> sorted@.contains(x) by {
            if has_key(sorted@, x) {
                let a = choose|a: int| 0 <= a < sorted@.len() && sorted@[a].key() == x;
                assert(sorted@[a] == x);
            }
            if sorted@.contains(x) {
                let a = choose|a: int| 0 <= a < sorted@.len() && sorted@[a] == x;
                assert(sorted@[a].key() == x);
            }
        }
        assert forall|x: i32| has_key(numbers@, x) <==> numbers@.contains(x) by {
            if has_key(numbers@, x) {
                let a = choose|a: int| 0 <= a < numbers@.len() && numbers@[a].key() == x;
                assert(numbers@[a] == x);
            }
            if numbers@.contains(x) {
                let a = choose|a: int| 0 <= a < numbers@.len() && numbers@[a] == x;
                assert(numbers@[a].key() == x);
            }
        }
        assert(key_set(sorted@) =~= key_set(numbers@));
    }
    let mut out: Vec<Vni> = Vec::new();
    let mut i: usize = 0;
    while i < sorted.len()
        invariant
            i <= sorted@.len(),
            sorted_by_int(sorted@),
            unique_keys(numbers@),
            sorted@.to_multiset() == numbers@.to_multiset(),
            unique_keys(out@),
            sorted_by_int(out@),
            forall|a: int, b: int| 0 <= a < out@.len() && i <= b < sorted@.len() ==> out@[a].vni <= sorted@[b],
            key_set(out@) == key_set(sorted@.take(i as int)).intersect(key_set(vnis@)),
            forall|k: int| 0 <= k < out@.len() ==> has_key(vnis@, (#[trigger] out@[k]).vni) && out@[k]@ == vni_of(vnis@, out@[k].vni)@,
            forall|a: int| 0 <= a < out@.len() ==> sorted@.take(i as int).contains(#[trigger] out@[a].vni),
        decreases sorted@.len() - i,
    {
        let v = sorted[i];
        proof {
            lemma_key_index_none(vnis@, v);
            lemma_key_set_all(vnis@);
            assert(sorted@.take(i + 1) =~= sorted@.take(i as int).push(v));
            crate::keyed::lemma_key_set_push(sorted@.take(i as int), v);
        }
        match index_of_id(vnis, v) {
            Some(j) => {
                let c = vnis[j].copy();
                let ghost before = out@;
                proof {
                    // `v` is new: every earlier number is smaller (numbers are unique)
                    assert forall|a: int| 0 <= a < before.len() implies before[a].vni != v by {
                        if before[a].vni == v {
                            assert(sorted@.take(i as int).contains(before[a].vni));
                            let p = choose|p: int| 0 <= p < i && sorted@.take(i as int)[p] == before[a].vni;
                            assert(sorted@[p] == v);
                            crate::keyed::lemma_unique_count(numbers@, v);
                            crate::keyed::lemma_count_two(sorted@, p, i as int);
                            assert(false);
                        }
                    }
                }
                out.push(c);
                proof {
                    lemma_key_set_all(out@);
                    lemma_key_set_all(before);
                    assert forall|a: int, b: int| 0 <= a < out@.len() && 0 <= b < out@.len() && a != b
                        implies out@[a].key() != out@[b].key() by {
                        if a < before.len() && b < before.len() {
                            assert(out@[a] == before[a]);
                            assert(out@[b] == before[b]);
                        } else if a < before.len() {
                            assert(out@[a] == before[a]);
                        } else {
                            assert(out@[b] == before[b]);
                        }
                    }
                    assert forall|x: i32| has_key(out@, x) <==> has_key(before, x) || x == v by {
                        if has_key(out@, x) {
                            let a = choose|a: int| 0 <= a < out@.len() && out@[a].key() == x;
                            if a < before.len() {
                                assert(out@[a] == before[a]);
                            }
                        }
                        if has_key(before, x) {
                            let a = choose|a: int| 0 <= a < before.len() && before[a].key() == x;
                            assert(out@[a] == before[a]);
                        }
                        if x == v {
                            assert(out@[before.len() as int].key() == v);
                        }
                    }
                    assert(has_key(vnis@, v));
                    assert(key_set(vnis@).contains(v));
                    assert(out@ == before.push(c));
                    assert(c.vni == v);
                    crate::keyed::lemma_key_set_push(before, c);
                    assert(key_set(out@) =~= key_set(sorted@.take(i + 1)).intersect(key_set(vnis@)));
                    assert forall|a: int| 0 <= a < out@.len() implies sorted@.take(i + 1).contains(#[trigger] out@[a].vni) by {
                        if a < before.len() {
                            assert(out@[a] == before[a]);
                            assert(sorted@.take(i as int).contains(before[a].vni));
                            let p = choose|p: int| 0 <= p < i && sorted@.take(i as int)[p] == before[a].vni;
                            assert(sorted@.take(i + 1)[p] == before[a].vni);
                        } else {
                            assert(sorted@.take(i + 1)[i as int] == v);
                        }
                    }
                    assert forall|a: int, b: int| 0 <= a < out@.len() && i + 1 <= b < sorted@.len() implies out@[a].vni <= sorted@[b] by {
                        if a < before.len() {
                            assert(out@[a] == before[a]);
                        }
                    }
                    assert forall|a: int, b: int| 0 <= a < b < out@.len() implies out@[a].int_key() <= out@[b].int_key() by {
                        if b < before.len() {
                            assert(out@[a] == before[a]);
                            assert(out@[b] == before[b]);
                        } else {
                            assert(out@[a] == before[a]);
                        }
                    }
                }
            },
            None => {
                proof {
                    assert(key_set(out@) =~= key_set(sorted@.take(i + 1)).intersect(key_set(vnis@)));
                    assert forall|a: int| 0 <= a < out@.len() implies sorted@.take(i + 1).contains(#[trigger] out@[a].vni) by {
                        let p = choose|p: int| 0 <= p < i && sorted@.take(i as int)[p] == out@[a].vni;
                        assert(sorted@.take(i + 1)[p] == out@[a].vni);
                    }
                }
            },
        }
        i = i + 1;
    }
    assert(sorted@.take(i as int) =~= sorted@);
    out
}

} // verus!

verus! {

/// The record of VTEP `name`.
pub open spec fn vtep_of(s: Seq<Vtep>, name: Seq<char>) -> Vtep {
    s[key_index(s, name)->0]
}

/// The first requested VTEP that may not be attached by this requester, and why.
pub open spec fn vtep_attach_error(s: Seq<Vtep>, requester: Account, req: Seq<Seq<char>>) -> Option<Seq<char>>
    decreases req.len(),
{
    if req.len() == 0 {
        None
    } else if !has_key(s, req[0]) {
        Some("VTEP "@ + req[0] + " not found"@)
    } else if requester.perm != Permission::Admin && vtep_of(s, req[0]).account_id != requester.id {
        Some("Cannot attach another account's VTEP"@)
    } else {
        vtep_attach_error(s, requester, req.drop_first())
    }
}

/// The VTEPs a VNI keeps although they are not requested: those of other
/// accounts, which a requester that is not an administrator cannot see.
pub open spec fn kept_vteps(s: Seq<Vtep>, requester: Account, current: Set<Seq<char>>) -> Set<Seq<char>> {
    if requester.perm == Permission::Admin {
        Set::empty()
    } else {
        current.filter(|n: Seq<char>| has_key(s, n) && vtep_of(s, n).account_id != requester.id)
    }
}

/// The VTEPs a VNI has after an update.
pub open spec fn requested_vteps(s: Seq<Vtep>, requester: Account, req: Seq<Seq<char>>, current: Set<Seq<char>>) -> Set<Seq<char>> {
    req.to_set().union(kept_vteps(s, requester, current))
}

/// The view of VTEP record `x` once VNI `vni` has left it (`removed`) or joined it (`added`).
pub open spec fn vtep_after(x: VtepView, vni: i32, added: Set<Seq<char>>, removed: Set<Seq<char>>) -> VtepView {
    if removed.contains(x.name) {
        VtepView { vnis: x.vnis.remove(vni), ..x }
    } else if added.contains(x.name) {
        VtepView { vnis: x.vnis.insert(vni), ..x }
    } else {
        x
    }
}

/// The first VTEP of `req` that this requester may not attach, with the message.
pub fn first_vtep_attach_error(vteps: &Vec<Vtep>, requester: &Account, req: &Vec<String>) -> (r: Option<String>)
    ensures
        match vtep_attach_error(vteps@, *requester, keys(req@)) {
            Some(m) => r matches Some(e) && e@ == m,
            None => r is None,
        },
{
    let mut i: usize = 0;
    assert(keys(req@).skip(0) =~= keys(req@));
    while i < req.len()
        invariant
            i <= req.len(),
            vtep_attach_error(vteps@, *requester, keys(req@)) == vtep_attach_error(vteps@, *requester, keys(req@).skip(i as int)),
        decreases req.len() - i,
    {
        let n = &req[i];
        proof {
            assert(keys(req@).skip(i as int)[0] == n@);
            assert(keys(req@).skip(i as int).drop_first() =~= keys(req@).skip(i + 1));
            lemma_key_index_none(vteps@, n@);
        }
        match index_of_name(vteps, n.as_str()) {
            None => {
                let mut m = owned("VTEP ");
                m.append(n.as_str());
                m.append(" not found");
                return Some(m);
            },
            Some(k) => {
                if requester.perm != Permission::Admin && vteps[k].account_id != requester.id {
                    return Some(owned("Cannot attach another account's VTEP"));
                }
            },
        }
        i = i + 1;
    }
    None
}

/// The VTEPs a VNI holding `current` has once `req` is applied for this requester.
pub fn compute_requested_vteps(vteps: &Vec<Vtep>, requester: &Account, req: &Vec<String>, current: &Vec<String>) -> (r: Vec<String>)
    ensures
        unique_keys(r@),
        key_set(r@) == requested_vteps(vteps@, *requester, keys(req@), key_set(current@)),
{
    let mut out: Vec<String> = Vec::new();
    let mut i: usize = 0;
    while i < req.len()
        invariant
            i <= req.len(),
            unique_keys(out@),
            key_set(out@) == key_set(req@.take(i as int)),
        decreases req.len() - i,
    {
        insert_key(&mut out, req[i].clone());
        proof {
            assert(req@.take(i + 1) =~= req@.take(i as int).push(req@[i as int]));
            crate::keyed::lemma_key_set_push(req@.take(i as int), req@[i as int]);
        }
        i = i + 1;
    }
    assert(req@.take(i as int) =~= req@);
    let ghost base = key_set(out@);
    let ghost pred = |n: Seq<char>| has_key(vteps@, n) && vtep_of(vteps@, n).account_id != requester.id;
    if requester.perm != Permission::Admin {
        let mut k: usize = 0;
        while k < current.len()
            invariant
                k <= current.len(),
                unique_keys(out@),
                requester.perm != Permission::Admin,
                pred == (|n: Seq<char>| has_key(vteps@, n) && vtep_of(vteps@, n).account_id != requester.id),
                key_set(out@) == base.union(key_set(current@.take(k as int)).filter(pred)),
            decreases current.len() - k,
        {
            let n = &current[k];
            proof {
                lemma_key_index_none(vteps@, n@);
                assert(current@.take(k + 1) =~= current@.take(k as int).push(*n));
                crate::keyed::lemma_key_set_push(current@.take(k as int), *n);
            }
            match index_of_name(vteps, n.as_str()) {
                Some(j) => {
                    if vteps[j].account_id != requester.id {
                        insert_key(&mut out, n.clone());
                        proof {
                            assert(pred(n@));
                            assert(key_set(out@) =~= base.union(key_set(current@.take(k + 1)).filter(pred)));
                        }
                    } else {
                        proof {
                            assert(!pred(n@));
                            assert(key_set(out@) =~= base.union(key_set(current@.take(k + 1)).filter(pred)));
                        }
                    }
                },
                None => {
                    proof {
                        assert(!pred(n@));
                        assert(key_set(out@) =~= base.union(key_set(current@.take(k + 1)).filter(pred)));
                    }
                },
            }
            k = k + 1;
        }
        assert(current@.take(k as int) =~= current@);
        assert(kept_vteps(vteps@, *requester, key_set(current@)) == key_set(current@).filter(pred));
    } else {
        assert(key_set(out@) =~= requested_vteps(vteps@, *requester, keys(req@), key_set(current@)));
    }
    out
}

/// Moves VNI `vni` out of the VTEPs in `removed` and into those in `added`.
pub fn apply_vni_membership(vteps: &mut Vec<Vtep>, vni: i32, added: &Vec<String>, removed: &Vec<String>)
    requires
        unique_keys(old(vteps)@),
        forall|i: int| 0 <= i < old(vteps)@.len() ==> (#[trigger] old(vteps)@[i]).wf(),
    ensures
        final(vteps)@.len() == old(vteps)@.len(),
        unique_keys(final(vteps)@),
        keys(final(vteps)@) == keys(old(vteps)@),
        forall|i: int| 0 <= i < final(vteps)@.len() ==> (#[trigger] final(vteps)@[i]).wf(),
        forall|i: int| 0 <= i < final(vteps)@.len() ==> (#[trigger] final(vteps)@[i])@ == vtep_after(
            old(vteps)@[i]@, vni, key_set(added@), key_set(removed@)),
{
    let mut j: usize = 0;
    while j < vteps.len()
        invariant
            j <= vteps@.len(),
            vteps@.len() == old(vteps)@.len(),
            unique_keys(vteps@),
            keys(vteps@) == keys(old(vteps)@),
            forall|i: int| 0 <= i < vteps@.len() ==> (#[trigger] vteps@[i]).wf(),
            forall|i: int| 0 <= i < j ==> (#[trigger] vteps@[i])@ == vtep_after(old(vteps)@[i]@, vni, key_set(added@), key_set(removed@)),
            forall|i: int| j <= i < vteps@.len() ==> #[trigger] vteps@[i] == old(vteps)@[i],
        decreases vteps@.len() - j,
    {
        let ghost before = vteps@;
        if contains_key(removed, &vteps[j].name) {
            vtep_update_vnis(vteps, j, vni, false);
        } else if contains_key(added, &vteps[j].name) {
            vtep_update_vnis(vteps, j, vni, true);
        }
        proof {
            assert forall|i: int| 0 <= i < vteps@.len() && i != j implies #[trigger] vteps@[i] == before[i] by {}
            assert(keys(vteps@) =~= keys(before));
        }
        j = j + 1;
    }
}

/// The records of the VTEPs in `names` that exist, by name.
pub fn vtep_copies(vteps: &Vec<Vtep>, names: Vec<String>) -> (r: Vec<Vtep>)
    requires
        unique_keys(names@),
    ensures
        unique_keys(r@),
        sorted_by_text(r@),
        key_set(r@) == key_set(names@).intersect(key_set(vteps@)),
        forall|k: int| 0 <= k < r@.len() ==> has_key(vteps@, (#[trigger] r@[k]).name@) && r@[k]@ == vtep_of(vteps@, r@[k].name@)@,
{
    let ghost nk = keys(names@);
    let sorted = sort_by_text(names);
    let ghost sk = keys(sorted@);
    proof {
        assert(text_views(sorted@) =~= sk);
        assert(text_views(names@) =~= nk);
        assert(nk.no_duplicates());
        assert forall|x: Seq<char>| sk.contains(x) <==> nk.contains(x) by {
            assert(sk.to_multiset().count(x) == nk.to_multiset().count(x));
        }
        lemma_key_set_all(sorted@);
        lemma_key_set_all(names@);
        assert(key_set(sorted@) =~= key_set(names@));
    }
    let mut out: Vec<Vtep> = Vec::new();
    let mut i: usize = 0;
    while i < sorted.len()
        invariant
            i <= sorted@.len(),
            sk == keys(sorted@),
            sorted_by_text(sorted@),
            nk.no_duplicates(),
            sk.to_multiset() == nk.to_multiset(),
            unique_keys(out@),
            sorted_by_text(out@),
            forall|a: int, b: int| 0 <= a < out@.len() && i <= b < sorted@.len() ==> lex_le(out@[a].name@, sorted@[b]@),
            key_set(out@) == key_set(sorted@.take(i as int)).intersect(key_set(vteps@)),
            forall|k: int| 0 <= k < out@.len() ==> has_key(vteps@, (#[trigger] out@[k]).name@) && out@[k]@ == vtep_of(vteps@, out@[k].name@)@,
            forall|a: int| 0 <= a < out@.len() ==> keys(sorted@.take(i as int)).contains(#[trigger] out@[a].name@),
        decreases sorted@.len() - i,
    {
        let n = &sorted[i];
        proof {
            lemma_key_index_none(vteps@, n@);
            lemma_key_set_all(vteps@);
            assert(sorted@.take(i + 1) =~= sorted@.take(i as int).push(*n));
            crate::keyed::lemma_key_set_push(sorted@.take(i as int), *n);
            assert(keys(sorted@.take(i + 1)) =~= keys(sorted@.take(i as int)).push(n@));
        }
        match index_of_name(vteps, n.as_str()) {
            Some(j) => {
                let c = vteps[j].copy();
                let ghost before = out@;
                proof {
                    assert forall|a: int| 0 <= a < before.len() implies before[a].name@ != n@ by {
                        if before[a].name@ == n@ {
                            let p = choose|p: int| 0 <= p < i && keys(sorted@.take(i as int))[p] == before[a].name@;
                            assert(sk[p] == n@);
                            assert(sk[i as int] == n@);
                            crate::keyed::lemma_nodup_count(nk, n@);
                            crate::keyed::lemma_count_twice(sk, p, i as int);
                            assert(false);
                        }
                    }
                }
                out.push(c);
                proof {
                    assert(out@ == before.push(c));
                    crate::keyed::lemma_key_set_push(before, c);
                    assert(has_key(vteps@, n@));
                    assert(key_set(vteps@).contains(n@));
                    assert(key_set(out@) =~= key_set(sorted@.take(i + 1)).intersect(key_set(vteps@)));
                    assert forall|a: int, b: int| 0 <= a < out@.len() && 0 <= b < out@.len() && a != b
                        implies out@[a].key() != out@[b].key() by {
                        if a < before.len() && b < before.len() {
                            assert(out@[a] == before[a]);
                            assert(out@[b] == before[b]);
                        } else if a < before.len() {
                            assert(out@[a] == before[a]);
                        } else {
                            assert(out@[b] == before[b]);
                        }
                    }
                    assert forall|a: int| 0 <= a < out@.len() implies keys(sorted@.take(i + 1)).contains(#[trigger] out@[a].name@) by {
                        if a < before.len() {
                            assert(out@[a] == before[a]);
                            let p = choose|p: int| 0 <= p < i && keys(sorted@.take(i as int))[p] == before[a].name@;
                            assert(keys(sorted@.take(i + 1))[p] == before[a].name@);
                        } else {
                            assert(keys(sorted@.take(i + 1))[i as int] == n@);
                        }
                    }
                    assert forall|a: int, b: int| 0 <= a < out@.len() && i + 1 <= b < sorted@.len() implies lex_le(out@[a].name@, sorted@[b]@) by {
                        if a < before.len() {
                            assert(out@[a] == before[a]);
                        } else {
                            assert(out@[a].name@ == sorted@[i as int]@);
                            assert(lex_le(sorted@[i as int].text_key(), sorted@[b].text_key()));
                        }
                    }
                    assert forall|a: int, b: int| 0 <= a < b < out@.len() implies lex_le(out@[a].text_key(), out@[b].text_key()) by {
                        if b < before.len() {
                            assert(out@[a] == before[a]);
                            assert(out@[b] == before[b]);
                        } else {
                            assert(out@[a] == before[a]);
                        }
                    }
                }
            },
            None => {
                proof {
                    assert(key_set(out@) =~= key_set(sorted@.take(i + 1)).intersect(key_set(vteps@)));
                    assert forall|a: int| 0 <= a < out@.len() implies keys(sorted@.take(i + 1)).contains(#[trigger] out@[a].name@) by {
                        let p = choose|p: int| 0 <= p < i && keys(sorted@.take(i as int))[p] == out@[a].name@;
                        assert(keys(sorted@.take(i + 1))[p] == out@[a].name@);
                    }
                }
            },
        }
        i = i + 1;
    }
    assert(sorted@.take(i as int) =~= sorted@);
    out
}


/// A VTEP lists a VNI exactly when that VNI lists the VTEP.
pub open spec fn membership_symmetric(vteps: Seq<Vtep>, vnis: Seq<Vni>) -> bool {
    forall|i: int, j: int| 0 <= i < vteps.len() && 0 <= j < vnis.len() ==>
        ((#[trigger] vteps[i])@.vnis.contains(vnis[j].vni) <==> (#[trigger] vnis[j])@.vteps.contains(vteps[i].name@))
}

/// Giving VTEP `iv` the VNIs `req`, and moving it out of the VNIs it left and into
/// those it joined, keeps the membership symmetric.
pub proof fn lemma_vtep_update_symmetric(
    old_vteps: Seq<Vtep>,
    old_vnis: Seq<Vni>,
    new_vteps: Seq<Vtep>,
    new_vnis: Seq<Vni>,
    iv: int,
    req: Set<i32>,
)
    requires
        unique_keys(old_vteps),
        0 <= iv < old_vteps.len(),
        membership_symmetric(old_vteps, old_vnis),
        new_vteps == old_vteps.update(iv, new_vteps[iv]),
        new_vteps[iv]@.vnis == req,
        new_vteps[iv].name@ == old_vteps[iv].name@,
        new_vnis.len() == old_vnis.len(),
        forall|j: int| 0 <= j < new_vnis.len() ==> (#[trigger] new_vnis[j])@ == vni_after(
            old_vnis[j]@,
            old_vteps[iv].name@,
            req.difference(old_vteps[iv]@.vnis),
            old_vteps[iv]@.vnis.difference(req),
        ),
    ensures
        membership_symmetric(new_vteps, new_vnis),
{
    let name = old_vteps[iv].name@;
    assert forall|i: int, j: int| 0 <= i < new_vteps.len() && 0 <= j < new_vnis.len() implies
        ((#[trigger] new_vteps[i])@.vnis.contains(new_vnis[j].vni) <==> (#[trigger] new_vnis[j])@.vteps.contains(new_vteps[i].name@)) by {
        assert(new_vnis[j]@ == vni_after(old_vnis[j]@, name, req.difference(old_vteps[iv]@.vnis), old_vteps[iv]@.vnis.difference(req)));
        assert(old_vteps[i]@.vnis.contains(old_vnis[j].vni) <==> old_vnis[j]@.vteps.contains(old_vteps[i].name@));
        if i != iv {
            assert(new_vteps[i] == old_vteps[i]);
            assert(old_vteps[i].key() != old_vteps[iv].key());
        }
    }
}

/// Giving VNI `ix` the VTEPs `req`, and moving it out of the VTEPs that left
/// and into those that joined, keeps the membership symmetric.
pub proof fn lemma_vni_update_symmetric(
    old_vteps: Seq<Vtep>,
    old_vnis: Seq<Vni>,
    new_vteps: Seq<Vtep>,
    new_vnis: Seq<Vni>,
    ix: int,
    req: Set<Seq<char>>,
)
    requires
        unique_keys(old_vnis),
        0 <= ix < old_vnis.len(),
        membership_symmetric(old_vteps, old_vnis),
        new_vnis == old_vnis.update(ix, new_vnis[ix]),
        new_vnis[ix]@.vteps == req,
        new_vnis[ix].vni == old_vnis[ix].vni,
        new_vteps.len() == old_vteps.len(),
        forall|j: int| 0 <= j < new_vteps.len() ==> (#[trigger] new_vteps[j])@ == vtep_after(
            old_vteps[j]@,
            old_vnis[ix].vni,
            req.difference(old_vnis[ix]@.vteps),
            old_vnis[ix]@.vteps.difference(req),
        ),
    ensures
        membership_symmetric(new_vteps, new_vnis),
{
    let v = old_vnis[ix].vni;
    assert forall|i: int, j: int| 0 <= i < new_vteps.len() && 0 <= j < new_vnis.len() implies
        ((#[trigger] new_vteps[i])@.vnis.contains(new_vnis[j].vni) <==> (#[trigger] new_vnis[j])@.vteps.contains(new_vteps[i].name@)) by {
        assert(new_vteps[i]@ == vtep_after(old_vteps[i]@, v, req.difference(old_vnis[ix]@.vteps), old_vnis[ix]@.vteps.difference(req)));
        assert(old_vteps[i]@.vnis.contains(old_vnis[j].vni) <==> old_vnis[j]@.vteps.contains(old_vteps[i].name@));
        if j != ix {
            assert(new_vnis[j] == old_vnis[j]);
            assert(old_vnis[j].key() != old_vnis[ix].key());
        }
    }
}


/// Deleting VTEP `iv`, and moving it out of the VNIs it was in, keeps the
/// membership symmetric.
pub proof fn lemma_vtep_delete_symmetric(old_vteps: Seq<Vtep>, old_vnis: Seq<Vni>, new_vnis: Seq<Vni>, iv: int)
    requires
        unique_keys(old_vteps),
        0 <= iv < old_vteps.len(),
        membership_symmetric(old_vteps, old_vnis),
        new_vnis.len() == old_vnis.len(),
        forall|j: int| 0 <= j < new_vnis.len() ==> (#[trigger] new_vnis[j])@ == vni_after(
            old_vnis[j]@,
            old_vteps[iv].name@,
            Set::empty(),
            old_vteps[iv]@.vnis,
        ),
    ensures
        membership_symmetric(old_vteps.remove(iv), new_vnis),
{
    let new_vteps = old_vteps.remove(iv);
    assert forall|i: int, j: int| 0 <= i < new_vteps.len() && 0 <= j < new_vnis.len() implies
        ((#[trigger] new_vteps[i])@.vnis.contains(new_vnis[j].vni) <==> (#[trigger] new_vnis[j])@.vteps.contains(new_vteps[i].name@)) by {
        let ii = if i < iv { i } else { i + 1 };
        assert(new_vteps[i] == old_vteps[ii]);
        assert(old_vteps[ii].key() != old_vteps[iv].key());
        assert(new_vnis[j]@ == vni_after(old_vnis[j]@, old_vteps[iv].name@, Set::empty(), old_vteps[iv]@.vnis));
        assert(old_vteps[ii]@.vnis.contains(old_vnis[j].vni) <==> old_vnis[j]@.vteps.contains(old_vteps[ii].name@));
    }
}

/// Deleting VNI `ix`, and moving it out of the VTEPs that were in it, keeps
/// the membership symmetric.
pub proof fn lemma_vni_delete_symmetric(old_vteps: Seq<Vtep>, old_vnis: Seq<Vni>, new_vteps: Seq<Vtep>, ix: int)
    requires
        unique_keys(old_vnis),
        0 <= ix < old_vnis.len(),
        membership_symmetric(old_vteps, old_vnis),
        new_vteps.len() == old_vteps.len(),
        forall|j: int| 0 <= j < new_vteps.len() ==> (#[trigger] new_vteps[j])@ == vtep_after(
            old_vteps[j]@,
            old_vnis[ix].vni,
            Set::empty(),
            old_vnis[ix]@.vteps,
        ),
    ensures
        membership_symmetric(new_vteps, old_vnis.remove(ix)),
{
    let new_vnis = old_vnis.remove(ix);
    assert forall|i: int, j: int| 0 <= i < new_vteps.len() && 0 <= j < new_vnis.len() implies
        ((#[trigger] new_vteps[i])@.vnis.contains(new_vnis[j].vni) <==> (#[trigger] new_vnis[j])@.vteps.contains(new_vteps[i].name@)) by {
        let jj = if j < ix { j } else { j + 1 };
        assert(new_vnis[j] == old_vnis[jj]);
        assert(old_vnis[jj].key() != old_vnis[ix].key());
        assert(new_vteps[i]@ == vtep_after(old_vteps[i]@, old_vnis[ix].vni, Set::empty(), old_vnis[ix]@.vteps));
        assert(old_vteps[i]@.vnis.contains(old_vnis[jj].vni) <==> old_vnis[jj]@.vteps.contains(old_vteps[i].name@));
    }
}


/// Two VNI lists with the same numbers and owners, position by position.
pub open spec fn same_vni_owners(a: Seq<Vni>, b: Seq<Vni>) -> bool {
    &&& a.len() == b.len()
    &&& forall|j: int| 0 <= j < a.len() ==> (#[trigger] a[j]).vni == b[j].vni && a[j].account_id == b[j].account_id
}

/// With the same numbers and owners, looking a VNI up finds the same owner.
pub proof fn lemma_same_vni_owners_lookup(a: Seq<Vni>, b: Seq<Vni>, v: i32)
    requires
        same_vni_owners(a, b),
    ensures
        has_key(a, v) == has_key(b, v),
        key_index(a, v) == key_index(b, v),
        has_key(a, v) ==> vni_of(a, v).account_id == vni_of(b, v).account_id,
{
    lemma_key_index_none(a, v);
    lemma_key_index_none(b, v);
    if has_key(a, v) {
        let i = choose|i: int| 0 <= i < a.len() && a[i].key() == v;
        assert(b[i].key() == v);
    }
    if has_key(b, v) {
        let i = choose|i: int| 0 <= i < b.len() && b[i].key() == v;
        assert(a[i].key() == v);
    }
    if let Some(i) = key_index(a, v) {
        let c = choose|c: int| is_first_key(a, v, c);
        assert(is_first_key(a, v, c));
        assert(is_first_key(b, v, c)) by {
            assert forall|j: int| 0 <= j < c implies b[j].key() != v by {
                assert(a[j].key() != v);
            }
        }
        lemma_key_index_some(b, v, c);
    }
}

/// The refusal of a request depends on the VNIs' numbers and owners alone.
pub proof fn lemma_attach_error_same_owners(a: Seq<Vni>, b: Seq<Vni>, q: Account, req: Seq<i32>)
    requires
        same_vni_owners(a, b),
    ensures
        vni_attach_error(a, q, req) == vni_attach_error(b, q, req),
    decreases req.len(),
{
    if req.len() > 0 {
        lemma_same_vni_owners_lookup(a, b, req[0]);
        lemma_attach_error_same_owners(a, b, q, req.drop_first());
    }
}

/// So do the VNIs a VTEP keeps.
pub proof fn lemma_kept_same_owners(a: Seq<Vni>, b: Seq<Vni>, q: Account, cur: Set<i32>)
    requires
        same_vni_owners(a, b),
    ensures
        kept_vnis(a, q, cur) == kept_vnis(b, q, cur),
{
    if q.perm != Permission::Admin {
        assert forall|v: i32| kept_vnis(a, q, cur).contains(v) <==> kept_vnis(b, q, cur).contains(v) by {
            lemma_same_vni_owners_lookup(a, b, v);
        }
        assert(kept_vnis(a, q, cur) =~= kept_vnis(b, q, cur));
    }
}

/// Requesting the same VNIs again, from what the first request gave, gives it again.
pub proof fn lemma_requested_vnis_settles(s: Seq<Vni>, q: Account, req: Seq<i32>, cur: Set<i32>)
    ensures
        requested_vnis(s, q, req, requested_vnis(s, q, req, cur)) == requested_vnis(s, q, req, cur),
{
    let r1 = requested_vnis(s, q, req, cur);
    assert(requested_vnis(s, q, req, r1) =~= r1);
}


/// Two VTEP lists with the same names and owners, position by position.
pub open spec fn same_vtep_owners(a: Seq<Vtep>, b: Seq<Vtep>) -> bool {
    &&& a.len() == b.len()
    &&& forall|j: int| 0 <= j < a.len() ==> (#[trigger] a[j]).name@ == b[j].name@ && a[j].account_id == b[j].account_id
}

/// With the same names and owners, looking a VTEP up finds the same owner.
pub proof fn lemma_same_vtep_owners_lookup(a: Seq<Vtep>, b: Seq<Vtep>, n: Seq<char>)
    requires
        same_vtep_owners(a, b),
    ensures
        has_key(a, n) == has_key(b, n),
        has_key(a, n) ==> vtep_of(a, n).account_id == vtep_of(b, n).account_id,
{
    lemma_key_index_none(a, n);
    lemma_key_index_none(b, n);
    if has_key(a, n) {
        let i = choose|i: int| 0 <= i < a.len() && a[i].key() == n;
        assert(b[i].key() == n);
    }
    if has_key(b, n) {
        let i = choose|i: int| 0 <= i < b.len() && b[i].key() == n;
        assert(a[i].key() == n);
    }
    if let Some(i) = key_index(a, n) {
        let c = choose|c: int| is_first_key(a, n, c);
        assert(is_first_key(b, n, c)) by {
            assert forall|j: int| 0 <= j < c implies b[j].key() != n by {
                assert(a[j].key() != n);
            }
        }
        lemma_key_index_some(b, n, c);
    }
}

/// The refusal of a request depends on the VTEPs' names and owners alone.
pub proof fn lemma_vtep_attach_error_same_owners(a: Seq<Vtep>, b: Seq<Vtep>, q: Account, req: Seq<Seq<char>>)
    requires
        same_vtep_owners(a, b),
    ensures
        vtep_attach_error(a, q, req) == vtep_attach_error(b, q, req),
    decreases req.len(),
{
    if req.len() > 0 {
        lemma_same_vtep_owners_lookup(a, b, req[0]);
        lemma_vtep_attach_error_same_owners(a, b, q, req.drop_first());
    }
}

/// So do the VTEPs a VNI keeps.
pub proof fn lemma_kept_vteps_same_owners(a: Seq<Vtep>, b: Seq<Vtep>, q: Account, cur: Set<Seq<char>>)
    requires
        same_vtep_owners(a, b),
    ensures
        kept_vteps(a, q, cur) == kept_vteps(b, q, cur),
{
    if q.perm != Permission::Admin {
        assert forall|n: Seq<char>| kept_vteps(a, q, cur).contains(n) <==> kept_vteps(b, q, cur).contains(n) by {
            lemma_same_vtep_owners_lookup(a, b, n);
        }
        assert(kept_vteps(a, q, cur) =~= kept_vteps(b, q, cur));
    }
}

/// Requesting the same VTEPs again, from what the first request gave, gives it again.
pub proof fn lemma_requested_vteps_settles(s: Seq<Vtep>, q: Account, req: Seq<Seq<char>>, cur: Set<Seq<char>>)
    ensures
        requested_vteps(s, q, req, requested_vteps(s, q, req, cur)) == requested_vteps(s, q, req, cur),
{
    let r1 = requested_vteps(s, q, req, cur);
    assert(requested_vteps(s, q, req, r1) =~= r1);
}

} // verus!
