//! The web UI's handling of requests that change which VNIs a VTEP joins.
use vstd::prelude::*;
use crate::keyed::{
    has_key, index_of_id, index_of_name, insert_key, key_difference, key_index, key_set, keys,
    lemma_key_index_none, lemma_key_set_all, lemma_update_same_key, sorted_by_int, sorted_by_text,
    unique_keys, Keyed,
};
use crate::models::{copy_vec, Account, Vni, VniView, Vtep, VtepView};
use crate::text::{owned, str_eq};
use crate::ui::context::{account_by_id, Context};
use crate::ui::membership::{
    apply_vni_membership, apply_vtep_membership, compute_requested_vnis, compute_requested_vteps,
    first_vni_attach_error, first_vtep_attach_error, requested_vnis, requested_vteps, vni_after,
    lemma_vni_update_symmetric, lemma_vtep_update_symmetric, membership_symmetric,
    lemma_attach_error_same_owners, lemma_kept_same_owners, lemma_requested_vnis_settles, same_vni_owners,
    lemma_vtep_attach_error_same_owners, lemma_kept_vteps_same_owners, lemma_requested_vteps_settles, same_vtep_owners,
    vni_attach_error, vni_copies, vni_of, vtep_after, vtep_attach_error, vtep_copies, vtep_of,
};

verus! {

/// What an update of a VTEP's VNIs came to.
pub enum VtepUpdate {
    /// Refused, with the message; nothing changed.
    Rejected(String),
    /// The VTEP already had these VNIs and this description.
    Unchanged,
    /// The VTEP as it now is, the VNIs it left or joined as they now are
    /// (by number), and the numbers it joined and left.
    Updated { vtep: Vtep, vnis: Vec<Vni>, added: Vec<i32>, removed: Vec<i32>, description_changed: bool },
}

/// What an update of a VNI's VTEPs came to.
pub enum VniUpdate {
    /// Refused, with the message; nothing changed.
    Rejected(String),
    /// The VNI already had these VTEPs and this description.
    Unchanged,
    /// The VNI as it now is, the VTEPs that left or joined it as they now are
    /// (by name), and the names that joined and left.
    Updated { vni: Vni, vteps: Vec<Vtep>, added: Vec<String>, removed: Vec<String>, description_changed: bool },
}

impl Context {
    /// Why an update of a VTEP's VNIs is refused, if it is.
    pub open spec fn update_vtep_rejection(&self, requester_id: i32, name: Seq<char>, req: Seq<i32>) -> Option<Seq<char>> {
        match key_index(self.vteps@, name) {
            None => Some("VTEP not found"@),
            Some(iv) => if !self.can_manage_spec(requester_id, self.vteps@[iv].account_id) {
                Some("Permission denied"@)
            } else {
                match account_by_id(self.accounts@, requester_id) {
                    None => Some("Account not found"@),
                    Some(q) => vni_attach_error(self.vnis@, q, req),
                }
            },
        }
    }

    /// The VTEP already has what this update of its VNIs asks for.
    pub open spec fn vtep_update_settled(&self, requester_id: i32, name: Seq<char>, description: Seq<char>, req: Seq<i32>) -> bool {
        let iv = key_index(self.vteps@, name)->0;
        let q = account_by_id(self.accounts@, requester_id)->0;
        let cur = self.vteps@[iv]@;
        requested_vnis(self.vnis@, q, req, cur.vnis) == cur.vnis && cur.description == description
    }

    /// Sets the VNIs of VTEP `vtep_name` to those requested (keeping VNIs of
    /// other accounts that the requester cannot see) and its description.
    pub fn update_vtep_vnis(&mut self, requester_id: i32, vtep_name: &str, description: &str, vnis: &Vec<i32>) -> (r: VtepUpdate)
        requires
            old(self).wf(),
        ensures
            final(self).wf(),
            final(self).accounts == old(self).accounts,
            final(self).rrs == old(self).rrs,
            final(self).vtep_states == old(self).vtep_states,
            membership_symmetric(old(self).vteps@, old(self).vnis@) ==> membership_symmetric(final(self).vteps@, final(self).vnis@),
            !(r is Rejected) ==> final(self).update_vtep_rejection(requester_id, vtep_name@, vnis@) is None
                && final(self).vtep_update_settled(requester_id, vtep_name@, description@, vnis@),
            match old(self).update_vtep_rejection(requester_id, vtep_name@, vnis@) {
                Some(m) => r matches VtepUpdate::Rejected(e) && e@ == m && *final(self) == *old(self),
                None => {
                    let iv = key_index(old(self).vteps@, vtep_name@)->0;
                    let q = account_by_id(old(self).accounts@, requester_id)->0;
                    let cur = old(self).vteps@[iv]@;
                    let req_set = requested_vnis(old(self).vnis@, q, vnis@, cur.vnis);
                    let added = req_set.difference(cur.vnis);
                    let removed = cur.vnis.difference(req_set);
                    if req_set == cur.vnis && cur.description == description@ {
                        r is Unchanged && *final(self) == *old(self)
                    } else {
                        &&& final(self).vteps@ == old(self).vteps@.update(iv, final(self).vteps@[iv])
                        &&& final(self).vteps@[iv]@ == (VtepView { vnis: req_set, description: description@, ..cur })
                        &&& final(self).vnis@.len() == old(self).vnis@.len()
                        &&& forall|j: int| 0 <= j < final(self).vnis@.len() ==> (#[trigger] final(self).vnis@[j])@
                            == vni_after(old(self).vnis@[j]@, vtep_name@, added, removed)
                        &&& r matches VtepUpdate::Updated { vtep, vnis: copies, added: a, removed: rm, description_changed } && {
                            &&& vtep@ == final(self).vteps@[iv]@
                            &&& key_set(a@) == added
                            &&& key_set(rm@) == removed
                            &&& description_changed == (cur.description != description@)
                            &&& unique_keys(copies@)
                            &&& sorted_by_int(copies@)
                            &&& key_set(copies@) == added.union(removed).intersect(key_set(final(self).vnis@))
                            &&& forall|k: int| 0 <= k < copies@.len() ==> (#[trigger] copies@[k])@ == vni_of(
                                final(self).vnis@, copies@[k].vni)@
                        }
                    }
                },
            },
    {
        let iv = match index_of_name(&self.vteps, vtep_name) {
            Some(i) => i,
            None => return VtepUpdate::Rejected(owned("VTEP not found")),
        };
        proof {
            lemma_key_index_none(self.vteps@, vtep_name@);
        }
        if !self.can_manage_account(requester_id, self.vteps[iv].account_id) {
            return VtepUpdate::Rejected(owned("Permission denied"));
        }
        let qi = match self.find_account_index(requester_id) {
            Some(i) => i,
            None => return VtepUpdate::Rejected(owned("Account not found")),
        };
        if let Some(m) = first_vni_attach_error(&self.vnis, &self.accounts[qi], vnis) {
            return VtepUpdate::Rejected(m);
        }
        proof {
            assert(self.vteps@[iv as int].wf());
        }
        let requested = compute_requested_vnis(&self.vnis, &self.accounts[qi], vnis, &self.vteps[iv].vnis);
        let removed = key_difference(&self.vteps[iv].vnis, &requested);
        let added = key_difference(&requested, &self.vteps[iv].vnis);
        let description_changed = !str_eq(self.vteps[iv].description.as_str(), description);
        let ghost cur = self.vteps@[iv as int]@;
        let ghost req_set = key_set(requested@);
        proof {
            if removed.len() > 0 {
                assert(keys(removed@)[0] == removed@[0].key());
                assert(key_set(removed@).contains(removed@[0].key()));
            } else {
                assert(keys(removed@) =~= Seq::<i32>::empty());
            }
            if added.len() > 0 {
                assert(keys(added@)[0] == added@[0].key());
                assert(key_set(added@).contains(added@[0].key()));
            } else {
                assert(keys(added@) =~= Seq::<i32>::empty());
            }
        }
        if removed.len() == 0 && added.len() == 0 && !description_changed {
            proof {
                assert(req_set =~= cur.vnis) by {
                    assert forall|v: i32| req_set.contains(v) <==> cur.vnis.contains(v) by {
                        assert(!key_set(removed@).contains(v));
                        assert(!key_set(added@).contains(v));
                    }
                }
            }
            return VtepUpdate::Unchanged;
        }
        proof {
            if req_set == cur.vnis {
                assert(key_set(removed@) =~= Set::<i32>::empty());
                assert(key_set(added@) =~= Set::<i32>::empty());
            }
        }
        // the VTEP takes the requested VNIs and the new description
        let name = self.vteps[iv].name.clone();
        let ghost old_vteps = self.vteps@;
        let mut vt = self.vteps.remove(iv);
        vt.vnis = requested;
        vt.description = owned(description);
        self.vteps.insert(iv, vt);
        proof {
            assert(self.vteps@ =~= old_vteps.update(iv as int, vt));
            lemma_update_same_key(old_vteps, iv as int, vt);
            assert forall|i: int| 0 <= i < self.vteps@.len() implies (#[trigger] self.vteps@[i]).wf() by {
                if i != iv {
                    assert(self.vteps@[i] == old_vteps[i]);
                }
            }
        }
        // the VNIs it left or joined record the change
        apply_vtep_membership(&mut self.vnis, name.as_str(), &added, &removed);
        proof {
            if membership_symmetric(old(self).vteps@, old(self).vnis@) {
                lemma_vtep_update_symmetric(old(self).vteps@, old(self).vnis@, self.vteps@, self.vnis@, iv as int, req_set);
            }
            let q = account_by_id(old(self).accounts@, requester_id)->0;
            assert(same_vni_owners(self.vnis@, old(self).vnis@)) by {
                assert forall|j: int| 0 <= j < self.vnis@.len() implies (#[trigger] self.vnis@[j]).vni == old(self).vnis@[j].vni
                    && self.vnis@[j].account_id == old(self).vnis@[j].account_id by {
                    assert(self.vnis@[j]@ == vni_after(old(self).vnis@[j]@, name@, key_set(added@), key_set(removed@)));
                }
            }
            lemma_attach_error_same_owners(self.vnis@, old(self).vnis@, q, vnis@);
            lemma_kept_same_owners(self.vnis@, old(self).vnis@, q, req_set);
            lemma_requested_vnis_settles(old(self).vnis@, q, vnis@, cur.vnis);
            crate::keyed::lemma_unique_key_index(self.vteps@, vtep_name@, iv as int);
        }
        let mut changed = copy_vec(&removed);
        let mut k: usize = 0;
        while k < added.len()
            invariant
                k <= added@.len(),
                unique_keys(changed@),
                key_set(changed@) == key_set(removed@).union(key_set(added@.take(k as int))),
            decreases added@.len() - k,
        {
            insert_key(&mut changed, added[k]);
            proof {
                assert(added@.take(k + 1) =~= added@.take(k as int).push(added@[k as int]));
                crate::keyed::lemma_key_set_push(added@.take(k as int), added@[k as int]);
                assert(key_set(changed@) =~= key_set(removed@).union(key_set(added@.take(k + 1))));
            }
            k = k + 1;
        }
        assert(added@.take(k as int) =~= added@);
        let copies = vni_copies(&self.vnis, changed);
        let vtep = self.vteps[iv].copy();
        proof {
            assert(key_set(removed@).union(key_set(added@)) =~= key_set(added@).union(key_set(removed@)));
        }
        VtepUpdate::Updated { vtep, vnis: copies, added, removed, description_changed }
    }
}


impl Context {
    /// Why an update of a VNI's VTEPs is refused, if it is.
    pub open spec fn update_vni_rejection(&self, requester_id: i32, vni: i32, req: Seq<Seq<char>>) -> Option<Seq<char>> {
        match key_index(self.vnis@, vni) {
            None => Some("VNI not found"@),
            Some(ix) => if !self.can_manage_spec(requester_id, self.vnis@[ix].account_id) {
                Some("Permission denied"@)
            } else {
                match account_by_id(self.accounts@, requester_id) {
                    None => Some("Account not found"@),
                    Some(q) => vtep_attach_error(self.vteps@, q, req),
                }
            },
        }
    }

    /// The VNI already has what this update of its VTEPs asks for.
    pub open spec fn vni_update_settled(&self, requester_id: i32, vni: i32, description: Seq<char>, req: Seq<Seq<char>>) -> bool {
        let ix = key_index(self.vnis@, vni)->0;
        let q = account_by_id(self.accounts@, requester_id)->0;
        let cur = self.vnis@[ix]@;
        requested_vteps(self.vteps@, q, req, cur.vteps) == cur.vteps && cur.description == description
    }

    /// Sets the VTEPs of VNI `vni` to those requested (keeping VTEPs of other
    /// accounts that the requester cannot see) and its description.
    pub fn update_vni_vteps(&mut self, requester_id: i32, vni: i32, description: &str, vteps: &Vec<String>) -> (r: VniUpdate)
        requires
            old(self).wf(),
        ensures
            final(self).wf(),
            final(self).accounts == old(self).accounts,
            final(self).rrs == old(self).rrs,
            final(self).vtep_states == old(self).vtep_states,
            membership_symmetric(old(self).vteps@, old(self).vnis@) ==> membership_symmetric(final(self).vteps@, final(self).vnis@),
            !(r is Rejected) ==> final(self).update_vni_rejection(requester_id, vni, keys(vteps@)) is None
                && final(self).vni_update_settled(requester_id, vni, description@, keys(vteps@)),
            match old(self).update_vni_rejection(requester_id, vni, keys(vteps@)) {
                Some(m) => r matches VniUpdate::Rejected(e) && e@ == m && *final(self) == *old(self),
                None => {
                    let ix = key_index(old(self).vnis@, vni)->0;
                    let q = account_by_id(old(self).accounts@, requester_id)->0;
                    let cur = old(self).vnis@[ix]@;
                    let req_set = requested_vteps(old(self).vteps@, q, keys(vteps@), cur.vteps);
                    let added = req_set.difference(cur.vteps);
                    let removed = cur.vteps.difference(req_set);
                    if req_set == cur.vteps && cur.description == description@ {
                        r is Unchanged && *final(self) == *old(self)
                    } else {
                        &&& final(self).vnis@ == old(self).vnis@.update(ix, final(self).vnis@[ix])
                        &&& final(self).vnis@[ix]@ == (VniView { vteps: req_set, description: description@, ..cur })
                        &&& final(self).vteps@.len() == old(self).vteps@.len()
                        &&& forall|j: int| 0 <= j < final(self).vteps@.len() ==> (#[trigger] final(self).vteps@[j])@
                            == vtep_after(old(self).vteps@[j]@, vni, added, removed)
                        &&& r matches VniUpdate::Updated { vni: record, vteps: copies, added: a, removed: rm, description_changed } && {
                            &&& record@ == final(self).vnis@[ix]@
                            &&& key_set(a@) == added
                            &&& key_set(rm@) == removed
                            &&& description_changed == (cur.description != description@)
                            &&& unique_keys(copies@)
                            &&& sorted_by_text(copies@)
                            &&& key_set(copies@) == added.union(removed).intersect(key_set(final(self).vteps@))
                            &&& forall|k: int| 0 <= k < copies@.len() ==> (#[trigger] copies@[k])@ == vtep_of(
                                final(self).vteps@, copies@[k].name@)@
                        }
                    }
                },
            },
    {
        let ix = match index_of_id(&self.vnis, vni) {
            Some(i) => i,
            None => return VniUpdate::Rejected(owned("VNI not found")),
        };
        proof {
            lemma_key_index_none(self.vnis@, vni);
        }
        if !self.can_manage_account(requester_id, self.vnis[ix].account_id) {
            return VniUpdate::Rejected(owned("Permission denied"));
        }
        let qi = match self.find_account_index(requester_id) {
            Some(i) => i,
            None => return VniUpdate::Rejected(owned("Account not found")),
        };
        if let Some(m) = first_vtep_attach_error(&self.vteps, &self.accounts[qi], vteps) {
            return VniUpdate::Rejected(m);
        }
        proof {
            assert(self.vnis@[ix as int].wf());
        }
        let requested = compute_requested_vteps(&self.vteps, &self.accounts[qi], vteps, &self.vnis[ix].vteps);
        let removed = key_difference(&self.vnis[ix].vteps, &requested);
        let added = key_difference(&requested, &self.vnis[ix].vteps);
        let description_changed = !str_eq(self.vnis[ix].description.as_str(), description);
        let ghost cur = self.vnis@[ix as int]@;
        let ghost req_set = key_set(requested@);
        proof {
            if removed.len() > 0 {
                assert(keys(removed@)[0] == removed@[0].key());
                assert(key_set(removed@).contains(removed@[0].key()));
            } else {
                assert(keys(removed@) =~= Seq::<Seq<char>>::empty());
            }
            if added.len() > 0 {
                assert(keys(added@)[0] == added@[0].key());
                assert(key_set(added@).contains(added@[0].key()));
            } else {
                assert(keys(added@) =~= Seq::<Seq<char>>::empty());
            }
        }
        if removed.len() == 0 && added.len() == 0 && !description_changed {
            proof {
                assert(req_set =~= cur.vteps) by {
                    assert forall|v: Seq<char>| req_set.contains(v) <==> cur.vteps.contains(v) by {
                        assert(!key_set(removed@).contains(v));
                        assert(!key_set(added@).contains(v));
                    }
                }
            }
            return VniUpdate::Unchanged;
        }
        proof {
            if req_set == cur.vteps {
                assert(key_set(removed@) =~= Set::<Seq<char>>::empty());
                assert(key_set(added@) =~= Set::<Seq<char>>::empty());
            }
        }
        let ghost old_vnis = self.vnis@;
        let mut record = self.vnis.remove(ix);
        record.vteps = requested;
        record.description = owned(description);
        self.vnis.insert(ix, record);
        proof {
            assert(self.vnis@ =~= old_vnis.update(ix as int, record));
            lemma_update_same_key(old_vnis, ix as int, record);
            assert forall|i: int| 0 <= i < self.vnis@.len() implies (#[trigger] self.vnis@[i]).wf() by {
                if i != ix {
                    assert(self.vnis@[i] == old_vnis[i]);
                }
            }
        }
        apply_vni_membership(&mut self.vteps, vni, &added, &removed);
        proof {
            if membership_symmetric(old(self).vteps@, old(self).vnis@) {
                lemma_vni_update_symmetric(old(self).vteps@, old(self).vnis@, self.vteps@, self.vnis@, ix as int, req_set);
            }
            let q = account_by_id(old(self).accounts@, requester_id)->0;
            assert(same_vtep_owners(self.vteps@, old(self).vteps@)) by {
                assert forall|j: int| 0 <= j < self.vteps@.len() implies (#[trigger] self.vteps@[j]).name@ == old(self).vteps@[j].name@
                    && self.vteps@[j].account_id == old(self).vteps@[j].account_id by {
                    assert(self.vteps@[j]@ == vtep_after(old(self).vteps@[j]@, vni, key_set(added@), key_set(removed@)));
                }
            }
            lemma_vtep_attach_error_same_owners(self.vteps@, old(self).vteps@, q, keys(vteps@));
            lemma_kept_vteps_same_owners(self.vteps@, old(self).vteps@, q, req_set);
            lemma_requested_vteps_settles(old(self).vteps@, q, keys(vteps@), cur.vteps);
            crate::keyed::lemma_unique_key_index(self.vnis@, vni, ix as int);
        }
        let mut changed = copy_vec(&removed);
        let mut k: usize = 0;
        while k < added.len()
            invariant
                k <= added@.len(),
                unique_keys(changed@),
                key_set(changed@) == key_set(removed@).union(key_set(added@.take(k as int))),
            decreases added@.len() - k,
        {
            insert_key(&mut changed, added[k].clone());
            proof {
                assert(added@.take(k + 1) =~= added@.take(k as int).push(added@[k as int]));
                crate::keyed::lemma_key_set_push(added@.take(k as int), added@[k as int]);
                assert(key_set(changed@) =~= key_set(removed@).union(key_set(added@.take(k + 1))));
            }
            k = k + 1;
        }
        assert(added@.take(k as int) =~= added@);
        let copies = vtep_copies(&self.vteps, changed);
        let record = self.vnis[ix].copy();
        proof {
            assert(key_set(removed@).union(key_set(added@)) =~= key_set(added@).union(key_set(removed@)));
        }
        VniUpdate::Updated { vni: record, vteps: copies, added, removed, description_changed }
    }
}

} // verus!
