//! The web UI's handling of requests that delete VTEPs and VNIs.
use vstd::prelude::*;
use crate::keyed::{index_of_id, index_of_name, key_index, key_set, keys, lemma_key_index_none, sorted_by_int, sorted_by_text, unique_keys, Keyed};
use crate::models::{account_update_vnis, account_update_vteps, copy_vec, Account, AccountView, Vni, VniView, Vtep, VtepView};
use crate::text::owned;
use crate::ui::context::{account_index, Context};
use crate::ui::membership::{lemma_vni_delete_symmetric, lemma_vtep_delete_symmetric, membership_symmetric, apply_vni_membership, apply_vtep_membership, vni_after, vni_copies, vni_of, vtep_after, vtep_copies, vtep_of};

verus! {

/// What deleting a VTEP changed: the VTEP (with no VNIs left), the VNIs it was
/// in as they now are (by number), and its owner as it now is.
pub struct VtepDeletion {
    pub vtep: Vtep,
    pub vnis: Vec<Vni>,
    pub owner: Option<Account>,
}

/// What deleting a VNI changed: the VNI (with no VTEPs left), the VTEPs that
/// were in it as they now are (by name), and its owner as it now is.
pub struct VniDeletion {
    pub vni: Vni,
    pub vteps: Vec<Vtep>,
    pub owner: Option<Account>,
}

/// An account view without one VTEP.
pub open spec fn without_vtep(a: AccountView, name: Seq<char>) -> AccountView {
    AccountView { vteps: a.vteps.remove(name), ..a }
}

/// An account view without one VNI.
pub open spec fn without_vni(a: AccountView, vni: i32) -> AccountView {
    AccountView { vnis: a.vnis.remove(vni), ..a }
}

impl Context {
    /// Why deleting VTEP `name` is refused, if it is.
    pub open spec fn delete_vtep_rejection(&self, requester_id: i32, name: Seq<char>) -> Option<Seq<char>> {
        match key_index(self.vteps@, name) {
            None => Some("VTEP not found"@),
            Some(iv) => if !self.can_manage_spec(requester_id, self.vteps@[iv].account_id) {
                Some("Permission denied"@)
            } else {
                None
            },
        }
    }

    /// Deletes VTEP `vtep_name`: it leaves every VNI and its owner's VTEPs.
    pub fn delete_vtep(&mut self, requester_id: i32, vtep_name: &str) -> (r: Result<VtepDeletion, String>)
        requires
            old(self).wf(),
        ensures
            final(self).wf(),
            final(self).rrs == old(self).rrs,
            final(self).vtep_states == old(self).vtep_states,
            membership_symmetric(old(self).vteps@, old(self).vnis@) ==> membership_symmetric(final(self).vteps@, final(self).vnis@),
            match old(self).delete_vtep_rejection(requester_id, vtep_name@) {
                Some(m) => r matches Err(e) && e@ == m && *final(self) == *old(self),
                None => {
                    let iv = key_index(old(self).vteps@, vtep_name@)->0;
                    let gone = old(self).vteps@[iv];
                    &&& final(self).vteps@ == old(self).vteps@.remove(iv)
                    &&& final(self).vnis@.len() == old(self).vnis@.len()
                    &&& forall|j: int| 0 <= j < final(self).vnis@.len() ==> (#[trigger] final(self).vnis@[j])@
                        == vni_after(old(self).vnis@[j]@, vtep_name@, Set::empty(), gone@.vnis)
                    &&& match account_index(old(self).accounts@, gone.account_id) {
                        Some(i) => {
                            &&& final(self).accounts@ == old(self).accounts@.update(i, final(self).accounts@[i])
                            &&& final(self).accounts@[i]@ == without_vtep(old(self).accounts@[i]@, vtep_name@)
                            &&& r matches Ok(d) && d.owner matches Some(o) && o@ == final(self).accounts@[i]@
                        },
                        None => {
                            &&& final(self).accounts@ == old(self).accounts@
                            &&& r matches Ok(d) && d.owner is None
                        },
                    }
                    &&& r matches Ok(d) && {
                        &&& d.vtep@ == (VtepView { vnis: Set::empty(), ..gone@ })
                        &&& unique_keys(d.vnis@)
                        &&& sorted_by_int(d.vnis@)
                        &&& key_set(d.vnis@) == gone@.vnis.intersect(key_set(final(self).vnis@))
                        &&& forall|k: int| 0 <= k < d.vnis@.len() ==> (#[trigger] d.vnis@[k])@ == vni_of(final(self).vnis@, d.vnis@[k].vni)@
                    }
                },
            },
    {
        let iv = match index_of_name(&self.vteps, vtep_name) {
            Some(i) => i,
            None => return Err(owned("VTEP not found")),
        };
        proof {
            lemma_key_index_none(self.vteps@, vtep_name@);
        }
        if !self.can_manage_account(requester_id, self.vteps[iv].account_id) {
            return Err(owned("Permission denied"));
        }
        proof {
            assert(self.vteps@[iv as int].wf());
        }
        let gone = self.vteps.remove(iv);
        proof {
            assert forall|a: int, b: int| 0 <= a < self.vteps@.len() && 0 <= b < self.vteps@.len() && a != b
                implies self.vteps@[a].key() != self.vteps@[b].key() by {
                let aa = if a < iv { a } else { a + 1 };
                let bb = if b < iv { b } else { b + 1 };
                assert(self.vteps@[a] == old(self).vteps@[aa]);
                assert(self.vteps@[b] == old(self).vteps@[bb]);
            }
            assert forall|i: int| 0 <= i < self.vteps@.len() implies (#[trigger] self.vteps@[i]).wf() by {
                let ii = if i < iv { i } else { i + 1 };
                assert(self.vteps@[i] == old(self).vteps@[ii]);
            }
        }
        let none: Vec<i32> = Vec::new();
        assert(key_set(none@) =~= Set::<i32>::empty()) by {
            assert(keys(none@) =~= Seq::<i32>::empty());
        }
        apply_vtep_membership(&mut self.vnis, vtep_name, &none, &gone.vnis);
        proof {
            if membership_symmetric(old(self).vteps@, old(self).vnis@) {
                lemma_vtep_delete_symmetric(old(self).vteps@, old(self).vnis@, self.vnis@, iv as int);
            }
        }
        let affected = copy_vec(&gone.vnis);
        let vnis = vni_copies(&self.vnis, affected);
        let owner = match self.find_account_index(gone.account_id) {
            Some(i) => {
                proof {
                    assert(self.accounts@[i as int].wf());
                }
                account_update_vteps(&mut self.accounts, i, vtep_name, false);
                proof {
                    assert forall|j: int| 0 <= j < self.accounts@.len() implies (#[trigger] self.accounts@[j]).wf() by {
                        if j != i {
                            assert(self.accounts@[j] == old(self).accounts@[j]);
                        }
                    }
                }
                Some(self.accounts[i].copy())
            },
            None => None,
        };
        let mut vtep = gone;
        vtep.vnis = Vec::new();
        proof {
            assert(keys(vtep.vnis@) =~= Seq::<i32>::empty());
        }
        Ok(VtepDeletion { vtep, vnis, owner })
    }

    /// Why deleting VNI `vni` is refused, if it is.
    pub open spec fn delete_vni_rejection(&self, requester_id: i32, vni: i32) -> Option<Seq<char>> {
        match key_index(self.vnis@, vni) {
            None => Some("VNI not found"@),
            Some(ix) => if !self.can_manage_spec(requester_id, self.vnis@[ix].account_id) {
                Some("Permission denied"@)
            } else {
                None
            },
        }
    }

    /// Deletes VNI `vni`: every VTEP leaves it and it leaves its owner's VNIs.
    pub fn delete_vni(&mut self, requester_id: i32, vni: i32) -> (r: Result<VniDeletion, String>)
        requires
            old(self).wf(),
        ensures
            final(self).wf(),
            final(self).rrs == old(self).rrs,
            final(self).vtep_states == old(self).vtep_states,
            membership_symmetric(old(self).vteps@, old(self).vnis@) ==> membership_symmetric(final(self).vteps@, final(self).vnis@),
            match old(self).delete_vni_rejection(requester_id, vni) {
                Some(m) => r matches Err(e) && e@ == m && *final(self) == *old(self),
                None => {
                    let ix = key_index(old(self).vnis@, vni)->0;
                    let gone = old(self).vnis@[ix];
                    &&& final(self).vnis@ == old(self).vnis@.remove(ix)
                    &&& final(self).vteps@.len() == old(self).vteps@.len()
                    &&& forall|j: int| 0 <= j < final(self).vteps@.len() ==> (#[trigger] final(self).vteps@[j])@
                        == vtep_after(old(self).vteps@[j]@, vni, Set::empty(), gone@.vteps)
                    &&& match account_index(old(self).accounts@, gone.account_id) {
                        Some(i) => {
                            &&& final(self).accounts@ == old(self).accounts@.update(i, final(self).accounts@[i])
                            &&& final(self).accounts@[i]@ == without_vni(old(self).accounts@[i]@, vni)
                            &&& r matches Ok(d) && d.owner matches Some(o) && o@ == final(self).accounts@[i]@
                        },
                        None => {
                            &&& final(self).accounts@ == old(self).accounts@
                            &&& r matches Ok(d) && d.owner is None
                        },
                    }
                    &&& r matches Ok(d) && {
                        &&& d.vni@ == (VniView { vteps: Set::empty(), ..gone@ })
                        &&& unique_keys(d.vteps@)
                        &&& sorted_by_text(d.vteps@)
                        &&& key_set(d.vteps@) == gone@.vteps.intersect(key_set(final(self).vteps@))
                        &&& forall|k: int| 0 <= k < d.vteps@.len() ==> (#[trigger] d.vteps@[k])@ == vtep_of(final(self).vteps@, d.vteps@[k].name@)@
                    }
                },
            },
    {
        let ix = match index_of_id(&self.vnis, vni) {
            Some(i) => i,
            None => return Err(owned("VNI not found")),
        };
        proof {
            lemma_key_index_none(self.vnis@, vni);
        }
        if !self.can_manage_account(requester_id, self.vnis[ix].account_id) {
            return Err(owned("Permission denied"));
        }
        proof {
            assert(self.vnis@[ix as int].wf());
        }
        let gone = self.vnis.remove(ix);
        proof {
            assert forall|a: int, b: int| 0 <= a < self.vnis@.len() && 0 <= b < self.vnis@.len() && a != b
                implies self.vnis@[a].key() != self.vnis@[b].key() by {
                let aa = if a < ix { a } else { a + 1 };
                let bb = if b < ix { b } else { b + 1 };
                assert(self.vnis@[a] == old(self).vnis@[aa]);
                assert(self.vnis@[b] == old(self).vnis@[bb]);
            }
            assert forall|i: int| 0 <= i < self.vnis@.len() implies (#[trigger] self.vnis@[i]).wf() by {
                let ii = if i < ix { i } else { i + 1 };
                assert(self.vnis@[i] == old(self).vnis@[ii]);
            }
        }
        let none: Vec<String> = Vec::new();
        assert(key_set(none@) =~= Set::<Seq<char>>::empty()) by {
            assert(keys(none@) =~= Seq::<Seq<char>>::empty());
        }
        apply_vni_membership(&mut self.vteps, vni, &none, &gone.vteps);
        proof {
            if membership_symmetric(old(self).vteps@, old(self).vnis@) {
                lemma_vni_delete_symmetric(old(self).vteps@, old(self).vnis@, self.vteps@, ix as int);
            }
        }
        let affected = copy_vec(&gone.vteps);
        let vteps = vtep_copies(&self.vteps, affected);
        let owner = match self.find_account_index(gone.account_id) {
            Some(i) => {
                proof {
                    assert(self.accounts@[i as int].wf());
                }
                account_update_vnis(&mut self.accounts, i, vni, false);
                proof {
                    assert forall|j: int| 0 <= j < self.accounts@.len() implies (#[trigger] self.accounts@[j]).wf() by {
                        if j != i {
                            assert(self.accounts@[j] == old(self).accounts@[j]);
                        }
                    }
                }
                Some(self.accounts[i].copy())
            },
            None => None,
        };
        let mut record = gone;
        record.vteps = Vec::new();
        proof {
            assert(keys(record.vteps@) =~= Seq::<Seq<char>>::empty());
        }
        Ok(VniDeletion { vni: record, vteps, owner })
    }
}

} // verus!
