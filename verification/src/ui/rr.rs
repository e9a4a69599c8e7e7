//! The web UI's bookkeeping of route reflectors: their authentication and the
//! VTEP states they report.
use vstd::prelude::*;
use crate::crypto::{argon2_accepts, check_password, phc_parses};
use crate::keyed::{index_of_name, key_index, key_set, keys, lemma_key_index_none, lemma_update_same_key, remove_key, unique_keys, upsert_key, Keyed};
use crate::models::{copy_vnis_where, copy_vteps_where, lemma_vnis_where_all, lemma_vteps_where_all, vni_views, vtep_views, Rr, Vni, Vtep};
use crate::text::owned;
use crate::ui::context::{Context, RrVtepStates, VtepState};

verus! {

/// The answer to a route reflector that signs in: its name (or why not), its
/// id, and every VTEP and VNI.
pub struct AuthRrRep {
    pub rr_name: Result<String, String>,
    pub rr_id: i32,
    pub vteps: Vec<Vtep>,
    pub vnis: Vec<Vni>,
}

/// A route reflector signs in with this password.
pub open spec fn rr_accepts(rr: Rr, password: Seq<char>) -> bool {
    phc_parses(rr.password@) && argon2_accepts(password, rr.password@)
}

impl Context {
    /// Authenticates route reflector `name` connecting from `addr` at `now`.
    /// On success it records the address and the time; the second result is
    /// the address it was known at before, when that differs.
    pub fn auth_rr(&mut self, name: &str, password: &str, addr: u32, now: u64) -> (r: (AuthRrRep, Option<u32>))
        requires
            old(self).wf(),
        ensures
            final(self).wf(),
            final(self).accounts == old(self).accounts,
            final(self).vteps == old(self).vteps,
            final(self).vnis == old(self).vnis,
            final(self).vtep_states == old(self).vtep_states,
            vtep_views(r.0.vteps@) == vtep_views(old(self).vteps@),
            vni_views(r.0.vnis@) == vni_views(old(self).vnis@),
            match key_index(old(self).rrs@, name@) {
                Some(i) if rr_accepts(old(self).rrs@[i], password@) => {
                    let rr = old(self).rrs@[i];
                    &&& r.0.rr_name matches Ok(n) && n@ == rr.name@
                    &&& r.0.rr_id == rr.id
                    &&& final(self).rrs@ == old(self).rrs@.update(i, Rr { ipv4_addr: Some(addr), last_update: Some(now), ..rr })
                    &&& r.1 == match rr.ipv4_addr {
                        Some(a) => if a != addr { Some(a) } else { None },
                        None => None,
                    }
                },
                _ => {
                    &&& r.0.rr_name matches Err(e) && e@ == "Auth failed"@
                    &&& r.0.rr_id == -1
                    &&& final(self).rrs == old(self).rrs
                    &&& r.1 is None
                },
            },
    {
        let vteps = copy_vteps_where(&self.vteps, true, 0);
        let vnis = copy_vnis_where(&self.vnis, true, 0);
        proof {
            lemma_vteps_where_all(vtep_views(self.vteps@), 0);
            lemma_vnis_where_all(vni_views(self.vnis@), 0);
            lemma_key_index_none(self.rrs@, name@);
        }
        let i = match index_of_name(&self.rrs, name) {
            Some(i) => i,
            None => return (AuthRrRep { rr_name: Err(owned("Auth failed")), rr_id: -1, vteps, vnis }, None),
        };
        if !check_password(password, self.rrs[i].password.as_str()) {
            return (AuthRrRep { rr_name: Err(owned("Auth failed")), rr_id: -1, vteps, vnis }, None);
        }
        let mut rr = self.rrs.remove(i);
        let moved = match rr.ipv4_addr {
            Some(a) => if a != addr { Some(a) } else { None },
            None => None,
        };
        rr.ipv4_addr = Some(addr);
        rr.last_update = Some(now);
        let rr_name = rr.name.clone();
        let rr_id = rr.id;
        self.rrs.insert(i, rr);
        proof {
            assert(self.rrs@ =~= old(self).rrs@.update(i as int, rr));
            lemma_update_same_key(old(self).rrs@, i as int, rr);
        }
        (AuthRrRep { rr_name: Ok(rr_name), rr_id, vteps, vnis }, moved)
    }

    /// A route reflector registered: it starts with no VTEP states.
    pub fn rr_registered(&mut self, name: String)
        requires
            old(self).wf(),
        ensures
            final(self).wf(),
            final(self).vtep_states@.len() >= old(self).vtep_states@.len(),
            key_set(final(self).vtep_states@) == key_set(old(self).vtep_states@).insert(name@),
            match key_index(final(self).vtep_states@, name@) {
                Some(i) => final(self).vtep_states@[i].states@.len() == 0,
                None => false,
            },
            forall|k: Seq<char>| k != name@ ==> #[trigger] key_index(final(self).vtep_states@, k) == key_index(old(self).vtep_states@, k),
            forall|i: int| 0 <= i < old(self).vtep_states@.len() && old(self).vtep_states@[i].rr_name@ != name@ ==> final(self).vtep_states@[i] == old(self).vtep_states@[i],
            final(self).accounts == old(self).accounts,
            final(self).rrs == old(self).rrs,
            final(self).vteps == old(self).vteps,
            final(self).vnis == old(self).vnis,
    {
        let entry = RrVtepStates { rr_name: name, states: Vec::new() };
        let ghost e = entry;
        proof {
            lemma_key_index_none(old(self).vtep_states@, e.rr_name@);
        }
        upsert_key(&mut self.vtep_states, entry);
        proof {
            let s = self.vtep_states@;
            let o = old(self).vtep_states@;
            let idx = match key_index(o, e.rr_name@) { Some(i) => i, None => o.len() as int };
            assert(s[idx] == e);
            assert(unique_keys(s));
            crate::keyed::lemma_unique_key_index(s, e.rr_name@, idx);
            assert forall|k: Seq<char>| k != e.rr_name@ implies #[trigger] key_index(s, k) == key_index(o, k) by {
                lemma_key_index_none(o, k);
                lemma_key_index_none(s, k);
                if let Some(j) = key_index(o, k) {
                    assert(s[j] == o[j]);
                    crate::keyed::lemma_unique_key_index(s, k, j);
                } else if let Some(j) = key_index(s, k) {
                    assert(j != idx);
                    assert(s[j] == o[j]);
                    assert(crate::keyed::has_key(o, k));
                }
            }
            assert forall|i: int| 0 <= i < self.vtep_states@.len() implies unique_keys((#[trigger] self.vtep_states@[i]).states@) by {
                if i < old(self).vtep_states@.len() && self.vtep_states@[i] != e {
                    assert(self.vtep_states@[i] == old(self).vtep_states@[i]);
                }
            }
            assert forall|i: int| 0 <= i < o.len() && o[i].rr_name@ != e.rr_name@ implies s[i] == o[i] by {}
        }
    }

    /// A route reflector left: its VTEP states are dropped.
    pub fn rr_exit(&mut self, name: &str)
        requires
            old(self).wf(),
        ensures
            final(self).wf(),
            final(self).vtep_states@ == match key_index(old(self).vtep_states@, name@) {
                Some(i) => old(self).vtep_states@.remove(i),
                None => old(self).vtep_states@,
            },
            final(self).accounts == old(self).accounts,
            final(self).rrs == old(self).rrs,
            final(self).vteps == old(self).vteps,
            final(self).vnis == old(self).vnis,
    {
        proof {
            lemma_key_index_none(old(self).vtep_states@, name@);
        }
        if let Some(i) = index_of_name(&self.vtep_states, name) {
            self.vtep_states.remove(i);
            proof {
                assert forall|a: int, b: int| 0 <= a < self.vtep_states@.len() && 0 <= b < self.vtep_states@.len() && a != b
                    implies self.vtep_states@[a].key() != self.vtep_states@[b].key() by {
                    let aa = if a < i { a } else { a + 1 };
                    let bb = if b < i { b } else { b + 1 };
                    assert(self.vtep_states@[a] == old(self).vtep_states@[aa]);
                    assert(self.vtep_states@[b] == old(self).vtep_states@[bb]);
                }
                assert forall|j: int| 0 <= j < self.vtep_states@.len() implies unique_keys((#[trigger] self.vtep_states@[j]).states@) by {
                    let jj = if j < i { j } else { j + 1 };
                    assert(self.vtep_states@[j] == old(self).vtep_states@[jj]);
                }
            }
        }
    }

    /// Route reflector `rr_name` reports the state of VTEP `vtep_name`; it is
    /// kept when that route reflector is registered.
    pub fn update_vtep_state(&mut self, rr_name: &str, vtep_name: String, ipv6_addr: Option<u128>, last_update: String)
        requires
            old(self).wf(),
        ensures
            final(self).wf(),
            match key_index(old(self).vtep_states@, rr_name@) {
                Some(i) => {
                    &&& final(self).vtep_states@.len() == old(self).vtep_states@.len()
                    &&& forall|j: int| 0 <= j < old(self).vtep_states@.len() && j != i ==> final(self).vtep_states@[j] == old(self).vtep_states@[j]
                    &&& final(self).vtep_states@[i].rr_name == old(self).vtep_states@[i].rr_name
                    &&& final(self).vtep_states@[i].states@ == match key_index(old(self).vtep_states@[i].states@, vtep_name@) {
                        Some(k) => old(self).vtep_states@[i].states@.update(k, final(self).vtep_states@[i].states@[k]),
                        None => old(self).vtep_states@[i].states@.push(final(self).vtep_states@[i].states@.last()),
                    }
                    &&& match key_index(final(self).vtep_states@[i].states@, vtep_name@) {
                        Some(k) => final(self).vtep_states@[i].states@[k]@ == (crate::ui::context::VtepStateView {
                            vtep_name: vtep_name@,
                            ipv6_addr,
                            last_update: last_update@,
                        }),
                        None => false,
                    }
                },
                None => final(self).vtep_states == old(self).vtep_states,
            },
            final(self).accounts == old(self).accounts,
            final(self).rrs == old(self).rrs,
            final(self).vteps == old(self).vteps,
            final(self).vnis == old(self).vnis,
    {
        if let Some(i) = index_of_name(&self.vtep_states, rr_name) {
            proof {
                lemma_key_index_none(old(self).vtep_states@, rr_name@);
                assert(unique_keys(self.vtep_states@[i as int].states@));
            }
            let mut entry = self.vtep_states.remove(i);
            let state = VtepState { vtep_name, ipv6_addr, last_update };
            let ghost st = state;
            let ghost before = entry.states@;
            proof {
                lemma_key_index_none(before, st.vtep_name@);
            }
            upsert_key(&mut entry.states, state);
            proof {
                let idx = match key_index(before, st.vtep_name@) { Some(k) => k, None => before.len() as int };
                assert(entry.states@[idx] == st);
                crate::keyed::lemma_unique_key_index(entry.states@, st.vtep_name@, idx);
            }
            self.vtep_states.insert(i, entry);
            proof {
                assert(self.vtep_states@ =~= old(self).vtep_states@.update(i as int, entry));
                lemma_update_same_key(old(self).vtep_states@, i as int, entry);
                assert forall|j: int| 0 <= j < self.vtep_states@.len() implies unique_keys((#[trigger] self.vtep_states@[j]).states@) by {
                    if j != i {
                        assert(self.vtep_states@[j] == old(self).vtep_states@[j]);
                    }
                }
            }
        }
    }
}

} // verus!
