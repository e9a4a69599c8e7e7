//! Which local address a VTEP uses: one of the global IPv6 addresses of its
//! source interface, kept until it disappears.
use vstd::prelude::*;
use crate::keyed::{contains_key, has_key, index_of_key, insert_key, key_set, lemma_key_set_all, lemma_key_set_has_key, remove_key, unique_keys, Keyed};
use crate::rtnl::{ipv6_of, parse_ipv6_addr, AddrMsg};

verus! {

/// The address in use and the addresses that could be used.
pub struct AddrSelector {
    pub active: Option<u128>,
    pub candidates: Vec<u128>,
}

/// What an address message is.
#[derive(PartialEq, Eq, Structural)]
pub enum AddrEvent {
    New,
    Del,
}

impl AddrSelector {
    /// Each candidate once, the address in use is a candidate, and no
    /// address is in use exactly when there is no candidate.
    pub open spec fn wf(&self) -> bool {
        &&& unique_keys(self.candidates@)
        &&& self.active matches Some(a) ==> has_key(self.candidates@, a)
        &&& (self.active is None <==> self.candidates@.len() == 0)
    }

    /// Nothing known yet.
    pub fn new() -> (r: AddrSelector)
        ensures
            r.wf(),
            r.active is None,
            r.candidates@.len() == 0,
    {
        AddrSelector { active: None, candidates: Vec::new() }
    }

    /// Starts from the addresses the interface has: the first is used. When
    /// they could not be read nothing changes.
    pub fn init_loc_addrs(&mut self, addrs: Result<Vec<u128>, String>)
        requires
            old(self).wf(),
        ensures
            final(self).wf(),
            match addrs {
                Ok(v) => {
                    &&& final(self).active == if v@.len() > 0 { Some(v@[0]) } else { None }
                    &&& key_set(final(self).candidates@) == key_set(v@)
                },
                Err(_) => *final(self) == *old(self),
            },
    {
        let addrs = match addrs {
            Ok(v) => v,
            Err(_) => return,
        };
        let mut cands: Vec<u128> = Vec::new();
        let mut i: usize = 0;
        while i < addrs.len()
            invariant
                i <= addrs@.len(),
                unique_keys(cands@),
                key_set(cands@) == key_set(addrs@.subrange(0, i as int)),
            decreases addrs@.len() - i,
        {
            insert_key(&mut cands, addrs[i]);
            proof {
                let s = addrs@.subrange(0, i + 1);
                assert(s =~= addrs@.subrange(0, i as int).push(addrs@[i as int]));
                crate::keyed::lemma_key_set_push(addrs@.subrange(0, i as int), addrs@[i as int]);
            }
            i = i + 1;
        }
        assert(addrs@.subrange(0, addrs@.len() as int) =~= addrs@);
        let active = if addrs.len() > 0 { Some(addrs[0]) } else { None };
        proof {
            if addrs@.len() > 0 {
                lemma_key_set_has_key(addrs@, addrs@[0]);
                lemma_key_set_has_key(cands@, addrs@[0]);
            } else {
                assert(key_set(addrs@) =~= Set::<u128>::empty());
                crate::keyed::lemma_unique_key_set_len(cands@);
            }
        }
        self.active = active;
        self.candidates = cands;
    }

    /// An address appeared: it becomes a candidate, and is used when none is.
    /// Returns the new address in use when it changed.
    pub fn address_added(&mut self, addr: u128) -> (r: Option<Option<u128>>)
        requires
            old(self).wf(),
        ensures
            final(self).wf(),
            key_set(final(self).candidates@) == key_set(old(self).candidates@).insert(addr),
            match old(self).active {
                None => final(self).active == Some(addr) && r == Some(Some(addr)),
                Some(_) => final(self).active == old(self).active && r is None,
            },
    {
        proof {
            lemma_key_set_all(old(self).candidates@);
        }
        insert_key(&mut self.candidates, addr);
        proof {
            lemma_key_set_all(self.candidates@);
            lemma_key_set_has_key(self.candidates@, addr);
            if let Some(a) = old(self).active {
                lemma_key_set_has_key(old(self).candidates@, a);
                lemma_key_set_has_key(self.candidates@, a);
            }
        }
        if self.active.is_none() {
            self.active = Some(addr);
            Some(Some(addr))
        } else {
            None
        }
    }

    /// An address disappeared: it is no longer a candidate; when it was in
    /// use, another candidate (if any) takes its place. Returns the new
    /// address in use when it changed.
    pub fn address_deleted(&mut self, addr: u128) -> (r: Option<Option<u128>>)
        requires
            old(self).wf(),
        ensures
            final(self).wf(),
            key_set(final(self).candidates@) == key_set(old(self).candidates@).remove(addr),
            if old(self).active == Some(addr) {
                &&& final(self).active is None <==> final(self).candidates@.len() == 0
                &&& r == if final(self).active != old(self).active { Some(final(self).active) } else { None }
            } else {
                final(self).active == old(self).active && r is None
            },
    {
        let old_active = self.active;
        remove_key(&mut self.candidates, &addr);
        proof {
            lemma_key_set_all(old(self).candidates@);
            lemma_key_set_all(self.candidates@);
            if let Some(a) = old(self).active {
                lemma_key_set_has_key(old(self).candidates@, a);
                lemma_key_set_has_key(self.candidates@, a);
            }
        }
        if old_active == Some(addr) {
            let next = if self.candidates.len() > 0 { Some(self.candidates[0]) } else { None };
            proof {
                if self.candidates@.len() > 0 {
                    assert(self.candidates@[0].key() == self.candidates@[0]);
                }
            }
            self.active = next;
            if next != old_active {
                Some(next)
            } else {
                None
            }
        } else {
            None
        }
    }

    /// A routing message about an address of interface `index`: messages about
    /// other interfaces, and those without a usable address, change nothing.
    pub fn on_message(&mut self, src_ifindex: u32, event: AddrEvent, msg: &AddrMsg) -> (r: Option<Option<u128>>)
        requires
            old(self).wf(),
        ensures
            final(self).wf(),
            final(self).active is None <==> final(self).candidates@.len() == 0,
            final(self).active matches Some(a) ==> final(self).candidates@.contains(a),
            match ipv6_of(msg.inet6, msg.universe, msg.attrs@) {
                Some(a) if msg.index == src_ifindex => match event {
                    AddrEvent::New => {
                        &&& key_set(final(self).candidates@) == key_set(old(self).candidates@).insert(a)
                        &&& match old(self).active {
                            None => final(self).active == Some(a) && r == Some(Some(a)),
                            Some(_) => final(self).active == old(self).active && r is None,
                        }
                    },
                    AddrEvent::Del => {
                        &&& key_set(final(self).candidates@) == key_set(old(self).candidates@).remove(a)
                        &&& if old(self).active == Some(a) {
                            &&& final(self).active is None <==> final(self).candidates@.len() == 0
                            &&& r == if final(self).active != old(self).active { Some(final(self).active) } else { None }
                        } else {
                            final(self).active == old(self).active && r is None
                        }
                    },
                },
                _ => *final(self) == *old(self) && r is None,
            },
    {
        if msg.index != src_ifindex {
            return None;
        }
        match parse_ipv6_addr(msg) {
            None => None,
            Some(a) => match event {
                AddrEvent::New => self.address_added(a),
                AddrEvent::Del => self.address_deleted(a),
            },
        }
    }
}

} // verus!
