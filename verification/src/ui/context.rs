//! The web UI's registry of accounts, route reflectors, VTEPs and VNIs, and the
//! decisions it takes on each request.
use vstd::prelude::*;
use crate::keyed::{key_set, keys, unique_keys, has_key, Keyed, NameKeyed};
use crate::models::{Account, Permission, Rr, Vni, Vtep};
use crate::text::{decimal, owned, push_u64, str_eq};

verus! {

/// The answer to a request that changes the registry.
pub struct OpRep {
    pub ok: bool,
    pub message: String,
}

/// A VTEP's connection state as one route reflector reports it.
pub struct VtepState {
    pub vtep_name: String,
    pub ipv6_addr: Option<u128>,
    pub last_update: String,
}

impl Keyed for VtepState {
    type K = Seq<char>;

    open spec fn key(&self) -> Seq<char> {
        self.vtep_name@
    }

    fn same_key(&self, other: &Self) -> (r: bool) {
        str_eq(self.vtep_name.as_str(), other.vtep_name.as_str())
    }

    fn copy_keyed(&self) -> (r: Self) {
        self.copy()
    }
}

impl NameKeyed for VtepState {
    fn name_str(&self) -> (r: &str) {
        self.vtep_name.as_str()
    }
}

pub struct VtepStateView {
    pub vtep_name: Seq<char>,
    pub ipv6_addr: Option<u128>,
    pub last_update: Seq<char>,
}

impl View for VtepState {
    type V = VtepStateView;

    open spec fn view(&self) -> VtepStateView {
        VtepStateView { vtep_name: self.vtep_name@, ipv6_addr: self.ipv6_addr, last_update: self.last_update@ }
    }
}

impl VtepState {
    pub fn copy(&self) -> (r: VtepState)
        ensures
            r@ == self@,
    {
        VtepState {
            vtep_name: self.vtep_name.clone(),
            ipv6_addr: self.ipv6_addr,
            last_update: self.last_update.clone(),
        }
    }
}

/// The views of a sequence of VTEP states.
pub open spec fn state_views(s: Seq<VtepState>) -> Seq<VtepStateView> {
    Seq::new(s.len(), |i: int| s[i]@)
}

/// Copies of VTEP states.
pub fn copy_states(v: &Vec<VtepState>) -> (r: Vec<VtepState>)
    ensures
        state_views(r@) == state_views(v@),
        keys(r@) == keys(v@),
{
    let mut r: Vec<VtepState> = Vec::new();
    let mut i: usize = 0;
    while i < v.len()
        invariant
            i <= v.len(),
            r@.len() == i,
            forall|j: int| 0 <= j < i ==> r@[j]@ == v@[j]@,
        decreases v.len() - i,
    {
        r.push(v[i].copy());
        i = i + 1;
    }
    assert(state_views(r@) =~= state_views(v@));
    assert(keys(r@) =~= keys(v@));
    r
}

/// The VTEP states reported by one registered route reflector.
pub struct RrVtepStates {
    pub rr_name: String,
    pub states: Vec<VtepState>,
}

impl Keyed for RrVtepStates {
    type K = Seq<char>;

    open spec fn key(&self) -> Seq<char> {
        self.rr_name@
    }

    fn same_key(&self, other: &Self) -> (r: bool) {
        str_eq(self.rr_name.as_str(), other.rr_name.as_str())
    }

    fn copy_keyed(&self) -> (r: Self) {
        self.copy()
    }
}

impl NameKeyed for RrVtepStates {
    fn name_str(&self) -> (r: &str) {
        self.rr_name.as_str()
    }
}

pub struct RrVtepStatesView {
    pub rr_name: Seq<char>,
    pub states: Seq<VtepStateView>,
}

impl View for RrVtepStates {
    type V = RrVtepStatesView;

    open spec fn view(&self) -> RrVtepStatesView {
        RrVtepStatesView { rr_name: self.rr_name@, states: state_views(self.states@) }
    }
}

impl RrVtepStates {
    pub fn copy(&self) -> (r: RrVtepStates)
        ensures
            r@ == self@,
            unique_keys(r.states@) == unique_keys(self.states@),
    {
        let r = RrVtepStates { rr_name: self.rr_name.clone(), states: copy_states(&self.states) };
        assert(unique_keys(r.states@) == unique_keys(self.states@)) by {
            assert(keys(r.states@).len() == keys(self.states@).len());
            assert forall|i: int| 0 <= i < r.states@.len() implies r.states@[i].key() == self.states@[i].key() by {
                assert(keys(r.states@)[i] == keys(self.states@)[i]);
            }
        }
        r
    }
}

/// The views of the per-RR VTEP states.
pub open spec fn rr_state_views(s: Seq<RrVtepStates>) -> Seq<RrVtepStatesView> {
    Seq::new(s.len(), |i: int| s[i]@)
}

/// Copies of the per-RR VTEP states.
pub fn copy_rr_states(v: &Vec<RrVtepStates>) -> (r: Vec<RrVtepStates>)
    ensures
        rr_state_views(r@) == rr_state_views(v@),
{
    let mut r: Vec<RrVtepStates> = Vec::new();
    let mut i: usize = 0;
    while i < v.len()
        invariant
            i <= v.len(),
            r@.len() == i,
            forall|j: int| 0 <= j < i ==> r@[j]@ == v@[j]@,
        decreases v.len() - i,
    {
        r.push(v[i].copy());
        i = i + 1;
    }
    assert(rr_state_views(r@) =~= rr_state_views(v@));
    r
}

/// The web UI's state.
pub struct Context {
    pub db_username: String,
    pub db_password: String,
    pub db_host: String,
    pub db_port: String,
    pub db_name: String,
    /// Accounts, at most one per mail address.
    pub accounts: Vec<Account>,
    /// Route reflectors, at most one per name.
    pub rrs: Vec<Rr>,
    /// VTEPs, at most one per name.
    pub vteps: Vec<Vtep>,
    /// VNIs, at most one per VNI number.
    pub vnis: Vec<Vni>,
    /// VTEP states, per registered route reflector.
    pub vtep_states: Vec<RrVtepStates>,
}

/// `i` is the first account with this id.
pub open spec fn is_first_id(s: Seq<Account>, id: i32, i: int) -> bool {
    &&& 0 <= i < s.len()
    &&& s[i].id == id
    &&& forall|j: int| 0 <= j < i ==> s[j].id != id
}

/// The index of the first account with this id.
pub open spec fn account_index(s: Seq<Account>, id: i32) -> Option<int> {
    if exists|i: int| is_first_id(s, id, i) {
        Some(choose|i: int| is_first_id(s, id, i))
    } else {
        None
    }
}

pub proof fn lemma_first_id_unique(s: Seq<Account>, id: i32, i: int)
    requires
        is_first_id(s, id, i),
    ensures
        account_index(s, id) == Some(i),
{
    let k = choose|k: int| is_first_id(s, id, k);
    assert(k == i) by {
        if k < i {
            assert(s[k].id != id);
        }
        if i < k {
            assert(s[i].id != id);
        }
    }
}

pub proof fn lemma_no_id(s: Seq<Account>, id: i32)
    requires
        forall|j: int| 0 <= j < s.len() ==> s[j].id != id,
    ensures
        account_index(s, id) is None,
{
}

/// The account with this id, if any (the first one).
pub open spec fn account_by_id(s: Seq<Account>, id: i32) -> Option<Account> {
    match account_index(s, id) {
        Some(i) => Some(s[i]),
        None => None,
    }
}

/// The error message of a resource limit, if the counts exceed it.
pub open spec fn limit_error(perm: Permission, next_vni_count: int, next_vtep_count: int) -> Option<Seq<char>> {
    match perm.limits_spec() {
        Some((vni_limit, vtep_limit)) => if next_vni_count > vni_limit {
            Some(perm_label_spec(perm) + " account can own at most "@ + decimal(vni_limit as nat) + " VNI(s)"@)
        } else if next_vtep_count > vtep_limit {
            Some(perm_label_spec(perm) + " account can own at most "@ + decimal(vtep_limit as nat) + " VTEP(s)"@)
        } else {
            None
        },
        None => None,
    }
}

/// The name of a permission.
pub open spec fn perm_label_spec(perm: Permission) -> Seq<char> {
    match perm {
        Permission::Admin => "Admin"@,
        Permission::Free => "Free"@,
        Permission::Pro => "Pro"@,
    }
}

/// The permission a stored code stands for.
pub open spec fn permission_of_code(code: i32) -> Option<Permission> {
    if code == 1 {
        Some(Permission::Admin)
    } else if code == 2 {
        Some(Permission::Free)
    } else if code == 3 {
        Some(Permission::Pro)
    } else {
        None
    }
}

/// The code a permission is stored as.
pub open spec fn code_of_permission(perm: Permission) -> i32 {
    match perm {
        Permission::Admin => 1,
        Permission::Free => 2,
        Permission::Pro => 3,
    }
}

impl Context {
    /// Keys are unique in every collection and every record is well formed.
    pub open spec fn wf(&self) -> bool {
        &&& unique_keys(self.accounts@)
        &&& unique_keys(self.rrs@)
        &&& unique_keys(self.vteps@)
        &&& unique_keys(self.vnis@)
        &&& unique_keys(self.vtep_states@)
        &&& forall|i: int| 0 <= i < self.accounts@.len() ==> (#[trigger] self.accounts@[i]).wf()
        &&& forall|i: int| 0 <= i < self.vteps@.len() ==> (#[trigger] self.vteps@[i]).wf()
        &&& forall|i: int| 0 <= i < self.vnis@.len() ==> (#[trigger] self.vnis@[i]).wf()
        &&& forall|i: int| 0 <= i < self.vtep_states@.len() ==> unique_keys((#[trigger] self.vtep_states@[i]).states@)
    }

    /// An empty registry with the database settings.
    pub fn new(db_username: String, db_password: String, db_host: String, db_port: String, db_name: String) -> (r: Context)
        ensures
            r.wf(),
            r.accounts@.len() == 0,
            r.rrs@.len() == 0,
            r.vteps@.len() == 0,
            r.vnis@.len() == 0,
            r.vtep_states@.len() == 0,
            r.db_username == db_username,
            r.db_password == db_password,
            r.db_host == db_host,
            r.db_port == db_port,
            r.db_name == db_name,
    {
        Context {
            db_username,
            db_password,
            db_host,
            db_port,
            db_name,
            accounts: Vec::new(),
            rrs: Vec::new(),
            vteps: Vec::new(),
            vnis: Vec::new(),
            vtep_states: Vec::new(),
        }
    }

    /// The index of the first account with this id.
    pub fn find_account_index(&self, account_id: i32) -> (r: Option<usize>)
        ensures
            match r {
                Some(i) => account_index(self.accounts@, account_id) == Some(i as int),
                None => account_index(self.accounts@, account_id) is None,
            },
    {
        let mut i: usize = 0;
        while i < self.accounts.len()
            invariant
                i <= self.accounts@.len(),
                forall|j: int| 0 <= j < i ==> self.accounts@[j].id != account_id,
            decreases self.accounts.len() - i,
        {
            if self.accounts[i].id == account_id {
                proof {
                    lemma_first_id_unique(self.accounts@, account_id, i as int);
                }
                return Some(i);
            }
            i = i + 1;
        }
        None
    }

    /// The account with this id, if any.
    pub fn find_account_by_id(&self, account_id: i32) -> (r: Option<&Account>)
        ensures
            match account_by_id(self.accounts@, account_id) {
                Some(a) => r matches Some(b) && *b == a,
                None => r is None,
            },
    {
        match self.find_account_index(account_id) {
            Some(i) => Some(&self.accounts[i]),
            None => None,
        }
    }

    /// The permission a stored code stands for.
    pub fn parse_permission(&self, perm_code: i32) -> (r: Result<Permission, String>)
        ensures
            match permission_of_code(perm_code) {
                Some(p) => r == Ok::<Permission, String>(p),
                None => r matches Err(e) && e@ == "Unknown permission"@,
            },
    {
        if perm_code == 1 {
            Ok(Permission::Admin)
        } else if perm_code == 2 {
            Ok(Permission::Free)
        } else if perm_code == 3 {
            Ok(Permission::Pro)
        } else {
            Err(owned("Unknown permission"))
        }
    }

    /// The code a permission is stored as.
    pub fn permission_code(perm: Permission) -> (r: i32)
        ensures
            r == code_of_permission(perm),
    {
        match perm {
            Permission::Admin => 1,
            Permission::Free => 2,
            Permission::Pro => 3,
        }
    }

    /// The name of a permission.
    pub fn perm_label(&self, perm: Permission) -> (r: &'static str)
        ensures
            r@ == perm_label_spec(perm),
    {
        match perm {
            Permission::Admin => "Admin",
            Permission::Free => "Free",
            Permission::Pro => "Pro",
        }
    }

    /// Whether the requester may manage what `owner_account_id` owns: an
    /// administrator may manage everything, an account only its own.
    pub open spec fn can_manage_spec(&self, requester_id: i32, owner_account_id: i32) -> bool {
        match account_by_id(self.accounts@, requester_id) {
            Some(a) => a.perm == Permission::Admin || a.id == owner_account_id,
            None => false,
        }
    }

    pub fn can_manage_account(&self, requester_id: i32, owner_account_id: i32) -> (r: bool)
        ensures
            r == self.can_manage_spec(requester_id, owner_account_id),
    {
        match self.find_account_by_id(requester_id) {
            Some(account) => account.perm == Permission::Admin || account.id == owner_account_id,
            None => false,
        }
    }

    /// Refuses counts of owned VNIs and VTEPs beyond the owner's permission.
    pub fn check_resource_limit(&self, owner: &Account, next_vni_count: usize, next_vtep_count: usize) -> (r: Result<(), String>)
        ensures
            match limit_error(owner.perm, next_vni_count as int, next_vtep_count as int) {
                Some(m) => r matches Err(e) && e@ == m,
                None => r is Ok,
            },
    {
        match owner.perm.limits() {
            Some((vni_limit, vtep_limit)) => {
                if next_vni_count > vni_limit {
                    let mut m = owned(self.perm_label(owner.perm));
                    m.append(" account can own at most ");
                    push_u64(&mut m, vni_limit as u64);
                    m.append(" VNI(s)");
                    return Err(m);
                }
                if next_vtep_count > vtep_limit {
                    let mut m = owned(self.perm_label(owner.perm));
                    m.append(" account can own at most ");
                    push_u64(&mut m, vtep_limit as u64);
                    m.append(" VTEP(s)");
                    return Err(m);
                }
                Ok(())
            },
            None => Ok(()),
        }
    }
}

} // verus!
