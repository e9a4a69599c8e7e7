//! The records shared by all parts of the service: accounts, route reflectors,
//! VTEPs and VNIs. Collections that the service treats as sets are vectors
//! without repeated keys; their views are sets.
use vstd::prelude::*;
use crate::keyed::{insert_key, key_set, keys, lemma_update_same_key, remove_key, unique_keys, IdKeyed, IntKeyed, Keyed, NameKeyed, TextKeyed};
use crate::text::owned;
use crate::text::str_eq;

verus! {

/// What an account may do and own.
#[derive(Debug, Clone, Copy, PartialEq, Eq, Structural)]
pub enum Permission {
    Admin,
    Free,
    Pro,
}

impl Permission {
    /// `(max VNIs, max VTEPs)` an account may own; `None` means no limit.
    pub open spec fn limits_spec(self) -> Option<(usize, usize)> {
        match self {
            Permission::Admin => None,
            Permission::Free => Some((1, 3)),
            Permission::Pro => Some((10, 30)),
        }
    }

    /// The resource limits of this permission (`None` for an administrator).
    pub fn limits(self) -> (r: Option<(usize, usize)>)
        ensures
            r == self.limits_spec(),
    {
        match self {
            Permission::Admin => None,
            Permission::Free => Some((1, 3)),
            Permission::Pro => Some((10, 30)),
        }
    }
}

/// Copies a vector element by element, keeping every key.
pub fn copy_vec<T: Keyed>(v: &Vec<T>) -> (r: Vec<T>)
    ensures
        keys(r@) == keys(v@),
        key_set(r@) == key_set(v@),
        unique_keys(r@) == unique_keys(v@),
{
    let mut r: Vec<T> = Vec::new();
    let mut i: usize = 0;
    while i < v.len()
        invariant
            i <= v.len(),
            r@.len() == i,
            forall|j: int| 0 <= j < i ==> r@[j].key() == v@[j].key(),
        decreases v.len() - i,
    {
        r.push(v[i].copy_keyed());
        i = i + 1;
    }
    assert(keys(r@) =~= keys(v@));
    r
}

/// A user account of the web UI.
pub struct Account {
    pub id: i32,
    pub mail_addr: String,
    pub password: String,
    pub perm: Permission,
    pub vnis: Vec<i32>,
    pub vteps: Vec<String>,
}

pub struct AccountView {
    pub id: i32,
    pub mail_addr: Seq<char>,
    pub password: Seq<char>,
    pub perm: Permission,
    pub vnis: Set<i32>,
    pub vteps: Set<Seq<char>>,
}

impl View for Account {
    type V = AccountView;

    open spec fn view(&self) -> AccountView {
        AccountView {
            id: self.id,
            mail_addr: self.mail_addr@,
            password: self.password@,
            perm: self.perm,
            vnis: key_set(self.vnis@),
            vteps: key_set(self.vteps@),
        }
    }
}

impl Account {
    /// The VNI and VTEP lists hold no repeated entry.
    pub open spec fn wf(&self) -> bool {
        unique_keys(self.vnis@) && unique_keys(self.vteps@)
    }

    /// A field-by-field copy.
    pub fn copy(&self) -> (r: Account)
        ensures
            r@ == self@,
            r.wf() == self.wf(),
            r.vnis@.len() == self.vnis@.len(),
            r.vteps@.len() == self.vteps@.len(),
    {
        let r = Account {
            id: self.id,
            mail_addr: self.mail_addr.clone(),
            password: self.password.clone(),
            perm: self.perm,
            vnis: copy_vec(&self.vnis),
            vteps: copy_vec(&self.vteps),
        };
        proof {
            assert(keys(r.vnis@).len() == keys(self.vnis@).len());
            assert(keys(r.vteps@).len() == keys(self.vteps@).len());
        }
        r
    }
}

impl Keyed for Account {
    type K = Seq<char>;

    open spec fn key(&self) -> Seq<char> {
        self.mail_addr@
    }

    fn same_key(&self, other: &Self) -> (r: bool) {
        str_eq(self.mail_addr.as_str(), other.mail_addr.as_str())
    }

    fn copy_keyed(&self) -> (r: Self) {
        self.copy()
    }
}

/// A route reflector known to the web UI.
pub struct Rr {
    pub id: i32,
    pub name: String,
    pub password: String,
    /// Its IPv4 address, once it has connected.
    pub ipv4_addr: Option<u32>,
    /// When it last authenticated, on the service's monotonic clock.
    pub last_update: Option<u64>,
}

impl Keyed for Rr {
    type K = Seq<char>;

    open spec fn key(&self) -> Seq<char> {
        self.name@
    }

    fn same_key(&self, other: &Self) -> (r: bool) {
        str_eq(self.name.as_str(), other.name.as_str())
    }

    fn copy_keyed(&self) -> (r: Self) {
        Rr {
            id: self.id,
            name: self.name.clone(),
            password: self.password.clone(),
            ipv4_addr: self.ipv4_addr,
            last_update: self.last_update,
        }
    }
}

/// A VXLAN tunnel end point.
pub struct Vtep {
    pub id: i32,
    pub name: String,
    pub description: String,
    pub password: String,
    pub bgp_pass: String,
    pub account_id: i32,
    pub vnis: Vec<i32>,
    /// Its IPv6 address while it is connected to a route reflector.
    pub ipv6_addr: Option<u128>,
    /// When its state last changed, on the service's monotonic clock.
    pub last_update: Option<u64>,
}

pub struct VtepView {
    pub id: i32,
    pub name: Seq<char>,
    pub description: Seq<char>,
    pub password: Seq<char>,
    pub bgp_pass: Seq<char>,
    pub account_id: i32,
    pub vnis: Set<i32>,
    pub ipv6_addr: Option<u128>,
    pub last_update: Option<u64>,
}

impl View for Vtep {
    type V = VtepView;

    open spec fn view(&self) -> VtepView {
        VtepView {
            id: self.id,
            name: self.name@,
            description: self.description@,
            password: self.password@,
            bgp_pass: self.bgp_pass@,
            account_id: self.account_id,
            vnis: key_set(self.vnis@),
            ipv6_addr: self.ipv6_addr,
            last_update: self.last_update,
        }
    }
}

impl Vtep {
    /// The VNI list holds no repeated entry.
    pub open spec fn wf(&self) -> bool {
        unique_keys(self.vnis@)
    }

    /// A field-by-field copy.
    pub fn copy(&self) -> (r: Vtep)
        ensures
            r@ == self@,
            r.wf() == self.wf(),
            r.vnis@ == self.vnis@,
    {
        let r = Vtep {
            id: self.id,
            name: self.name.clone(),
            description: self.description.clone(),
            password: self.password.clone(),
            bgp_pass: self.bgp_pass.clone(),
            account_id: self.account_id,
            vnis: copy_vec(&self.vnis),
            ipv6_addr: self.ipv6_addr,
            last_update: self.last_update,
        };
        assert(r.vnis@ =~= self.vnis@) by {
            assert(keys(r.vnis@).len() == keys(self.vnis@).len());
            assert forall|i: int| 0 <= i < r.vnis@.len() implies r.vnis@[i] == self.vnis@[i] by {
                assert(keys(r.vnis@)[i] == keys(self.vnis@)[i]);
                assert(keys(r.vnis@)[i] == r.vnis@[i].key());
                assert(keys(self.vnis@)[i] == self.vnis@[i].key());
                assert(r.vnis@[i].key() == r.vnis@[i]);
                assert(self.vnis@[i].key() == self.vnis@[i]);
            }
        }
        r
    }
}

impl Keyed for Vtep {
    type K = Seq<char>;

    open spec fn key(&self) -> Seq<char> {
        self.name@
    }

    fn same_key(&self, other: &Self) -> (r: bool) {
        str_eq(self.name.as_str(), other.name.as_str())
    }

    fn copy_keyed(&self) -> (r: Self) {
        self.copy()
    }
}

/// A VXLAN network identifier owned by an account.
pub struct Vni {
    pub id: i32,
    pub vni: i32,
    pub description: String,
    pub account_id: i32,
    pub vteps: Vec<String>,
}

pub struct VniView {
    pub id: i32,
    pub vni: i32,
    pub description: Seq<char>,
    pub account_id: i32,
    pub vteps: Set<Seq<char>>,
}

impl View for Vni {
    type V = VniView;

    open spec fn view(&self) -> VniView {
        VniView {
            id: self.id,
            vni: self.vni,
            description: self.description@,
            account_id: self.account_id,
            vteps: key_set(self.vteps@),
        }
    }
}

impl Vni {
    /// The VTEP list holds no repeated entry.
    pub open spec fn wf(&self) -> bool {
        unique_keys(self.vteps@)
    }

    /// A field-by-field copy.
    pub fn copy(&self) -> (r: Vni)
        ensures
            r@ == self@,
            r.wf() == self.wf(),
            r.vteps@.len() == self.vteps@.len(),
    {
        let r = Vni {
            id: self.id,
            vni: self.vni,
            description: self.description.clone(),
            account_id: self.account_id,
            vteps: copy_vec(&self.vteps),
        };
        assert(keys(r.vteps@).len() == keys(self.vteps@).len());
        r
    }
}

impl Keyed for Vni {
    type K = i32;

    open spec fn key(&self) -> i32 {
        self.vni
    }

    fn same_key(&self, other: &Self) -> (r: bool) {
        self.vni == other.vni
    }

    fn copy_keyed(&self) -> (r: Self) {
        self.copy()
    }
}


impl TextKeyed for Account {
    type V = AccountView;

    open spec fn item_view(&self) -> AccountView {
        self@
    }

    open spec fn text_key(&self) -> Seq<char> {
        self.mail_addr@
    }

    fn key_text(&self) -> (k: &str) {
        self.mail_addr.as_str()
    }
}

impl IntKeyed for Account {
    type V = AccountView;

    open spec fn item_view(&self) -> AccountView {
        self@
    }

    open spec fn int_key(&self) -> int {
        self.id as int
    }

    fn key_int(&self) -> (k: i64) {
        self.id as i64
    }
}

impl TextKeyed for Vtep {
    type V = VtepView;

    open spec fn item_view(&self) -> VtepView {
        self@
    }

    open spec fn text_key(&self) -> Seq<char> {
        self.name@
    }

    fn key_text(&self) -> (k: &str) {
        self.name.as_str()
    }
}

impl IntKeyed for Vni {
    type V = VniView;

    open spec fn item_view(&self) -> VniView {
        self@
    }

    open spec fn int_key(&self) -> int {
        self.vni as int
    }

    fn key_int(&self) -> (k: i64) {
        self.vni as i64
    }
}

impl NameKeyed for Account {
    fn name_str(&self) -> (r: &str) {
        self.mail_addr.as_str()
    }
}

impl NameKeyed for Rr {
    fn name_str(&self) -> (r: &str) {
        self.name.as_str()
    }
}

impl NameKeyed for Vtep {
    fn name_str(&self) -> (r: &str) {
        self.name.as_str()
    }
}

impl IdKeyed for Vni {
    fn key_i32(&self) -> (r: i32) {
        self.vni
    }
}

/// The accounts admitted: all of them (`all`), or those with the given id.
pub open spec fn accounts_where(s: Seq<AccountView>, all: bool, account_id: i32) -> Seq<AccountView> {
    s.filter(|a: AccountView| all || a.id == account_id)
}

/// The records an account may see: all of them (`all`), or those it owns.
pub open spec fn vteps_where(s: Seq<VtepView>, all: bool, account_id: i32) -> Seq<VtepView> {
    s.filter(|a: VtepView| all || a.account_id == account_id)
}

/// The records an account may see: all of them (`all`), or those it owns.
pub open spec fn vnis_where(s: Seq<VniView>, all: bool, account_id: i32) -> Seq<VniView> {
    s.filter(|a: VniView| all || a.account_id == account_id)
}

/// Admitting all keeps every account.
pub proof fn lemma_accounts_where_all(s: Seq<AccountView>, account_id: i32)
    ensures
        accounts_where(s, true, account_id) == s,
    decreases s.len(),
{
    reveal(Seq::filter);
    if s.len() > 0 {
        lemma_accounts_where_all(s.drop_last(), account_id);
        assert(s.drop_last().push(s.last()) =~= s);
    }
}

/// Admitting all keeps every VTEP.
pub proof fn lemma_vteps_where_all(s: Seq<VtepView>, account_id: i32)
    ensures
        vteps_where(s, true, account_id) == s,
    decreases s.len(),
{
    reveal(Seq::filter);
    if s.len() > 0 {
        lemma_vteps_where_all(s.drop_last(), account_id);
        assert(s.drop_last().push(s.last()) =~= s);
    }
}

/// Admitting all keeps every VNI.
pub proof fn lemma_vnis_where_all(s: Seq<VniView>, account_id: i32)
    ensures
        vnis_where(s, true, account_id) == s,
    decreases s.len(),
{
    reveal(Seq::filter);
    if s.len() > 0 {
        lemma_vnis_where_all(s.drop_last(), account_id);
        assert(s.drop_last().push(s.last()) =~= s);
    }
}

/// The views of a sequence of accounts.
pub open spec fn account_views(s: Seq<Account>) -> Seq<AccountView> {
    Seq::new(s.len(), |i: int| s[i]@)
}

/// The views of a sequence of VTEPs.
pub open spec fn vtep_views(s: Seq<Vtep>) -> Seq<VtepView> {
    Seq::new(s.len(), |i: int| s[i]@)
}

/// The views of a sequence of VNIs.
pub open spec fn vni_views(s: Seq<Vni>) -> Seq<VniView> {
    Seq::new(s.len(), |i: int| s[i]@)
}

/// Copies of the accounts that `all` admits or that have the given id, in order.
pub fn copy_accounts_where(v: &Vec<Account>, all: bool, account_id: i32) -> (r: Vec<Account>)
    ensures
        account_views(r@) == accounts_where(account_views(v@), all, account_id),
        forall|i: int| 0 <= i < r@.len() ==> (forall|j: int| 0 <= j < v@.len() ==> v@[j].wf()) ==> (#[trigger] r@[i]).wf(),
{
    let mut r: Vec<Account> = Vec::new();
    let mut i: usize = 0;
    while i < v.len()
        invariant
            i <= v.len(),
            account_views(r@) == accounts_where(account_views(v@).take(i as int), all, account_id),
            forall|k: int| 0 <= k < r@.len() ==> exists|j: int| 0 <= j < v@.len() && (#[trigger] r@[k]).wf() == v@[j].wf(),
        decreases v.len() - i,
    {
        proof {
            reveal(Seq::filter);
            assert(account_views(v@).take(i + 1).drop_last() =~= account_views(v@).take(i as int));
            assert(account_views(v@).take(i + 1).last() == v@[i as int]@);
        }
        let keep = all || v[i].id == account_id;
        if keep {
            let c = v[i].copy();
            let ghost before = r@;
            r.push(c);
            proof {
                assert(accounts_where(account_views(v@).take(i + 1), all, account_id) == accounts_where(account_views(v@).take(i as int), all, account_id).push(v@[i as int]@));
                assert(account_views(r@) =~= account_views(before).push(c@));
                assert(r@[r@.len() - 1].wf() == v@[i as int].wf());
            }
        } else {
            assert(accounts_where(account_views(v@).take(i + 1), all, account_id) == accounts_where(account_views(v@).take(i as int), all, account_id));
        }
        i = i + 1;
    }
    assert(account_views(v@).take(i as int) =~= account_views(v@));
    r
}

/// Copies of the records that `all` admits or that the account owns, in order.
pub fn copy_vteps_where(v: &Vec<Vtep>, all: bool, account_id: i32) -> (r: Vec<Vtep>)
    ensures
        vtep_views(r@) == vteps_where(vtep_views(v@), all, account_id),
        forall|i: int| 0 <= i < r@.len() ==> (forall|j: int| 0 <= j < v@.len() ==> v@[j].wf()) ==> (#[trigger] r@[i]).wf(),
{
    let mut r: Vec<Vtep> = Vec::new();
    let mut i: usize = 0;
    while i < v.len()
        invariant
            i <= v.len(),
            vtep_views(r@) == vteps_where(vtep_views(v@).take(i as int), all, account_id),
            forall|k: int| 0 <= k < r@.len() ==> exists|j: int| 0 <= j < v@.len() && (#[trigger] r@[k]).wf() == v@[j].wf(),
        decreases v.len() - i,
    {
        proof {
            reveal(Seq::filter);
            assert(vtep_views(v@).take(i + 1).drop_last() =~= vtep_views(v@).take(i as int));
            assert(vtep_views(v@).take(i + 1).last() == v@[i as int]@);
        }
        let keep = all || v[i].account_id == account_id;
        if keep {
            let c = v[i].copy();
            let ghost before = r@;
            r.push(c);
            proof {
                assert(vteps_where(vtep_views(v@).take(i + 1), all, account_id) == vteps_where(vtep_views(v@).take(i as int), all, account_id).push(v@[i as int]@));
                assert(vtep_views(r@) =~= vtep_views(before).push(c@));
                assert(r@[r@.len() - 1].wf() == v@[i as int].wf());
            }
        } else {
            assert(vteps_where(vtep_views(v@).take(i + 1), all, account_id) == vteps_where(vtep_views(v@).take(i as int), all, account_id));
        }
        i = i + 1;
    }
    assert(vtep_views(v@).take(i as int) =~= vtep_views(v@));
    r
}

/// Copies of the records that `all` admits or that the account owns, in order.
pub fn copy_vnis_where(v: &Vec<Vni>, all: bool, account_id: i32) -> (r: Vec<Vni>)
    ensures
        vni_views(r@) == vnis_where(vni_views(v@), all, account_id),
        forall|i: int| 0 <= i < r@.len() ==> (forall|j: int| 0 <= j < v@.len() ==> v@[j].wf()) ==> (#[trigger] r@[i]).wf(),
{
    let mut r: Vec<Vni> = Vec::new();
    let mut i: usize = 0;
    while i < v.len()
        invariant
            i <= v.len(),
            vni_views(r@) == vnis_where(vni_views(v@).take(i as int), all, account_id),
            forall|k: int| 0 <= k < r@.len() ==> exists|j: int| 0 <= j < v@.len() && (#[trigger] r@[k]).wf() == v@[j].wf(),
        decreases v.len() - i,
    {
        proof {
            reveal(Seq::filter);
            assert(vni_views(v@).take(i + 1).drop_last() =~= vni_views(v@).take(i as int));
            assert(vni_views(v@).take(i + 1).last() == v@[i as int]@);
        }
        let keep = all || v[i].account_id == account_id;
        if keep {
            let c = v[i].copy();
            let ghost before = r@;
            r.push(c);
            proof {
                assert(vnis_where(vni_views(v@).take(i + 1), all, account_id) == vnis_where(vni_views(v@).take(i as int), all, account_id).push(v@[i as int]@));
                assert(vni_views(r@) =~= vni_views(before).push(c@));
                assert(r@[r@.len() - 1].wf() == v@[i as int].wf());
            }
        } else {
            assert(vnis_where(vni_views(v@).take(i + 1), all, account_id) == vnis_where(vni_views(v@).take(i as int), all, account_id));
        }
        i = i + 1;
    }
    assert(vni_views(v@).take(i as int) =~= vni_views(v@));
    r
}


/// Adds `item` to (`add`) or removes it from the vteps set of record `i`.
pub fn account_update_vteps(v: &mut Vec<Account>, i: usize, item: &str, add: bool)
    requires
        i < old(v)@.len(),
        unique_keys(old(v)@),
        old(v)@[i as int].wf(),
    ensures
        final(v)@.len() == old(v)@.len(),
        final(v)@ == old(v)@.update(i as int, final(v)@[i as int]),
        unique_keys(final(v)@),
        keys(final(v)@) == keys(old(v)@),
        final(v)@[i as int].wf(),
        final(v)@[i as int]@ == (AccountView {
            vteps: if add { old(v)@[i as int]@.vteps.insert(item@) } else { old(v)@[i as int]@.vteps.remove(item@) },
            ..old(v)@[i as int]@
        }),
{
    let mut r = v.remove(i);
    if add {
        insert_key(&mut r.vteps, owned(item));
    } else {
        remove_key(&mut r.vteps, &owned(item));
    }
    v.insert(i, r);
    proof {
        assert(final(v)@ =~= old(v)@.update(i as int, r));
        lemma_update_same_key(old(v)@, i as int, r);
    }
}

/// Adds `item` to (`add`) or removes it from the vnis set of record `i`.
pub fn account_update_vnis(v: &mut Vec<Account>, i: usize, item: i32, add: bool)
    requires
        i < old(v)@.len(),
        unique_keys(old(v)@),
        old(v)@[i as int].wf(),
    ensures
        final(v)@.len() == old(v)@.len(),
        final(v)@ == old(v)@.update(i as int, final(v)@[i as int]),
        unique_keys(final(v)@),
        keys(final(v)@) == keys(old(v)@),
        final(v)@[i as int].wf(),
        final(v)@[i as int]@ == (AccountView {
            vnis: if add { old(v)@[i as int]@.vnis.insert(item) } else { old(v)@[i as int]@.vnis.remove(item) },
            ..old(v)@[i as int]@
        }),
{
    let mut r = v.remove(i);
    if add {
        insert_key(&mut r.vnis, item);
    } else {
        remove_key(&mut r.vnis, &item);
    }
    v.insert(i, r);
    proof {
        assert(final(v)@ =~= old(v)@.update(i as int, r));
        lemma_update_same_key(old(v)@, i as int, r);
    }
}

/// Adds `item` to (`add`) or removes it from the vteps set of record `i`.
pub fn vni_update_vteps(v: &mut Vec<Vni>, i: usize, item: &str, add: bool)
    requires
        i < old(v)@.len(),
        unique_keys(old(v)@),
        old(v)@[i as int].wf(),
    ensures
        final(v)@.len() == old(v)@.len(),
        final(v)@ == old(v)@.update(i as int, final(v)@[i as int]),
        unique_keys(final(v)@),
        keys(final(v)@) == keys(old(v)@),
        final(v)@[i as int].wf(),
        final(v)@[i as int]@ == (VniView {
            vteps: if add { old(v)@[i as int]@.vteps.insert(item@) } else { old(v)@[i as int]@.vteps.remove(item@) },
            ..old(v)@[i as int]@
        }),
{
    let mut r = v.remove(i);
    if add {
        insert_key(&mut r.vteps, owned(item));
    } else {
        remove_key(&mut r.vteps, &owned(item));
    }
    v.insert(i, r);
    proof {
        assert(final(v)@ =~= old(v)@.update(i as int, r));
        lemma_update_same_key(old(v)@, i as int, r);
    }
}

/// Adds `item` to (`add`) or removes it from the vnis set of record `i`.
pub fn vtep_update_vnis(v: &mut Vec<Vtep>, i: usize, item: i32, add: bool)
    requires
        i < old(v)@.len(),
        unique_keys(old(v)@),
        old(v)@[i as int].wf(),
    ensures
        final(v)@.len() == old(v)@.len(),
        final(v)@ == old(v)@.update(i as int, final(v)@[i as int]),
        unique_keys(final(v)@),
        keys(final(v)@) == keys(old(v)@),
        final(v)@[i as int].wf(),
        final(v)@[i as int]@ == (VtepView {
            vnis: if add { old(v)@[i as int]@.vnis.insert(item) } else { old(v)@[i as int]@.vnis.remove(item) },
            ..old(v)@[i as int]@
        }),
{
    let mut r = v.remove(i);
    if add {
        insert_key(&mut r.vnis, item);
    } else {
        remove_key(&mut r.vnis, &item);
    }
    v.insert(i, r);
    proof {
        assert(final(v)@ =~= old(v)@.update(i as int, r));
        lemma_update_same_key(old(v)@, i as int, r);
    }
}

} // verus!
