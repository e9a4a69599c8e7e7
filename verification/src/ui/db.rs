//! Restoring the registry from the rows of the database, and turning the
//! registry's VNI numbers and VTEP names back into row ids.
use vstd::prelude::*;
use crate::models::{Account, AccountView, Permission, Rr, Vni, VniView, Vtep, VtepView};
use crate::text::{owned, push_i64, signed_decimal};
use crate::keyed::{index_of_name, int_views, sort_by_int, sorted_by_int};
use crate::ui::context::{code_of_permission, permission_of_code, Context};
use crate::keyed::{
    collect_last, from_last, has_key, key_index, key_set, lemma_key_index_none, lemma_key_set_all,
    lemma_unique_key_index, lemma_key_set_has_key, unique_keys, upsert_key, insert_key, index_of_id, IdKeyed, Keyed,
};

verus! {

/// A map from each key of `s` to what `val` makes of the (first) element with it.
pub open spec fn keyed_map<T: Keyed, V>(s: Seq<T>, val: spec_fn(T) -> V) -> Map<T::K, V> {
    Map::new(|k: T::K| key_set(s).contains(k), |k: T::K| val(s[key_index(s, k).unwrap()]))
}

/// The map that inserting `rows` one by one yields: the last row with a key wins.
pub open spec fn last_map<R, K, V>(rows: Seq<R>, key: spec_fn(R) -> K, val: spec_fn(R) -> V) -> Map<K, V>
    decreases rows.len(),
{
    if rows.len() == 0 {
        Map::empty()
    } else {
        last_map(rows.drop_last(), key, val).insert(key(rows.last()), val(rows.last()))
    }
}

/// Putting `x` in place of the element with its key (or adding it) inserts it into the map.
pub proof fn lemma_upsert_map<T: Keyed, V>(s: Seq<T>, t: Seq<T>, x: T, val: spec_fn(T) -> V)
    requires
        unique_keys(s),
        unique_keys(t),
        t == match key_index(s, x.key()) {
            Some(i) => s.update(i, x),
            None => s.push(x),
        },
    ensures
        keyed_map(t, val) == keyed_map(s, val).insert(x.key(), val(x)),
{
    let xk = x.key();
    lemma_key_index_none(s, xk);
    lemma_key_set_all(s);
    lemma_key_set_all(t);
    let pos: int = match key_index(s, xk) {
        Some(i) => i,
        None => s.len() as int,
    };
    assert(t[pos] == x);
    lemma_unique_key_index(t, xk, pos);
    assert forall|k: T::K| #[trigger] key_set(t).contains(k) <==> key_set(s).contains(k) || k == xk by {
        if has_key(t, k) {
            let a = choose|a: int| 0 <= a < t.len() && t[a].key() == k;
            if a != pos {
                assert(t[a] == s[a]);
            }
        }
        if has_key(s, k) {
            let a = choose|a: int| 0 <= a < s.len() && s[a].key() == k;
            if a != pos {
                assert(t[a] == s[a]);
            } else {
                assert(k == xk);
            }
        }
        if k == xk {
            assert(t[pos].key() == xk);
        }
    }
    assert forall|k: T::K| key_set(s).contains(k) && k != xk implies
        val(t[key_index(t, k).unwrap()]) == val(s[key_index(s, k).unwrap()]) by {
        lemma_key_index_none(s, k);
        let j = key_index(s, k).unwrap();
        assert(j != pos);
        assert(t[j] == s[j]);
        lemma_unique_key_index(t, k, j);
    }
    assert(keyed_map(t, val) =~= keyed_map(s, val).insert(xk, val(x)));
}

/// One more row extends the map of the rows by that row.
pub proof fn lemma_last_map_push<R, K, V>(rows: Seq<R>, n: int, key: spec_fn(R) -> K, val: spec_fn(R) -> V)
    requires
        0 <= n < rows.len(),
    ensures
        last_map(rows.subrange(0, n + 1), key, val) == last_map(rows.subrange(0, n), key, val).insert(
            key(rows[n]),
            val(rows[n]),
        ),
{
    assert(rows.subrange(0, n + 1).drop_last() =~= rows.subrange(0, n));
}

/// A row of the table of VTEPs, reduced to its id and name.
pub struct IdName {
    pub id: i32,
    pub name: String,
}

impl Keyed for IdName {
    type K = i32;

    open spec fn key(&self) -> i32 {
        self.id
    }

    fn same_key(&self, other: &Self) -> (r: bool) {
        self.id == other.id
    }

    fn copy_keyed(&self) -> (r: Self) {
        IdName { id: self.id, name: self.name.clone() }
    }
}

impl IdKeyed for IdName {
    fn key_i32(&self) -> (r: i32) {
        self.id
    }
}

/// A row of the table of VNIs, reduced to its id and VNI number.
pub struct IdVni {
    pub id: i32,
    pub vni: i32,
}

impl Keyed for IdVni {
    type K = i32;

    open spec fn key(&self) -> i32 {
        self.id
    }

    fn same_key(&self, other: &Self) -> (r: bool) {
        self.id == other.id
    }

    fn copy_keyed(&self) -> (r: Self) {
        IdVni { id: self.id, vni: self.vni }
    }
}

impl IdKeyed for IdVni {
    fn key_i32(&self) -> (r: i32) {
        self.id
    }
}

/// The names of the VTEPs by row id: for an id that occurs twice, the last row.
pub fn get_vtep_id2name(rows: Vec<IdName>) -> (r: Vec<IdName>)
    ensures
        unique_keys(r@),
        key_set(r@) == key_set(rows@),
        forall|m: int| 0 <= m < r@.len() ==> from_last(rows@, #[trigger] r@[m]),
{
    collect_last(rows)
}

/// The VNI numbers by row id: for an id that occurs twice, the last row.
pub fn get_vni_id2vni(rows: Vec<IdVni>) -> (r: Vec<IdVni>)
    ensures
        unique_keys(r@),
        key_set(r@) == key_set(rows@),
        forall|m: int| 0 <= m < r@.len() ==> from_last(rows@, #[trigger] r@[m]),
{
    collect_last(rows)
}


/// What `m` maps the ids in `ids` to; ids it does not know are skipped.
pub open spec fn mapped<V>(m: Map<i32, V>, ids: Seq<i32>) -> Set<V> {
    Set::new(|v: V| exists|j: int| 0 <= j < ids.len() && m.contains_key(ids[j]) && m[ids[j]] == v)
}

/// The VNI numbers of a list of VNI ids.
pub open spec fn vni_numbers(id2vni: Seq<IdVni>, ids: Seq<i32>) -> Set<i32> {
    mapped(keyed_map(id2vni, |x: IdVni| x.vni), ids)
}

/// The VTEP names of a list of VTEP ids.
pub open spec fn vtep_names(id2name: Seq<IdName>, ids: Seq<i32>) -> Set<Seq<char>> {
    mapped(keyed_map(id2name, |x: IdName| x.name@), ids)
}

/// What the map of `s` holds at `k`.
pub proof fn lemma_keyed_map_at<T: Keyed, V>(s: Seq<T>, k: T::K, val: spec_fn(T) -> V)
    ensures
        keyed_map(s, val).contains_key(k) <==> key_index(s, k) is Some,
        key_index(s, k) matches Some(i) ==> keyed_map(s, val)[k] == val(s[i]),
{
    lemma_key_index_none(s, k);
    lemma_key_set_has_key(s, k);
}

/// One more id maps to one more value, if the map knows it.
pub proof fn lemma_mapped_push<V>(m: Map<i32, V>, ids: Seq<i32>, n: int)
    requires
        0 <= n < ids.len(),
    ensures
        mapped(m, ids.subrange(0, n + 1)) == if m.contains_key(ids[n]) {
            mapped(m, ids.subrange(0, n)).insert(m[ids[n]])
        } else {
            mapped(m, ids.subrange(0, n))
        },
{
    let a = ids.subrange(0, n);
    let b = ids.subrange(0, n + 1);
    assert forall|v: V| mapped(m, b).contains(v) <==> mapped(m, a).contains(v) || (m.contains_key(ids[n]) && m[ids[n]] == v) by {
        if mapped(m, b).contains(v) {
            let j = choose|j: int| 0 <= j < b.len() && m.contains_key(b[j]) && m[b[j]] == v;
            if j < n {
                assert(a[j] == b[j]);
            }
        }
        if mapped(m, a).contains(v) {
            let j = choose|j: int| 0 <= j < a.len() && m.contains_key(a[j]) && m[a[j]] == v;
            assert(b[j] == a[j]);
        }
        if m.contains_key(ids[n]) && m[ids[n]] == v {
            assert(b[n] == ids[n]);
        }
    }
    if m.contains_key(ids[n]) {
        assert(mapped(m, b) =~= mapped(m, a).insert(m[ids[n]]));
    } else {
        assert(mapped(m, b) =~= mapped(m, a));
    }
}

/// The VNI numbers of the VNI ids that `id2vni` knows, each once.
pub fn map_vni_ids(id2vni: &Vec<IdVni>, ids: &Vec<i32>) -> (r: Vec<i32>)
    ensures
        unique_keys(r@),
        key_set(r@) == vni_numbers(id2vni@, ids@),
{
    let ghost f = |x: IdVni| x.vni;
    let ghost m = keyed_map(id2vni@, f);
    let mut out: Vec<i32> = Vec::new();
    let mut i: usize = 0;
    proof {
        assert(key_set(out@) =~= mapped(m, ids@.subrange(0, 0)));
    }
    while i < ids.len()
        invariant
            i <= ids.len(),
            f == (|x: IdVni| x.vni),
            m == keyed_map(id2vni@, f),
            unique_keys(out@),
            key_set(out@) == mapped(m, ids@.subrange(0, i as int)),
        decreases ids.len() - i,
    {
        proof {
            lemma_mapped_push(m, ids@, i as int);
            lemma_keyed_map_at(id2vni@, ids@[i as int], f);
        }
        match index_of_id(id2vni, ids[i]) {
            Some(j) => {
                insert_key(&mut out, id2vni[j].vni);
                assert(m[ids@[i as int]] == id2vni@[j as int].vni);
            },
            None => {},
        }
        i = i + 1;
    }
    assert(ids@.subrange(0, ids@.len() as int) =~= ids@);
    out
}

/// The VTEP names of the VTEP ids that `id2name` knows, each once.
pub fn map_vtep_ids(id2name: &Vec<IdName>, ids: &Vec<i32>) -> (r: Vec<String>)
    ensures
        unique_keys(r@),
        key_set(r@) == vtep_names(id2name@, ids@),
{
    let ghost f = |x: IdName| x.name@;
    let ghost m = keyed_map(id2name@, f);
    let mut out: Vec<String> = Vec::new();
    let mut i: usize = 0;
    proof {
        assert(key_set(out@) =~= mapped(m, ids@.subrange(0, 0)));
    }
    while i < ids.len()
        invariant
            i <= ids.len(),
            f == (|x: IdName| x.name@),
            m == keyed_map(id2name@, f),
            unique_keys(out@),
            key_set(out@) == mapped(m, ids@.subrange(0, i as int)),
        decreases ids.len() - i,
    {
        proof {
            lemma_mapped_push(m, ids@, i as int);
            lemma_keyed_map_at(id2name@, ids@[i as int], f);
        }
        match index_of_id(id2name, ids[i]) {
            Some(j) => {
                insert_key(&mut out, id2name[j].name.clone());
                assert(m[ids@[i as int]] == id2name@[j as int].name@);
            },
            None => {},
        }
        i = i + 1;
    }
    assert(ids@.subrange(0, ids@.len() as int) =~= ids@);
    out
}


/// Restoring one more row keeps the registry equal to the old one overlaid with
/// the rows restored so far.
pub proof fn lemma_restore_step<T: Keyed, R, V>(
    old_s: Seq<T>,
    before: Seq<T>,
    after: Seq<T>,
    x: T,
    rows: Seq<R>,
    n: int,
    val: spec_fn(T) -> V,
    key: spec_fn(R) -> T::K,
    rval: spec_fn(R) -> V,
)
    requires
        unique_keys(before),
        unique_keys(after),
        after == match key_index(before, x.key()) {
            Some(i) => before.update(i, x),
            None => before.push(x),
        },
        keyed_map(before, val) == keyed_map(old_s, val).union_prefer_right(last_map(rows.subrange(0, n), key, rval)),
        0 <= n < rows.len(),
        x.key() == key(rows[n]),
        val(x) == rval(rows[n]),
    ensures
        keyed_map(after, val) == keyed_map(old_s, val).union_prefer_right(last_map(rows.subrange(0, n + 1), key, rval)),
{
    lemma_upsert_map(before, after, x, val);
    lemma_last_map_push(rows, n, key, rval);
    assert(keyed_map(after, val) =~= keyed_map(old_s, val).union_prefer_right(last_map(rows.subrange(0, n + 1), key, rval)));
}

/// Every element of the result of an upsert is either `x` or one of `before`.
pub proof fn lemma_upsert_elements<T: Keyed>(before: Seq<T>, after: Seq<T>, x: T)
    requires
        after == match key_index(before, x.key()) {
            Some(i) => before.update(i, x),
            None => before.push(x),
        },
    ensures
        forall|j: int| 0 <= j < after.len() ==> #[trigger] after[j] == x || before.contains(after[j]),
{
    lemma_key_index_none(before, x.key());
    assert forall|j: int| 0 <= j < after.len() implies #[trigger] after[j] == x || before.contains(after[j]) by {
        if after[j] != x {
            assert(before[j] == after[j]);
        }
    }
}

/// A row of the table of accounts.
pub struct AccountDbRow {
    pub id: i32,
    pub mail_addr: String,
    pub password: String,
    pub perm: i32,
    pub vni_ids: Vec<i32>,
    pub vtep_ids: Vec<i32>,
}

/// The account a row stands for.
pub open spec fn account_of_row(row: AccountDbRow, id2name: Seq<IdName>, id2vni: Seq<IdVni>) -> AccountView {
    AccountView {
        id: row.id,
        mail_addr: row.mail_addr@,
        password: row.password@,
        perm: permission_of_code(row.perm).unwrap(),
        vnis: vni_numbers(id2vni, row.vni_ids@),
        vteps: vtep_names(id2name, row.vtep_ids@),
    }
}

/// The first `n` rows hold known permission codes.
pub open spec fn perms_known(rows: Seq<AccountDbRow>, n: int) -> bool {
    forall|j: int| 0 <= j < n ==> (#[trigger] permission_of_code(rows[j].perm)) is Some
}

/// Row `n` is the first with an unknown permission code.
pub open spec fn first_unknown_perm(rows: Seq<AccountDbRow>, n: int) -> bool {
    0 <= n < rows.len() && perms_known(rows, n) && permission_of_code(rows[n].perm) is None
}

/// How many rows are restored: all of them, or those before the first with an
/// unknown permission code.
pub open spec fn accounts_restored(rows: Seq<AccountDbRow>) -> int {
    if perms_known(rows, rows.len() as int) {
        rows.len() as int
    } else {
        choose|n: int| first_unknown_perm(rows, n)
    }
}

pub proof fn lemma_first_unknown_perm(rows: Seq<AccountDbRow>, n: int)
    requires
        first_unknown_perm(rows, n),
    ensures
        accounts_restored(rows) == n,
        !perms_known(rows, rows.len() as int),
{
    assert(permission_of_code(rows[n].perm) is None);
    let m = choose|m: int| first_unknown_perm(rows, m);
    assert(m == n) by {
        if m < n {
            assert(permission_of_code(rows[m].perm) is Some);
        }
        if n < m {
            assert(permission_of_code(rows[n].perm) is Some);
        }
    }
}

/// The map of the accounts by mail address.
pub open spec fn account_map(s: Seq<Account>) -> Map<Seq<char>, AccountView> {
    keyed_map(s, |a: Account| a@)
}

/// The accounts that the rows stand for, by mail address.
pub open spec fn account_row_map(rows: Seq<AccountDbRow>, id2name: Seq<IdName>, id2vni: Seq<IdVni>) -> Map<Seq<char>, AccountView> {
    last_map(rows, |r: AccountDbRow| r.mail_addr@, |r: AccountDbRow| account_of_row(r, id2name, id2vni))
}

/// A row of the table of route reflectors.
pub struct RrDbRow {
    pub id: i32,
    pub name: String,
    pub password: String,
}

/// A route reflector as a tuple of plain values: id, name, password, address, last update.
pub open spec fn rr_value(r: Rr) -> (i32, Seq<char>, Seq<char>, Option<u32>, Option<u64>) {
    (r.id, r.name@, r.password@, r.ipv4_addr, r.last_update)
}

/// The route reflectors by name.
pub open spec fn rr_map(s: Seq<Rr>) -> Map<Seq<char>, (i32, Seq<char>, Seq<char>, Option<u32>, Option<u64>)> {
    keyed_map(s, |r: Rr| rr_value(r))
}

/// The route reflectors that the rows stand for, by name: not connected yet.
pub open spec fn rr_row_map(rows: Seq<RrDbRow>) -> Map<Seq<char>, (i32, Seq<char>, Seq<char>, Option<u32>, Option<u64>)> {
    last_map(
        rows,
        |r: RrDbRow| r.name@,
        |r: RrDbRow| (r.id, r.name@, r.password@, None::<u32>, None::<u64>),
    )
}

/// A row of the table of VTEPs.
pub struct VtepDbRow {
    pub id: i32,
    pub name: String,
    pub description: String,
    pub password: String,
    pub bgp_pass: String,
    pub account_id: i32,
    pub vni_ids: Vec<i32>,
}

/// The VTEP a row stands for: not connected yet.
pub open spec fn vtep_of_row(row: VtepDbRow, id2vni: Seq<IdVni>) -> VtepView {
    VtepView {
        id: row.id,
        name: row.name@,
        description: row.description@,
        password: row.password@,
        bgp_pass: row.bgp_pass@,
        account_id: row.account_id,
        vnis: vni_numbers(id2vni, row.vni_ids@),
        ipv6_addr: None,
        last_update: None,
    }
}

/// The VTEPs by name.
pub open spec fn vtep_map(s: Seq<Vtep>) -> Map<Seq<char>, VtepView> {
    keyed_map(s, |v: Vtep| v@)
}

/// The VTEPs that the rows stand for, by name.
pub open spec fn vtep_row_map(rows: Seq<VtepDbRow>, id2vni: Seq<IdVni>) -> Map<Seq<char>, VtepView> {
    last_map(rows, |r: VtepDbRow| r.name@, |r: VtepDbRow| vtep_of_row(r, id2vni))
}

/// A row of the table of VNIs.
pub struct VniDbRow {
    pub id: i32,
    pub vni: i32,
    pub description: String,
    pub account_id: i32,
    pub vtep_ids: Vec<i32>,
}

/// The VNI a row stands for.
pub open spec fn vni_of_row(row: VniDbRow, id2name: Seq<IdName>) -> VniView {
    VniView {
        id: row.id,
        vni: row.vni,
        description: row.description@,
        account_id: row.account_id,
        vteps: vtep_names(id2name, row.vtep_ids@),
    }
}

/// The VNIs by number.
pub open spec fn vni_map(s: Seq<Vni>) -> Map<i32, VniView> {
    keyed_map(s, |v: Vni| v@)
}

/// The VNIs that the rows stand for, by number.
pub open spec fn vni_row_map(rows: Seq<VniDbRow>, id2name: Seq<IdName>) -> Map<i32, VniView> {
    last_map(rows, |r: VniDbRow| r.vni, |r: VniDbRow| vni_of_row(r, id2name))
}

impl Context {
    /// Restores the accounts from their rows, each over any account with the
    /// same mail address. A row with an unknown permission code stops the
    /// restore with an error; the rows before it stay restored.
    pub fn restore_accounts(&mut self, rows: &Vec<AccountDbRow>, vtep_id2name: &Vec<IdName>, vni_id2vni: &Vec<IdVni>) -> (r: Result<(), String>)
        requires
            old(self).wf(),
        ensures
            final(self).wf(),
            r is Ok <==> perms_known(rows@, rows@.len() as int),
            r matches Err(e) ==> e@ == "Unknown permission"@,
            account_map(final(self).accounts@) == account_map(old(self).accounts@).union_prefer_right(
                account_row_map(rows@.subrange(0, accounts_restored(rows@)), vtep_id2name@, vni_id2vni@),
            ),
            final(self).rrs@ == old(self).rrs@,
            final(self).vteps@ == old(self).vteps@,
            final(self).vnis@ == old(self).vnis@,
            final(self).vtep_states@ == old(self).vtep_states@,
    {
        let ghost val = |a: Account| a@;
        let ghost key = |r: AccountDbRow| r.mail_addr@;
        let ghost rval = |r: AccountDbRow| account_of_row(r, vtep_id2name@, vni_id2vni@);
        let ghost old_accounts = self.accounts@;
        let mut i: usize = 0;
        proof {
            assert(last_map(rows@.subrange(0, 0), key, rval) == Map::<Seq<char>, AccountView>::empty());
            assert(keyed_map(self.accounts@, val) =~= keyed_map(old_accounts, val).union_prefer_right(
                last_map(rows@.subrange(0, 0), key, rval)));
        }
        while i < rows.len()
            invariant
                i <= rows.len(),
                self.wf(),
                val == (|a: Account| a@),
                key == (|r: AccountDbRow| r.mail_addr@),
                rval == (|r: AccountDbRow| account_of_row(r, vtep_id2name@, vni_id2vni@)),
                old_accounts == old(self).accounts@,
                perms_known(rows@, i as int),
                keyed_map(self.accounts@, val) == keyed_map(old_accounts, val).union_prefer_right(
                    last_map(rows@.subrange(0, i as int), key, rval)),
                self.rrs@ == old(self).rrs@,
                self.vteps@ == old(self).vteps@,
                self.vnis@ == old(self).vnis@,
                self.vtep_states@ == old(self).vtep_states@,
            decreases rows.len() - i,
        {
            let row = &rows[i];
            let perm = match self.parse_permission(row.perm) {
                Ok(p) => p,
                Err(e) => {
                    proof {
                        lemma_first_unknown_perm(rows@, i as int);
                    }
                    return Err(e);
                },
            };
            let account = Account {
                id: row.id,
                mail_addr: row.mail_addr.clone(),
                password: row.password.clone(),
                perm,
                vnis: map_vni_ids(vni_id2vni, &row.vni_ids),
                vteps: map_vtep_ids(vtep_id2name, &row.vtep_ids),
            };
            let ghost before = self.accounts@;
            let ghost x = account;
            upsert_key(&mut self.accounts, account);
            proof {
                assert(val(x) == rval(rows@[i as int]));
                lemma_restore_step(old_accounts, before, self.accounts@, x, rows@, i as int, val, key, rval);
                lemma_upsert_elements(before, self.accounts@, x);
                assert forall|j: int| 0 <= j < self.accounts@.len() implies (#[trigger] self.accounts@[j]).wf() by {
                    if self.accounts@[j] != x {
                        let k = choose|k: int| 0 <= k < before.len() && before[k] == self.accounts@[j];
                        assert(before[k].wf());
                    }
                }
            }
            i = i + 1;
        }
        assert(rows@.subrange(0, rows@.len() as int) =~= rows@);
        Ok(())
    }
}


impl Context {
    /// Restores the route reflectors from their rows, each over any with the
    /// same name; none is connected yet.
    pub fn restore_rrs(&mut self, rows: &Vec<RrDbRow>)
        requires
            old(self).wf(),
        ensures
            final(self).wf(),
            rr_map(final(self).rrs@) == rr_map(old(self).rrs@).union_prefer_right(rr_row_map(rows@)),
            final(self).accounts@ == old(self).accounts@,
            final(self).vteps@ == old(self).vteps@,
            final(self).vnis@ == old(self).vnis@,
            final(self).vtep_states@ == old(self).vtep_states@,
    {
        let ghost val = |r: Rr| rr_value(r);
        let ghost key = |r: RrDbRow| r.name@;
        let ghost rval = |r: RrDbRow| (r.id, r.name@, r.password@, None::<u32>, None::<u64>);
        let ghost old_rrs = self.rrs@;
        let mut i: usize = 0;
        proof {
            assert(last_map(rows@.subrange(0, 0), key, rval) == Map::<Seq<char>, (i32, Seq<char>, Seq<char>, Option<u32>, Option<u64>)>::empty());
            assert(keyed_map(self.rrs@, val) =~= keyed_map(old_rrs, val).union_prefer_right(
                last_map(rows@.subrange(0, 0), key, rval)));
        }
        while i < rows.len()
            invariant
                i <= rows.len(),
                self.wf(),
                val == (|r: Rr| rr_value(r)),
                key == (|r: RrDbRow| r.name@),
                rval == (|r: RrDbRow| (r.id, r.name@, r.password@, None::<u32>, None::<u64>)),
                old_rrs == old(self).rrs@,
                keyed_map(self.rrs@, val) == keyed_map(old_rrs, val).union_prefer_right(
                    last_map(rows@.subrange(0, i as int), key, rval)),
                self.accounts@ == old(self).accounts@,
                self.vteps@ == old(self).vteps@,
                self.vnis@ == old(self).vnis@,
                self.vtep_states@ == old(self).vtep_states@,
            decreases rows.len() - i,
        {
            let row = &rows[i];
            let rr = Rr {
                id: row.id,
                name: row.name.clone(),
                password: row.password.clone(),
                ipv4_addr: None,
                last_update: None,
            };
            let ghost before = self.rrs@;
            let ghost x = rr;
            upsert_key(&mut self.rrs, rr);
            proof {
                assert(val(x) == rval(rows@[i as int]));
                lemma_restore_step(old_rrs, before, self.rrs@, x, rows@, i as int, val, key, rval);
            }
            i = i + 1;
        }
        assert(rows@.subrange(0, rows@.len() as int) =~= rows@);
    }

    /// Restores the VTEPs from their rows, each over any with the same name;
    /// none is connected yet.
    pub fn restore_vteps(&mut self, rows: &Vec<VtepDbRow>, vni_id2vni: &Vec<IdVni>)
        requires
            old(self).wf(),
        ensures
            final(self).wf(),
            vtep_map(final(self).vteps@) == vtep_map(old(self).vteps@).union_prefer_right(vtep_row_map(rows@, vni_id2vni@)),
            final(self).accounts@ == old(self).accounts@,
            final(self).rrs@ == old(self).rrs@,
            final(self).vnis@ == old(self).vnis@,
            final(self).vtep_states@ == old(self).vtep_states@,
    {
        let ghost val = |v: Vtep| v@;
        let ghost key = |r: VtepDbRow| r.name@;
        let ghost rval = |r: VtepDbRow| vtep_of_row(r, vni_id2vni@);
        let ghost old_vteps = self.vteps@;
        let mut i: usize = 0;
        proof {
            assert(last_map(rows@.subrange(0, 0), key, rval) == Map::<Seq<char>, VtepView>::empty());
            assert(keyed_map(self.vteps@, val) =~= keyed_map(old_vteps, val).union_prefer_right(
                last_map(rows@.subrange(0, 0), key, rval)));
        }
        while i < rows.len()
            invariant
                i <= rows.len(),
                self.wf(),
                val == (|v: Vtep| v@),
                key == (|r: VtepDbRow| r.name@),
                rval == (|r: VtepDbRow| vtep_of_row(r, vni_id2vni@)),
                old_vteps == old(self).vteps@,
                keyed_map(self.vteps@, val) == keyed_map(old_vteps, val).union_prefer_right(
                    last_map(rows@.subrange(0, i as int), key, rval)),
                self.accounts@ == old(self).accounts@,
                self.rrs@ == old(self).rrs@,
                self.vnis@ == old(self).vnis@,
                self.vtep_states@ == old(self).vtep_states@,
            decreases rows.len() - i,
        {
            let row = &rows[i];
            let vtep = Vtep {
                id: row.id,
                name: row.name.clone(),
                description: row.description.clone(),
                password: row.password.clone(),
                bgp_pass: row.bgp_pass.clone(),
                account_id: row.account_id,
                vnis: map_vni_ids(vni_id2vni, &row.vni_ids),
                ipv6_addr: None,
                last_update: None,
            };
            let ghost before = self.vteps@;
            let ghost x = vtep;
            upsert_key(&mut self.vteps, vtep);
            proof {
                assert(val(x) == rval(rows@[i as int]));
                lemma_restore_step(old_vteps, before, self.vteps@, x, rows@, i as int, val, key, rval);
                lemma_upsert_elements(before, self.vteps@, x);
                assert forall|j: int| 0 <= j < self.vteps@.len() implies (#[trigger] self.vteps@[j]).wf() by {
                    if self.vteps@[j] != x {
                        let k = choose|k: int| 0 <= k < before.len() && before[k] == self.vteps@[j];
                        assert(before[k].wf());
                    }
                }
            }
            i = i + 1;
        }
        assert(rows@.subrange(0, rows@.len() as int) =~= rows@);
    }

    /// Restores the VNIs from their rows, each over any with the same number.
    pub fn restore_vnis(&mut self, rows: &Vec<VniDbRow>, vtep_id2name: &Vec<IdName>)
        requires
            old(self).wf(),
        ensures
            final(self).wf(),
            vni_map(final(self).vnis@) == vni_map(old(self).vnis@).union_prefer_right(vni_row_map(rows@, vtep_id2name@)),
            final(self).accounts@ == old(self).accounts@,
            final(self).rrs@ == old(self).rrs@,
            final(self).vteps@ == old(self).vteps@,
            final(self).vtep_states@ == old(self).vtep_states@,
    {
        let ghost val = |v: Vni| v@;
        let ghost key = |r: VniDbRow| r.vni;
        let ghost rval = |r: VniDbRow| vni_of_row(r, vtep_id2name@);
        let ghost old_vnis = self.vnis@;
        let mut i: usize = 0;
        proof {
            assert(last_map(rows@.subrange(0, 0), key, rval) == Map::<i32, VniView>::empty());
            assert(keyed_map(self.vnis@, val) =~= keyed_map(old_vnis, val).union_prefer_right(
                last_map(rows@.subrange(0, 0), key, rval)));
        }
        while i < rows.len()
            invariant
                i <= rows.len(),
                self.wf(),
                val == (|v: Vni| v@),
                key == (|r: VniDbRow| r.vni),
                rval == (|r: VniDbRow| vni_of_row(r, vtep_id2name@)),
                old_vnis == old(self).vnis@,
                keyed_map(self.vnis@, val) == keyed_map(old_vnis, val).union_prefer_right(
                    last_map(rows@.subrange(0, i as int), key, rval)),
                self.accounts@ == old(self).accounts@,
                self.rrs@ == old(self).rrs@,
                self.vteps@ == old(self).vteps@,
                self.vtep_states@ == old(self).vtep_states@,
            decreases rows.len() - i,
        {
            let row = &rows[i];
            let vni = Vni {
                id: row.id,
                vni: row.vni,
                description: row.description.clone(),
                account_id: row.account_id,
                vteps: map_vtep_ids(vtep_id2name, &row.vtep_ids),
            };
            let ghost before = self.vnis@;
            let ghost x = vni;
            upsert_key(&mut self.vnis, vni);
            proof {
                assert(val(x) == rval(rows@[i as int]));
                lemma_restore_step(old_vnis, before, self.vnis@, x, rows@, i as int, val, key, rval);
                lemma_upsert_elements(before, self.vnis@, x);
                assert forall|j: int| 0 <= j < self.vnis@.len() implies (#[trigger] self.vnis@[j]).wf() by {
                    if self.vnis@[j] != x {
                        let k = choose|k: int| 0 <= k < before.len() && before[k] == self.vnis@[j];
                        assert(before[k].wf());
                    }
                }
            }
            i = i + 1;
        }
        assert(rows@.subrange(0, rows@.len() as int) =~= rows@);
    }
}


/// The text that connects to the database.
pub open spec fn conn_str_spec(user: Seq<char>, password: Seq<char>, name: Seq<char>, host: Seq<char>, port: Seq<char>) -> Seq<char> {
    "user="@ + user + " password="@ + password + " dbname="@ + name + " hostaddr="@ + host + " port="@ + port
}

/// The row id of the VNI numbered `n`.
pub open spec fn vni_row_id(s: Seq<Vni>, n: i32) -> i32 {
    s[key_index(s, n).unwrap()].id
}

/// The row id of the VTEP named `name`.
pub open spec fn vtep_row_id(s: Seq<Vtep>, name: Seq<char>) -> i32 {
    s[key_index(s, name).unwrap()].id
}

/// `nums[j]` is the first number that names no VNI.
pub open spec fn first_missing_vni(s: Seq<Vni>, nums: Seq<i32>, j: int) -> bool {
    &&& 0 <= j < nums.len()
    &&& !has_key(s, nums[j])
    &&& forall|k: int| 0 <= k < j ==> has_key(s, #[trigger] nums[k])
}

/// `names[j]` is the first name that names no VTEP.
pub open spec fn first_missing_vtep(s: Seq<Vtep>, names: Seq<String>, j: int) -> bool {
    &&& 0 <= j < names.len()
    &&& !has_key(s, names[j]@)
    &&& forall|k: int| 0 <= k < j ==> has_key(s, (#[trigger] names[k])@)
}

impl Context {
    /// The text that connects to the database.
    pub fn conn_str(&self) -> (r: String)
        ensures
            r@ == conn_str_spec(self.db_username@, self.db_password@, self.db_name@, self.db_host@, self.db_port@),
    {
        let mut s = owned("user=");
        s.append(self.db_username.as_str());
        s.append(" password=");
        s.append(self.db_password.as_str());
        s.append(" dbname=");
        s.append(self.db_name.as_str());
        s.append(" hostaddr=");
        s.append(self.db_host.as_str());
        s.append(" port=");
        s.append(self.db_port.as_str());
        s
    }

    /// The row ids of the VNIs with these numbers, in increasing order; an
    /// error names the first number that names no VNI.
    pub fn vni_numbers_to_ids(&self, vnis: &Vec<i32>) -> (r: Result<Vec<i32>, String>)
        ensures
            match r {
                Ok(ids) => (forall|j: int| 0 <= j < vnis@.len() ==> has_key(self.vnis@, #[trigger] vnis@[j]))
                    && sorted_by_int(ids@)
                    && int_views(ids@).to_multiset() == Seq::new(vnis@.len(), |j: int| vni_row_id(self.vnis@, vnis@[j])).to_multiset(),
                Err(e) => exists|j: int| first_missing_vni(self.vnis@, vnis@, j)
                    && e@ == "VNI "@ + signed_decimal(vnis@[j] as int) + " not found"@,
            },
    {
        let mut ids: Vec<i32> = Vec::new();
        let mut i: usize = 0;
        while i < vnis.len()
            invariant
                i <= vnis.len(),
                ids@.len() == i,
                forall|k: int| 0 <= k < i ==> has_key(self.vnis@, #[trigger] vnis@[k]),
                forall|k: int| 0 <= k < i ==> ids@[k] == vni_row_id(self.vnis@, #[trigger] vnis@[k]),
            decreases vnis.len() - i,
        {
            let n = vnis[i];
            match crate::keyed::index_of_id(&self.vnis, n) {
                Some(k) => {
                    proof {
                        lemma_key_index_none(self.vnis@, n);
                    }
                    ids.push(self.vnis[k].id);
                },
                None => {
                    proof {
                        lemma_key_index_none(self.vnis@, n);
                    }
                    let mut m = owned("VNI ");
                    push_i64(&mut m, n as i64);
                    m.append(" not found");
                    assert(first_missing_vni(self.vnis@, vnis@, i as int));
                    return Err(m);
                },
            }
            i = i + 1;
        }
        let sorted = sort_by_int(ids);
        proof {
            assert(int_views(ids@) =~= Seq::new(vnis@.len(), |j: int| vni_row_id(self.vnis@, vnis@[j])));
        }
        Ok(sorted)
    }

    /// The row ids of the VTEPs with these names, in increasing order; an
    /// error names the first name that names no VTEP.
    pub fn vtep_names_to_ids(&self, vteps: &Vec<String>) -> (r: Result<Vec<i32>, String>)
        ensures
            match r {
                Ok(ids) => (forall|j: int| 0 <= j < vteps@.len() ==> has_key(self.vteps@, (#[trigger] vteps@[j])@))
                    && sorted_by_int(ids@)
                    && int_views(ids@).to_multiset() == Seq::new(vteps@.len(), |j: int| vtep_row_id(self.vteps@, vteps@[j]@)).to_multiset(),
                Err(e) => exists|j: int| first_missing_vtep(self.vteps@, vteps@, j)
                    && e@ == "VTEP "@ + vteps@[j]@ + " not found"@,
            },
    {
        let mut ids: Vec<i32> = Vec::new();
        let mut i: usize = 0;
        while i < vteps.len()
            invariant
                i <= vteps.len(),
                ids@.len() == i,
                forall|k: int| 0 <= k < i ==> has_key(self.vteps@, (#[trigger] vteps@[k])@),
                forall|k: int| 0 <= k < i ==> ids@[k] == vtep_row_id(self.vteps@, (#[trigger] vteps@[k])@),
            decreases vteps.len() - i,
        {
            let name = vteps[i].as_str();
            match index_of_name(&self.vteps, name) {
                Some(k) => {
                    proof {
                        lemma_key_index_none(self.vteps@, name@);
                    }
                    ids.push(self.vteps[k].id);
                },
                None => {
                    proof {
                        lemma_key_index_none(self.vteps@, name@);
                    }
                    let mut m = owned("VTEP ");
                    m.append(name);
                    m.append(" not found");
                    assert(first_missing_vtep(self.vteps@, vteps@, i as int));
                    return Err(m);
                },
            }
            i = i + 1;
        }
        let sorted = sort_by_int(ids);
        proof {
            assert(int_views(ids@) =~= Seq::new(vteps@.len(), |j: int| vtep_row_id(self.vteps@, vteps@[j]@)));
        }
        Ok(sorted)
    }
}


/// The rows of the table of VNIs, reduced to ids and numbers, for these VNIs.
pub open spec fn vni_id_rows(s: Seq<Vni>) -> Seq<IdVni> {
    Seq::new(s.len(), |i: int| IdVni { id: s[i].id, vni: s[i].vni })
}

/// The rows of the table of VTEPs, reduced to ids and names, for these VTEPs.
pub open spec fn vtep_id_rows(s: Seq<Vtep>) -> Seq<IdName> {
    Seq::new(s.len(), |i: int| IdName { id: s[i].id, name: s[i].name })
}

/// No two VNIs share a row id.
pub open spec fn distinct_vni_ids(s: Seq<Vni>) -> bool {
    forall|i: int, j: int| 0 <= i < s.len() && 0 <= j < s.len() && i != j ==> s[i].id != s[j].id
}

/// No two VTEPs share a row id.
pub open spec fn distinct_vtep_ids(s: Seq<Vtep>) -> bool {
    forall|i: int, j: int| 0 <= i < s.len() && 0 <= j < s.len() && i != j ==> s[i].id != s[j].id
}

/// Writing VNI numbers as row ids and reading them back through the rows of
/// the VNIs gives the same numbers: the ids `vni_numbers_to_ids` returns for
/// `nums`, mapped by the VNI rows, are the numbers of `nums`.
pub proof fn lemma_vni_ids_round_trip(vnis: Seq<Vni>, nums: Seq<i32>, ids: Seq<i32>)
    requires
        unique_keys(vnis),
        distinct_vni_ids(vnis),
        forall|j: int| 0 <= j < nums.len() ==> has_key(vnis, #[trigger] nums[j]),
        ids.to_multiset() == Seq::new(nums.len(), |j: int| vni_row_id(vnis, nums[j])).to_multiset(),
    ensures
        vni_numbers(vni_id_rows(vnis), ids) == nums.to_set(),
{
    broadcast use vstd::seq_lib::group_to_multiset_ensures;
    let rows = vni_id_rows(vnis);
    let f = |x: IdVni| x.vni;
    let m = keyed_map(rows, f);
    let want = Seq::new(nums.len(), |j: int| vni_row_id(vnis, nums[j]));
    assert(unique_keys(rows)) by {
        assert forall|a: int, b: int| 0 <= a < rows.len() && 0 <= b < rows.len() && a != b implies rows[a].key() != rows[b].key() by {
            assert(vnis[a].id != vnis[b].id);
        }
    }
    // each number's row id maps back to the number
    assert forall|j: int| 0 <= j < nums.len() implies m.contains_key(#[trigger] want[j]) && m[want[j]] == nums[j] by {
        lemma_key_index_none(vnis, nums[j]);
        let k = key_index(vnis, nums[j])->0;
        assert(rows[k].key() == want[j]);
        lemma_unique_key_index(rows, want[j], k);
        lemma_keyed_map_at(rows, want[j], f);
    }
    assert forall|v: i32| vni_numbers(rows, ids).contains(v) <==> nums.to_set().contains(v) by {
        if vni_numbers(rows, ids).contains(v) {
            let j = choose|j: int| 0 <= j < ids.len() && m.contains_key(ids[j]) && m[ids[j]] == v;
            assert(ids.to_multiset().count(ids[j]) > 0);
            assert(want.contains(ids[j]));
            let k = choose|k: int| 0 <= k < want.len() && want[k] == ids[j];
            assert(m[want[k]] == nums[k]);
            assert(nums.contains(v));
        }
        if nums.to_set().contains(v) {
            let k = choose|k: int| 0 <= k < nums.len() && nums[k] == v;
            assert(want.to_multiset().count(want[k]) > 0);
            assert(ids.contains(want[k]));
            let j = choose|j: int| 0 <= j < ids.len() && ids[j] == want[k];
            assert(m.contains_key(ids[j]) && m[ids[j]] == v);
        }
    }
    assert(vni_numbers(rows, ids) =~= nums.to_set());
}

/// Writing VTEP names as row ids and reading them back through the rows of
/// the VTEPs gives the same names.
pub proof fn lemma_vtep_ids_round_trip(vteps: Seq<Vtep>, names: Seq<Seq<char>>, ids: Seq<i32>)
    requires
        unique_keys(vteps),
        distinct_vtep_ids(vteps),
        forall|j: int| 0 <= j < names.len() ==> has_key(vteps, #[trigger] names[j]),
        ids.to_multiset() == Seq::new(names.len(), |j: int| vtep_row_id(vteps, names[j])).to_multiset(),
    ensures
        vtep_names(vtep_id_rows(vteps), ids) == names.to_set(),
{
    broadcast use vstd::seq_lib::group_to_multiset_ensures;
    let rows = vtep_id_rows(vteps);
    let f = |x: IdName| x.name@;
    let m = keyed_map(rows, f);
    let want = Seq::new(names.len(), |j: int| vtep_row_id(vteps, names[j]));
    assert(unique_keys(rows)) by {
        assert forall|a: int, b: int| 0 <= a < rows.len() && 0 <= b < rows.len() && a != b implies rows[a].key() != rows[b].key() by {
            assert(vteps[a].id != vteps[b].id);
        }
    }
    assert forall|j: int| 0 <= j < names.len() implies m.contains_key(#[trigger] want[j]) && m[want[j]] == names[j] by {
        lemma_key_index_none(vteps, names[j]);
        let k = key_index(vteps, names[j])->0;
        assert(rows[k].key() == want[j]);
        lemma_unique_key_index(rows, want[j], k);
        lemma_keyed_map_at(rows, want[j], f);
    }
    assert forall|v: Seq<char>| vtep_names(rows, ids).contains(v) <==> names.to_set().contains(v) by {
        if vtep_names(rows, ids).contains(v) {
            let j = choose|j: int| 0 <= j < ids.len() && m.contains_key(ids[j]) && m[ids[j]] == v;
            assert(ids.to_multiset().count(ids[j]) > 0);
            assert(want.contains(ids[j]));
            let k = choose|k: int| 0 <= k < want.len() && want[k] == ids[j];
            assert(m[want[k]] == names[k]);
            assert(names.contains(v));
        }
        if names.to_set().contains(v) {
            let k = choose|k: int| 0 <= k < names.len() && names[k] == v;
            assert(want.to_multiset().count(want[k]) > 0);
            assert(ids.contains(want[k]));
            let j = choose|j: int| 0 <= j < ids.len() && ids[j] == want[k];
            assert(m.contains_key(ids[j]) && m[ids[j]] == v);
        }
    }
    assert(vtep_names(rows, ids) =~= names.to_set());
}

/// A permission written as its code reads back as the same permission.
pub proof fn lemma_permission_code_round_trip(p: Permission)
    ensures
        permission_of_code(code_of_permission(p)) == Some(p),
{
}

} // verus!
