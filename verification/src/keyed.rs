//! Vectors used as sets and sorted lists: elements are compared through a key
//! that is a plain mathematical value.
use vstd::prelude::*;
use crate::text::{lex_le, lex_lt, lemma_lex_total, str_eq, text_lt};

verus! {

broadcast use vstd::seq_lib::group_to_multiset_ensures;

/// An element that is identified by a key.
pub trait Keyed: Sized {
    type K;

    spec fn key(&self) -> Self::K;

    /// Whether two elements have the same key.
    fn same_key(&self, other: &Self) -> (r: bool)
        ensures
            r == (self.key() == other.key()),
    ;

    /// A copy with the same key.
    fn copy_keyed(&self) -> (r: Self)
        ensures
            r.key() == self.key(),
    ;
}

impl Keyed for i32 {
    type K = i32;

    open spec fn key(&self) -> i32 {
        *self
    }

    fn same_key(&self, other: &Self) -> (r: bool) {
        *self == *other
    }

    fn copy_keyed(&self) -> (r: Self) {
        *self
    }
}

impl Keyed for u32 {
    type K = u32;

    open spec fn key(&self) -> u32 {
        *self
    }

    fn same_key(&self, other: &Self) -> (r: bool) {
        *self == *other
    }

    fn copy_keyed(&self) -> (r: Self) {
        *self
    }
}

impl Keyed for u128 {
    type K = u128;

    open spec fn key(&self) -> u128 {
        *self
    }

    fn same_key(&self, other: &Self) -> (r: bool) {
        *self == *other
    }

    fn copy_keyed(&self) -> (r: Self) {
        *self
    }
}

impl Keyed for String {
    type K = Seq<char>;

    open spec fn key(&self) -> Seq<char> {
        self@
    }

    fn same_key(&self, other: &Self) -> (r: bool) {
        str_eq(self.as_str(), other.as_str())
    }

    fn copy_keyed(&self) -> (r: Self) {
        self.clone()
    }
}

/// The keys of a sequence, in order.
pub open spec fn keys<T: Keyed>(s: Seq<T>) -> Seq<T::K> {
    Seq::new(s.len(), |i: int| s[i].key())
}

/// The set of keys of a sequence.
pub open spec fn key_set<T: Keyed>(s: Seq<T>) -> Set<T::K> {
    keys(s).to_set()
}

/// No key occurs twice.
pub open spec fn unique_keys<T: Keyed>(s: Seq<T>) -> bool {
    forall|i: int, j: int| 0 <= i < s.len() && 0 <= j < s.len() && i != j ==> s[i].key() != s[j].key()
}

/// Whether some element has key `k`.
pub open spec fn has_key<T: Keyed>(s: Seq<T>, k: T::K) -> bool {
    exists|i: int| 0 <= i < s.len() && s[i].key() == k
}

pub proof fn lemma_key_set_has_key<T: Keyed>(s: Seq<T>, k: T::K)
    ensures
        key_set(s).contains(k) <==> has_key(s, k),
{
    if has_key(s, k) {
        let i = choose|i: int| 0 <= i < s.len() && s[i].key() == k;
        assert(keys(s)[i] == k);
    }
    if key_set(s).contains(k) {
        let i = choose|i: int| 0 <= i < keys(s).len() && keys(s)[i] == k;
        assert(s[i].key() == k);
    }
}

pub proof fn lemma_key_set_all<T: Keyed>(s: Seq<T>)
    ensures
        forall|k: T::K| #[trigger] key_set(s).contains(k) <==> has_key(s, k),
{
    assert forall|k: T::K| #[trigger] key_set(s).contains(k) <==> has_key(s, k) by {
        lemma_key_set_has_key(s, k);
    }
}

/// With unique keys, the number of keys is the length.
pub proof fn lemma_unique_key_set_len<T: Keyed>(s: Seq<T>)
    requires
        unique_keys(s),
    ensures
        key_set(s).len() == s.len(),
        key_set(s).finite(),
{
    assert(keys(s).no_duplicates());
    keys(s).unique_seq_to_set();
}

/// The index of the element with key `k`, if any.
pub fn find_key<T: Keyed>(v: &Vec<T>, k: &T) -> (r: Option<usize>)
    ensures
        match r {
            Some(i) => i < v.len() && v@[i as int].key() == k.key() && forall|j: int|
                0 <= j < i ==> v@[j].key() != k.key(),
            None => !has_key(v@, k.key()),
        },
{
    let mut i: usize = 0;
    while i < v.len()
        invariant
            i <= v.len(),
            forall|j: int| 0 <= j < i ==> v@[j].key() != k.key(),
        decreases v.len() - i,
    {
        if v[i].same_key(k) {
            return Some(i);
        }
        i = i + 1;
    }
    None
}

/// Whether some element has the key of `k`.
pub fn contains_key<T: Keyed>(v: &Vec<T>, k: &T) -> (r: bool)
    ensures
        r == has_key(v@, k.key()),
        r == key_set(v@).contains(k.key()),
{
    proof {
        lemma_key_set_has_key(v@, k.key());
    }
    find_key(v, k).is_some()
}

/// Adds `x` unless its key is already present.
pub fn insert_key<T: Keyed>(v: &mut Vec<T>, x: T)
    requires
        unique_keys(old(v)@),
    ensures
        unique_keys(final(v)@),
        key_set(final(v)@) == key_set(old(v)@).insert(x.key()),
{
    let ghost xk = x.key();
    proof {
        lemma_key_set_all(old(v)@);
    }
    if !contains_key(v, &x) {
        v.push(x);
        proof {
            lemma_key_set_all(final(v)@);
            assert(key_set(final(v)@) =~= key_set(old(v)@).insert(xk)) by {
                assert(final(v)@[final(v)@.len() - 1].key() == xk);
                assert forall|k: T::K| has_key(final(v)@, k) <==> has_key(old(v)@, k) || k == xk by {
                    if has_key(old(v)@, k) {
                        let i = choose|i: int| 0 <= i < old(v)@.len() && old(v)@[i].key() == k;
                        assert(final(v)@[i] == old(v)@[i]);
                    }
                    if has_key(final(v)@, k) && k != xk {
                        let i = choose|i: int| 0 <= i < final(v)@.len() && final(v)@[i].key() == k;
                        assert(old(v)@[i] == final(v)@[i]);
                    }
                }
            }
        }
    } else {
        assert(key_set(old(v)@) =~= key_set(old(v)@).insert(xk));
    }
}

/// Removes the element with the key of `x`, if there is one; returns its former index.
pub fn remove_key<T: Keyed>(v: &mut Vec<T>, x: &T) -> (r: Option<usize>)
    requires
        unique_keys(old(v)@),
    ensures
        unique_keys(final(v)@),
        key_set(final(v)@) == key_set(old(v)@).remove(x.key()),
        match r {
            Some(i) => i < old(v)@.len() && old(v)@[i as int].key() == x.key() && final(v)@ == old(v)@.remove(i as int),
            None => !has_key(old(v)@, x.key()) && final(v)@ == old(v)@,
        },
{
    let ghost xk = x.key();
    proof {
        lemma_key_set_all(old(v)@);
    }
    match find_key(v, x) {
        Some(i) => {
            v.remove(i);
            proof {
                lemma_key_set_all(final(v)@);
                assert forall|a: int, b: int| 0 <= a < final(v)@.len() && 0 <= b < final(v)@.len() && a != b
                    implies final(v)@[a].key() != final(v)@[b].key() by {
                    let aa = if a < i { a } else { a + 1 };
                    let bb = if b < i { b } else { b + 1 };
                    assert(final(v)@[a] == old(v)@[aa]);
                    assert(final(v)@[b] == old(v)@[bb]);
                }
                assert forall|k: T::K| has_key(final(v)@, k) <==> has_key(old(v)@, k) && k != xk by {
                    if has_key(final(v)@, k) {
                        let a = choose|a: int| 0 <= a < final(v)@.len() && final(v)@[a].key() == k;
                        let aa = if a < i { a } else { a + 1 };
                        assert(final(v)@[a] == old(v)@[aa]);
                    }
                    if has_key(old(v)@, k) && k != xk {
                        let a = choose|a: int| 0 <= a < old(v)@.len() && old(v)@[a].key() == k;
                        assert(a != i);
                        let aa = if a < i { a } else { a - 1 };
                        assert(final(v)@[aa] == old(v)@[a]);
                    }
                }
                assert(key_set(final(v)@) =~= key_set(old(v)@).remove(xk));
            }
            Some(i)
        },
        None => {
            assert(key_set(old(v)@) =~= key_set(old(v)@).remove(xk));
            None
        },
    }
}

/// The elements of `a` whose key does not occur in `b`, in the order of `a`.
pub fn key_difference<T: Keyed>(a: &Vec<T>, b: &Vec<T>) -> (r: Vec<T>)
    requires
        unique_keys(a@),
    ensures
        unique_keys(r@),
        key_set(r@) == key_set(a@).difference(key_set(b@)),
{
    let mut out: Vec<T> = Vec::new();
    let mut i: usize = 0;
    proof {
        lemma_key_set_all(b@);
    }
    while i < a.len()
        invariant
            i <= a.len(),
            unique_keys(a@),
            unique_keys(out@),
            forall|k: T::K| key_set(b@).contains(k) <==> has_key(b@, k),
            forall|k: T::K|
                has_key(out@, k) <==> (exists|j: int| 0 <= j < i && a@[j].key() == k) && !has_key(b@, k),
            forall|x: int, j: int| 0 <= x < out@.len() && i <= j < a@.len() ==> out@[x].key() != a@[j].key(),
        decreases a.len() - i,
    {
        let ghost before = out@;
        if !contains_key(b, &a[i]) {
            out.push(a[i].copy_keyed());
            proof {
                assert forall|k: T::K|
                    has_key(out@, k) <==> (exists|j: int| 0 <= j < i + 1 && a@[j].key() == k) && !has_key(b@, k) by {
                    if has_key(out@, k) {
                        let x = choose|x: int| 0 <= x < out@.len() && out@[x].key() == k;
                        if x < before.len() {
                            assert(has_key(before, k));
                        }
                    }
                    if (exists|j: int| 0 <= j < i + 1 && a@[j].key() == k) && !has_key(b@, k) {
                        let j = choose|j: int| 0 <= j < i + 1 && a@[j].key() == k;
                        if j < i {
                            assert(has_key(before, k));
                            let x = choose|x: int| 0 <= x < before.len() && before[x].key() == k;
                            assert(out@[x].key() == k);
                        } else {
                            assert(out@[out@.len() - 1].key() == k);
                        }
                    }
                }
            }
        } else {
            proof {
                assert forall|k: T::K|
                    has_key(out@, k) <==> (exists|j: int| 0 <= j < i + 1 && a@[j].key() == k) && !has_key(b@, k) by {
                    if (exists|j: int| 0 <= j < i + 1 && a@[j].key() == k) && !has_key(b@, k) {
                        let j = choose|j: int| 0 <= j < i + 1 && a@[j].key() == k;
                        if j == i {
                            assert(has_key(b@, a@[i as int].key()));
                        }
                    }
                }
            }
        }
        i = i + 1;
    }
    proof {
        lemma_key_set_all(out@);
        lemma_key_set_all(a@);
        assert(key_set(out@) =~= key_set(a@).difference(key_set(b@)));
    }
    out
}

/// An element sorted by a text key.
pub trait TextKeyed: Sized {
    type V;

    /// What the element stands for.
    spec fn item_view(&self) -> Self::V;

    spec fn text_key(&self) -> Seq<char>;

    fn key_text(&self) -> (k: &str)
        ensures
            k@ == self.text_key(),
    ;
}

impl TextKeyed for String {
    type V = Seq<char>;

    open spec fn item_view(&self) -> Seq<char> {
        self@
    }

    open spec fn text_key(&self) -> Seq<char> {
        self@
    }

    fn key_text(&self) -> (k: &str) {
        self.as_str()
    }
}

/// The views of a sequence of text-keyed elements.
pub open spec fn text_views<T: TextKeyed>(s: Seq<T>) -> Seq<T::V> {
    Seq::new(s.len(), |i: int| s[i].item_view())
}

/// The views of a sequence of integer-keyed elements.
pub open spec fn int_views<T: IntKeyed>(s: Seq<T>) -> Seq<T::V> {
    Seq::new(s.len(), |i: int| s[i].item_view())
}

/// In non-decreasing order of the text key.
pub open spec fn sorted_by_text<T: TextKeyed>(s: Seq<T>) -> bool {
    forall|i: int, j: int| 0 <= i < j < s.len() ==> lex_le(s[i].text_key(), s[j].text_key())
}

/// Sorts by the text key (a selection sort).
pub fn sort_by_text<T: TextKeyed>(v: Vec<T>) -> (r: Vec<T>)
    ensures
        text_views(r@).to_multiset() == text_views(v@).to_multiset(),
        sorted_by_text(r@),
{
    let mut rest = v;
    let mut out: Vec<T> = Vec::new();
    while rest.len() > 0
        invariant
            text_views(out@).to_multiset().add(text_views(rest@).to_multiset()) == text_views(v@).to_multiset(),
            sorted_by_text(out@),
            forall|i: int, j: int|
                0 <= i < out@.len() && 0 <= j < rest@.len() ==> lex_le(out@[i].text_key(), rest@[j].text_key()),
        decreases rest.len(),
    {
        let mut m: usize = 0;
        let mut k: usize = 1;
        proof {
            crate::text::lemma_lex_irreflexive(rest@[0].text_key());
        }
        while k < rest.len()
            invariant
                0 < rest.len(),
                m < rest.len(),
                1 <= k <= rest.len(),
                m < k,
                forall|j: int| 0 <= j < k ==> !lex_lt(#[trigger] rest@[j].text_key(), rest@[m as int].text_key()),
            decreases rest.len() - k,
        {
            if text_lt(rest[k].key_text(), rest[m].key_text()) {
                proof {
                    assert forall|j: int| 0 <= j < k + 1 implies !lex_lt(#[trigger] rest@[j].text_key(), rest@[k as int].text_key()) by {
                        if j < k {
                            if lex_lt(rest@[j].text_key(), rest@[k as int].text_key()) {
                                lemma_lex_trans(rest@[j].text_key(), rest@[k as int].text_key(), rest@[m as int].text_key());
                            }
                        } else {
                            crate::text::lemma_lex_irreflexive(rest@[k as int].text_key());
                        }
                    }
                }
                m = k;
            }
            k = k + 1;
        }
        let ghost old_rest = rest@;
        let ghost old_out = out@;
        let x = rest.remove(m);
        out.push(x);
        proof {
            assert(old_rest.remove(m as int) == rest@);
            assert(old_rest[m as int] == x);
            assert(text_views(rest@) =~= text_views(old_rest).remove(m as int));
            assert(text_views(out@) =~= text_views(old_out).push(x.item_view()));
            assert(text_views(old_rest)[m as int] == x.item_view());
            assert(text_views(old_rest).contains(x.item_view()));
            assert(text_views(out@).to_multiset().add(text_views(rest@).to_multiset()) =~= text_views(v@).to_multiset());
            assert forall|j: int| 0 <= j < rest@.len() implies lex_le(x.text_key(), rest@[j].text_key()) by {
                let jj = if j < m { j } else { j + 1 };
                assert(rest@[j] == old_rest[jj]);
                lemma_lex_total(x.text_key(), rest@[j].text_key());
            }
            assert forall|i: int, j: int|
                0 <= i < out@.len() && 0 <= j < rest@.len() implies lex_le(out@[i].text_key(), rest@[j].text_key()) by {
                if i < old_out.len() {
                    let jj = if j < m { j } else { j + 1 };
                    assert(rest@[j] == old_rest[jj]);
                    assert(out@[i] == old_out[i]);
                }
            }
            assert forall|i: int, j: int| 0 <= i < j < out@.len() implies lex_le(out@[i].text_key(), out@[j].text_key()) by {
                if j < old_out.len() {
                    assert(out@[i] == old_out[i]);
                    assert(out@[j] == old_out[j]);
                } else {
                    assert(out@[i] == old_out[i]);
                    assert(out@[j] == x);
                    assert(old_rest[m as int] == x);
                }
            }
        }
    }
    proof {
        assert(text_views(rest@).to_multiset() =~= vstd::multiset::Multiset::empty());
        assert(text_views(out@).to_multiset() =~= text_views(out@).to_multiset().add(text_views(rest@).to_multiset()));
    }
    out
}

pub proof fn lemma_lex_trans(a: Seq<char>, b: Seq<char>, c: Seq<char>)
    requires
        lex_lt(a, b),
        lex_lt(b, c),
    ensures
        lex_lt(a, c),
    decreases a.len(),
{
    if a.len() > 0 && b.len() > 0 && c.len() > 0 {
        if a[0] == b[0] && b[0] == c[0] {
            lemma_lex_trans(a.drop_first(), b.drop_first(), c.drop_first());
        }
    }
}

/// An element sorted by an integer key.
pub trait IntKeyed: Sized {
    type V;

    /// What the element stands for.
    spec fn item_view(&self) -> Self::V;

    spec fn int_key(&self) -> int;

    fn key_int(&self) -> (k: i64)
        ensures
            k as int == self.int_key(),
    ;
}

impl IntKeyed for i32 {
    type V = i32;

    open spec fn item_view(&self) -> i32 {
        *self
    }

    open spec fn int_key(&self) -> int {
        *self as int
    }

    fn key_int(&self) -> (k: i64) {
        *self as i64
    }
}

/// In non-decreasing order of the integer key.
pub open spec fn sorted_by_int<T: IntKeyed>(s: Seq<T>) -> bool {
    forall|i: int, j: int| 0 <= i < j < s.len() ==> s[i].int_key() <= s[j].int_key()
}

/// Sorts by the integer key (a selection sort).
pub fn sort_by_int<T: IntKeyed>(v: Vec<T>) -> (r: Vec<T>)
    ensures
        int_views(r@).to_multiset() == int_views(v@).to_multiset(),
        sorted_by_int(r@),
{
    let mut rest = v;
    let mut out: Vec<T> = Vec::new();
    while rest.len() > 0
        invariant
            int_views(out@).to_multiset().add(int_views(rest@).to_multiset()) == int_views(v@).to_multiset(),
            sorted_by_int(out@),
            forall|i: int, j: int|
                0 <= i < out@.len() && 0 <= j < rest@.len() ==> out@[i].int_key() <= rest@[j].int_key(),
        decreases rest.len(),
    {
        let mut m: usize = 0;
        let mut k: usize = 1;
        while k < rest.len()
            invariant
                0 < rest.len(),
                m < rest.len(),
                1 <= k <= rest.len(),
                m < k,
                forall|j: int| 0 <= j < k ==> rest@[m as int].int_key() <= #[trigger] rest@[j].int_key(),
            decreases rest.len() - k,
        {
            if rest[k].key_int() < rest[m].key_int() {
                m = k;
            }
            k = k + 1;
        }
        let ghost old_rest = rest@;
        let ghost old_out = out@;
        let x = rest.remove(m);
        out.push(x);
        proof {
            assert(old_rest.remove(m as int) == rest@);
            assert(old_rest[m as int] == x);
            assert(int_views(rest@) =~= int_views(old_rest).remove(m as int));
            assert(int_views(out@) =~= int_views(old_out).push(x.item_view()));
            assert(int_views(old_rest)[m as int] == x.item_view());
            assert(int_views(old_rest).contains(x.item_view()));
            assert(int_views(out@).to_multiset().add(int_views(rest@).to_multiset()) =~= int_views(v@).to_multiset());
            assert forall|i: int, j: int|
                0 <= i < out@.len() && 0 <= j < rest@.len() implies out@[i].int_key() <= rest@[j].int_key() by {
                let jj = if j < m { j } else { j + 1 };
                assert(rest@[j] == old_rest[jj]);
                if i < old_out.len() {
                    assert(out@[i] == old_out[i]);
                }
            }
            assert forall|i: int, j: int| 0 <= i < j < out@.len() implies out@[i].int_key() <= out@[j].int_key() by {
                assert(out@[i] == old_out[i]);
                if j < old_out.len() {
                    assert(out@[j] == old_out[j]);
                } else {
                    assert(old_rest[m as int] == x);
                }
            }
        }
    }
    proof {
        assert(int_views(rest@).to_multiset() =~= vstd::multiset::Multiset::empty());
        assert(int_views(out@).to_multiset() =~= int_views(out@).to_multiset().add(int_views(rest@).to_multiset()));
    }
    out
}

} // verus!

verus! {

/// `i` is the first index holding key `k`.
pub open spec fn is_first_key<T: Keyed>(s: Seq<T>, k: T::K, i: int) -> bool {
    &&& 0 <= i < s.len()
    &&& s[i].key() == k
    &&& forall|j: int| 0 <= j < i ==> s[j].key() != k
}

/// The index of (the first element with) key `k`.
pub open spec fn key_index<T: Keyed>(s: Seq<T>, k: T::K) -> Option<int> {
    if exists|i: int| is_first_key(s, k, i) {
        Some(choose|i: int| is_first_key(s, k, i))
    } else {
        None
    }
}

pub proof fn lemma_key_index_some<T: Keyed>(s: Seq<T>, k: T::K, i: int)
    requires
        is_first_key(s, k, i),
    ensures
        key_index(s, k) == Some(i),
{
    let c = choose|c: int| is_first_key(s, k, c);
    assert(c == i) by {
        if c < i {
            assert(s[c].key() != k);
        }
        if i < c {
            assert(s[i].key() != k);
        }
    }
}

/// With unique keys, any index holding the key is the key's index.
pub proof fn lemma_unique_key_index<T: Keyed>(s: Seq<T>, k: T::K, i: int)
    requires
        unique_keys(s),
        0 <= i < s.len(),
        s[i].key() == k,
    ensures
        key_index(s, k) == Some(i),
{
    assert(is_first_key(s, k, i));
    lemma_key_index_some(s, k, i);
}

/// Below any index holding a key lies the first one.
pub proof fn lemma_first_key_exists<T: Keyed>(s: Seq<T>, k: T::K, i: int) -> (m: int)
    requires
        0 <= i < s.len(),
        s[i].key() == k,
    ensures
        is_first_key(s, k, m),
    decreases i,
{
    if exists|j: int| 0 <= j < i && s[j].key() == k {
        let j = choose|j: int| 0 <= j < i && s[j].key() == k;
        lemma_first_key_exists(s, k, j)
    } else {
        i
    }
}

pub proof fn lemma_key_index_none<T: Keyed>(s: Seq<T>, k: T::K)
    ensures
        key_index(s, k) is None <==> !has_key(s, k),
        key_index(s, k) matches Some(i) ==> 0 <= i < s.len() && s[i].key() == k,
{
    if has_key(s, k) {
        let i = choose|i: int| 0 <= i < s.len() && s[i].key() == k;
        let m = lemma_first_key_exists(s, k, i);
    }
    if key_index(s, k) is Some {
        let c = choose|c: int| is_first_key(s, k, c);
        assert(0 <= c < s.len() && s[c].key() == k);
    }
}

/// The index of the element with the key of `k`.
pub fn index_of_key<T: Keyed>(v: &Vec<T>, k: &T) -> (r: Option<usize>)
    ensures
        match r {
            Some(i) => key_index(v@, k.key()) == Some(i as int),
            None => key_index(v@, k.key()) is None,
        },
{
    proof {
        lemma_key_index_none(v@, k.key());
    }
    match find_key(v, k) {
        Some(i) => {
            proof {
                lemma_key_index_some(v@, k.key(), i as int);
            }
            Some(i)
        },
        None => None,
    }
}

/// Puts `x` in place of the element with its key, or adds it when there is none.
pub fn upsert_key<T: Keyed>(v: &mut Vec<T>, x: T)
    requires
        unique_keys(old(v)@),
    ensures
        unique_keys(final(v)@),
        final(v)@ == match key_index(old(v)@, x.key()) {
            Some(i) => old(v)@.update(i, x),
            None => old(v)@.push(x),
        },
        key_set(final(v)@) == key_set(old(v)@).insert(x.key()),
{
    let ghost xk = x.key();
    let ghost xv = x;
    proof {
        lemma_key_index_none(old(v)@, xk);
        lemma_key_set_all(old(v)@);
    }
    match index_of_key(v, &x) {
        Some(i) => {
            v.remove(i);
            v.insert(i, x);
            proof {
                assert(final(v)@ =~= old(v)@.update(i as int, xv));
                assert forall|a: int, b: int| 0 <= a < final(v)@.len() && 0 <= b < final(v)@.len() && a != b
                    implies final(v)@[a].key() != final(v)@[b].key() by {
                    assert(old(v)@[i as int].key() == xk);
                    if a != i && b != i {
                        assert(final(v)@[a] == old(v)@[a]);
                        assert(final(v)@[b] == old(v)@[b]);
                    } else if a == i {
                        assert(final(v)@[b] == old(v)@[b]);
                    } else {
                        assert(final(v)@[a] == old(v)@[a]);
                    }
                }
                lemma_key_set_all(final(v)@);
                assert forall|k: T::K| has_key(final(v)@, k) <==> has_key(old(v)@, k) || k == xk by {
                    if has_key(final(v)@, k) {
                        let a = choose|a: int| 0 <= a < final(v)@.len() && final(v)@[a].key() == k;
                        if a != i {
                            assert(final(v)@[a] == old(v)@[a]);
                        }
                    }
                    if has_key(old(v)@, k) {
                        let a = choose|a: int| 0 <= a < old(v)@.len() && old(v)@[a].key() == k;
                        if a != i {
                            assert(final(v)@[a] == old(v)@[a]);
                        } else {
                            assert(final(v)@[a].key() == xk);
                        }
                    }
                    if k == xk {
                        assert(final(v)@[i as int].key() == xk);
                    }
                }
                assert(key_set(final(v)@) =~= key_set(old(v)@).insert(xk));
            }
        },
        None => {
            v.push(x);
            proof {
                assert forall|a: int, b: int| 0 <= a < final(v)@.len() && 0 <= b < final(v)@.len() && a != b
                    implies final(v)@[a].key() != final(v)@[b].key() by {
                    if a < old(v)@.len() && b < old(v)@.len() {
                        assert(final(v)@[a] == old(v)@[a]);
                        assert(final(v)@[b] == old(v)@[b]);
                    } else if a < old(v)@.len() {
                        assert(final(v)@[a] == old(v)@[a]);
                    } else {
                        assert(final(v)@[b] == old(v)@[b]);
                    }
                }
                lemma_key_set_all(final(v)@);
                assert forall|k: T::K| has_key(final(v)@, k) <==> has_key(old(v)@, k) || k == xk by {
                    if has_key(final(v)@, k) {
                        let a = choose|a: int| 0 <= a < final(v)@.len() && final(v)@[a].key() == k;
                        if a < old(v)@.len() {
                            assert(final(v)@[a] == old(v)@[a]);
                        }
                    }
                    if has_key(old(v)@, k) {
                        let a = choose|a: int| 0 <= a < old(v)@.len() && old(v)@[a].key() == k;
                        assert(final(v)@[a] == old(v)@[a]);
                    }
                    if k == xk {
                        assert(final(v)@[old(v)@.len() as int].key() == xk);
                    }
                }
                assert(key_set(final(v)@) =~= key_set(old(v)@).insert(xk));
            }
        },
    }
}

} // verus!

verus! {

/// An element keyed by a name.
pub trait NameKeyed: Keyed<K = Seq<char>> {
    fn name_str(&self) -> (r: &str)
        ensures
            r@ == self.key(),
    ;
}

/// An element keyed by a 32-bit integer.
pub trait IdKeyed: Keyed<K = i32> {
    fn key_i32(&self) -> (r: i32)
        ensures
            r == self.key(),
    ;
}

impl NameKeyed for String {
    fn name_str(&self) -> (r: &str) {
        self.as_str()
    }
}

impl IdKeyed for i32 {
    fn key_i32(&self) -> (r: i32) {
        *self
    }
}

/// The index of the element named `name`.
pub fn index_of_name<T: NameKeyed>(v: &Vec<T>, name: &str) -> (r: Option<usize>)
    ensures
        match r {
            Some(i) => key_index(v@, name@) == Some(i as int),
            None => key_index(v@, name@) is None,
        },
{
    let mut i: usize = 0;
    while i < v.len()
        invariant
            i <= v.len(),
            forall|j: int| 0 <= j < i ==> v@[j].key() != name@,
        decreases v.len() - i,
    {
        if crate::text::str_eq(v[i].name_str(), name) {
            proof {
                lemma_key_index_some(v@, name@, i as int);
            }
            return Some(i);
        }
        i = i + 1;
    }
    proof {
        lemma_key_index_none(v@, name@);
    }
    None
}

/// The index of the element with integer key `id`.
pub fn index_of_id<T: IdKeyed>(v: &Vec<T>, id: i32) -> (r: Option<usize>)
    ensures
        match r {
            Some(i) => key_index(v@, id) == Some(i as int),
            None => key_index(v@, id) is None,
        },
{
    let mut i: usize = 0;
    while i < v.len()
        invariant
            i <= v.len(),
            forall|j: int| 0 <= j < i ==> v@[j].key() != id,
        decreases v.len() - i,
    {
        if v[i].key_i32() == id {
            proof {
                lemma_key_index_some(v@, id, i as int);
            }
            return Some(i);
        }
        i = i + 1;
    }
    proof {
        lemma_key_index_none(v@, id);
    }
    None
}

/// Whether some element is named `name`.
pub fn has_name<T: NameKeyed>(v: &Vec<T>, name: &str) -> (r: bool)
    ensures
        r == has_key(v@, name@),
        r == key_set(v@).contains(name@),
{
    proof {
        lemma_key_index_none(v@, name@);
        lemma_key_set_has_key(v@, name@);
    }
    index_of_name(v, name).is_some()
}

/// Whether some element has integer key `id`.
pub fn has_id<T: IdKeyed>(v: &Vec<T>, id: i32) -> (r: bool)
    ensures
        r == has_key(v@, id),
        r == key_set(v@).contains(id),
{
    proof {
        lemma_key_index_none(v@, id);
        lemma_key_set_has_key(v@, id);
    }
    index_of_id(v, id).is_some()
}

} // verus!

verus! {

/// Replacing an element by one with the same key keeps the keys as they are.
pub proof fn lemma_update_same_key<T: Keyed>(s: Seq<T>, i: int, x: T)
    requires
        unique_keys(s),
        0 <= i < s.len(),
        x.key() == s[i].key(),
    ensures
        unique_keys(s.update(i, x)),
        key_set(s.update(i, x)) == key_set(s),
        keys(s.update(i, x)) == keys(s),
        forall|k: T::K| #[trigger] key_index(s.update(i, x), k) == key_index(s, k),
        forall|k: T::K| #[trigger] has_key(s.update(i, x), k) == has_key(s, k),
{
    let t = s.update(i, x);
    assert(keys(t) =~= keys(s));
    assert forall|k: T::K| #[trigger] key_index(t, k) == key_index(s, k) by {
        assert forall|j: int| is_first_key(t, k, j) == is_first_key(s, k, j) by {
            assert forall|m: int| 0 <= m < s.len() implies t[m].key() == s[m].key() by {}
        }
    }
    assert forall|k: T::K| #[trigger] has_key(t, k) == has_key(s, k) by {
        if has_key(t, k) {
            let m = choose|m: int| 0 <= m < t.len() && t[m].key() == k;
            assert(s[m].key() == k);
        }
        if has_key(s, k) {
            let m = choose|m: int| 0 <= m < s.len() && s[m].key() == k;
            assert(t[m].key() == k);
        }
    }
}

/// Puts `x` at index `i` and hands back what was there.
pub fn replace_at<T>(v: &mut Vec<T>, i: usize, x: T) -> (r: T)
    requires
        i < old(v)@.len(),
    ensures
        final(v)@ == old(v)@.update(i as int, x),
        r == old(v)@[i as int],
{
    let r = v.remove(i);
    v.insert(i, x);
    assert(final(v)@ =~= old(v)@.update(i as int, x));
    r
}

} // verus!

verus! {

/// With unique elements, an element occurs at most once.
pub proof fn lemma_unique_count(s: Seq<i32>, x: i32)
    requires
        unique_keys(s),
    ensures
        s.to_multiset().count(x) <= 1,
    decreases s.len(),
{
    broadcast use vstd::seq_lib::group_to_multiset_ensures;
    if s.len() > 0 {
        let t = s.drop_last();
        assert forall|a: int, b: int| 0 <= a < t.len() && 0 <= b < t.len() && a != b implies t[a].key() != t[b].key() by {
            assert(t[a] == s[a]);
            assert(t[b] == s[b]);
        }
        lemma_unique_count(t, x);
        assert(t.push(s.last()) =~= s);
        if s.last() == x {
            assert(!t.contains(x)) by {
                if t.contains(x) {
                    let a = choose|a: int| 0 <= a < t.len() && t[a] == x;
                    assert(s[a].key() == s[s.len() - 1].key());
                }
            }
        }
    } else {
        assert(s.to_multiset().count(x) == 0);
    }
}

/// Two positions holding the same value mean the value occurs twice.
pub proof fn lemma_count_two(s: Seq<i32>, p: int, q: int)
    requires
        0 <= p < q < s.len(),
        s[p] == s[q],
    ensures
        s.to_multiset().count(s[p]) >= 2,
{
    broadcast use vstd::seq_lib::group_to_multiset_ensures;
    let x = s[p];
    let t = s.remove(q);
    assert(t[p] == x);
    assert(t.contains(x));
    assert(t.to_multiset() =~= s.to_multiset().remove(x));
    assert(t.to_multiset().count(x) >= 1);
}

} // verus!

verus! {

pub proof fn lemma_key_set_push<T: Keyed>(s: Seq<T>, x: T)
    ensures
        key_set(s.push(x)) == key_set(s).insert(x.key()),
{
    assert(keys(s.push(x)) =~= keys(s).push(x.key()));
    lemma_to_set_push(keys(s), x.key());
}

pub proof fn lemma_to_set_push<A>(s: Seq<A>, x: A)
    ensures
        s.push(x).to_set() == s.to_set().insert(x),
{
    assert forall|y: A| s.push(x).to_set().contains(y) <==> s.to_set().insert(x).contains(y) by {
        if s.push(x).contains(y) {
            let a = choose|a: int| 0 <= a < s.push(x).len() && s.push(x)[a] == y;
            if a < s.len() {
                assert(s[a] == y);
            }
        }
        if s.contains(y) {
            let a = choose|a: int| 0 <= a < s.len() && s[a] == y;
            assert(s.push(x)[a] == y);
        }
        if y == x {
            assert(s.push(x)[s.len() as int] == x);
        }
    }
    assert(s.push(x).to_set() =~= s.to_set().insert(x));
}

} // verus!

verus! {

/// Without duplicates, an element occurs at most once.
pub proof fn lemma_nodup_count<A>(s: Seq<A>, x: A)
    requires
        s.no_duplicates(),
    ensures
        s.to_multiset().count(x) <= 1,
    decreases s.len(),
{
    broadcast use vstd::seq_lib::group_to_multiset_ensures;
    if s.len() > 0 {
        let t = s.drop_last();
        assert(t.no_duplicates());
        lemma_nodup_count(t, x);
        assert(t.push(s.last()) =~= s);
        if s.last() == x {
            assert(!t.contains(x)) by {
                if t.contains(x) {
                    let a = choose|a: int| 0 <= a < t.len() && t[a] == x;
                    assert(s[a] == s[s.len() - 1]);
                }
            }
        }
    } else {
        assert(s.to_multiset().count(x) == 0);
    }
}

/// Two positions holding the same value mean the value occurs twice.
pub proof fn lemma_count_twice<A>(s: Seq<A>, p: int, q: int)
    requires
        0 <= p < q < s.len(),
        s[p] == s[q],
    ensures
        s.to_multiset().count(s[p]) >= 2,
{
    broadcast use vstd::seq_lib::group_to_multiset_ensures;
    let x = s[p];
    let t = s.remove(q);
    assert(t[p] == x);
    assert(t.contains(x));
    assert(t.to_multiset() =~= s.to_multiset().remove(x));
    assert(t.to_multiset().count(x) >= 1);
}


/// Whether two vectors hold the same keys.
pub fn same_key_sets<T: Keyed>(a: &Vec<T>, b: &Vec<T>) -> (r: bool)
    ensures
        r == (key_set(a@) == key_set(b@)),
{
    let mut i: usize = 0;
    while i < a.len()
        invariant
            i <= a.len(),
            forall|j: int| 0 <= j < i ==> #[trigger] has_key(b@, a@[j].key()),
        decreases a.len() - i,
    {
        if !contains_key(b, &a[i]) {
            proof {
                lemma_key_set_has_key(a@, a@[i as int].key());
                lemma_key_set_has_key(b@, a@[i as int].key());
            }
            return false;
        }
        i = i + 1;
    }
    let mut k: usize = 0;
    while k < b.len()
        invariant
            k <= b.len(),
            forall|j: int| 0 <= j < a@.len() ==> #[trigger] has_key(b@, a@[j].key()),
            forall|j: int| 0 <= j < k ==> #[trigger] has_key(a@, b@[j].key()),
        decreases b.len() - k,
    {
        if !contains_key(a, &b[k]) {
            proof {
                lemma_key_set_has_key(a@, b@[k as int].key());
                lemma_key_set_has_key(b@, b@[k as int].key());
            }
            return false;
        }
        k = k + 1;
    }
    proof {
        assert forall|x: T::K| key_set(a@).contains(x) <==> key_set(b@).contains(x) by {
            lemma_key_set_has_key(a@, x);
            lemma_key_set_has_key(b@, x);
            if has_key(a@, x) {
                let j = choose|j: int| 0 <= j < a@.len() && a@[j].key() == x;
                assert(has_key(b@, a@[j].key()));
            }
            if has_key(b@, x) {
                let j = choose|j: int| 0 <= j < b@.len() && b@[j].key() == x;
                assert(has_key(a@, b@[j].key()));
            }
        }
        assert(key_set(a@) =~= key_set(b@));
    }
    true
}


/// `i` is the last index holding key `k`.
pub open spec fn is_last_key<T: Keyed>(s: Seq<T>, k: T::K, i: int) -> bool {
    &&& 0 <= i < s.len()
    &&& s[i].key() == k
    &&& forall|j: int| i < j < s.len() ==> s[j].key() != k
}

/// `x` is the last element of `s` with its key.
pub open spec fn from_last<T: Keyed>(s: Seq<T>, x: T) -> bool {
    exists|i: int| is_last_key(s, x.key(), i) && x == s[i]
}

/// Keeps, for each key, the last element with it (what inserting the elements
/// one by one into a map does); keys in the order they first appear.
pub fn collect_last<T: Keyed>(mut v: Vec<T>) -> (r: Vec<T>)
    ensures
        unique_keys(r@),
        key_set(r@) == key_set(v@),
        forall|m: int| 0 <= m < r@.len() ==> from_last(v@, #[trigger] r@[m]),
{
    let ghost all = v@;
    let mut out: Vec<T> = Vec::new();
    proof {
        assert(all.subrange(0, 0) =~= Seq::<T>::empty());
        assert(key_set(out@) =~= key_set(all.subrange(0, 0)));
        assert(v@ =~= all.subrange(0, all.len() as int));
    }
    while v.len() > 0
        invariant
            v@.len() <= all.len(),
            v@ == all.subrange(all.len() - v@.len(), all.len() as int),
            unique_keys(out@),
            key_set(out@) == key_set(all.subrange(0, all.len() - v@.len())),
            forall|m: int| 0 <= m < out@.len() ==> exists|i: int|
                is_last_key(all.subrange(0, all.len() - v@.len()), (#[trigger] out@[m]).key(), i) && out@[m] == all[i],
        decreases v@.len(),
    {
        let ghost n = all.len() - v@.len();
        let ghost p = all.subrange(0, n);
        let ghost q = all.subrange(0, n + 1);
        let x = v.remove(0);
        proof {
            assert(v@ =~= all.subrange(all.len() - v@.len(), all.len() as int));
            assert(x == all[n]);
            assert(q =~= p.push(x));
            lemma_key_set_push(p, x);
        }
        let ghost before = out@;
        let ghost xk = x.key();
        let ghost xv = x;
        proof {
            lemma_key_index_none(before, xk);
        }
        upsert_key(&mut out, x);
        proof {
            assert forall|m: int| 0 <= m < out@.len() implies exists|i: int| is_last_key(q, (#[trigger] out@[m]).key(), i) && out@[m] == all[i] by {
                if out@[m].key() == xk {
                    assert(out@[m] == xv) by {
                        match key_index(before, xk) {
                            Some(idx) => {
                                if m != idx {
                                    assert(out@[m] == before[m]);
                                    assert(before[m].key() == before[idx].key());
                                }
                            },
                            None => {
                                if m < before.len() {
                                    assert(out@[m] == before[m]);
                                    assert(has_key(before, xk));
                                }
                            },
                        }
                    }
                    assert(is_last_key(q, xk, n));
                } else {
                    assert(m < before.len() && out@[m] == before[m]) by {
                        match key_index(before, xk) {
                            Some(idx) => {},
                            None => {},
                        }
                    }
                    let i = choose|i: int| is_last_key(p, before[m].key(), i) && before[m] == all[i];
                    assert(is_last_key(q, out@[m].key(), i));
                }
            }
        }
    }
    assert(all.subrange(0, all.len() as int) =~= all);
    assert forall|m: int| 0 <= m < out@.len() implies from_last(all, #[trigger] out@[m]) by {
        let p = all.subrange(0, all.len() - v@.len());
        assert(p == all);
        let i = choose|i: int| is_last_key(p, out@[m].key(), i) && out@[m] == all[i];
        assert(is_last_key(all, out@[m].key(), i));
    }
    out
}

} // verus!
