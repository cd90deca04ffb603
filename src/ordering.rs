//! The order of records by name, then id, as `str`'s `Ord` compares them,
//! and an insertion sort into it.
use vstd::prelude::*;

use crate::text::str_eq;

verus! {

/// Every string comes before or equals itself.
pub proof fn lemma_lex_refl(a: Seq<char>)
    ensures
        lex_le(a, a),
    decreases a.len(),
{
    if a.len() > 0 {
        lemma_lex_refl(a.drop_first());
    }
}

/// Records ordered by a name and then an id.
pub trait NamedById: Sized {
    spec fn key_name(&self) -> Seq<char>;

    spec fn key_id(&self) -> Seq<char>;

    fn name_str(&self) -> (r: &str)
        ensures
            r@ == self.key_name(),
    ;

    fn id_str(&self) -> (r: &str)
        ensures
            r@ == self.key_id(),
    ;

    fn duplicate(&self) -> (r: Self)
        ensures
            r == *self,
    ;
}

/// Strings in the order of `str`'s `Ord`: by code point, a prefix first.
pub open spec fn lex_le(a: Seq<char>, b: Seq<char>) -> bool
    decreases a.len(),
{
    if a.len() == 0 {
        true
    } else if b.len() == 0 {
        false
    } else if a[0] != b[0] {
        a[0] < b[0]
    } else {
        lex_le(a.drop_first(), b.drop_first())
    }
}

/// The order of records: by name, then by id.
pub open spec fn name_id_le<T: NamedById>(x: T, y: T) -> bool {
    if x.key_name() == y.key_name() {
        lex_le(x.key_id(), y.key_id())
    } else {
        lex_le(x.key_name(), y.key_name())
    }
}

pub open spec fn sorted_by_name_id<T: NamedById>(s: Seq<T>) -> bool {
    forall|i: int| 0 <= i < s.len() - 1 ==> name_id_le(#[trigger] s[i], s[i + 1])
}

proof fn lemma_lex_total(a: Seq<char>, b: Seq<char>)
    ensures
        lex_le(a, b) || lex_le(b, a),
    decreases a.len(),
{
    if a.len() > 0 && b.len() > 0 && a[0] == b[0] {
        lemma_lex_total(a.drop_first(), b.drop_first());
    }
}

/// Whether `a` comes before or equals `b`.
fn lex_le_str(a: &str, b: &str) -> (r: bool)
    ensures
        r == lex_le(a@, b@),
{
    let n = a.unicode_len();
    let m = b.unicode_len();
    let mut i: usize = 0;
    assert(a@.subrange(0, n as int) =~= a@);
    assert(b@.subrange(0, m as int) =~= b@);
    while i < n && i < m && a.get_char(i) == b.get_char(i)
        invariant
            n == a@.len(),
            m == b@.len(),
            0 <= i <= n,
            i <= m,
            lex_le(a@, b@) == lex_le(a@.subrange(i as int, n as int), b@.subrange(i as int, m as int)),
        decreases n - i,
    {
        proof {
            let x = a@.subrange(i as int, n as int);
            let y = b@.subrange(i as int, m as int);
            assert(x.drop_first() =~= a@.subrange(i + 1, n as int));
            assert(y.drop_first() =~= b@.subrange(i + 1, m as int));
        }
        i = i + 1;
    }
    if i == n {
        return true;
    }
    if i == m {
        return false;
    }
    a.get_char(i) < b.get_char(i)
}

fn name_id_le_exec<T: NamedById>(x: &T, y: &T) -> (r: bool)
    ensures
        r == name_id_le(*x, *y),
{
    if str_eq(x.name_str(), y.name_str()) {
        lex_le_str(x.id_str(), y.id_str())
    } else {
        lex_le_str(x.name_str(), y.name_str())
    }
}

/// The records in order of name, then id; the same records, each as often.
pub fn sort_by_name_id<T: NamedById>(v: &Vec<T>) -> (r: Vec<T>)
    ensures
        sorted_by_name_id(r@),
        r@.to_multiset() == v@.to_multiset(),
{
    broadcast use vstd::seq_lib::group_to_multiset_ensures;

    let mut out: Vec<T> = Vec::new();
    let mut i: usize = 0;
    while i < v.len()
        invariant
            0 <= i <= v@.len(),
            sorted_by_name_id(out@),
            out@.to_multiset() == v@.subrange(0, i as int).to_multiset(),
        decreases v@.len() - i,
    {
        let x = v[i].duplicate();
        let mut k: usize = 0;
        while k < out.len() && name_id_le_exec(&out[k], &x)
            invariant
                0 <= k <= out@.len(),
                forall|j: int| 0 <= j < k ==> name_id_le(#[trigger] out@[j], x),
            decreases out@.len() - k,
        {
            k = k + 1;
        }
        let ghost before = out@;
        proof {
            if k < before.len() {
                if before[k as int].key_name() == x.key_name() {
                    lemma_lex_total(before[k as int].key_id(), x.key_id());
                } else {
                    lemma_lex_total(before[k as int].key_name(), x.key_name());
                }
            }
        }
        out.insert(k, x);
        proof {
            let s = out@;
            assert(s == before.insert(k as int, x));
            assert forall|j: int| 0 <= j < s.len() - 1 implies name_id_le(#[trigger] s[j], s[j + 1]) by {
                if j < k as int - 1 {
                    assert(s[j] == before[j] && s[j + 1] == before[j + 1]);
                } else if j == k as int - 1 {
                    assert(s[j] == before[j]);
                } else if j == k as int {
                } else {
                    assert(s[j] == before[j - 1] && s[j + 1] == before[j]);
                }
            }
            assert(v@.subrange(0, i + 1) =~= v@.subrange(0, i as int).push(v@[i as int]));
            vstd::seq_lib::to_multiset_insert(before, k as int, x);
            vstd::seq_lib::to_multiset_build(v@.subrange(0, i as int), v@[i as int]);
        }
        i = i + 1;
    }
    assert(v@.subrange(0, i as int) =~= v@);
    out
}

} // verus!
