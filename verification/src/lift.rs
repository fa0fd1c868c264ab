//! Generic structural lifters.
//!
//! Each lifter carries a per-element conversion through one container shape
//! — optional values, owned indirection, sequences, pairs — without bespoke
//! per-container logic.  The conversion is handed in as a function value;
//! the lifter's contract ties every output element to the conversion's own
//! contract through `call_ensures`.

use vstd::prelude::*;
use crate::strmap::{StrMap, spec_insert, distinct_keys};

verus! {

/// Folding a sequence of pairs into a mapping, first to last; of two pairs
/// with one key the later one wins.
pub open spec fn spec_insert_all<W>(s: Seq<(Seq<char>, W)>) -> Seq<(Seq<char>, W)>
    decreases s.len(),
{
    if s.len() == 0 {
        Seq::empty()
    } else {
        spec_insert(spec_insert_all(s.drop_last()), s.last().0, s.last().1)
    }
}

/// Folding pairs whose keys are already pairwise distinct reproduces the
/// pairs unchanged: no entry is dropped and the order is kept.
pub proof fn lemma_insert_all_of_distinct<W>(s: Seq<(Seq<char>, W)>)
    requires
        distinct_keys(s),
    ensures
        spec_insert_all(s) == s,
    decreases s.len(),
{
    if s.len() > 0 {
        let d = s.drop_last();
        assert(distinct_keys(d));
        lemma_insert_all_of_distinct(d);
        assert(forall|i: int| 0 <= i < d.len() ==> d[i].0 != s.last().0);
        assert(spec_insert(d, s.last().0, s.last().1) =~= s);
    }
}

/// The set of keys of an entry sequence.
pub open spec fn key_set<W>(s: Seq<(Seq<char>, W)>) -> Set<Seq<char>> {
    Set::new(|k: Seq<char>| exists|i: int| 0 <= i < s.len() && (#[trigger] s[i]).0 == k)
}

/// Inserting one pair adds exactly its key to the key set.
proof fn lemma_insert_key_set<W>(s: Seq<(Seq<char>, W)>, k: Seq<char>, v: W)
    ensures
        key_set(spec_insert(s, k, v)) == key_set(s).insert(k),
{
    let r = spec_insert(s, k, v);
    assert forall|x: Seq<char>| key_set(r).contains(x) implies key_set(s).insert(k).contains(x) by {
        let i = choose|i: int| 0 <= i < r.len() && r[i].0 == x;
        if exists|n: int| 0 <= n < s.len() && s[n].0 == k {
            let n = choose|n: int| 0 <= n < s.len() && s[n].0 == k;
            if i != n {
                assert(s[i].0 == x);
            }
        } else {
            if i < s.len() {
                assert(s[i].0 == x);
            }
        }
    }
    assert forall|x: Seq<char>| key_set(s).insert(k).contains(x) implies key_set(r).contains(x) by {
        if x == k {
            if exists|n: int| 0 <= n < s.len() && s[n].0 == k {
                let n = choose|n: int| 0 <= n < s.len() && s[n].0 == k;
                assert(r[n].0 == k);
            } else {
                assert(r[s.len() as int].0 == k);
            }
        } else {
            let i = choose|i: int| 0 <= i < s.len() && s[i].0 == x;
            if exists|n: int| 0 <= n < s.len() && s[n].0 == k {
                let n = choose|n: int| 0 <= n < s.len() && s[n].0 == k;
                assert(r[i].0 == x);
            } else {
                assert(r[i].0 == x);
            }
        }
    }
    assert(key_set(r) =~= key_set(s).insert(k));
}

/// Folding pairs into a mapping keeps exactly their keys: even where two
/// pairs collide on one key, the key itself survives, so the mapping's key
/// set equals the key set of the pairs.
pub proof fn lemma_insert_all_key_set<W>(s: Seq<(Seq<char>, W)>)
    ensures
        key_set(spec_insert_all(s)) == key_set(s),
    decreases s.len(),
{
    if s.len() == 0 {
        assert(key_set(spec_insert_all(s)) =~= key_set(s));
    } else {
        let d = s.drop_last();
        lemma_insert_all_key_set(d);
        lemma_insert_key_set(spec_insert_all(d), s.last().0, s.last().1);
        assert(key_set(s) =~= key_set(d).insert(s.last().0)) by {
            assert forall|x: Seq<char>| key_set(s).contains(x) implies key_set(d).insert(
                s.last().0,
            ).contains(x) by {
                let i = choose|i: int| 0 <= i < s.len() && s[i].0 == x;
                if i < s.len() - 1 {
                    assert(d[i].0 == x);
                }
            }
            assert forall|x: Seq<char>| key_set(d).insert(s.last().0).contains(x) implies key_set(
                s,
            ).contains(x) by {
                if x == s.last().0 {
                    assert(s[s.len() - 1].0 == x);
                } else {
                    let i = choose|i: int| 0 <= i < d.len() && d[i].0 == x;
                    assert(s[i].0 == x);
                }
            }
        }
    }
}

/// Identity migration for a primitive leaf: the value is returned unchanged.
pub fn lift_leaf<T>(x: T) -> (r: T)
    ensures
        r == x,
{
    x
}

/// Lifts a conversion through an optional value: absent stays absent,
/// present values are converted.
pub fn lift_option<T, U, F: Fn(T) -> U>(o: Option<T>, f: &F) -> (r: Option<U>)
    requires
        forall|x: T| call_requires(*f, (x,)),
    ensures
        match o {
            Option::None => r is None,
            Option::Some(x) => r matches Some(y) && call_ensures(*f, (x,), y),
        },
{
    match o {
        Option::None => Option::None,
        Option::Some(x) => Option::Some(f(x)),
    }
}

/// Lifts a conversion through owned indirection: unwrap, convert, rewrap.
pub fn lift_box<T, U, F: Fn(T) -> U>(b: Box<T>, f: &F) -> (r: Box<U>)
    requires
        forall|x: T| call_requires(*f, (x,)),
    ensures
        call_ensures(*f, (*b,), *r),
{
    Box::new(f(*b))
}

/// Lifts a conversion through a sequence, element by element; order and
/// length are preserved.
pub fn lift_vec<T, U, F: Fn(T) -> U>(v: Vec<T>, f: &F) -> (r: Vec<U>)
    requires
        forall|x: T| call_requires(*f, (x,)),
    ensures
        r@.len() == v@.len(),
        forall|i: int| 0 <= i < v@.len() ==> call_ensures(*f, (v@[i],), #[trigger] r@[i]),
{
    let ghost orig = v@;
    let mut v = v;
    let mut r: Vec<U> = Vec::new();
    while v.len() > 0
        invariant
            forall|x: T| call_requires(*f, (x,)),
            r@.len() + v@.len() == orig.len(),
            v@ == orig.subrange(r@.len() as int, orig.len() as int),
            forall|i: int| 0 <= i < r@.len() ==> call_ensures(*f, (orig[i],), #[trigger] r@[i]),
        decreases v@.len(),
    {
        let x = v.remove(0);
        assert(x == orig[r@.len() as int]);
        r.push(f(x));
        proof {
            assert(v@ =~= orig.subrange(r@.len() as int, orig.len() as int));
        }
    }
    r
}

/// Lifts a conversion through a borrowed sequence, element by element.
pub fn lift_vec_ref<T, U, F: Fn(&T) -> U>(v: &Vec<T>, f: &F) -> (r: Vec<U>)
    requires
        forall|x: &T| call_requires(*f, (x,)),
    ensures
        r@.len() == v@.len(),
        forall|i: int| 0 <= i < v@.len() ==> call_ensures(*f, (&v@[i],), #[trigger] r@[i]),
{
    let mut r: Vec<U> = Vec::new();
    let mut i: usize = 0;
    while i < v.len()
        invariant
            forall|x: &T| call_requires(*f, (x,)),
            0 <= i <= v@.len(),
            r@.len() == i,
            forall|j: int| 0 <= j < i ==> call_ensures(*f, (&v@[j],), #[trigger] r@[j]),
        decreases v@.len() - i,
    {
        r.push(f(&v[i]));
        i = i + 1;
    }
    r
}

/// Lifts a key conversion and a value conversion through a mapping.
///
/// Every key and every value is converted; the entry order is the input's.
/// If two distinct converted keys collapse to one, the later entry (by the
/// input's order) wins and the earlier one is silently dropped — an accepted
/// edge of the fold below, not a designed guarantee.
pub fn lift_strmap<V, W, FK: Fn(String) -> String, FV: Fn(V) -> W>(
    m: StrMap<V>,
    fk: &FK,
    fv: &FV,
    Ghost(gk): Ghost<spec_fn(Seq<char>) -> Seq<char>>,
) -> (r: (StrMap<W>, Ghost<Seq<(Seq<char>, W)>>))
    requires
        forall|x: String| call_requires(*fk, (x,)),
        forall|x: V| call_requires(*fv, (x,)),
        forall|x: String, y: String| call_ensures(*fk, (x,), y) ==> y@ == gk(x@),
    ensures
        r.0.wf(),
        r.1@.len() == m.model().len(),
        forall|i: int| 0 <= i < r.1@.len() ==> (#[trigger] r.1@[i]).0 == gk(m.model()[i].0),
        forall|i: int| 0 <= i < r.1@.len()
            ==> call_ensures(*fv, (m.model()[i].1,), (#[trigger] r.1@[i]).1),
        r.0.model() == spec_insert_all(r.1@),
{
    let ghost mm = m.model();
    let mut entries = m.into_entries();
    let ghost n = entries@.len();
    let mut r: StrMap<W> = StrMap::new();
    let ghost mut ps: Seq<(Seq<char>, W)> = Seq::empty();
    while entries.len() > 0
        invariant
            forall|x: String| call_requires(*fk, (x,)),
            forall|x: V| call_requires(*fv, (x,)),
            ps.len() + entries@.len() == n,
            mm.len() == n,
            forall|j: int| 0 <= j < entries@.len()
                ==> (#[trigger] entries@[j].0@, entries@[j].1) == mm[ps.len() + j],
            forall|x: String, y: String| call_ensures(*fk, (x,), y) ==> y@ == gk(x@),
            forall|j: int| 0 <= j < ps.len() ==> (#[trigger] ps[j]).0 == gk(mm[j].0),
            forall|j: int| 0 <= j < ps.len()
                ==> call_ensures(*fv, (mm[j].1,), (#[trigger] ps[j]).1),
            r.wf(),
            r.model() == spec_insert_all(ps),
        decreases entries@.len(),
    {
        let ghost i = ps.len() as int;
        proof {
            assert((entries@[0].0@, entries@[0].1) == mm[i]);
        }
        let (k0, v0) = entries.remove(0);
        let ghost gk0 = k0;
        let k1 = fk(k0);
        let w = fv(v0);
        let ghost psn = ps.push((k1@, w));
        r.insert(k1, w);
        proof {
            assert(psn.drop_last() =~= ps);
            assert(spec_insert_all(psn)
                == spec_insert(spec_insert_all(ps), psn.last().0, psn.last().1));
            assert(k1@ == gk(gk0@) && gk0@ == mm[i].0 && psn[i].0 == k1@);
            ps = psn;
        }
    }
    (r, Ghost(ps))
}

/// Lifts two conversions through a fixed pair, position by position.
pub fn lift_pair<T0, T1, U0, U1, F0: Fn(T0) -> U0, F1: Fn(T1) -> U1>(
    p: (T0, T1),
    f0: &F0,
    f1: &F1,
) -> (r: (U0, U1))
    requires
        call_requires(*f0, (p.0,)),
        call_requires(*f1, (p.1,)),
    ensures
        call_ensures(*f0, (p.0,), r.0),
        call_ensures(*f1, (p.1,), r.1),
{
    let (a, b) = p;
    (f0(a), f1(b))
}

} // verus!
