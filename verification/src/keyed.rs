//! A small kit for vectors whose elements carry a string key: first-match
//! lookup, a uniqueness predicate, and the lemmas that relate lookup to
//! push, update and removal. The registries of this crate (tools, files,
//! pending approvals) are such vectors.

use vstd::prelude::*;
use crate::strutil::str_eq;

verus! {

/// An element addressed by a string key.
pub trait Keyed: Sized {
    spec fn spec_key(&self) -> Seq<char>;

    fn key(&self) -> (k: &str)
        ensures
            k@ == self.spec_key(),
    ;
}

/// The first element of `s` whose key is `k`, if any.
pub open spec fn lookup<T: Keyed>(s: Seq<T>, k: Seq<char>) -> Option<T>
    decreases s.len(),
{
    if s.len() == 0 {
        None
    } else if s[0].spec_key() == k {
        Some(s[0])
    } else {
        lookup(s.drop_first(), k)
    }
}

/// No two elements of `s` share a key.
pub open spec fn unique_keys<T: Keyed>(s: Seq<T>) -> bool {
    forall|i: int, j: int|
        0 <= i < j < s.len() ==> (#[trigger] s[i]).spec_key() != (#[trigger] s[j]).spec_key()
}

/// Lookup misses exactly when no element carries the key; a hit returns
/// an element of the sequence carrying the key.
pub proof fn lemma_lookup_characterization<T: Keyed>(s: Seq<T>, k: Seq<char>)
    ensures
        lookup(s, k) is None <==> (forall|j: int|
            0 <= j < s.len() ==> (#[trigger] s[j]).spec_key() != k),
        lookup(s, k) is Some ==> (exists|j: int|
            0 <= j < s.len() && #[trigger] s[j] == lookup(s, k)->Some_0 && s[j].spec_key() == k),
    decreases s.len(),
{
    if s.len() > 0 {
        lemma_lookup_characterization(s.drop_first(), k);
        assert(forall|p: int| 0 <= p < s.drop_first().len() ==> #[trigger] s.drop_first()[p] == s[p
            + 1]);
        if s[0].spec_key() != k {
            assert(lookup(s, k) == lookup(s.drop_first(), k));
            if lookup(s.drop_first(), k) is None {
                assert(forall|j: int|
                    0 <= j < s.len() ==> (#[trigger] s[j]).spec_key() != k) by {
                    assert(forall|j: int|
                        1 <= j < s.len() ==> s[j] == s.drop_first()[j - 1] && (
                        #[trigger] s[j]).spec_key() == s.drop_first()[j - 1].spec_key());
                }
            }
            if lookup(s.drop_first(), k) is Some {
                let j = choose|j: int|
                    0 <= j < s.drop_first().len() && #[trigger] s.drop_first()[j] == lookup(
                        s.drop_first(),
                        k,
                    )->Some_0 && s.drop_first()[j].spec_key() == k;
                assert(s[j + 1] == lookup(s, k)->Some_0 && s[j + 1].spec_key() == k);
            }
        }
    }
}

/// The first match is the match found before index `i`, or `s[i]` when
/// nothing before `i` carries the key.
pub proof fn lemma_lookup_first_match<T: Keyed>(s: Seq<T>, k: Seq<char>, i: int)
    requires
        0 <= i < s.len(),
        s[i].spec_key() == k,
        forall|j: int| 0 <= j < i ==> (#[trigger] s[j]).spec_key() != k,
    ensures
        lookup(s, k) == Some(s[i]),
    decreases i,
{
    if i > 0 {
        lemma_lookup_first_match(s.drop_first(), k, i - 1);
    }
}

/// Appending an element leaves every earlier first match in place; a key
/// that previously missed now finds the new element when it carries it.
pub proof fn lemma_lookup_push<T: Keyed>(s: Seq<T>, x: T, k: Seq<char>)
    ensures
        lookup(s.push(x), k) == (if lookup(s, k) is Some {
            lookup(s, k)
        } else if x.spec_key() == k {
            Some(x)
        } else {
            None
        }),
    decreases s.len(),
{
    if s.len() == 0 {
        assert(s.push(x)[0] == x);
        assert(s.push(x).drop_first() =~= Seq::<T>::empty());
        assert(lookup(s.push(x).drop_first(), k) is None);
        assert(lookup(s, k) is None);
    } else {
        lemma_lookup_push(s.drop_first(), x, k);
        assert(s.push(x).drop_first() =~= s.drop_first().push(x));
        assert(s.push(x)[0] == s[0]);
        assert(lookup(s.push(x).drop_first(), k) == lookup(s.drop_first().push(x), k));
        if s[0].spec_key() == k {
            assert(lookup(s.push(x), k) == Some(s[0]));
        } else {
            assert(lookup(s.push(x), k) == lookup(s.drop_first().push(x), k));
            assert(lookup(s, k) == lookup(s.drop_first(), k));
        }
    }
}

/// Replacing the element at `i` by one with the same key rewrites the
/// first match for that key and no other, provided keys are unique.
pub proof fn lemma_lookup_update<T: Keyed>(s: Seq<T>, i: int, x: T, k: Seq<char>)
    requires
        0 <= i < s.len(),
        unique_keys(s),
        x.spec_key() == s[i].spec_key(),
    ensures
        lookup(s.update(i, x), k) == (if s[i].spec_key() == k {
            Some(x)
        } else {
            lookup(s, k)
        }),
    decreases i,
{
    if i == 0 {
        if s[0].spec_key() != k {
            assert(s.update(0, x).drop_first() =~= s.drop_first());
        }
    } else {
        assert(s.update(i, x)[0] == s[0]);
        if s[0].spec_key() == k {
        } else {
            assert(s.update(i, x).drop_first() =~= s.drop_first().update(i - 1, x));
            assert(unique_keys(s.drop_first())) by {
                assert(forall|p: int, q: int|
                    0 <= p < q < s.drop_first().len() ==> (#[trigger] s.drop_first()[p]).spec_key()
                        != (#[trigger] s.drop_first()[q]).spec_key()) by {
                    assert(forall|p: int|
                        0 <= p < s.drop_first().len() ==> #[trigger] s.drop_first()[p] == s[p + 1]);
                }
            }
            lemma_lookup_update(s.drop_first(), i - 1, x, k);
        }
    }
}

/// Removing the element at `i` erases the first match for its key and no
/// other, provided keys are unique.
pub proof fn lemma_lookup_remove<T: Keyed>(s: Seq<T>, i: int, k: Seq<char>)
    requires
        0 <= i < s.len(),
        unique_keys(s),
    ensures
        lookup(s.remove(i), k) == (if s[i].spec_key() == k {
            None::<T>
        } else {
            lookup(s, k)
        }),
    decreases i,
{
    assert(forall|p: int| 0 <= p < s.drop_first().len() ==> #[trigger] s.drop_first()[p] == s[p
        + 1]);
    assert(unique_keys(s.drop_first()));
    if i == 0 {
        assert(s.remove(0) =~= s.drop_first());
        if s[0].spec_key() == k {
            lemma_lookup_characterization(s, k);
            lemma_lookup_characterization(s.drop_first(), k);
            assert(forall|j: int|
                0 <= j < s.drop_first().len() ==> (#[trigger] s.drop_first()[j]).spec_key() != k);
        }
    } else {
        assert(s.remove(i)[0] == s[0]);
        if s[0].spec_key() == k {
        } else {
            assert(s.remove(i).drop_first() =~= s.drop_first().remove(i - 1));
            lemma_lookup_remove(s.drop_first(), i - 1, k);
        }
    }
}

/// Lookup over a concatenation: the front half answers first.
pub proof fn lemma_lookup_append<T: Keyed>(s1: Seq<T>, s2: Seq<T>, k: Seq<char>)
    ensures
        lookup(s1 + s2, k) == (if lookup(s1, k) is Some {
            lookup(s1, k)
        } else {
            lookup(s2, k)
        }),
    decreases s1.len(),
{
    if s1.len() == 0 {
        assert(s1 + s2 =~= s2);
    } else {
        assert((s1 + s2)[0] == s1[0]);
        assert((s1 + s2).drop_first() =~= s1.drop_first() + s2);
        lemma_lookup_append(s1.drop_first(), s2, k);
    }
}

/// Uniqueness survives concatenation of disjointly-keyed halves.
pub proof fn lemma_unique_append<T: Keyed>(s1: Seq<T>, s2: Seq<T>)
    requires
        unique_keys(s1),
        unique_keys(s2),
        forall|i: int, j: int|
            0 <= i < s1.len() && 0 <= j < s2.len() ==> (#[trigger] s1[i]).spec_key() != (
            #[trigger] s2[j]).spec_key(),
    ensures
        unique_keys(s1 + s2),
{
    assert(forall|i: int|
        0 <= i < s1.len() ==> #[trigger] (s1 + s2)[i] == s1[i]);
    assert(forall|i: int|
        s1.len() <= i < s1.len() + s2.len() ==> #[trigger] (s1 + s2)[i] == s2[i - s1.len()]);
}

/// Uniqueness survives appending an element whose key misses.
pub proof fn lemma_unique_push<T: Keyed>(s: Seq<T>, x: T)
    requires
        unique_keys(s),
        lookup(s, x.spec_key()) is None,
    ensures
        unique_keys(s.push(x)),
{
    lemma_lookup_characterization(s, x.spec_key());
    assert(forall|p: int| 0 <= p < s.len() ==> #[trigger] s.push(x)[p] == s[p]);
    assert(s.push(x)[s.len() as int] == x);
}

/// Uniqueness survives replacing an element by one with the same key.
pub proof fn lemma_unique_update<T: Keyed>(s: Seq<T>, i: int, x: T)
    requires
        0 <= i < s.len(),
        unique_keys(s),
        x.spec_key() == s[i].spec_key(),
    ensures
        unique_keys(s.update(i, x)),
{
}

/// Uniqueness survives removal.
pub proof fn lemma_unique_remove<T: Keyed>(s: Seq<T>, i: int)
    requires
        0 <= i < s.len(),
        unique_keys(s),
    ensures
        unique_keys(s.remove(i)),
{
    assert(forall|p: int|
        0 <= p < s.remove(i).len() ==> #[trigger] s.remove(i)[p] == (if p < i {
            s[p]
        } else {
            s[p + 1]
        }));
}

/// The index of the first element keyed `k`, searched front to back.
pub fn find_index<T: Keyed>(v: &Vec<T>, k: &str) -> (r: Option<usize>)
    ensures
        match r {
            Some(i) => i < v@.len() && v@[i as int].spec_key() == k@ && lookup(v@, k@) == Some(
                v@[i as int],
            ),
            None => lookup(v@, k@) is None,
        },
{
    let n = v.len();
    let mut i: usize = 0;
    while i < n
        invariant
            n == v@.len(),
            i <= n,
            forall|j: int| 0 <= j < i ==> (#[trigger] v@[j]).spec_key() != k@,
        decreases n - i,
    {
        if str_eq(v[i].key(), k) {
            proof {
                lemma_lookup_first_match(v@, k@, i as int);
            }
            return Some(i);
        }
        i = i + 1;
    }
    proof {
        lemma_lookup_characterization(v@, k@);
    }
    None
}

} // verus!
