//! Keyed relations stored as lists of pairs.
//!
//! The ledger keeps its per-owner index and its three lineage relations as
//! append-only lists of pairs without duplicates.  This module gives the
//! spec-level vocabulary for such lists (duplicate freedom, the entries
//! filed under one key) and the verified point lookups, insertions,
//! removals and prefix enumerations over them.

use vstd::prelude::*;

verus! {

/// No element occurs twice in the sequence.
pub open spec fn no_dup<T>(s: Seq<T>) -> bool {
    forall|i: int, j: int| 0 <= i < j < s.len() ==> s[i] != s[j]
}

/// The second components of the pairs filed under `key`, in list order.
pub open spec fn rel_entries(s: Seq<(u32, u32)>, key: u32) -> Seq<u32>
    decreases s.len(),
{
    if s.len() == 0 {
        Seq::empty()
    } else {
        let rest = rel_entries(s.drop_last(), key);
        if s.last().0 == key {
            rest.push(s.last().1)
        } else {
            rest
        }
    }
}

/// The second components of the pairs filed under `key`, in list order.
pub open spec fn owner_entries(s: Seq<(u64, u32)>, key: u64) -> Seq<u32>
    decreases s.len(),
{
    if s.len() == 0 {
        Seq::empty()
    } else {
        let rest = owner_entries(s.drop_last(), key);
        if s.last().0 == key {
            rest.push(s.last().1)
        } else {
            rest
        }
    }
}

/// Appending a pair extends its key's entries by its second component and
/// leaves every other key's entries unchanged.
pub proof fn lemma_rel_entries_push(s: Seq<(u32, u32)>, key: u32, p: (u32, u32))
    ensures
        rel_entries(s.push(p), key) == if p.0 == key {
            rel_entries(s, key).push(p.1)
        } else {
            rel_entries(s, key)
        },
{
    assert(s.push(p).drop_last() =~= s);
}

/// Appending a pair extends its key's entries by its second component and
/// leaves every other key's entries unchanged.
pub proof fn lemma_owner_entries_push(s: Seq<(u64, u32)>, key: u64, p: (u64, u32))
    ensures
        owner_entries(s.push(p), key) == if p.0 == key {
            owner_entries(s, key).push(p.1)
        } else {
            owner_entries(s, key)
        },
{
    assert(s.push(p).drop_last() =~= s);
}

/// Membership in a pushed sequence is membership in the base sequence or
/// equality with the new element.
pub proof fn lemma_push_contains<T>(s: Seq<T>, x: T)
    ensures
        forall|y: T| #[trigger] s.push(x).contains(y) <==> s.contains(y) || y == x,
{
    assert forall|y: T| #[trigger] s.push(x).contains(y) implies s.contains(y) || y == x by {
        let j = choose|j: int| 0 <= j < s.push(x).len() && s.push(x)[j] == y;
        if j < s.len() {
            assert(s[j] == y);
        }
    };
    assert forall|y: T| s.contains(y) || y == x implies #[trigger] s.push(x).contains(y) by {
        if s.contains(y) {
            let j = choose|j: int| 0 <= j < s.len() && s[j] == y;
            assert(s.push(x)[j] == y);
        } else {
            assert(s.push(x)[s.len() as int] == y);
        }
    };
}

/// Appending an element that is not yet present keeps the sequence free of
/// duplicates.
pub proof fn lemma_no_dup_push<T>(s: Seq<T>, x: T)
    requires
        no_dup(s),
        !s.contains(x),
    ensures
        no_dup(s.push(x)),
{
    assert forall|i: int, j: int| 0 <= i < j < s.push(x).len() implies s.push(x)[i] != s.push(x)[j] by {
        if j == s.len() {
            assert(s[i] == s.push(x)[i]);
            if s.push(x)[i] == x {
                assert(s.contains(x));
            }
        }
    };
}

/// Removing position `i` from a duplicate-free sequence removes exactly the
/// membership of the element that stood there.
pub proof fn lemma_remove_unique<T>(s: Seq<T>, i: int)
    requires
        0 <= i < s.len(),
        no_dup(s),
    ensures
        no_dup(s.remove(i)),
        forall|y: T| #[trigger] s.remove(i).contains(y) <==> s.contains(y) && y != s[i],
        s.remove(i).len() == s.len() - 1,
{
    s.remove_ensures(i);
    let r = s.remove(i);
    assert forall|y: T| #[trigger] r.contains(y) implies s.contains(y) && y != s[i] by {
        let j = choose|j: int| 0 <= j < r.len() && r[j] == y;
        if j < i {
            assert(s[j] == y);
            assert(s[j] != s[i]);
        } else {
            assert(s[j + 1] == y);
            assert(s[j + 1] != s[i]);
        }
    };
    assert forall|y: T| s.contains(y) && y != s[i] implies #[trigger] r.contains(y) by {
        let j = choose|j: int| 0 <= j < s.len() && s[j] == y;
        if j < i {
            assert(r[j] == y);
        } else {
            assert(j != i);
            assert(r[j - 1] == y);
        }
    };
    assert forall|p: int, q: int| 0 <= p < q < r.len() implies r[p] != r[q] by {
        let p_src: int = if p < i { p } else { p + 1 };
        let q_src: int = if q < i { q } else { q + 1 };
        assert(r[p] == s[p_src]);
        assert(r[q] == s[q_src]);
    };
}

/// An id is among the entries filed under `key` exactly when the pair
/// `(key, id)` stands in the list: enumeration agrees with membership.
pub proof fn lemma_rel_entries_contains(s: Seq<(u32, u32)>, key: u32, id: u32)
    ensures
        rel_entries(s, key).contains(id) <==> s.contains((key, id)),
    decreases s.len(),
{
    if s.len() > 0 {
        lemma_rel_entries_contains(s.drop_last(), key, id);
        assert(s.drop_last().push(s.last()) =~= s);
        lemma_push_contains(s.drop_last(), s.last());
        if s.last().0 == key {
            lemma_push_contains(rel_entries(s.drop_last(), key), s.last().1);
        }
    }
}

/// An id is among the entries filed under `key` exactly when the pair
/// `(key, id)` stands in the list: enumeration agrees with membership.
pub proof fn lemma_owner_entries_contains(s: Seq<(u64, u32)>, key: u64, id: u32)
    ensures
        owner_entries(s, key).contains(id) <==> s.contains((key, id)),
    decreases s.len(),
{
    if s.len() > 0 {
        lemma_owner_entries_contains(s.drop_last(), key, id);
        assert(s.drop_last().push(s.last()) =~= s);
        lemma_push_contains(s.drop_last(), s.last());
        if s.last().0 == key {
            lemma_push_contains(owner_entries(s.drop_last(), key), s.last().1);
        }
    }
}

/// Whether the pair `(a, b)` stands in the list.
pub fn rel_contains(v: &Vec<(u32, u32)>, a: u32, b: u32) -> (r: bool)
    ensures
        r == v@.contains((a, b)),
{
    let mut i: usize = 0;
    while i < v.len()
        invariant
            0 <= i <= v@.len(),
            forall|j: int| 0 <= j < i ==> v@[j] != (a, b),
        decreases v@.len() - i,
    {
        if v[i].0 == a && v[i].1 == b {
            proof {
                assert(v@[i as int] == (a, b));
            }
            return true;
        }
        i = i + 1;
    }
    false
}

/// File the pair `(a, b)` in the list if it is not yet there.
pub fn rel_insert(v: &mut Vec<(u32, u32)>, a: u32, b: u32)
    requires
        no_dup(old(v)@),
    ensures
        final(v)@ == if old(v)@.contains((a, b)) {
            old(v)@
        } else {
            old(v)@.push((a, b))
        },
        no_dup(final(v)@),
{
    if !rel_contains(v, a, b) {
        proof {
            lemma_no_dup_push(v@, (a, b));
        }
        v.push((a, b));
    }
}

/// Whether the pair `(a, b)` stands in the list.
pub fn owner_pairs_contains(v: &Vec<(u64, u32)>, a: u64, b: u32) -> (r: bool)
    ensures
        r == v@.contains((a, b)),
{
    let mut i: usize = 0;
    while i < v.len()
        invariant
            0 <= i <= v@.len(),
            forall|j: int| 0 <= j < i ==> v@[j] != (a, b),
        decreases v@.len() - i,
    {
        if v[i].0 == a && v[i].1 == b {
            proof {
                assert(v@[i as int] == (a, b));
            }
            return true;
        }
        i = i + 1;
    }
    false
}

/// Remove the pair `(a, b)` from a duplicate-free list that holds it.
pub fn owner_pairs_remove(v: &mut Vec<(u64, u32)>, a: u64, b: u32)
    requires
        old(v)@.contains((a, b)),
        no_dup(old(v)@),
    ensures
        no_dup(final(v)@),
        forall|p: (u64, u32)| #[trigger] final(v)@.contains(p) <==> old(v)@.contains(p) && p != (a, b),
        final(v)@.len() == old(v)@.len() - 1,
{
    let ghost s = old(v)@;
    let mut i: usize = 0;
    while i < v.len()
        invariant
            s == old(v)@,
            v@ == s,
            0 <= i <= s.len(),
            forall|j: int| 0 <= j < i ==> s[j] != (a, b),
            s.contains((a, b)),
            no_dup(s),
        decreases s.len() - i,
    {
        if v[i].0 == a && v[i].1 == b {
            proof {
                assert(s[i as int] == (a, b));
                lemma_remove_unique(s, i as int);
            }
            v.remove(i);
            return;
        }
        i = i + 1;
    }
    proof {
        let j = choose|j: int| 0 <= j < s.len() && s[j] == (a, b);
        assert(false);
    }
}

/// The entries filed under `key`, in list order.
pub fn rel_values_for(v: &Vec<(u32, u32)>, key: u32) -> (r: Vec<u32>)
    ensures
        r@ == rel_entries(v@, key),
{
    let mut r: Vec<u32> = Vec::new();
    let mut i: usize = 0;
    while i < v.len()
        invariant
            0 <= i <= v@.len(),
            r@ == rel_entries(v@.subrange(0, i as int), key),
        decreases v@.len() - i,
    {
        proof {
            assert(v@.subrange(0, i + 1 as int) =~= v@.subrange(0, i as int).push(v@[i as int]));
            lemma_rel_entries_push(v@.subrange(0, i as int), key, v@[i as int]);
        }
        if v[i].0 == key {
            r.push(v[i].1);
        }
        i = i + 1;
    }
    proof {
        assert(v@.subrange(0, v@.len() as int) =~= v@);
    }
    r
}

/// The entries filed under `key`, in list order.
pub fn owner_values_for(v: &Vec<(u64, u32)>, key: u64) -> (r: Vec<u32>)
    ensures
        r@ == owner_entries(v@, key),
{
    let mut r: Vec<u32> = Vec::new();
    let mut i: usize = 0;
    while i < v.len()
        invariant
            0 <= i <= v@.len(),
            r@ == owner_entries(v@.subrange(0, i as int), key),
        decreases v@.len() - i,
    {
        proof {
            assert(v@.subrange(0, i + 1 as int) =~= v@.subrange(0, i as int).push(v@[i as int]));
            lemma_owner_entries_push(v@.subrange(0, i as int), key, v@[i as int]);
        }
        if v[i].0 == key {
            r.push(v[i].1);
        }
        i = i + 1;
    }
    proof {
        assert(v@.subrange(0, v@.len() as int) =~= v@);
    }
    r
}

} // verus!
