//! Stable sorting by an integer key, as `sort_by_key` does.
use vstd::prelude::*;

verus! {

/// Items that are sorted by an integer key.
pub trait SortKey {
    /// The key, as a mathematical integer.
    spec fn sort_key(&self) -> int;

    /// The key, computed.
    fn key(&self) -> (k: i128)
        ensures
            k == self.sort_key(),
    ;
}

/// Number of leading items of `s` whose key is at most `k`.
pub open spec fn count_not_after<T: SortKey>(s: Seq<T>, k: int) -> nat
    decreases s.len(),
{
    if s.len() == 0 {
        0
    } else if s[0].sort_key() <= k {
        1 + count_not_after(s.drop_first(), k)
    } else {
        0
    }
}

/// `x` placed after every leading item of the sorted `s` whose key is at most its own.
pub open spec fn insert_after_equals<T: SortKey>(s: Seq<T>, x: T) -> Seq<T> {
    let i = count_not_after(s, x.sort_key()) as int;
    s.subrange(0, i).push(x) + s.subrange(i, s.len() as int)
}

/// `s` ordered by key, items with equal keys keeping their order: the stable sort.
pub open spec fn stable_sorted<T: SortKey>(s: Seq<T>) -> Seq<T>
    decreases s.len(),
{
    if s.len() == 0 {
        s
    } else {
        insert_after_equals(stable_sorted(s.drop_last()), s.last())
    }
}

/// Keys never decrease along `s`.
pub open spec fn keys_ascending<T: SortKey>(s: Seq<T>) -> bool {
    forall|i: int, j: int| 0 <= i <= j < s.len() ==> #[trigger] s[i].sort_key() <= #[trigger] s[j].sort_key()
}

proof fn lemma_count_bounds<T: SortKey>(s: Seq<T>, k: int)
    requires
        keys_ascending(s),
    ensures
        count_not_after(s, k) <= s.len(),
        forall|j: int| 0 <= j < count_not_after(s, k) ==> #[trigger] s[j].sort_key() <= k,
        forall|j: int| count_not_after(s, k) <= j < s.len() ==> #[trigger] s[j].sort_key() > k,
    decreases s.len(),
{
    if s.len() > 0 {
        assert(keys_ascending(s.drop_first()));
        lemma_count_bounds(s.drop_first(), k);
        if s[0].sort_key() <= k {
            assert forall|j: int| 0 <= j < count_not_after(s, k) implies #[trigger] s[j].sort_key() <= k by {
                if j > 0 {
                    assert(s[j] == s.drop_first()[j - 1]);
                }
            }
            assert forall|j: int| count_not_after(s, k) <= j < s.len() implies #[trigger] s[j].sort_key() > k by {
                assert(s[j] == s.drop_first()[j - 1]);
            }
        } else {
            assert forall|j: int| 0 <= j < s.len() implies #[trigger] s[j].sort_key() > k by {
                assert(s[0].sort_key() <= s[j].sort_key());
            }
        }
    }
}

/// The stable sort orders by key and keeps every item.
pub proof fn law_stable_sorted_ascending<T: SortKey>(s: Seq<T>)
    ensures
        keys_ascending(stable_sorted(s)),
        stable_sorted(s).len() == s.len(),
        stable_sorted(s).to_multiset() == s.to_multiset(),
    decreases s.len(),
{
    if s.len() > 0 {
        let r = stable_sorted(s.drop_last());
        law_stable_sorted_ascending(s.drop_last());
        let x = s.last();
        lemma_count_bounds(r, x.sort_key());
        let i = count_not_after(r, x.sort_key()) as int;
        let out = insert_after_equals(r, x);
        assert(out.len() == r.len() + 1);
        assert forall|a: int, b: int| 0 <= a <= b < out.len() implies #[trigger] out[a].sort_key() <= #[trigger] out[b].sort_key() by {
            if a < i && b < i {
                assert(out[a] == r[a] && out[b] == r[b]);
            } else if a < i && b == i {
                assert(out[a] == r[a]);
            } else if a < i && b > i {
                assert(out[a] == r[a] && out[b] == r[b - 1]);
            } else if a == i && b == i {
            } else if a == i && b > i {
                assert(out[b] == r[b - 1]);
            } else {
                assert(out[a] == r[a - 1] && out[b] == r[b - 1]);
            }
        }
        vstd::seq_lib::lemma_multiset_commutative(r.subrange(0, i).push(x), r.subrange(i, r.len() as int));
        vstd::seq_lib::lemma_multiset_commutative(r.subrange(0, i), r.subrange(i, r.len() as int));
        assert(r.subrange(0, i) + r.subrange(i, r.len() as int) =~= r);
        assert(s.drop_last().push(x) =~= s);
        assert(r.subrange(0, i).push(x).to_multiset() =~= r.subrange(0, i).to_multiset().insert(x)) by {
            r.subrange(0, i).to_multiset_ensures();
        }
        assert(s.to_multiset() =~= s.drop_last().to_multiset().insert(x)) by {
            s.drop_last().to_multiset_ensures();
        }
    }
}

/// Returns `v` in stable key order.
pub fn sort_by_key_stable<T: SortKey>(v: Vec<T>) -> (r: Vec<T>)
    ensures
        r@ == stable_sorted(v@),
{
    let n = v.len();
    let mut input = v;
    let mut rev: Vec<T> = Vec::new();
    // take items from the back so that they can be re-inserted front to back
    while input.len() > 0
        invariant
            forall|j: int| 0 <= j < rev@.len() ==> #[trigger] rev@[j] == v@[input@.len() + rev@.len() - 1 - j],
            input@ == v@.subrange(0, input@.len() as int),
            input@.len() + rev@.len() == v@.len(),
        decreases input.len(),
    {
        let x = input.pop().unwrap();
        rev.push(x);
    }
    let mut out: Vec<T> = Vec::new();
    proof {
        assert(v@.subrange(0, 0) =~= Seq::<T>::empty());
    }
    while rev.len() > 0
        invariant
            n == v@.len(),
            rev@.len() <= n,
            forall|j: int| 0 <= j < rev@.len() ==> #[trigger] rev@[j] == v@[n - 1 - j],
            out@ == stable_sorted(v@.subrange(0, n - rev@.len())),
        decreases rev.len(),
    {
        let x = rev.pop().unwrap();
        let ghost done = n - rev@.len() - 1;
        proof {
            assert(x == v@[done]);
            let p = v@.subrange(0, done + 1);
            assert(p.drop_last() =~= v@.subrange(0, done));
            assert(p.last() == x);
            law_stable_sorted_ascending(v@.subrange(0, done));
        }
        let kx = x.key();
        let mut i: usize = 0;
        while i < out.len() && out[i].key() <= kx
            invariant
                i <= out@.len(),
                kx == x.sort_key(),
                keys_ascending(out@),
                forall|j: int| 0 <= j < i ==> #[trigger] out@[j].sort_key() <= kx,
            decreases out.len() - i,
        {
            i = i + 1;
        }
        proof {
            lemma_count_bounds(out@, kx as int);
            let c = count_not_after(out@, kx as int) as int;
            if i < out@.len() {
                assert(out@[i as int].sort_key() > kx);
            }
            if c < i {
                assert(out@[c].sort_key() <= kx);
            }
            assert(count_not_after(out@, kx as int) == i);
        }
        let ghost before = out@;
        out.insert(i, x);
        proof {
            assert(out@ =~= insert_after_equals(before, x));
        }
    }
    assert(v@.subrange(0, n as int) =~= v@);
    out
}

} // verus!
