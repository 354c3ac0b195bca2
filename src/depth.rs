use std::cmp::Ordering;
use vstd::prelude::*;

verus! {

broadcast use vstd::seq_lib::group_seq_properties;

/// Three-way comparison of two integers.
pub open spec fn order_of(a: int, b: int) -> Ordering {
    if a < b {
        Ordering::Less
    } else if a == b {
        Ordering::Equal
    } else {
        Ordering::Greater
    }
}

/// Something painted in depth order: what has the lower depth is painted
/// first, so that what is painted later covers it.
pub trait Comparable: Sized {
    spec fn depth(&self) -> int;

    fn compare(&self, other: &Self) -> (r: Ordering)
        ensures
            r == order_of(self.depth(), other.depth()),
    ;
}

pub open spec fn is_depth_sorted<T: Comparable>(s: Seq<T>) -> bool {
    forall|i: int, j: int| 0 <= i < j < s.len() ==> #[trigger] s[i].depth() <= #[trigger] s[j].depth()
}

/// Inserts `x` into `s` after every item of `s`, counted from the end, whose
/// depth exceeds that of `x`.
pub open spec fn insert_by_depth<T: Comparable>(s: Seq<T>, x: T) -> Seq<T>
    decreases s.len(),
{
    if s.len() == 0 {
        seq![x]
    } else if s.last().depth() <= x.depth() {
        s.push(x)
    } else {
        insert_by_depth(s.drop_last(), x).push(s.last())
    }
}

/// `s` in depth order; items of equal depth keep their order in `s`.
pub open spec fn depth_sorted<T: Comparable>(s: Seq<T>) -> Seq<T>
    decreases s.len(),
{
    if s.len() == 0 {
        s
    } else {
        insert_by_depth(depth_sorted(s.drop_last()), s.last())
    }
}

/// Inserting by depth puts `x` at `p` when everything from `p` on lies
/// deeper than `x` and the item before `p` does not.
proof fn lemma_insert_at<T: Comparable>(s: Seq<T>, x: T, p: int)
    requires
        0 <= p <= s.len(),
        forall|k: int| p <= k < s.len() ==> #[trigger] s[k].depth() > x.depth(),
        p == 0 || s[p - 1].depth() <= x.depth(),
    ensures
        insert_by_depth(s, x) == s.insert(p, x),
    decreases s.len(),
{
    if s.len() == 0 {
        assert(s.insert(p, x) =~= seq![x]);
    } else if s.last().depth() <= x.depth() {
        assert(s.insert(p, x) =~= s.push(x));
    } else {
        let t = s.drop_last();
        lemma_insert_at(t, x, p);
        assert(t.insert(p, x).push(s.last()) =~= s.insert(p, x));
    }
}

proof fn lemma_insert_multiset<T: Comparable>(s: Seq<T>, x: T)
    ensures
        insert_by_depth(s, x).to_multiset() == s.to_multiset().insert(x),
        insert_by_depth(s, x).len() == s.len() + 1,
    decreases s.len(),
{
    broadcast use vstd::seq_lib::to_multiset_build;

    if s.len() == 0 {
        assert(seq![x] =~= s.push(x));
    } else if s.last().depth() <= x.depth() {
    } else {
        let t = s.drop_last();
        lemma_insert_multiset(t, x);
        assert(t.push(s.last()) =~= s);
        assert(insert_by_depth(t, x).push(s.last()).to_multiset() =~= s.to_multiset().insert(x));
    }
}

proof fn lemma_insert_sorted<T: Comparable>(s: Seq<T>, x: T)
    requires
        is_depth_sorted(s),
    ensures
        is_depth_sorted(insert_by_depth(s, x)),
    decreases s.len(),
{
    broadcast use vstd::seq_lib::to_multiset_contains;

    if s.len() == 0 {
    } else if s.last().depth() <= x.depth() {
        let r = s.push(x);
        assert forall|i: int, j: int| 0 <= i < j < r.len() implies #[trigger] r[i].depth()
            <= #[trigger] r[j].depth() by {
            if j == s.len() {
                if i < s.len() - 1 {
                    assert(s[i].depth() <= s[s.len() - 1].depth());
                }
            }
        }
    } else {
        let t = s.drop_last();
        let last = s.last();
        lemma_insert_sorted(t, x);
        lemma_insert_multiset(t, x);
        let u = insert_by_depth(t, x);
        let r = u.push(last);
        assert forall|i: int, j: int| 0 <= i < j < r.len() implies #[trigger] r[i].depth()
            <= #[trigger] r[j].depth() by {
            if j == u.len() {
                let e = u[i];
                assert(u.contains(e));
                assert(u.to_multiset().count(e) > 0);
                if e != x {
                    assert(t.to_multiset().count(e) > 0);
                    let k = choose|k: int| 0 <= k < t.len() && t[k] == e;
                    assert(s[k].depth() <= s[s.len() - 1].depth());
                }
            }
        }
    }
}

/// Sorting by depth gives a sequence in depth order that holds the same
/// items as the input.
pub proof fn lemma_depth_sorted_sorts<T: Comparable>(s: Seq<T>)
    ensures
        is_depth_sorted(depth_sorted(s)),
        depth_sorted(s).to_multiset() == s.to_multiset(),
        depth_sorted(s).len() == s.len(),
    decreases s.len(),
{
    broadcast use vstd::seq_lib::to_multiset_build;

    if s.len() > 0 {
        let t = s.drop_last();
        lemma_depth_sorted_sorts(t);
        lemma_insert_sorted(depth_sorted(t), s.last());
        lemma_insert_multiset(depth_sorted(t), s.last());
        assert(t.push(s.last()) =~= s);
    }
}

/// A sequence that is already in depth order is left as it is.
pub proof fn lemma_depth_sorted_keeps_sorted<T: Comparable>(s: Seq<T>)
    requires
        is_depth_sorted(s),
    ensures
        depth_sorted(s) == s,
    decreases s.len(),
{
    if s.len() > 0 {
        let t = s.drop_last();
        assert(is_depth_sorted(t));
        lemma_depth_sorted_keeps_sorted(t);
        if t.len() > 0 {
            assert(t.last().depth() <= s.last().depth());
        }
        assert(t.push(s.last()) =~= s);
    }
}

/// Sorting by depth is idempotent: sorting what is already sorted changes
/// nothing.
pub proof fn lemma_depth_sort_idempotent<T: Comparable>(s: Seq<T>)
    ensures
        depth_sorted(depth_sorted(s)) == depth_sorted(s),
{
    lemma_depth_sorted_sorts(s);
    lemma_depth_sorted_keeps_sorted(depth_sorted(s));
}

/// Sorts `v` in place by depth, keeping items of equal depth in their order.
pub fn sort_by_depth<T: Comparable>(v: &mut Vec<T>)
    ensures
        final(v)@ == depth_sorted(old(v)@),
        is_depth_sorted(final(v)@),
        final(v)@.to_multiset() == old(v)@.to_multiset(),
{
    let ghost s = v@;
    let n = v.len();
    let mut i: usize = 0;
    while i < n
        invariant
            n == s.len(),
            v@.len() == n,
            0 <= i <= n,
            v@.take(i as int) == depth_sorted(s.take(i as int)),
            v@.skip(i as int) == s.skip(i as int),
        decreases n - i,
    {
        let ghost before = v@;
        let x = v.remove(i);
        assert(x == s[i as int]) by {
            assert(s.skip(i as int)[0] == s[i as int]);
        }
        let mut p: usize = i;
        loop
            invariant
                0 <= p <= i,
                i < n,
                before.len() == n,
                v@ == before.remove(i as int),
                forall|k: int| p <= k < i ==> #[trigger] v@[k].depth() > x.depth(),
            ensures
                0 <= p <= i,
                v@ == before.remove(i as int),
                forall|k: int| p <= k < i ==> #[trigger] v@[k].depth() > x.depth(),
                p == 0 || v@[p - 1].depth() <= x.depth(),
            decreases p,
        {
            if p == 0 {
                break;
            }
            match v[p - 1].compare(&x) {
                Ordering::Greater => {
                    p = p - 1;
                },
                _ => {
                    break;
                },
            }
        }
        let ghost prefix = v@.take(i as int);
        proof {
            assert(prefix =~= before.take(i as int));
            assert forall|k: int| p <= k < prefix.len() implies #[trigger] prefix[k].depth()
                > x.depth() by {
                assert(prefix[k] == v@[k]);
            }
            lemma_insert_at(prefix, x, p as int);
            assert(s.take(i + 1).drop_last() =~= s.take(i as int));
        }
        v.insert(p, x);
        proof {
            assert(v@.take(i + 1) =~= prefix.insert(p as int, x));
            assert(v@.skip(i + 1) =~= s.skip(i + 1)) by {
                assert forall|k: int| 0 <= k < v@.skip(i + 1).len() implies #[trigger] v@.skip(i + 1)[k]
                    == s.skip(i + 1)[k] by {
                    assert(before[i + 1 + k] == s.skip(i as int)[1 + k]);
                }
            }
        }
        i = i + 1;
    }
    proof {
        assert(s.take(n as int) =~= s);
        assert(v@.take(n as int) =~= v@);
        lemma_depth_sorted_sorts(s);
    }
}

} // verus!
