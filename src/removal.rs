//! Deferred removal: indices are collected while a collection is walked and
//! the marked elements are dropped afterwards, each at most once.
use vstd::prelude::*;

verus! {

/// The elements of `s` whose index is not in `marked`, in their order.
pub open spec fn kept<T>(s: Seq<T>, marked: Set<int>) -> Seq<T>
    decreases s.len(),
{
    if s.len() == 0 {
        s
    } else {
        let rest = kept(s.drop_last(), marked);
        if marked.contains(s.len() - 1) {
            rest
        } else {
            rest.push(s.last())
        }
    }
}

/// The elements of `s` that satisfy `keep`, in their order.
pub open spec fn retained<T>(s: Seq<T>, keep: spec_fn(T) -> bool) -> Seq<T>
    decreases s.len(),
{
    if s.len() == 0 {
        s
    } else {
        let rest = retained(s.drop_last(), keep);
        if keep(s.last()) {
            rest.push(s.last())
        } else {
            rest
        }
    }
}

/// Removing exactly the indices of the elements that fail `keep` leaves the
/// elements that satisfy it.
pub proof fn lemma_kept_retained<T>(s: Seq<T>, marked: Set<int>, keep: spec_fn(T) -> bool)
    requires
        forall|i: int| 0 <= i < s.len() ==> (marked.contains(i) <==> !keep(#[trigger] s[i])),
    ensures
        kept(s, marked) == retained(s, keep),
    decreases s.len(),
{
    if s.len() > 0 {
        let t = s.drop_last();
        assert forall|i: int| 0 <= i < t.len() implies (marked.contains(i) <==> !keep(#[trigger] t[i])) by {
            assert(t[i] == s[i]);
        }
        lemma_kept_retained(t, marked, keep);
        assert(marked.contains(s.len() - 1) <==> !keep(s[s.len() - 1]));
    }
}

/// Only the marks within the sequence matter.
pub proof fn lemma_kept_agree<T>(s: Seq<T>, a: Set<int>, b: Set<int>)
    requires
        forall|i: int| 0 <= i < s.len() ==> (a.contains(i) <==> b.contains(i)),
    ensures
        kept(s, a) == kept(s, b),
    decreases s.len(),
{
    if s.len() > 0 {
        lemma_kept_agree(s.drop_last(), a, b);
    }
}

/// How many indices below `n` are marked.
pub open spec fn marked_below(marked: Set<int>, n: int) -> int
    decreases n,
{
    if n <= 0 {
        0
    } else {
        marked_below(marked, n - 1) + if marked.contains(n - 1) { 1int } else { 0 }
    }
}

/// The indices named by a list, as a set.
pub open spec fn index_set(indices: Seq<usize>) -> Set<int> {
    Set::new(|i: int| exists|k: int| 0 <= k < indices.len() && indices[k] as int == i)
}

/// Every element that is kept satisfies whatever every unmarked element
/// satisfies.
pub proof fn lemma_kept_all<T>(s: Seq<T>, marked: Set<int>, p: spec_fn(T) -> bool)
    requires
        forall|i: int| 0 <= i < s.len() && !marked.contains(i) ==> #[trigger] p(s[i]),
    ensures
        forall|j: int| 0 <= j < kept(s, marked).len() ==> #[trigger] p(kept(s, marked)[j]),
    decreases s.len(),
{
    if s.len() > 0 {
        let t = s.drop_last();
        assert forall|i: int| 0 <= i < t.len() && !marked.contains(i) implies #[trigger] p(t[i]) by {
            assert(t[i] == s[i]);
        }
        lemma_kept_all(t, marked, p);
        let rest = kept(t, marked);
        if !marked.contains(s.len() - 1) {
            assert(p(s[s.len() - 1]));
            assert forall|j: int| 0 <= j < rest.push(s.last()).len() implies #[trigger] p(
                rest.push(s.last())[j],
            ) by {
                if j < rest.len() {
                    assert(rest.push(s.last())[j] == rest[j]);
                }
            }
        }
    }
}

/// Removing the marked elements drops exactly as many elements as there are
/// distinct marked indices within the sequence.
pub proof fn lemma_kept_len<T>(s: Seq<T>, marked: Set<int>)
    ensures
        kept(s, marked).len() == s.len() - marked_below(marked, s.len() as int),
    decreases s.len(),
{
    if s.len() > 0 {
        lemma_kept_len(s.drop_last(), marked);
    }
}

/// An index named twice is removed once: the result depends only on which
/// indices are named, and exactly one element goes for each distinct index
/// within the sequence.
pub proof fn lemma_remove_indices_dedup<T>(s: Seq<T>, a: Seq<usize>, b: Seq<usize>)
    requires
        forall|i: usize| a.contains(i) <==> b.contains(i),
    ensures
        kept(s, index_set(a)) == kept(s, index_set(b)),
        kept(s, index_set(a)).len() == s.len() - marked_below(index_set(a), s.len() as int),
{
    assert forall|i: int| index_set(a).contains(i) <==> index_set(b).contains(i) by {
        if index_set(a).contains(i) {
            let k = choose|k: int| 0 <= k < a.len() && a[k] as int == i;
            assert(a.contains(a[k]));
            assert(b.contains(a[k]));
        }
        if index_set(b).contains(i) {
            let k = choose|k: int| 0 <= k < b.len() && b[k] as int == i;
            assert(b.contains(b[k]));
            assert(a.contains(b[k]));
        }
    }
    assert(index_set(a) =~= index_set(b));
    lemma_kept_len(s, index_set(a));
}

/// Drops from `v` every element whose index `indices` names, however many
/// times it is named; the others keep their order.
pub fn remove_indices<T>(v: Vec<T>, indices: &Vec<usize>) -> (r: Vec<T>)
    ensures
        r@ == kept(v@, index_set(indices@)),
{
    let n = v.len();
    let mut marked: Vec<bool> = Vec::new();
    let mut i: usize = 0;
    while i < n
        invariant
            i <= n,
            marked@.len() == i,
            forall|j: int| 0 <= j < i ==> !marked@[j],
        decreases n - i,
    {
        marked.push(false);
        i = i + 1;
    }
    let mut k: usize = 0;
    while k < indices.len()
        invariant
            k <= indices.len(),
            marked@.len() == n,
            forall|j: int|
                0 <= j < n ==> (marked@[j] <==> exists|m: int| 0 <= m < k && indices@[m] as int == j),
        decreases indices.len() - k,
    {
        let idx = indices[k];
        if idx < n {
            marked.set(idx, true);
        }
        k = k + 1;
        assert forall|j: int|
            0 <= j < n implies (marked@[j] <==> exists|m: int| 0 <= m < k && indices@[m] as int == j) by {
            if j == idx as int {
                assert(indices@[k - 1] as int == j);
            } else if marked@[j] {
                let m = choose|m: int| 0 <= m < k - 1 && indices@[m] as int == j;
                assert(0 <= m < k && indices@[m] as int == j);
            } else {
                if exists|m: int| 0 <= m < k && indices@[m] as int == j {
                    let m = choose|m: int| 0 <= m < k && indices@[m] as int == j;
                    assert(m != k - 1);
                }
            }
        }
    }
    let ghost all = v@;
    let mut out: Vec<T> = Vec::new();
    let mut rest = v;
    let mut pos: usize = 0;
    // Walk the elements in order by taking them from the back of a reversed copy.
    let mut reversed: Vec<T> = Vec::new();
    while rest.len() > 0
        invariant
            rest@.len() + reversed@.len() == n,
            all.len() == n,
            forall|j: int| 0 <= j < rest@.len() ==> rest@[j] == all[j],
            forall|j: int| 0 <= j < reversed@.len() ==> reversed@[j] == all[n - 1 - j],
        decreases rest.len(),
    {
        let x = rest.pop().unwrap();
        reversed.push(x);
    }
    while pos < n
        invariant
            pos <= n,
            all.len() == n,
            marked@.len() == n,
            reversed@.len() == n - pos,
            forall|j: int| 0 <= j < reversed@.len() ==> reversed@[j] == all[n - 1 - j],
            out@ == kept(all.subrange(0, pos as int), index_set(indices@)),
            forall|j: int| 0 <= j < n ==> (marked@[j] <==> index_set(indices@).contains(j)),
        decreases n - pos,
    {
        let x = reversed.pop().unwrap();
        let ghost prefix = all.subrange(0, pos as int + 1);
        assert(prefix.drop_last() == all.subrange(0, pos as int));
        assert(prefix.last() == all[pos as int]);
        if !marked[pos] {
            out.push(x);
        }
        pos = pos + 1;
    }
    assert(all.subrange(0, n as int) == all);
    out
}

} // verus!
