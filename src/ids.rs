//! Identifier arithmetic shared by the three collections: allocation of the
//! next id, and the position of the first record that carries a given id.
use vstd::prelude::*;

verus! {

/// The largest id in `ids`, or 0 when there is none.
pub open spec fn max_id(ids: Seq<u32>) -> nat
    decreases ids.len(),
{
    if ids.len() == 0 {
        0
    } else {
        let m = max_id(ids.drop_last());
        if ids.last() > m {
            ids.last() as nat
        } else {
            m
        }
    }
}

/// The id that a new record receives: one more than the largest id present,
/// or `None` when that would not fit in a `u32`.
pub open spec fn next_id(ids: Seq<u32>) -> Option<u32> {
    if max_id(ids) < u32::MAX {
        Some((max_id(ids) + 1) as u32)
    } else {
        None
    }
}

/// `i` is the position of the first occurrence of `id` in `ids`.
pub open spec fn is_first_index(ids: Seq<u32>, id: u32, i: int) -> bool {
    &&& 0 <= i < ids.len()
    &&& ids[i] == id
    &&& forall|j: int| 0 <= j < i ==> ids[j] != id
}

/// The position of the first occurrence of `id` in `ids`, or -1.
pub open spec fn index_of(ids: Seq<u32>, id: u32) -> int {
    if ids.contains(id) {
        choose|i: int| is_first_index(ids, id, i)
    } else {
        -1
    }
}

pub proof fn lemma_index_of(ids: Seq<u32>, id: u32, i: int)
    requires
        is_first_index(ids, id, i),
    ensures
        index_of(ids, id) == i,
{
    assert(ids.contains(id));
    let k = choose|k: int| is_first_index(ids, id, k);
    assert(is_first_index(ids, id, k));
    if k < i {
        assert(ids[k] != id);
    } else if k > i {
        assert(ids[i] != id);
    }
}

proof fn lemma_first_below(ids: Seq<u32>, id: u32, k: int) -> (i: int)
    requires
        0 <= k < ids.len(),
        ids[k] == id,
    ensures
        is_first_index(ids, id, i),
    decreases k,
{
    if exists|j: int| 0 <= j < k && ids[j] == id {
        let j = choose|j: int| 0 <= j < k && ids[j] == id;
        lemma_first_below(ids, id, j)
    } else {
        k
    }
}

pub proof fn lemma_index_of_found(ids: Seq<u32>, id: u32)
    requires
        ids.contains(id),
    ensures
        is_first_index(ids, id, index_of(ids, id)),
{
    let k = choose|k: int| 0 <= k < ids.len() && ids[k] == id;
    let i = lemma_first_below(ids, id, k);
    lemma_index_of(ids, id, i);
}

pub proof fn lemma_max_id_step(ids: Seq<u32>, i: int)
    requires
        0 <= i < ids.len(),
    ensures
        max_id(ids.take(i + 1)) == if ids[i] > max_id(ids.take(i)) {
            ids[i] as nat
        } else {
            max_id(ids.take(i))
        },
{
    assert(ids.take(i + 1).drop_last() =~= ids.take(i));
}

pub proof fn lemma_max_id_bounds(ids: Seq<u32>)
    ensures
        forall|k: int| 0 <= k < ids.len() ==> ids[k] <= max_id(ids),
        max_id(ids) <= u32::MAX,
    decreases ids.len(),
{
    if ids.len() > 0 {
        lemma_max_id_bounds(ids.drop_last());
        assert forall|k: int| 0 <= k < ids.len() implies ids[k] <= max_id(ids) by {
            if k < ids.len() - 1 {
                assert(ids[k] == ids.drop_last()[k]);
            }
        }
    }
}

/// A freshly allocated id is not among the ids present.
pub proof fn lemma_next_id_fresh(ids: Seq<u32>)
    requires
        next_id(ids) is Some,
    ensures
        !ids.contains(next_id(ids).unwrap()),
{
    lemma_max_id_bounds(ids);
}

/// Whether `id` occurs in `v`.
pub fn contains_id(v: &Vec<u32>, id: u32) -> (r: bool)
    ensures
        r == v@.contains(id),
{
    let mut i: usize = 0;
    while i < v.len()
        invariant
            i <= v@.len(),
            forall|j: int| 0 <= j < i ==> v@[j] != id,
        decreases v@.len() - i,
    {
        if v[i] == id {
            assert(v@[i as int] == id);
            return true;
        }
        i += 1;
    }
    false
}

/// The predicate that keeps every id but `id`.
pub open spec fn id_kept(id: u32) -> spec_fn(u32) -> bool {
    |x: u32| x != id
}

/// `v` without any occurrence of `id`, in the same order.
pub fn without_id(v: &Vec<u32>, id: u32) -> (r: Vec<u32>)
    ensures
        r@ == v@.filter(id_kept(id)),
{
    let mut out: Vec<u32> = Vec::new();
    let mut i: usize = 0;
    while i < v.len()
        invariant
            i <= v@.len(),
            out@ == v@.take(i as int).filter(id_kept(id)),
        decreases v@.len() - i,
    {
        proof {
            assert(v@.take(i + 1) =~= v@.take(i as int).push(v@[i as int]));
            v@.take(i as int).lemma_filter_push(v@[i as int], id_kept(id));
        }
        if v[i] != id {
            out.push(v[i]);
        }
        i += 1;
    }
    assert(v@.take(v@.len() as int) =~= v@);
    out
}

/// A copy of an id list.
pub fn copy_ids(v: &Vec<u32>) -> (r: Vec<u32>)
    ensures
        r@ == v@,
{
    let mut out: Vec<u32> = Vec::new();
    let mut i: usize = 0;
    while i < v.len()
        invariant
            i <= v@.len(),
            out@ == v@.take(i as int),
        decreases v@.len() - i,
    {
        out.push(v[i]);
        i += 1;
        assert(out@ =~= v@.take(i as int));
    }
    assert(v@.take(v@.len() as int) =~= v@);
    out
}

/// `rel` holds of every pair of elements of `s`, taken in order.
pub open spec fn pairwise<A>(s: Seq<A>, rel: spec_fn(A, A) -> bool) -> bool {
    forall|i: int, j: int| 0 <= i < j < s.len() ==> #[trigger] rel(s[i], s[j])
}

/// Keeping some elements keeps a pairwise relation.
pub proof fn lemma_filter_pairwise<A>(s: Seq<A>, p: spec_fn(A) -> bool, rel: spec_fn(A, A) -> bool)
    requires
        pairwise(s, rel),
    ensures
        pairwise(s.filter(p), rel),
    decreases s.len(),
{
    reveal(Seq::filter);
    if s.len() > 0 {
        let prefix = s.drop_last();
        assert(pairwise(prefix, rel)) by {
            assert forall|i: int, j: int| 0 <= i < j < prefix.len() implies #[trigger] rel(
                prefix[i],
                prefix[j],
            ) by {
                assert(rel(s[i], s[j]));
            }
        }
        lemma_filter_pairwise(prefix, p, rel);
        let f = s.filter(p);
        let g = prefix.filter(p);
        if p(s.last()) {
            assert(f == g.push(s.last()));
            assert forall|i: int, j: int| 0 <= i < j < f.len() implies #[trigger] rel(f[i], f[j]) by {
                if j == f.len() - 1 {
                    assert(g.contains(f[i])) by {
                        assert(g[i] == f[i]);
                    }
                    prefix.lemma_filter_contains_rev(p, f[i]);
                    let k = choose|k: int| 0 <= k < prefix.len() && prefix[k] == f[i];
                    assert(rel(s[k], s[s.len() - 1]));
                } else {
                    assert(rel(g[i], g[j]));
                }
            }
        } else {
            assert(f == g);
        }
    }
}

/// Appending an element related to every element keeps a pairwise relation.
pub proof fn lemma_push_pairwise<A>(s: Seq<A>, x: A, rel: spec_fn(A, A) -> bool)
    requires
        pairwise(s, rel),
        forall|i: int| 0 <= i < s.len() ==> #[trigger] rel(s[i], x),
    ensures
        pairwise(s.push(x), rel),
{
    let t = s.push(x);
    assert forall|i: int, j: int| 0 <= i < j < t.len() implies #[trigger] rel(t[i], t[j]) by {
        if j < s.len() {
            assert(rel(s[i], s[j]));
        } else {
            assert(rel(s[i], x));
        }
    }
}

/// Replacing an element by one related both ways to every other element
/// keeps a pairwise relation.
pub proof fn lemma_update_pairwise<A>(s: Seq<A>, k: int, x: A, rel: spec_fn(A, A) -> bool)
    requires
        pairwise(s, rel),
        0 <= k < s.len(),
        forall|i: int| 0 <= i < s.len() && i != k ==> #[trigger] rel(s[i], x) && rel(x, s[i]),
    ensures
        pairwise(s.update(k, x), rel),
{
    let t = s.update(k, x);
    assert forall|i: int, j: int| 0 <= i < j < t.len() implies #[trigger] rel(t[i], t[j]) by {
        if i == k {
            assert(rel(s[j], x));
            assert(rel(x, s[j]));
        } else if j == k {
            assert(rel(s[i], x));
        } else {
            assert(rel(s[i], s[j]));
        }
    }
}

} // verus!
