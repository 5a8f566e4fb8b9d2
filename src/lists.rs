//! The id lists that contributors and capsules hold are sets: no id repeats
//! within one list. Every operation keeps this.
use vstd::prelude::*;

use crate::capsules::capsule_index;
use crate::capsules::capsule_kept;
use crate::capsules::capsule_keys;
use crate::capsules::capsule_not_owned_by;
use crate::capsules::create_capsule_post;
use crate::capsules::without_capsule;
use crate::capsules::Capsule;
use crate::capsules::NewCapsule;
use crate::clock::Timestamp;
use crate::contributors::contributor_index;
use crate::contributors::contributor_keys;
use crate::contributors::contributor_kept;
use crate::contributors::without_contributor;
use crate::contributors::ContributorView;
use crate::ids::id_kept;
use crate::ids::lemma_filter_pairwise;
use crate::ids::lemma_index_of_found;
use crate::ids::lemma_next_id_fresh;
use crate::ids::lemma_push_pairwise;
use crate::ids::next_id;
use crate::ids::pairwise;
use crate::items::add_item_post;
use crate::items::delete_item_post;
use crate::items::item_keys;
use crate::items::Item;
use crate::items::NewItem;
use crate::linkage::lemma_out_of_filter;
use crate::linkage::same_links;
use crate::merges::merge_post;
use crate::merges::merged_capsule;
use crate::merges::CapsuleDetails;
use crate::store::item_ids_differ;
use crate::store::Store;
use crate::store::StoreError;
use crate::store::StoreView;

verus! {

pub open spec fn ids_differ() -> spec_fn(u32, u32) -> bool {
    |a: u32, b: u32| a != b
}

/// No id occurs twice in `ids`.
pub open spec fn no_repeats(ids: Seq<u32>) -> bool {
    pairwise(ids, ids_differ())
}

impl StoreView {
    /// Every contributor's capsule list and every capsule's item list holds
    /// each id at most once.
    pub open spec fn lists_distinct(self) -> bool {
        &&& forall|p: int|
            0 <= p < self.contributors.len() ==> no_repeats(
                (#[trigger] self.contributors[p]).capsule_ids,
            )
        &&& forall|k: int| 0 <= k < self.capsules.len() ==> no_repeats((#[trigger] self.capsules[k]).item_ids)
    }
}

proof fn lemma_no_repeats_push(ids: Seq<u32>, x: u32)
    requires
        no_repeats(ids),
        !ids.contains(x),
    ensures
        no_repeats(ids.push(x)),
{
    assert forall|i: int| 0 <= i < ids.len() implies #[trigger] ids_differ()(ids[i], x) by {
        if ids[i] == x {
            assert(ids.contains(x));
        }
    }
    lemma_push_pairwise(ids, x, ids_differ());
}

proof fn lemma_no_repeats_concat(a: Seq<u32>, b: Seq<u32>)
    requires
        no_repeats(a),
        no_repeats(b),
        forall|x: u32| a.contains(x) ==> !b.contains(x),
    ensures
        no_repeats(a + b),
{
    let c = a + b;
    assert forall|i: int, j: int| 0 <= i < j < c.len() implies #[trigger] ids_differ()(c[i], c[j]) by {
        if j < a.len() {
            assert(ids_differ()(a[i], a[j]));
        } else if i >= a.len() {
            assert(ids_differ()(b[i - a.len()], b[j - a.len()]));
        } else {
            assert(a.contains(c[i]));
            if c[i] == c[j] {
                assert(b[j - a.len()] == c[i]);
                assert(b.contains(c[i]));
            }
        }
    }
}

proof fn lemma_no_repeats_filter(ids: Seq<u32>, x: u32)
    requires
        no_repeats(ids),
    ensures
        no_repeats(ids.filter(id_kept(x))),
{
    lemma_filter_pairwise(ids, id_kept(x), ids_differ());
}

/// Changes that leave every link field in place keep the lists distinct.
pub proof fn lemma_same_links_lists(s: StoreView, t: StoreView)
    requires
        s.lists_distinct(),
        same_links(s, t),
    ensures
        t.lists_distinct(),
{
    assert forall|p: int| 0 <= p < t.contributors.len() implies no_repeats(
        (#[trigger] t.contributors[p]).capsule_ids,
    ) by {
        assert(t.contributors[p].capsule_ids == s.contributors[p].capsule_ids);
    }
    assert forall|k: int| 0 <= k < t.capsules.len() implies no_repeats(
        (#[trigger] t.capsules[k]).item_ids,
    ) by {
        assert(t.capsules[k].item_ids == s.capsules[k].item_ids);
    }
}

/// A new contributor with no capsules keeps the lists distinct.
pub proof fn lemma_create_contributor_lists(s: StoreView, c: ContributorView)
    requires
        s.lists_distinct(),
        c.capsule_ids.len() == 0,
    ensures
        (StoreView { contributors: s.contributors.push(c), ..s }).lists_distinct(),
{
    let t = StoreView { contributors: s.contributors.push(c), ..s };
    assert forall|p: int| 0 <= p < t.contributors.len() implies no_repeats(
        (#[trigger] t.contributors[p]).capsule_ids,
    ) by {
        if p < s.contributors.len() {
            assert(t.contributors[p] == s.contributors[p]);
        }
    }
}

/// Creating a capsule keeps the lists of a consistent store distinct.
pub proof fn lemma_create_capsule_lists(
    s: StoreView,
    t: StoreView,
    data: NewCapsule,
    now: Timestamp,
    r: Result<Capsule, StoreError>,
)
    requires
        s.consistent(),
        create_capsule_post(s, t, data, now, r),
    ensures
        t.lists_distinct(),
{
    if r is Ok {
        let owner = data.contributor_id;
        let id = next_id(capsule_keys(s.capsules)).unwrap();
        if !contributor_keys(s.contributors).contains(owner) {
            assert(contributor_index(s.contributors, owner) == -1);
        }
        lemma_index_of_found(contributor_keys(s.contributors), owner);
        let q = contributor_index(s.contributors, owner);
        lemma_next_id_fresh(capsule_keys(s.capsules));
        let ids = s.contributors[q].capsule_ids;
        if ids.contains(id) {
            let k = choose|k: int|
                0 <= k < s.capsules.len() && (#[trigger] s.capsules[k]).id == id
                    && s.capsules[k].contributor_id == s.contributors[q].id;
            assert(capsule_keys(s.capsules)[k] == id);
        }
        assert(no_repeats(s.contributors[q].capsule_ids));
        lemma_no_repeats_push(ids, id);
        assert forall|p: int| 0 <= p < t.contributors.len() implies no_repeats(
            (#[trigger] t.contributors[p]).capsule_ids,
        ) by {
            if p != q {
                assert(t.contributors[p] == s.contributors[p]);
            }
        }
        assert forall|k: int| 0 <= k < t.capsules.len() implies no_repeats(
            (#[trigger] t.capsules[k]).item_ids,
        ) by {
            if k < s.capsules.len() {
                assert(t.capsules[k] == s.capsules[k]);
            } else {
                assert(t.capsules[k].item_ids.len() == 0);
            }
        }
    }
}

/// Adding an item keeps the lists of a consistent store distinct.
pub proof fn lemma_add_item_lists(
    s: StoreView,
    t: StoreView,
    cid: u32,
    data: NewItem,
    now: Timestamp,
    r: Result<Item, StoreError>,
)
    requires
        s.consistent(),
        add_item_post(s, t, cid, data, now, r),
    ensures
        t.lists_distinct(),
{
    if r is Ok {
        if !capsule_keys(s.capsules).contains(cid) {
            assert(capsule_index(s.capsules, cid) == -1);
        }
        lemma_index_of_found(capsule_keys(s.capsules), cid);
        let k0 = capsule_index(s.capsules, cid);
        let id = next_id(item_keys(s.items)).unwrap();
        lemma_next_id_fresh(item_keys(s.items));
        let ids = s.capsules[k0].item_ids;
        if ids.contains(id) {
            let j = choose|j: int|
                0 <= j < s.items.len() && (#[trigger] s.items[j]).id == id && s.items[j].id_capsule
                    == s.capsules[k0].id;
            assert(item_keys(s.items)[j] == id);
        }
        assert(no_repeats(s.capsules[k0].item_ids));
        lemma_no_repeats_push(ids, id);
        assert forall|k: int| 0 <= k < t.capsules.len() implies no_repeats(
            (#[trigger] t.capsules[k]).item_ids,
        ) by {
            if k != k0 {
                assert(t.capsules[k] == s.capsules[k]);
            }
        }
    }
}

/// Deleting an item keeps the lists distinct.
pub proof fn lemma_delete_item_lists(
    s: StoreView,
    t: StoreView,
    capsule_id: u32,
    item_id: u32,
    now: Timestamp,
    r: Result<(), StoreError>,
)
    requires
        s.lists_distinct(),
        delete_item_post(s, t, capsule_id, item_id, now, r),
    ensures
        t.lists_distinct(),
{
    if r is Ok {
        let k0 = capsule_index(s.capsules, capsule_id);
        if !capsule_keys(s.capsules).contains(capsule_id) {
            assert(capsule_index(s.capsules, capsule_id) == -1);
        }
        lemma_index_of_found(capsule_keys(s.capsules), capsule_id);
        assert(no_repeats(s.capsules[k0].item_ids));
        lemma_no_repeats_filter(s.capsules[k0].item_ids, item_id);
        assert forall|k: int| 0 <= k < t.capsules.len() implies no_repeats(
            (#[trigger] t.capsules[k]).item_ids,
        ) by {
            if k != k0 {
                assert(t.capsules[k] == s.capsules[k]);
            }
        }
    }
}

/// Dropping references to capsule `cid` keeps contributor lists distinct.
proof fn lemma_drop_refs_lists(s: StoreView, t: StoreView, cid: u32)
    requires
        s.lists_distinct(),
        t.contributors == crate::contributors::drop_capsule_refs(s.contributors, cid),
    ensures
        forall|p: int|
            0 <= p < t.contributors.len() ==> no_repeats((#[trigger] t.contributors[p]).capsule_ids),
{
    assert forall|p: int| 0 <= p < t.contributors.len() implies no_repeats(
        (#[trigger] t.contributors[p]).capsule_ids,
    ) by {
        assert(no_repeats(s.contributors[p].capsule_ids));
        lemma_no_repeats_filter(s.contributors[p].capsule_ids, cid);
    }
}

/// Deleting a capsule keeps the lists distinct.
pub proof fn lemma_delete_capsule_lists(s: StoreView, cid: u32)
    requires
        s.lists_distinct(),
        capsule_index(s.capsules, cid) != -1,
    ensures
        without_capsule(s, cid).lists_distinct(),
{
    let t = without_capsule(s, cid);
    lemma_drop_refs_lists(s, t, cid);
    assert forall|k: int| 0 <= k < t.capsules.len() implies no_repeats(
        (#[trigger] t.capsules[k]).item_ids,
    ) by {
        let k1 = lemma_out_of_filter(s.capsules, capsule_kept(cid), k);
        assert(no_repeats(s.capsules[k1].item_ids));
    }
}

/// Deleting a contributor keeps the lists distinct.
pub proof fn lemma_delete_contributor_lists(s: StoreView, id: u32)
    requires
        s.lists_distinct(),
    ensures
        without_contributor(s, id).lists_distinct(),
{
    let t = without_contributor(s, id);
    assert forall|p: int| 0 <= p < t.contributors.len() implies no_repeats(
        (#[trigger] t.contributors[p]).capsule_ids,
    ) by {
        let p1 = lemma_out_of_filter(s.contributors, contributor_kept(id), p);
        assert(no_repeats(s.contributors[p1].capsule_ids));
    }
    assert forall|k: int| 0 <= k < t.capsules.len() implies no_repeats(
        (#[trigger] t.capsules[k]).item_ids,
    ) by {
        let k1 = lemma_out_of_filter(s.capsules, capsule_not_owned_by(id), k);
        assert(no_repeats(s.capsules[k1].item_ids));
    }
}

/// Merging two capsules keeps the lists of a consistent store distinct: the
/// two item lists are disjoint, so their join is their union.
pub proof fn lemma_merge_lists(
    s: StoreView,
    t: StoreView,
    id1: u32,
    id2: u32,
    now: Timestamp,
    r: Result<CapsuleDetails, StoreError>,
)
    requires
        s.consistent(),
        merge_post(s, t, id1, id2, now, r),
    ensures
        t.lists_distinct(),
{
    if r is Ok {
        let k1 = capsule_index(s.capsules, id1);
        let k2 = capsule_index(s.capsules, id2);
        if !capsule_keys(s.capsules).contains(id1) {
            assert(capsule_index(s.capsules, id1) == -1);
        }
        if !capsule_keys(s.capsules).contains(id2) {
            assert(capsule_index(s.capsules, id2) == -1);
        }
        lemma_index_of_found(capsule_keys(s.capsules), id1);
        lemma_index_of_found(capsule_keys(s.capsules), id2);
        let c1 = s.capsules[k1];
        let c2 = s.capsules[k2];
        let m = merged_capsule(c1, c2, now);
        assert forall|x: u32| c1.item_ids.contains(x) implies !c2.item_ids.contains(x) by {
            if c2.item_ids.contains(x) {
                assert(s.capsules[k1].item_ids.contains(x));
                assert(s.capsules[k2].item_ids.contains(x));
                let j1 = choose|j: int|
                    0 <= j < s.items.len() && (#[trigger] s.items[j]).id == x
                        && s.items[j].id_capsule == c1.id;
                let j2 = choose|j: int|
                    0 <= j < s.items.len() && (#[trigger] s.items[j]).id == x
                        && s.items[j].id_capsule == c2.id;
                if j1 < j2 {
                    assert(item_ids_differ()(s.items[j1], s.items[j2]));
                } else if j2 < j1 {
                    assert(item_ids_differ()(s.items[j2], s.items[j1]));
                }
            }
        }
        assert(no_repeats(s.capsules[k1].item_ids));
        assert(no_repeats(s.capsules[k2].item_ids));
        lemma_no_repeats_concat(c1.item_ids, c2.item_ids);
        lemma_drop_refs_lists(s, t, id2);
        let u = s.capsules.update(k1, m);
        assert forall|k: int| 0 <= k < t.capsules.len() implies no_repeats(
            (#[trigger] t.capsules[k]).item_ids,
        ) by {
            let ku = lemma_out_of_filter(u, capsule_kept(id2), k);
            if ku != k1 {
                assert(u[ku] == s.capsules[ku]);
                assert(no_repeats(s.capsules[ku].item_ids));
            }
        }
    }
}

/// Whether no id occurs twice in `v`.
fn ids_distinct(v: &Vec<u32>) -> (r: bool)
    ensures
        r == no_repeats(v@),
{
    let mut j: usize = 0;
    while j < v.len()
        invariant
            j <= v@.len(),
            forall|a: int, b: int| 0 <= a < b < j ==> v@[a] != v@[b],
        decreases v@.len() - j,
    {
        let mut i: usize = 0;
        while i < j
            invariant
                i <= j < v@.len(),
                forall|a: int| 0 <= a < i ==> v@[a] != v@[j as int],
            decreases j - i,
        {
            if v[i] == v[j] {
                assert(!ids_differ()(v@[i as int], v@[j as int]));
                return false;
            }
            i += 1;
        }
        j += 1;
    }
    assert forall|a: int, b: int| 0 <= a < b < v@.len() implies #[trigger] ids_differ()(
        v@[a],
        v@[b],
    ) by {}
    true
}

impl Store {
    /// Whether every id list in the store holds each id once.
    pub fn lists_are_distinct(&self) -> (r: bool)
        ensures
            r == self@.lists_distinct(),
    {
        let ghost cs = self@.contributors;
        let mut p: usize = 0;
        while p < self.contributors.len()
            invariant
                p <= cs.len(),
                cs == self@.contributors,
                forall|a: int| 0 <= a < p ==> no_repeats((#[trigger] cs[a]).capsule_ids),
            decreases cs.len() - p,
        {
            if !ids_distinct(&self.contributors[p].capsule_ids) {
                assert(!no_repeats(cs[p as int].capsule_ids));
                return false;
            }
            p += 1;
        }
        let ghost caps = self@.capsules;
        let mut k: usize = 0;
        while k < self.capsules.len()
            invariant
                k <= caps.len(),
                cs == self@.contributors,
                caps == self@.capsules,
                forall|a: int| 0 <= a < cs.len() ==> no_repeats((#[trigger] cs[a]).capsule_ids),
                forall|a: int| 0 <= a < k ==> no_repeats((#[trigger] caps[a]).item_ids),
            decreases caps.len() - k,
        {
            if !ids_distinct(&self.capsules[k].item_ids) {
                assert(!no_repeats(caps[k as int].item_ids));
                return false;
            }
            k += 1;
        }
        true
    }
}

} // verus!
