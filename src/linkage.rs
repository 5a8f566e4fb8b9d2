//! Referential integrity between the collections. A capsule lists exactly the
//! items that name it, and a contributor lists exactly the capsules that name
//! it: every id in a list names a record that points back, and every record
//! is listed by the record it points to. Every operation keeps this.
use vstd::prelude::*;

use crate::capsules::capsule_index;
use crate::capsules::capsule_kept;
use crate::capsules::capsule_not_owned_by;
use crate::capsules::capsule_owned_by;
use crate::capsules::capsules_owned_by;
use crate::capsules::without_capsule;
use crate::contributors::contributor_kept;
use crate::contributors::without_contributor;
use crate::ids::id_kept;
use crate::items::delete_item_post;
use crate::items::item_kept;
use crate::items::item_other_than;
use crate::merges::belongs_to;
use crate::merges::merge_post;
use crate::merges::merged_capsule;
use crate::merges::reparent_all;
use crate::merges::reparented;
use crate::merges::CapsuleDetails;
use crate::store::capsule_ids_differ;
use crate::store::item_ids_differ;
use crate::capsules::capsule_keys;
use crate::capsules::create_capsule_post;
use crate::capsules::Capsule;
use crate::capsules::CapsuleView;
use crate::capsules::NewCapsule;
use crate::clock::Timestamp;
use crate::contributors::contributor_index;
use crate::contributors::contributor_keys;
use crate::contributors::ContributorView;
use crate::ids::lemma_index_of_found;
use crate::ids::next_id;
use crate::items::add_item_post;
use crate::items::item_keys;
use crate::items::with_item;
use crate::items::Item;
use crate::items::ItemView;
use crate::items::NewItem;
use crate::capsules::capsules_view;
use crate::contributors::contributors_view;
use crate::contributors::Contributor;
use crate::ids::contains_id;
use crate::items::items_view;
use crate::store::Store;
use crate::store::StoreError;
use crate::store::StoreView;

verus! {

/// Some item in `items` has id `id` and names capsule `cid`.
pub open spec fn item_in(items: Seq<ItemView>, id: u32, cid: u32) -> bool {
    exists|j: int| 0 <= j < items.len() && (#[trigger] items[j]).id == id && items[j].id_capsule == cid
}

/// Some capsule in `caps` has id `cid` and lists item `id`.
pub open spec fn listed_by_capsule(caps: Seq<CapsuleView>, cid: u32, id: u32) -> bool {
    exists|k: int|
        0 <= k < caps.len() && (#[trigger] caps[k]).id == cid && caps[k].item_ids.contains(id)
}

/// Some capsule in `caps` has id `cid` and names contributor `owner`.
pub open spec fn capsule_in(caps: Seq<CapsuleView>, cid: u32, owner: u32) -> bool {
    exists|k: int|
        0 <= k < caps.len() && (#[trigger] caps[k]).id == cid && caps[k].contributor_id == owner
}

/// Some contributor in `cs` has id `owner` and lists capsule `cid`.
pub open spec fn listed_by_contributor(cs: Seq<ContributorView>, owner: u32, cid: u32) -> bool {
    exists|p: int| 0 <= p < cs.len() && (#[trigger] cs[p]).id == owner && cs[p].capsule_ids.contains(cid)
}

impl StoreView {
    /// Lists and back references agree between capsules and items, and
    /// between contributors and capsules.
    pub open spec fn linked(self) -> bool {
        &&& forall|k: int, id: u32|
            0 <= k < self.capsules.len() && (#[trigger] self.capsules[k].item_ids.contains(id))
                ==> item_in(self.items, id, self.capsules[k].id)
        &&& forall|j: int|
            0 <= j < self.items.len() ==> listed_by_capsule(
                self.capsules,
                (#[trigger] self.items[j]).id_capsule,
                self.items[j].id,
            )
        &&& forall|p: int, cid: u32|
            0 <= p < self.contributors.len() && (#[trigger] self.contributors[p].capsule_ids.contains(
                cid,
            )) ==> capsule_in(self.capsules, cid, self.contributors[p].id)
        &&& forall|k: int|
            0 <= k < self.capsules.len() ==> listed_by_contributor(
                self.contributors,
                (#[trigger] self.capsules[k]).contributor_id,
                self.capsules[k].id,
            )
    }

    /// Well formed, linked, and with lists that hold each id once: the
    /// invariant of the store.
    pub open spec fn consistent(self) -> bool {
        self.well_formed() && self.linked() && self.lists_distinct()
    }
}

/// `t` has the same link fields as `s`, record by record.
pub open spec fn same_links(s: StoreView, t: StoreView) -> bool {
    &&& t.contributors.len() == s.contributors.len()
    &&& forall|p: int|
        0 <= p < s.contributors.len() ==> (#[trigger] t.contributors[p]).id == s.contributors[p].id
            && t.contributors[p].capsule_ids == s.contributors[p].capsule_ids
    &&& t.capsules.len() == s.capsules.len()
    &&& forall|k: int|
        0 <= k < s.capsules.len() ==> (#[trigger] t.capsules[k]).id == s.capsules[k].id
            && t.capsules[k].contributor_id == s.capsules[k].contributor_id
            && t.capsules[k].item_ids == s.capsules[k].item_ids
    &&& t.items.len() == s.items.len()
    &&& forall|j: int|
        0 <= j < s.items.len() ==> (#[trigger] t.items[j]).id == s.items[j].id
            && t.items[j].id_capsule == s.items[j].id_capsule
}

/// Changes that leave every link field in place keep the store linked.
pub proof fn lemma_same_links(s: StoreView, t: StoreView)
    requires
        s.linked(),
        same_links(s, t),
    ensures
        t.linked(),
{
    assert forall|k: int, id: u32|
        0 <= k < t.capsules.len() && (#[trigger] t.capsules[k].item_ids.contains(id)) implies item_in(
        t.items,
        id,
        t.capsules[k].id,
    ) by {
        assert(s.capsules[k].item_ids.contains(id));
        let j = choose|j: int|
            0 <= j < s.items.len() && (#[trigger] s.items[j]).id == id && s.items[j].id_capsule
                == s.capsules[k].id;
        assert(t.items[j].id == id);
    }
    assert forall|j: int| 0 <= j < t.items.len() implies listed_by_capsule(
        t.capsules,
        (#[trigger] t.items[j]).id_capsule,
        t.items[j].id,
    ) by {
        assert(s.items[j].id == t.items[j].id);
        let k = choose|k: int|
            0 <= k < s.capsules.len() && (#[trigger] s.capsules[k]).id == s.items[j].id_capsule
                && s.capsules[k].item_ids.contains(s.items[j].id);
        assert(t.capsules[k].id == s.capsules[k].id);
    }
    assert forall|p: int, cid: u32|
        0 <= p < t.contributors.len() && (#[trigger] t.contributors[p].capsule_ids.contains(
            cid,
        )) implies capsule_in(t.capsules, cid, t.contributors[p].id) by {
        assert(s.contributors[p].capsule_ids.contains(cid));
        let k = choose|k: int|
            0 <= k < s.capsules.len() && (#[trigger] s.capsules[k]).id == cid
                && s.capsules[k].contributor_id == s.contributors[p].id;
        assert(t.capsules[k].id == cid);
    }
    assert forall|k: int| 0 <= k < t.capsules.len() implies listed_by_contributor(
        t.contributors,
        (#[trigger] t.capsules[k]).contributor_id,
        t.capsules[k].id,
    ) by {
        assert(s.capsules[k].id == t.capsules[k].id);
        let p = choose|p: int|
            0 <= p < s.contributors.len() && (#[trigger] s.contributors[p]).id
                == s.capsules[k].contributor_id && s.contributors[p].capsule_ids.contains(
                s.capsules[k].id,
            );
        assert(t.contributors[p].id == s.contributors[p].id);
    }
}

/// A new contributor with no capsules keeps the store linked.
pub proof fn lemma_create_contributor_links(s: StoreView, c: ContributorView)
    requires
        s.linked(),
        c.capsule_ids.len() == 0,
    ensures
        (StoreView { contributors: s.contributors.push(c), ..s }).linked(),
{
    let t = StoreView { contributors: s.contributors.push(c), ..s };
    assert forall|p: int, cid: u32|
        0 <= p < t.contributors.len() && (#[trigger] t.contributors[p].capsule_ids.contains(
            cid,
        )) implies capsule_in(t.capsules, cid, t.contributors[p].id) by {
        if p < s.contributors.len() {
            assert(t.contributors[p] == s.contributors[p]);
        }
    }
    assert forall|k: int| 0 <= k < t.capsules.len() implies listed_by_contributor(
        t.contributors,
        (#[trigger] t.capsules[k]).contributor_id,
        t.capsules[k].id,
    ) by {
        let p = choose|p: int|
            0 <= p < s.contributors.len() && (#[trigger] s.contributors[p]).id
                == s.capsules[k].contributor_id && s.contributors[p].capsule_ids.contains(
                s.capsules[k].id,
            );
        assert(t.contributors[p] == s.contributors[p]);
    }
}

/// Creating a capsule keeps the store linked.
pub proof fn lemma_create_capsule_links(
    s: StoreView,
    t: StoreView,
    data: NewCapsule,
    now: Timestamp,
    r: Result<Capsule, StoreError>,
)
    requires
        s.linked(),
        create_capsule_post(s, t, data, now, r),
    ensures
        t.linked(),
{
    if r is Ok {
        let owner = data.contributor_id;
        let id = next_id(capsule_keys(s.capsules)).unwrap();
        let ok = contributor_keys(s.contributors).contains(owner);
        if !ok {
            assert(contributor_index(s.contributors, owner) == -1);
        }
        lemma_index_of_found(contributor_keys(s.contributors), owner);
        let q = contributor_index(s.contributors, owner);
        let c = r->Ok_0@;
        let n = s.capsules.len() as int;
        assert(t.capsules[n] == c);
        assert forall|k: int, iid: u32|
            0 <= k < t.capsules.len() && (#[trigger] t.capsules[k].item_ids.contains(iid)) implies item_in(
            t.items,
            iid,
            t.capsules[k].id,
        ) by {
            if k < n {
                assert(t.capsules[k] == s.capsules[k]);
            }
        }
        assert forall|j: int| 0 <= j < t.items.len() implies listed_by_capsule(
            t.capsules,
            (#[trigger] t.items[j]).id_capsule,
            t.items[j].id,
        ) by {
            let k = choose|k: int|
                0 <= k < s.capsules.len() && (#[trigger] s.capsules[k]).id == s.items[j].id_capsule
                    && s.capsules[k].item_ids.contains(s.items[j].id);
            assert(t.capsules[k] == s.capsules[k]);
        }
        assert forall|p: int, cid: u32|
            0 <= p < t.contributors.len() && (#[trigger] t.contributors[p].capsule_ids.contains(
                cid,
            )) implies capsule_in(t.capsules, cid, t.contributors[p].id) by {
            if p == q && cid == id {
                assert(t.capsules[n].id == cid);
            } else {
                if p == q {
                    assert(t.contributors[p].capsule_ids == s.contributors[p].capsule_ids.push(id));
                    let x = choose|x: int|
                        0 <= x < t.contributors[p].capsule_ids.len()
                            && t.contributors[p].capsule_ids[x] == cid;
                    assert(s.contributors[p].capsule_ids[x] == cid);
                }
                assert(s.contributors[p].capsule_ids.contains(cid));
                let k = choose|k: int|
                    0 <= k < s.capsules.len() && (#[trigger] s.capsules[k]).id == cid
                        && s.capsules[k].contributor_id == s.contributors[p].id;
                assert(t.capsules[k] == s.capsules[k]);
            }
        }
        assert forall|k: int| 0 <= k < t.capsules.len() implies listed_by_contributor(
            t.contributors,
            (#[trigger] t.capsules[k]).contributor_id,
            t.capsules[k].id,
        ) by {
            if k == n {
                assert(t.contributors[q].capsule_ids[t.contributors[q].capsule_ids.len() - 1] == id);
            } else {
                assert(t.capsules[k] == s.capsules[k]);
                let p = choose|p: int|
                    0 <= p < s.contributors.len() && (#[trigger] s.contributors[p]).id
                        == s.capsules[k].contributor_id && s.contributors[p].capsule_ids.contains(
                        s.capsules[k].id,
                    );
                if p == q {
                    let x = choose|x: int|
                        0 <= x < s.contributors[p].capsule_ids.len()
                            && s.contributors[p].capsule_ids[x] == s.capsules[k].id;
                    assert(t.contributors[p].capsule_ids[x] == s.capsules[k].id);
                } else {
                    assert(t.contributors[p] == s.contributors[p]);
                }
            }
        }
    }
}

/// Adding an item keeps the store linked.
pub proof fn lemma_add_item_links(
    s: StoreView,
    t: StoreView,
    cid: u32,
    data: NewItem,
    now: Timestamp,
    r: Result<Item, StoreError>,
)
    requires
        s.linked(),
        add_item_post(s, t, cid, data, now, r),
    ensures
        t.linked(),
{
    if r is Ok {
        let k0 = capsule_index(s.capsules, cid);
        if !capsule_keys(s.capsules).contains(cid) {
            assert(capsule_index(s.capsules, cid) == -1);
        }
        lemma_index_of_found(capsule_keys(s.capsules), cid);
        let id = next_id(item_keys(s.items)).unwrap();
        let x = r->Ok_0@;
        let n = s.items.len() as int;
        assert(t.items[n] == x);
        assert(t.capsules[k0] == with_item(s.capsules[k0], id, now));
        assert forall|k: int, iid: u32|
            0 <= k < t.capsules.len() && (#[trigger] t.capsules[k].item_ids.contains(iid)) implies item_in(
            t.items,
            iid,
            t.capsules[k].id,
        ) by {
            if k == k0 && iid == id {
                assert(t.items[n].id == iid);
            } else {
                if k == k0 {
                    let y = choose|y: int|
                        0 <= y < t.capsules[k].item_ids.len() && t.capsules[k].item_ids[y] == iid;
                    assert(s.capsules[k].item_ids[y] == iid);
                } else {
                    assert(t.capsules[k] == s.capsules[k]);
                }
                assert(s.capsules[k].item_ids.contains(iid));
                let j = choose|j: int|
                    0 <= j < s.items.len() && (#[trigger] s.items[j]).id == iid
                        && s.items[j].id_capsule == s.capsules[k].id;
                assert(t.items[j] == s.items[j]);
            }
        }
        assert forall|j: int| 0 <= j < t.items.len() implies listed_by_capsule(
            t.capsules,
            (#[trigger] t.items[j]).id_capsule,
            t.items[j].id,
        ) by {
            if j == n {
                assert(t.capsules[k0].item_ids[t.capsules[k0].item_ids.len() - 1] == id);
            } else {
                assert(t.items[j] == s.items[j]);
                let k = choose|k: int|
                    0 <= k < s.capsules.len() && (#[trigger] s.capsules[k]).id == s.items[j].id_capsule
                        && s.capsules[k].item_ids.contains(s.items[j].id);
                if k == k0 {
                    let y = choose|y: int|
                        0 <= y < s.capsules[k].item_ids.len() && s.capsules[k].item_ids[y]
                            == s.items[j].id;
                    assert(t.capsules[k].item_ids[y] == s.items[j].id);
                } else {
                    assert(t.capsules[k] == s.capsules[k]);
                }
            }
        }
        assert forall|p: int, c: u32|
            0 <= p < t.contributors.len() && (#[trigger] t.contributors[p].capsule_ids.contains(
                c,
            )) implies capsule_in(t.capsules, c, t.contributors[p].id) by {
            let k = choose|k: int|
                0 <= k < s.capsules.len() && (#[trigger] s.capsules[k]).id == c
                    && s.capsules[k].contributor_id == s.contributors[p].id;
            assert(t.capsules[k].id == s.capsules[k].id);
        }
        assert forall|k: int| 0 <= k < t.capsules.len() implies listed_by_contributor(
            t.contributors,
            (#[trigger] t.capsules[k]).contributor_id,
            t.capsules[k].id,
        ) by {
            assert(t.capsules[k].id == s.capsules[k].id);
            assert(t.capsules[k].contributor_id == s.capsules[k].contributor_id);
        }
    }
}

/// Where an element kept by a filter lands in the result.
pub proof fn lemma_into_filter<A>(s: Seq<A>, p: spec_fn(A) -> bool, i: int) -> (j: int)
    requires
        0 <= i < s.len(),
        p(s[i]),
    ensures
        0 <= j < s.filter(p).len(),
        s.filter(p)[j] == s[i],
{
    s.lemma_filter_contains(p, i);
    choose|j: int| 0 <= j < s.filter(p).len() && s.filter(p)[j] == s[i]
}

/// Where an element of a filter's result came from.
pub proof fn lemma_out_of_filter<A>(s: Seq<A>, p: spec_fn(A) -> bool, j: int) -> (i: int)
    requires
        0 <= j < s.filter(p).len(),
    ensures
        0 <= i < s.len(),
        s[i] == s.filter(p)[j],
        p(s[i]),
{
    s.lemma_filter_pred(p, j);
    s.lemma_filter_contains_rev(p, s.filter(p)[j]);
    choose|i: int| 0 <= i < s.len() && s[i] == s.filter(p)[j]
}

/// Two capsules with the same id are the same, in a well-formed store.
proof fn lemma_capsule_unique(s: StoreView, a: int, b: int)
    requires
        s.well_formed(),
        0 <= a < s.capsules.len(),
        0 <= b < s.capsules.len(),
        s.capsules[a].id == s.capsules[b].id,
    ensures
        a == b,
{
    if a < b {
        assert(capsule_ids_differ()(s.capsules[a], s.capsules[b]));
    } else if b < a {
        assert(capsule_ids_differ()(s.capsules[b], s.capsules[a]));
    }
}

/// Two items with the same id are the same, in a well-formed store.
proof fn lemma_item_unique(s: StoreView, a: int, b: int)
    requires
        s.well_formed(),
        0 <= a < s.items.len(),
        0 <= b < s.items.len(),
        s.items[a].id == s.items[b].id,
    ensures
        a == b,
{
    if a < b {
        assert(item_ids_differ()(s.items[a], s.items[b]));
    } else if b < a {
        assert(item_ids_differ()(s.items[b], s.items[a]));
    }
}

proof fn lemma_found(keys: Seq<u32>, id: u32)
    requires
        crate::ids::index_of(keys, id) != -1,
    ensures
        0 <= crate::ids::index_of(keys, id) < keys.len(),
        keys[crate::ids::index_of(keys, id)] == id,
{
    if !keys.contains(id) {
        assert(crate::ids::index_of(keys, id) == -1);
    }
    lemma_index_of_found(keys, id);
}

/// Deleting an item from its capsule keeps a consistent store linked.
pub proof fn lemma_delete_item_links(
    s: StoreView,
    t: StoreView,
    capsule_id: u32,
    item_id: u32,
    now: Timestamp,
    r: Result<(), StoreError>,
)
    requires
        s.consistent(),
        delete_item_post(s, t, capsule_id, item_id, now, r),
    ensures
        t.linked(),
{
    if r is Ok {
        let k0 = capsule_index(s.capsules, capsule_id);
        lemma_found(capsule_keys(s.capsules), capsule_id);
        let c0 = s.capsules[k0];
        assert(c0.id == capsule_id);
        let j0 = choose|j: int|
            0 <= j < s.items.len() && (#[trigger] s.items[j]).id == item_id && s.items[j].id_capsule
                == capsule_id;
        assert(t.capsules[k0].item_ids == c0.item_ids.filter(id_kept(item_id)));
        assert forall|k: int, iid: u32|
            0 <= k < t.capsules.len() && (#[trigger] t.capsules[k].item_ids.contains(iid)) implies item_in(
            t.items,
            iid,
            t.capsules[k].id,
        ) by {
            let ids = t.capsules[k].item_ids;
            let y = choose|y: int| 0 <= y < ids.len() && ids[y] == iid;
            if k == k0 {
                let x = lemma_out_of_filter(c0.item_ids, id_kept(item_id), y);
                assert(c0.item_ids.contains(iid));
            } else {
                assert(t.capsules[k] == s.capsules[k]);
                assert(s.capsules[k].item_ids.contains(iid));
            }
            let j = choose|j: int|
                0 <= j < s.items.len() && (#[trigger] s.items[j]).id == iid && s.items[j].id_capsule
                    == s.capsules[k].id;
            if iid == item_id {
                lemma_item_unique(s, j, j0);
                lemma_capsule_unique(s, k, k0);
            }
            let jj = lemma_into_filter(s.items, item_other_than(item_id), j);
            assert(t.items[jj] == s.items[j]);
        }
        assert forall|j: int| 0 <= j < t.items.len() implies listed_by_capsule(
            t.capsules,
            (#[trigger] t.items[j]).id_capsule,
            t.items[j].id,
        ) by {
            let i = lemma_out_of_filter(s.items, item_other_than(item_id), j);
            let k = choose|k: int|
                0 <= k < s.capsules.len() && (#[trigger] s.capsules[k]).id == s.items[i].id_capsule
                    && s.capsules[k].item_ids.contains(s.items[i].id);
            if k == k0 {
                let y = choose|y: int| 0 <= y < c0.item_ids.len() && c0.item_ids[y] == s.items[i].id;
                let yy = lemma_into_filter(c0.item_ids, id_kept(item_id), y);
                assert(t.capsules[k].item_ids[yy] == s.items[i].id);
            } else {
                assert(t.capsules[k] == s.capsules[k]);
            }
        }
        assert forall|p: int, c: u32|
            0 <= p < t.contributors.len() && (#[trigger] t.contributors[p].capsule_ids.contains(
                c,
            )) implies capsule_in(t.capsules, c, t.contributors[p].id) by {
            let k = choose|k: int|
                0 <= k < s.capsules.len() && (#[trigger] s.capsules[k]).id == c
                    && s.capsules[k].contributor_id == s.contributors[p].id;
            assert(t.capsules[k].id == s.capsules[k].id);
        }
        assert forall|k: int| 0 <= k < t.capsules.len() implies listed_by_contributor(
            t.contributors,
            (#[trigger] t.capsules[k]).contributor_id,
            t.capsules[k].id,
        ) by {
            assert(t.capsules[k].id == s.capsules[k].id);
            assert(t.capsules[k].contributor_id == s.capsules[k].contributor_id);
        }
    }
}

/// Deleting a capsule keeps a consistent store linked.
pub proof fn lemma_delete_capsule_links(s: StoreView, cid: u32)
    requires
        s.consistent(),
        capsule_index(s.capsules, cid) != -1,
    ensures
        without_capsule(s, cid).linked(),
{
    let t = without_capsule(s, cid);
    let k0 = capsule_index(s.capsules, cid);
    lemma_found(capsule_keys(s.capsules), cid);
    let c0 = s.capsules[k0];
    let gone = seq![cid];
    let keep = item_kept(c0.item_ids, gone);
    assert forall|x: u32| gone.contains(x) <==> x == cid by {
        if x == cid {
            assert(gone[0] == cid);
        }
    }
    assert forall|k: int, iid: u32|
        0 <= k < t.capsules.len() && (#[trigger] t.capsules[k].item_ids.contains(iid)) implies item_in(
        t.items,
        iid,
        t.capsules[k].id,
    ) by {
        let k1 = lemma_out_of_filter(s.capsules, capsule_kept(cid), k);
        let j = choose|j: int|
            0 <= j < s.items.len() && (#[trigger] s.items[j]).id == iid && s.items[j].id_capsule
                == s.capsules[k1].id;
        if c0.item_ids.contains(iid) {
            let j2 = choose|j2: int|
                0 <= j2 < s.items.len() && (#[trigger] s.items[j2]).id == iid
                    && s.items[j2].id_capsule == c0.id;
            lemma_item_unique(s, j, j2);
        }
        let jj = lemma_into_filter(s.items, keep, j);
        assert(t.items[jj] == s.items[j]);
    }
    assert forall|j: int| 0 <= j < t.items.len() implies listed_by_capsule(
        t.capsules,
        (#[trigger] t.items[j]).id_capsule,
        t.items[j].id,
    ) by {
        let i = lemma_out_of_filter(s.items, keep, j);
        let k = choose|k: int|
            0 <= k < s.capsules.len() && (#[trigger] s.capsules[k]).id == s.items[i].id_capsule
                && s.capsules[k].item_ids.contains(s.items[i].id);
        let kk = lemma_into_filter(s.capsules, capsule_kept(cid), k);
        assert(t.capsules[kk] == s.capsules[k]);
    }
    assert forall|p: int, c: u32|
        0 <= p < t.contributors.len() && (#[trigger] t.contributors[p].capsule_ids.contains(
            c,
        )) implies capsule_in(t.capsules, c, t.contributors[p].id) by {
        let ids = s.contributors[p].capsule_ids;
        assert(t.contributors[p].capsule_ids == ids.filter(id_kept(cid)));
        let y = choose|y: int|
            0 <= y < t.contributors[p].capsule_ids.len() && t.contributors[p].capsule_ids[y] == c;
        let x = lemma_out_of_filter(ids, id_kept(cid), y);
        assert(ids.contains(c));
        let k = choose|k: int|
            0 <= k < s.capsules.len() && (#[trigger] s.capsules[k]).id == c
                && s.capsules[k].contributor_id == s.contributors[p].id;
        let kk = lemma_into_filter(s.capsules, capsule_kept(cid), k);
        assert(t.capsules[kk] == s.capsules[k]);
    }
    assert forall|k: int| 0 <= k < t.capsules.len() implies listed_by_contributor(
        t.contributors,
        (#[trigger] t.capsules[k]).contributor_id,
        t.capsules[k].id,
    ) by {
        let k1 = lemma_out_of_filter(s.capsules, capsule_kept(cid), k);
        let p = choose|p: int|
            0 <= p < s.contributors.len() && (#[trigger] s.contributors[p]).id
                == s.capsules[k1].contributor_id && s.contributors[p].capsule_ids.contains(
                s.capsules[k1].id,
            );
        let ids = s.contributors[p].capsule_ids;
        let y = choose|y: int| 0 <= y < ids.len() && ids[y] == s.capsules[k1].id;
        let yy = lemma_into_filter(ids, id_kept(cid), y);
        assert(t.contributors[p].capsule_ids == ids.filter(id_kept(cid)));
        assert(t.contributors[p].capsule_ids[yy] == s.capsules[k1].id);
    }
}

/// Deleting a contributor keeps a consistent store linked.
pub proof fn lemma_delete_contributor_links(s: StoreView, id: u32)
    requires
        s.consistent(),
    ensures
        without_contributor(s, id).linked(),
{
    let t = without_contributor(s, id);
    let owned_caps = s.capsules.filter(capsule_owned_by(id));
    let owned = capsules_owned_by(s.capsules, id);
    let keep = item_kept(Seq::empty(), owned);
    assert(owned == capsule_keys(owned_caps));
    // a capsule id is among the removed ones exactly when the capsule with that
    // id belongs to the deleted contributor
    assert forall|k: int| 0 <= k < s.capsules.len() implies (owned.contains(
        #[trigger] s.capsules[k].id,
    ) <==> s.capsules[k].contributor_id == id) by {
        if s.capsules[k].contributor_id == id {
            let m = lemma_into_filter(s.capsules, capsule_owned_by(id), k);
            assert(owned[m] == s.capsules[k].id);
        }
        if owned.contains(s.capsules[k].id) {
            let m = choose|m: int| 0 <= m < owned.len() && owned[m] == s.capsules[k].id;
            let k2 = lemma_out_of_filter(s.capsules, capsule_owned_by(id), m);
            lemma_capsule_unique(s, k, k2);
        }
    }
    assert forall|k: int, iid: u32|
        0 <= k < t.capsules.len() && (#[trigger] t.capsules[k].item_ids.contains(iid)) implies item_in(
        t.items,
        iid,
        t.capsules[k].id,
    ) by {
        let k1 = lemma_out_of_filter(s.capsules, capsule_not_owned_by(id), k);
        let j = choose|j: int|
            0 <= j < s.items.len() && (#[trigger] s.items[j]).id == iid && s.items[j].id_capsule
                == s.capsules[k1].id;
        assert(!owned.contains(s.capsules[k1].id));
        let jj = lemma_into_filter(s.items, keep, j);
        assert(t.items[jj] == s.items[j]);
    }
    assert forall|j: int| 0 <= j < t.items.len() implies listed_by_capsule(
        t.capsules,
        (#[trigger] t.items[j]).id_capsule,
        t.items[j].id,
    ) by {
        let i = lemma_out_of_filter(s.items, keep, j);
        let k = choose|k: int|
            0 <= k < s.capsules.len() && (#[trigger] s.capsules[k]).id == s.items[i].id_capsule
                && s.capsules[k].item_ids.contains(s.items[i].id);
        assert(!owned.contains(s.capsules[k].id));
        let kk = lemma_into_filter(s.capsules, capsule_not_owned_by(id), k);
        assert(t.capsules[kk] == s.capsules[k]);
    }
    assert forall|p: int, c: u32|
        0 <= p < t.contributors.len() && (#[trigger] t.contributors[p].capsule_ids.contains(
            c,
        )) implies capsule_in(t.capsules, c, t.contributors[p].id) by {
        let p1 = lemma_out_of_filter(s.contributors, contributor_kept(id), p);
        let k = choose|k: int|
            0 <= k < s.capsules.len() && (#[trigger] s.capsules[k]).id == c
                && s.capsules[k].contributor_id == s.contributors[p1].id;
        let kk = lemma_into_filter(s.capsules, capsule_not_owned_by(id), k);
        assert(t.capsules[kk] == s.capsules[k]);
    }
    assert forall|k: int| 0 <= k < t.capsules.len() implies listed_by_contributor(
        t.contributors,
        (#[trigger] t.capsules[k]).contributor_id,
        t.capsules[k].id,
    ) by {
        let k1 = lemma_out_of_filter(s.capsules, capsule_not_owned_by(id), k);
        let p = choose|p: int|
            0 <= p < s.contributors.len() && (#[trigger] s.contributors[p]).id
                == s.capsules[k1].contributor_id && s.contributors[p].capsule_ids.contains(
                s.capsules[k1].id,
            );
        let pp = lemma_into_filter(s.contributors, contributor_kept(id), p);
        assert(t.contributors[pp] == s.contributors[p]);
    }
}

/// Merging two capsules keeps a consistent store linked.
pub proof fn lemma_merge_links(
    s: StoreView,
    t: StoreView,
    id1: u32,
    id2: u32,
    now: Timestamp,
    r: Result<CapsuleDetails, StoreError>,
)
    requires
        s.consistent(),
        merge_post(s, t, id1, id2, now, r),
    ensures
        t.linked(),
{
    if r is Ok {
        let k1 = capsule_index(s.capsules, id1);
        let k2 = capsule_index(s.capsules, id2);
        lemma_found(capsule_keys(s.capsules), id1);
        lemma_found(capsule_keys(s.capsules), id2);
        let c1 = s.capsules[k1];
        let c2 = s.capsules[k2];
        let m = merged_capsule(c1, c2, now);
        let u = s.capsules.update(k1, m);
        assert(t.capsules == u.filter(capsule_kept(id2)));
        assert(t.items == reparent_all(s.items, id1, c2));
        assert(t.items.len() == s.items.len());
        // the merged capsule stays, and lists the items of both
        let km = lemma_into_filter(u, capsule_kept(id2), k1);
        assert(t.capsules[km] == m);
        assert forall|iid: u32| c1.item_ids.contains(iid) || c2.item_ids.contains(iid) implies #[trigger] m.item_ids.contains(iid) by {
            if c1.item_ids.contains(iid) {
                let y = choose|y: int| 0 <= y < c1.item_ids.len() && c1.item_ids[y] == iid;
                assert(m.item_ids[y] == iid);
            } else {
                let y = choose|y: int| 0 <= y < c2.item_ids.len() && c2.item_ids[y] == iid;
                assert(m.item_ids[c1.item_ids.len() + y] == iid);
            }
        }
        assert forall|k: int, iid: u32|
            0 <= k < t.capsules.len() && (#[trigger] t.capsules[k].item_ids.contains(iid)) implies item_in(
            t.items,
            iid,
            t.capsules[k].id,
        ) by {
            let ku = lemma_out_of_filter(u, capsule_kept(id2), k);
            if ku == k1 {
                let ids = m.item_ids;
                let y = choose|y: int| 0 <= y < ids.len() && ids[y] == iid;
                if y < c1.item_ids.len() {
                    assert(c1.item_ids[y] == iid);
                    assert(c1.item_ids.contains(iid));
                    assert(s.capsules[k1].item_ids.contains(iid));
                    let j = choose|j: int|
                        0 <= j < s.items.len() && (#[trigger] s.items[j]).id == iid
                            && s.items[j].id_capsule == c1.id;
                    assert(t.items[j] == reparented(s.items[j], id1, c2));
                } else {
                    assert(c2.item_ids[y - c1.item_ids.len()] == iid);
                    assert(c2.item_ids.contains(iid));
                    let j = choose|j: int|
                        0 <= j < s.items.len() && (#[trigger] s.items[j]).id == iid
                            && s.items[j].id_capsule == c2.id;
                    assert(t.items[j] == reparented(s.items[j], id1, c2));
                }
            } else {
                assert(u[ku] == s.capsules[ku]);
                let j = choose|j: int|
                    0 <= j < s.items.len() && (#[trigger] s.items[j]).id == iid
                        && s.items[j].id_capsule == s.capsules[ku].id;
                if belongs_to(s.items[j], c2) {
                    if s.items[j].id_capsule == id2 {
                        lemma_capsule_unique(s, ku, k2);
                    } else {
                        let j2 = choose|j2: int|
                            0 <= j2 < s.items.len() && (#[trigger] s.items[j2]).id == iid
                                && s.items[j2].id_capsule == c2.id;
                        lemma_item_unique(s, j, j2);
                        lemma_capsule_unique(s, ku, k2);
                    }
                }
                assert(t.items[j] == s.items[j]);
            }
        }
        assert forall|j: int| 0 <= j < t.items.len() implies listed_by_capsule(
            t.capsules,
            (#[trigger] t.items[j]).id_capsule,
            t.items[j].id,
        ) by {
            assert(t.items[j] == reparented(s.items[j], id1, c2));
            let x = s.items[j];
            if belongs_to(x, c2) {
                if !c2.item_ids.contains(x.id) {
                    let k = choose|k: int|
                        0 <= k < s.capsules.len() && (#[trigger] s.capsules[k]).id == x.id_capsule
                            && s.capsules[k].item_ids.contains(x.id);
                    lemma_capsule_unique(s, k, k2);
                }
                assert(m.item_ids.contains(x.id));
            } else {
                let k = choose|k: int|
                    0 <= k < s.capsules.len() && (#[trigger] s.capsules[k]).id == x.id_capsule
                        && s.capsules[k].item_ids.contains(x.id);
                if k == k1 {
                    assert(m.item_ids.contains(x.id));
                } else {
                    assert(u[k] == s.capsules[k]);
                    let kk = lemma_into_filter(u, capsule_kept(id2), k);
                    assert(t.capsules[kk] == s.capsules[k]);
                }
            }
        }
        assert forall|p: int, c: u32|
            0 <= p < t.contributors.len() && (#[trigger] t.contributors[p].capsule_ids.contains(
                c,
            )) implies capsule_in(t.capsules, c, t.contributors[p].id) by {
            let ids = s.contributors[p].capsule_ids;
            assert(t.contributors[p].capsule_ids == ids.filter(id_kept(id2)));
            let y = choose|y: int|
                0 <= y < t.contributors[p].capsule_ids.len() && t.contributors[p].capsule_ids[y] == c;
            let x = lemma_out_of_filter(ids, id_kept(id2), y);
            assert(ids.contains(c));
            let k = choose|k: int|
                0 <= k < s.capsules.len() && (#[trigger] s.capsules[k]).id == c
                    && s.capsules[k].contributor_id == s.contributors[p].id;
            let kk = lemma_into_filter(u, capsule_kept(id2), k);
            assert(t.capsules[kk] == u[k]);
        }
        assert forall|k: int| 0 <= k < t.capsules.len() implies listed_by_contributor(
            t.contributors,
            (#[trigger] t.capsules[k]).contributor_id,
            t.capsules[k].id,
        ) by {
            let ku = lemma_out_of_filter(u, capsule_kept(id2), k);
            assert(u[ku].id == s.capsules[ku].id);
            assert(u[ku].contributor_id == s.capsules[ku].contributor_id);
            let p = choose|p: int|
                0 <= p < s.contributors.len() && (#[trigger] s.contributors[p]).id
                    == s.capsules[ku].contributor_id && s.contributors[p].capsule_ids.contains(
                    s.capsules[ku].id,
                );
            let ids = s.contributors[p].capsule_ids;
            let y = choose|y: int| 0 <= y < ids.len() && ids[y] == s.capsules[ku].id;
            let yy = lemma_into_filter(ids, id_kept(id2), y);
            assert(t.contributors[p].capsule_ids == ids.filter(id_kept(id2)));
            assert(t.contributors[p].capsule_ids[yy] == s.capsules[ku].id);
        }
    }
}

fn item_present(items: &Vec<Item>, id: u32, cid: u32) -> (r: bool)
    ensures
        r == item_in(items_view(items@), id, cid),
{
    let ghost v = items_view(items@);
    let mut j: usize = 0;
    while j < items.len()
        invariant
            j <= items@.len(),
            v == items_view(items@),
            forall|a: int| 0 <= a < j ==> !((#[trigger] v[a]).id == id && v[a].id_capsule == cid),
        decreases items@.len() - j,
    {
        if items[j].id == id && items[j].id_capsule == cid {
            assert(v[j as int].id == id);
            return true;
        }
        j += 1;
    }
    false
}

fn capsule_lists(caps: &Vec<Capsule>, cid: u32, id: u32) -> (r: bool)
    ensures
        r == listed_by_capsule(capsules_view(caps@), cid, id),
{
    let ghost v = capsules_view(caps@);
    let mut k: usize = 0;
    while k < caps.len()
        invariant
            k <= caps@.len(),
            v == capsules_view(caps@),
            forall|a: int| 0 <= a < k ==> !((#[trigger] v[a]).id == cid && v[a].item_ids.contains(id)),
        decreases caps@.len() - k,
    {
        if caps[k].id == cid && contains_id(&caps[k].item_ids, id) {
            assert(v[k as int].id == cid);
            return true;
        }
        k += 1;
    }
    false
}

fn capsule_present(caps: &Vec<Capsule>, cid: u32, owner: u32) -> (r: bool)
    ensures
        r == capsule_in(capsules_view(caps@), cid, owner),
{
    let ghost v = capsules_view(caps@);
    let mut k: usize = 0;
    while k < caps.len()
        invariant
            k <= caps@.len(),
            v == capsules_view(caps@),
            forall|a: int| 0 <= a < k ==> !((#[trigger] v[a]).id == cid && v[a].contributor_id == owner),
        decreases caps@.len() - k,
    {
        if caps[k].id == cid && caps[k].contributor_id == owner {
            assert(v[k as int].id == cid);
            return true;
        }
        k += 1;
    }
    false
}

fn contributor_lists(cs: &Vec<Contributor>, owner: u32, cid: u32) -> (r: bool)
    ensures
        r == listed_by_contributor(contributors_view(cs@), owner, cid),
{
    let ghost v = contributors_view(cs@);
    let mut p: usize = 0;
    while p < cs.len()
        invariant
            p <= cs@.len(),
            v == contributors_view(cs@),
            forall|a: int| 0 <= a < p ==> !((#[trigger] v[a]).id == owner && v[a].capsule_ids.contains(cid)),
        decreases cs@.len() - p,
    {
        if cs[p].id == owner && contains_id(&cs[p].capsule_ids, cid) {
            assert(v[p as int].id == owner);
            return true;
        }
        p += 1;
    }
    false
}

impl Store {
    /// Whether every item a capsule lists names that capsule.
    fn listed_items_present(&self) -> (r: bool)
        ensures
            r == (forall|k: int, id: u32|
                0 <= k < self@.capsules.len() && (#[trigger] self@.capsules[k].item_ids.contains(id))
                    ==> item_in(self@.items, id, self@.capsules[k].id)),
    {
        let ghost caps = self@.capsules;
        let mut k: usize = 0;
        while k < self.capsules.len()
            invariant
                k <= caps.len(),
                caps == self@.capsules,
                forall|a: int, id: u32|
                    0 <= a < k && (#[trigger] caps[a].item_ids.contains(id)) ==> item_in(
                        self@.items,
                        id,
                        caps[a].id,
                    ),
            decreases caps.len() - k,
        {
            let ghost ids = caps[k as int].item_ids;
            let mut x: usize = 0;
            while x < self.capsules[k].item_ids.len()
                invariant
                    k < caps.len(),
                    caps == self@.capsules,
                    ids == caps[k as int].item_ids,
                    x <= ids.len(),
                    forall|b: int| 0 <= b < x ==> item_in(self@.items, #[trigger] ids[b], caps[k as int].id),
                decreases ids.len() - x,
            {
                if !item_present(&self.items, self.capsules[k].item_ids[x], self.capsules[k].id) {
                    assert(caps[k as int].item_ids.contains(ids[x as int]));
                    return false;
                }
                x += 1;
            }
            assert forall|a: int, id: u32|
                0 <= a < k + 1 && (#[trigger] caps[a].item_ids.contains(id)) implies item_in(
                self@.items,
                id,
                caps[a].id,
            ) by {
                if a == k {
                    let b = choose|b: int| 0 <= b < ids.len() && ids[b] == id;
                    assert(item_in(self@.items, ids[b], caps[k as int].id));
                }
            }
            k += 1;
        }
        true
    }

    /// Whether every item is listed by the capsule it names.
    fn items_listed(&self) -> (r: bool)
        ensures
            r == (forall|j: int|
                0 <= j < self@.items.len() ==> listed_by_capsule(
                    self@.capsules,
                    (#[trigger] self@.items[j]).id_capsule,
                    self@.items[j].id,
                )),
    {
        let ghost items = self@.items;
        let mut j: usize = 0;
        while j < self.items.len()
            invariant
                j <= items.len(),
                items == self@.items,
                forall|a: int|
                    0 <= a < j ==> listed_by_capsule(
                        self@.capsules,
                        (#[trigger] items[a]).id_capsule,
                        items[a].id,
                    ),
            decreases items.len() - j,
        {
            if !capsule_lists(&self.capsules, self.items[j].id_capsule, self.items[j].id) {
                assert(!listed_by_capsule(
                    self@.capsules,
                    self@.items[j as int].id_capsule,
                    self@.items[j as int].id,
                ));
                return false;
            }
            j += 1;
        }
        true
    }

    /// Whether every capsule a contributor lists names that contributor.
    fn listed_capsules_present(&self) -> (r: bool)
        ensures
            r == (forall|p: int, cid: u32|
                0 <= p < self@.contributors.len()
                    && (#[trigger] self@.contributors[p].capsule_ids.contains(cid)) ==> capsule_in(
                    self@.capsules,
                    cid,
                    self@.contributors[p].id,
                )),
    {
        let ghost cs = self@.contributors;
        let mut p: usize = 0;
        while p < self.contributors.len()
            invariant
                p <= cs.len(),
                cs == self@.contributors,
                forall|a: int, cid: u32|
                    0 <= a < p && (#[trigger] cs[a].capsule_ids.contains(cid)) ==> capsule_in(
                        self@.capsules,
                        cid,
                        cs[a].id,
                    ),
            decreases cs.len() - p,
        {
            let ghost ids = cs[p as int].capsule_ids;
            let mut x: usize = 0;
            while x < self.contributors[p].capsule_ids.len()
                invariant
                    p < cs.len(),
                    cs == self@.contributors,
                    ids == cs[p as int].capsule_ids,
                    x <= ids.len(),
                    forall|b: int| 0 <= b < x ==> capsule_in(self@.capsules, #[trigger] ids[b], cs[p as int].id),
                decreases ids.len() - x,
            {
                if !capsule_present(&self.capsules, self.contributors[p].capsule_ids[x], self.contributors[p].id) {
                    assert(cs[p as int].capsule_ids.contains(ids[x as int]));
                    return false;
                }
                x += 1;
            }
            assert forall|a: int, cid: u32|
                0 <= a < p + 1 && (#[trigger] cs[a].capsule_ids.contains(cid)) implies capsule_in(
                self@.capsules,
                cid,
                cs[a].id,
            ) by {
                if a == p {
                    let b = choose|b: int| 0 <= b < ids.len() && ids[b] == cid;
                    assert(capsule_in(self@.capsules, ids[b], cs[p as int].id));
                }
            }
            p += 1;
        }
        true
    }

    /// Whether every capsule is listed by the contributor it names.
    fn capsules_listed(&self) -> (r: bool)
        ensures
            r == (forall|k: int|
                0 <= k < self@.capsules.len() ==> listed_by_contributor(
                    self@.contributors,
                    (#[trigger] self@.capsules[k]).contributor_id,
                    self@.capsules[k].id,
                )),
    {
        let ghost caps = self@.capsules;
        let mut k: usize = 0;
        while k < self.capsules.len()
            invariant
                k <= caps.len(),
                caps == self@.capsules,
                forall|a: int|
                    0 <= a < k ==> listed_by_contributor(
                        self@.contributors,
                        (#[trigger] caps[a]).contributor_id,
                        caps[a].id,
                    ),
            decreases caps.len() - k,
        {
            if !contributor_lists(&self.contributors, self.capsules[k].contributor_id, self.capsules[k].id) {
                assert(!listed_by_contributor(
                    self@.contributors,
                    self@.capsules[k as int].contributor_id,
                    self@.capsules[k as int].id,
                ));
                return false;
            }
            k += 1;
        }
        true
    }

    /// Whether the store satisfies its invariant, as for records loaded from
    /// outside: ids and email addresses unique, lists and back references in
    /// agreement, no id twice in one list.
    pub fn is_consistent(&self) -> (r: bool)
        ensures
            r == self@.consistent(),
    {
        self.is_well_formed() && self.listed_items_present() && self.items_listed()
            && self.listed_capsules_present() && self.capsules_listed() && self.lists_are_distinct()
    }
}

} // verus!
