//! Every operation keeps the store well formed: ids stay unique within each
//! collection, and email addresses stay unique among contributors.
use vstd::prelude::*;

use crate::capsules::capsule_index;
use crate::capsules::capsule_kept;
use crate::capsules::capsule_keys;
use crate::capsules::capsule_not_owned_by;
use crate::capsules::create_capsule_post;
use crate::capsules::patch_capsule_post;
use crate::capsules::update_capsule_post;
use crate::capsules::without_capsule;
use crate::capsules::CapsuleView;
use crate::capsules::NewCapsule;
use crate::capsules::CapsulePatch;
use crate::capsules::Capsule;
use crate::clock::Timestamp;
use crate::contributors::add_capsule_ref;
use crate::contributors::contributor_index;
use crate::contributors::contributor_kept;
use crate::contributors::contributor_keys;
use crate::contributors::drop_capsule_refs;
use crate::contributors::email_taken;
use crate::contributors::email_taken_by_other;
use crate::contributors::without_contributor;
use crate::contributors::ContributorView;
use crate::ids::index_of;
use crate::ids::lemma_filter_pairwise;
use crate::ids::lemma_index_of_found;
use crate::ids::lemma_next_id_fresh;
use crate::ids::lemma_push_pairwise;
use crate::ids::lemma_update_pairwise;
use crate::ids::next_id;
use crate::ids::pairwise;
use crate::items::add_item_post;
use crate::items::delete_item_post;
use crate::items::item_keys;
use crate::items::patch_item_post;
use crate::items::Item;
use crate::items::ItemView;
use crate::items::NewItem;
use crate::items::NewItemUpdate;
use crate::merges::merge_post;
use crate::merges::reparent_all;
use crate::merges::CapsuleDetails;
use crate::store::capsule_ids_differ;
use crate::store::contributor_ids_differ;
use crate::store::emails_differ;
use crate::store::item_ids_differ;
use crate::store::StoreError;
use crate::store::StoreView;

verus! {

/// Capsule lists may change, but ids and email addresses stay where they are.
pub open spec fn same_identities(s: Seq<ContributorView>, t: Seq<ContributorView>) -> bool {
    &&& t.len() == s.len()
    &&& forall|i: int| 0 <= i < s.len() ==> (#[trigger] t[i]).id == s[i].id && t[i].email == s[i].email
}

proof fn lemma_same_identities(s: Seq<ContributorView>, t: Seq<ContributorView>)
    requires
        same_identities(s, t),
        pairwise(s, contributor_ids_differ()),
        pairwise(s, emails_differ()),
    ensures
        pairwise(t, contributor_ids_differ()),
        pairwise(t, emails_differ()),
{
    assert forall|i: int, j: int| 0 <= i < j < t.len() implies #[trigger] contributor_ids_differ()(
        t[i],
        t[j],
    ) by {
        assert(contributor_ids_differ()(s[i], s[j]));
    }
    assert forall|i: int, j: int| 0 <= i < j < t.len() implies #[trigger] emails_differ()(
        t[i],
        t[j],
    ) by {
        assert(emails_differ()(s[i], s[j]));
    }
}

proof fn lemma_drop_refs_identities(s: Seq<ContributorView>, cid: u32)
    ensures
        same_identities(s, drop_capsule_refs(s, cid)),
{
}

proof fn lemma_add_ref_identities(s: Seq<ContributorView>, owner: u32, cid: u32)
    requires
        contributor_index(s, owner) != -1,
    ensures
        same_identities(s, add_capsule_ref(s, owner, cid)),
{
    lemma_index_of_found(contributor_keys(s), owner);
}

/// Replacing capsule `k` by one with the same id keeps capsule ids unique.
proof fn lemma_capsule_same_id(s: Seq<CapsuleView>, k: int, c: CapsuleView)
    requires
        pairwise(s, capsule_ids_differ()),
        0 <= k < s.len(),
        c.id == s[k].id,
    ensures
        pairwise(s.update(k, c), capsule_ids_differ()),
{
    assert forall|i: int| 0 <= i < s.len() && i != k implies #[trigger] capsule_ids_differ()(s[i], c)
        && capsule_ids_differ()(c, s[i]) by {
        if i < k {
            assert(capsule_ids_differ()(s[i], s[k]));
        } else {
            assert(capsule_ids_differ()(s[k], s[i]));
        }
    }
    lemma_update_pairwise(s, k, c, capsule_ids_differ());
}

/// Replacing item `k` by one with the same id keeps item ids unique.
proof fn lemma_item_same_id(s: Seq<ItemView>, k: int, x: ItemView)
    requires
        pairwise(s, item_ids_differ()),
        0 <= k < s.len(),
        x.id == s[k].id,
    ensures
        pairwise(s.update(k, x), item_ids_differ()),
{
    assert forall|i: int| 0 <= i < s.len() && i != k implies #[trigger] item_ids_differ()(s[i], x)
        && item_ids_differ()(x, s[i]) by {
        if i < k {
            assert(item_ids_differ()(s[i], s[k]));
        } else {
            assert(item_ids_differ()(s[k], s[i]));
        }
    }
    lemma_update_pairwise(s, k, x, item_ids_differ());
}

proof fn lemma_capsule_found(s: Seq<CapsuleView>, id: u32)
    requires
        capsule_index(s, id) != -1,
    ensures
        0 <= capsule_index(s, id) < s.len(),
        s[capsule_index(s, id)].id == id,
{
    if !capsule_keys(s).contains(id) {
        assert(index_of(capsule_keys(s), id) == -1);
    }
    lemma_index_of_found(capsule_keys(s), id);
}

/// Creating a contributor keeps the store well formed.
pub proof fn lemma_create_contributor_keeps(s: StoreView, c: ContributorView)
    requires
        s.well_formed(),
        next_id(contributor_keys(s.contributors)) == Some(c.id),
        !email_taken(s.contributors, c.email),
    ensures
        (StoreView { contributors: s.contributors.push(c), ..s }).well_formed(),
{
    lemma_next_id_fresh(contributor_keys(s.contributors));
    assert forall|i: int| 0 <= i < s.contributors.len() implies #[trigger] contributor_ids_differ()(
        s.contributors[i],
        c,
    ) by {
        assert(contributor_keys(s.contributors)[i] == s.contributors[i].id);
    }
    assert forall|i: int| 0 <= i < s.contributors.len() implies #[trigger] emails_differ()(
        s.contributors[i],
        c,
    ) by {
        if s.contributors[i].email == c.email {
            assert(email_taken(s.contributors, c.email));
        }
    }
    lemma_push_pairwise(s.contributors, c, contributor_ids_differ());
    lemma_push_pairwise(s.contributors, c, emails_differ());
}

/// Changing a contributor's name or email keeps the store well formed.
pub proof fn lemma_update_contributor_keeps(s: StoreView, k: int, c: ContributorView)
    requires
        s.well_formed(),
        0 <= k < s.contributors.len(),
        c.id == s.contributors[k].id,
        c.email == s.contributors[k].email || !email_taken_by_other(s.contributors, c.id, c.email),
    ensures
        (StoreView { contributors: s.contributors.update(k, c), ..s }).well_formed(),
{
    let cs = s.contributors;
    assert forall|i: int| 0 <= i < cs.len() && i != k implies #[trigger] contributor_ids_differ()(
        cs[i],
        c,
    ) && contributor_ids_differ()(c, cs[i]) by {
        if i < k {
            assert(contributor_ids_differ()(cs[i], cs[k]));
        } else {
            assert(contributor_ids_differ()(cs[k], cs[i]));
        }
    }
    assert forall|i: int| 0 <= i < cs.len() && i != k implies #[trigger] emails_differ()(cs[i], c)
        && emails_differ()(c, cs[i]) by {
        if i < k {
            assert(contributor_ids_differ()(cs[i], cs[k]));
            assert(emails_differ()(cs[i], cs[k]));
        } else {
            assert(contributor_ids_differ()(cs[k], cs[i]));
            assert(emails_differ()(cs[k], cs[i]));
        }
        if cs[i].email == c.email && c.email != cs[k].email {
            assert(email_taken_by_other(cs, c.id, c.email));
        }
    }
    lemma_update_pairwise(cs, k, c, contributor_ids_differ());
    lemma_update_pairwise(cs, k, c, emails_differ());
}

/// Deleting a contributor keeps the store well formed.
pub proof fn lemma_delete_contributor_keeps(s: StoreView, id: u32)
    requires
        s.well_formed(),
    ensures
        without_contributor(s, id).well_formed(),
{
    let t = without_contributor(s, id);
    lemma_filter_pairwise(s.contributors, contributor_kept(id), contributor_ids_differ());
    lemma_filter_pairwise(s.contributors, contributor_kept(id), emails_differ());
    lemma_filter_pairwise(s.capsules, capsule_not_owned_by(id), capsule_ids_differ());
    lemma_filter_pairwise(
        s.items,
        crate::items::item_kept(Seq::empty(), crate::capsules::capsules_owned_by(s.capsules, id)),
        item_ids_differ(),
    );
}

/// Creating a capsule keeps the store well formed.
pub proof fn lemma_create_capsule_keeps(
    s: StoreView,
    t: StoreView,
    data: NewCapsule,
    now: Timestamp,
    r: Result<Capsule, StoreError>,
)
    requires
        s.well_formed(),
        create_capsule_post(s, t, data, now, r),
    ensures
        t.well_formed(),
{
    if r is Ok {
        let id = next_id(capsule_keys(s.capsules)).unwrap();
        lemma_add_ref_identities(s.contributors, data.contributor_id, id);
        lemma_same_identities(s.contributors, t.contributors);
        lemma_next_id_fresh(capsule_keys(s.capsules));
        let c = r->Ok_0@;
        assert forall|i: int| 0 <= i < s.capsules.len() implies #[trigger] capsule_ids_differ()(
            s.capsules[i],
            c,
        ) by {
            assert(capsule_keys(s.capsules)[i] == s.capsules[i].id);
        }
        lemma_push_pairwise(s.capsules, c, capsule_ids_differ());
    }
}

/// Patching a capsule keeps the store well formed.
pub proof fn lemma_patch_capsule_keeps(
    s: StoreView,
    t: StoreView,
    cid: u32,
    etag: Option<u32>,
    p: CapsulePatch,
    now: Timestamp,
    r: Result<Capsule, StoreError>,
)
    requires
        s.well_formed(),
        patch_capsule_post(s, t, cid, etag, p, now, r),
    ensures
        t.well_formed(),
{
    if r is Ok {
        lemma_capsule_found(s.capsules, cid);
        lemma_capsule_same_id(s.capsules, capsule_index(s.capsules, cid), r->Ok_0@);
    }
}

/// Replacing a capsule's content keeps the store well formed.
pub proof fn lemma_update_capsule_keeps(
    s: StoreView,
    t: StoreView,
    cid: u32,
    body: CapsuleView,
    now: Timestamp,
    r: Result<Capsule, StoreError>,
)
    requires
        s.well_formed(),
        update_capsule_post(s, t, cid, body, now, r),
    ensures
        t.well_formed(),
{
    if r is Ok {
        lemma_capsule_found(s.capsules, cid);
        lemma_capsule_same_id(s.capsules, capsule_index(s.capsules, cid), r->Ok_0@);
    }
}

/// Deleting a capsule keeps the store well formed.
pub proof fn lemma_delete_capsule_keeps(s: StoreView, cid: u32)
    requires
        s.well_formed(),
        capsule_index(s.capsules, cid) != -1,
    ensures
        without_capsule(s, cid).well_formed(),
{
    let t = without_capsule(s, cid);
    let c = s.capsules[capsule_index(s.capsules, cid)];
    lemma_drop_refs_identities(s.contributors, cid);
    lemma_same_identities(s.contributors, t.contributors);
    lemma_filter_pairwise(s.capsules, capsule_kept(cid), capsule_ids_differ());
    lemma_filter_pairwise(s.items, crate::items::item_kept(c.item_ids, seq![cid]), item_ids_differ());
}

/// Adding an item keeps the store well formed.
pub proof fn lemma_add_item_keeps(
    s: StoreView,
    t: StoreView,
    cid: u32,
    data: NewItem,
    now: Timestamp,
    r: Result<Item, StoreError>,
)
    requires
        s.well_formed(),
        add_item_post(s, t, cid, data, now, r),
    ensures
        t.well_formed(),
{
    if r is Ok {
        let k = capsule_index(s.capsules, cid);
        lemma_capsule_found(s.capsules, cid);
        let id = next_id(item_keys(s.items)).unwrap();
        lemma_capsule_same_id(s.capsules, k, crate::items::with_item(s.capsules[k], id, now));
        lemma_next_id_fresh(item_keys(s.items));
        let x = r->Ok_0@;
        assert forall|i: int| 0 <= i < s.items.len() implies #[trigger] item_ids_differ()(
            s.items[i],
            x,
        ) by {
            assert(item_keys(s.items)[i] == s.items[i].id);
        }
        lemma_push_pairwise(s.items, x, item_ids_differ());
    }
}

/// Changing an item's description keeps the store well formed.
pub proof fn lemma_patch_item_keeps(
    s: StoreView,
    t: StoreView,
    capsule_id: u32,
    item_id: u32,
    etag: Option<u32>,
    u: NewItemUpdate,
    now: Timestamp,
    r: Result<Item, StoreError>,
)
    requires
        s.well_formed(),
        patch_item_post(s, t, capsule_id, item_id, etag, u, now, r),
    ensures
        t.well_formed(),
{
    if r is Ok {
        let k = capsule_index(s.capsules, capsule_id);
        lemma_capsule_found(s.capsules, capsule_id);
        lemma_capsule_same_id(s.capsules, k, CapsuleView { time_changed: Some(now), ..s.capsules[k] });
        let j = crate::items::item_index(s.items, item_id);
        lemma_index_of_found(item_keys(s.items), item_id);
        lemma_item_same_id(s.items, j, r->Ok_0@);
    }
}

/// Deleting an item keeps the store well formed.
pub proof fn lemma_delete_item_keeps(
    s: StoreView,
    t: StoreView,
    capsule_id: u32,
    item_id: u32,
    now: Timestamp,
    r: Result<(), StoreError>,
)
    requires
        s.well_formed(),
        delete_item_post(s, t, capsule_id, item_id, now, r),
    ensures
        t.well_formed(),
{
    if r is Ok {
        let k = capsule_index(s.capsules, capsule_id);
        lemma_capsule_found(s.capsules, capsule_id);
        lemma_capsule_same_id(
            s.capsules,
            k,
            CapsuleView {
                item_ids: s.capsules[k].item_ids.filter(crate::ids::id_kept(item_id)),
                time_changed: Some(now),
                ..s.capsules[k]
            },
        );
        lemma_filter_pairwise(s.items, crate::items::item_other_than(item_id), item_ids_differ());
    }
}

/// Merging two capsules keeps the store well formed.
pub proof fn lemma_merge_keeps(
    s: StoreView,
    t: StoreView,
    id1: u32,
    id2: u32,
    now: Timestamp,
    r: Result<CapsuleDetails, StoreError>,
)
    requires
        s.well_formed(),
        merge_post(s, t, id1, id2, now, r),
    ensures
        t.well_formed(),
{
    if r is Ok {
        let k1 = capsule_index(s.capsules, id1);
        let k2 = capsule_index(s.capsules, id2);
        lemma_capsule_found(s.capsules, id1);
        lemma_capsule_found(s.capsules, id2);
        let m = crate::merges::merged_capsule(s.capsules[k1], s.capsules[k2], now);
        lemma_drop_refs_identities(s.contributors, id2);
        lemma_same_identities(s.contributors, t.contributors);
        lemma_capsule_same_id(s.capsules, k1, m);
        lemma_filter_pairwise(s.capsules.update(k1, m), capsule_kept(id2), capsule_ids_differ());
        let items = reparent_all(s.items, id1, s.capsules[k2]);
        assert forall|i: int, j: int| 0 <= i < j < items.len() implies #[trigger] item_ids_differ()(
            items[i],
            items[j],
        ) by {
            assert(item_ids_differ()(s.items[i], s.items[j]));
        }
    }
}

} // verus!
