//! Laws that relate several operations on the store.
use vstd::prelude::*;

use crate::capsules::capsule_index;
use crate::capsules::capsule_keys;
use crate::capsules::create_capsule_post;
use crate::capsules::patch_capsule_post;
use crate::capsules::Capsule;
use crate::capsules::CapsulePatch;
use crate::capsules::NewCapsule;
use crate::clock::window_open;
use crate::version::expected_version;
use crate::clock::Timestamp;
use crate::fingerprint::capsule_fingerprint;
use crate::fingerprint::capsule_request_bytes;
use crate::fingerprint::item_fingerprint;
use crate::fingerprint::item_request_bytes;
use crate::ids::lemma_index_of_found;
use crate::items::add_item_post;
use crate::items::Item;
use crate::items::NewItem;
use crate::capsules::capsule_kept;
use crate::consistency::lemma_merge_keeps;
use crate::linkage::lemma_into_filter;
use crate::linkage::lemma_merge_links;
use crate::linkage::listed_by_contributor;
use crate::lists::lemma_merge_lists;
use crate::lists::no_repeats;
use crate::merges::merge_post;
use crate::merges::merged_capsule;
use crate::merges::CapsuleDetails;
use crate::store::ledger_has;
use crate::store::ledger_kept;
use crate::store::StoreError;
use crate::store::StoreView;

verus! {

/// Two capsule creation requests agree on every significant field.
pub open spec fn same_capsule_request(a: NewCapsule, b: NewCapsule) -> bool {
    &&& a.name@ == b.name@
    &&& a.description@ == b.description@
    &&& a.contributor_id == b.contributor_id
    &&& a.time_open == b.time_open
}

/// Two item creation requests agree on every significant field.
pub open spec fn same_item_request(a: NewItem, b: NewItem) -> bool {
    &&& a.type_c@ == b.type_c@
    &&& a.description@ == b.description@
    &&& a.size@ == b.size@
    &&& a.path@ == b.path@
    &&& a.metadata@ == b.metadata@
}

/// Two optional texts are both absent, or both present and equal.
pub open spec fn same_text(a: Option<String>, b: Option<String>) -> bool {
    match (a, b) {
        (None, None) => true,
        (Some(x), Some(y)) => x@ == y@,
        _ => false,
    }
}

/// A served capsule creation request leaves its fingerprint in the ledger.
pub proof fn lemma_capsule_request_recorded(
    s: StoreView,
    t: StoreView,
    data: NewCapsule,
    now: Timestamp,
    r: Result<Capsule, StoreError>,
)
    requires
        create_capsule_post(s, t, data, now, r),
        r is Ok,
    ensures
        ledger_has(t.ledger, capsule_fingerprint(data)),
{
    assert(t.ledger[t.ledger.len() - 1].fingerprint == capsule_fingerprint(data));
}

/// Once a capsule creation request has been served, a later request with the
/// same name, description, owner and opening time is refused as a duplicate
/// and leaves the store as it is: no capsule, id or reference is added. Any
/// operations may run in between, since each of them keeps the ledger.
pub proof fn lemma_duplicate_capsule_refused(
    s0: StoreView,
    s1: StoreView,
    s: StoreView,
    t: StoreView,
    first: NewCapsule,
    second: NewCapsule,
    now1: Timestamp,
    now2: Timestamp,
    r1: Result<Capsule, StoreError>,
    r2: Result<Capsule, StoreError>,
)
    requires
        create_capsule_post(s0, s1, first, now1, r1),
        r1 is Ok,
        ledger_kept(s1.ledger, s.ledger),
        same_capsule_request(first, second),
        create_capsule_post(s, t, second, now2, r2),
    ensures
        r2 == Err::<Capsule, StoreError>(StoreError::DuplicateSubmission),
        t == s,
{
    lemma_capsule_request_recorded(s0, s1, first, now1, r1);
    assert(capsule_request_bytes(first) == capsule_request_bytes(second));
    assert(ledger_has(s.ledger, capsule_fingerprint(second)));
}

/// A served item creation request leaves its fingerprint in the ledger.
pub proof fn lemma_item_request_recorded(
    s: StoreView,
    t: StoreView,
    cid: u32,
    data: NewItem,
    now: Timestamp,
    r: Result<Item, StoreError>,
)
    requires
        add_item_post(s, t, cid, data, now, r),
        r is Ok,
    ensures
        ledger_has(t.ledger, item_fingerprint(data)),
{
    assert(t.ledger[t.ledger.len() - 1].fingerprint == item_fingerprint(data));
}

/// Once an item creation request has been served, a later request with the
/// same type, description, size, path and metadata is refused as a
/// duplicate, whatever capsule it names, and leaves the store as it is. Any
/// operations may run in between, since each of them keeps the ledger.
pub proof fn lemma_duplicate_item_refused(
    s0: StoreView,
    s1: StoreView,
    s: StoreView,
    t: StoreView,
    cid1: u32,
    cid2: u32,
    first: NewItem,
    second: NewItem,
    now1: Timestamp,
    now2: Timestamp,
    r1: Result<Item, StoreError>,
    r2: Result<Item, StoreError>,
)
    requires
        add_item_post(s0, s1, cid1, first, now1, r1),
        r1 is Ok,
        ledger_kept(s1.ledger, s.ledger),
        same_item_request(first, second),
        add_item_post(s, t, cid2, second, now2, r2),
    ensures
        r2 == Err::<Item, StoreError>(StoreError::DuplicateSubmission),
        t == s,
{
    lemma_item_request_recorded(s0, s1, cid1, first, now1, r1);
    assert(item_request_bytes(first) == item_request_bytes(second));
    assert(ledger_has(s.ledger, item_fingerprint(second)));
}

/// The caller names version `v`, in the query, in the body or in both, and
/// the two do not disagree.
pub open spec fn names_version(etag: Option<u32>, body_version: Option<u32>, v: u32) -> bool {
    &&& expected_version(etag, body_version) == Some(v)
    &&& (etag is None || body_version is None || etag == body_version)
}

/// A patch is not idempotent: re-issuing an applied capsule patch with the
/// same field values and the version it produced, while the capsule is still
/// open for changes, is accepted and raises the version once more. (A capsule
/// whose version has reached `u32::MAX` can take no further patch.)
pub proof fn lemma_patch_reissued(
    s0: StoreView,
    s1: StoreView,
    s2: StoreView,
    cid: u32,
    etag1: Option<u32>,
    etag2: Option<u32>,
    first: CapsulePatch,
    second: CapsulePatch,
    now1: Timestamp,
    now2: Timestamp,
    r1: Result<Capsule, StoreError>,
    r2: Result<Capsule, StoreError>,
)
    requires
        patch_capsule_post(s0, s1, cid, etag1, first, now1, r1),
        r1 is Ok,
        same_text(first.name, second.name),
        same_text(first.description, second.description),
        names_version(etag2, second.version, r1->Ok_0.version),
        window_open(now2, r1->Ok_0.time_until_changed),
        r1->Ok_0.version < u32::MAX,
        patch_capsule_post(s1, s2, cid, etag2, second, now2, r2),
    ensures
        r2 is Ok,
        r2->Ok_0.version == r1->Ok_0.version + 1,
        r2->Ok_0@.name == r1->Ok_0@.name,
        r2->Ok_0@.description == r1->Ok_0@.description,
        r2->Ok_0.time_changed == Some(now2),
{
    let k = capsule_index(s0.capsules, cid);
    lemma_index_of_found(capsule_keys(s0.capsules), cid);
    assert(capsule_keys(s1.capsules) =~= capsule_keys(s0.capsules));
}

/// After a merge in a consistent store, the owner lists the surviving capsule
/// exactly once (its list holds it and repeats no id), and no contributor
/// lists the capsule merged away.
pub proof fn lemma_merge_survivor_listed_once(
    s: StoreView,
    t: StoreView,
    id1: u32,
    id2: u32,
    now: Timestamp,
    r: Result<CapsuleDetails, StoreError>,
)
    requires
        s.consistent(),
        merge_post(s, t, id1, id2, now, r),
        r is Ok,
    ensures
        exists|p: int|
            0 <= p < t.contributors.len() && (#[trigger] t.contributors[p]).id
                == s.capsules[capsule_index(s.capsules, id1)].contributor_id
                && t.contributors[p].capsule_ids.contains(id1) && no_repeats(
                t.contributors[p].capsule_ids,
            ),
        forall|p: int|
            0 <= p < t.contributors.len() ==> !(#[trigger] t.contributors[p]).capsule_ids.contains(
                id2,
            ),
{
    lemma_merge_keeps(s, t, id1, id2, now, r);
    lemma_merge_links(s, t, id1, id2, now, r);
    lemma_merge_lists(s, t, id1, id2, now, r);
    let k1 = capsule_index(s.capsules, id1);
    if !capsule_keys(s.capsules).contains(id1) {
        assert(capsule_index(s.capsules, id1) == -1);
    }
    lemma_index_of_found(capsule_keys(s.capsules), id1);
    let k2 = capsule_index(s.capsules, id2);
    let m = merged_capsule(s.capsules[k1], s.capsules[k2], now);
    let u = s.capsules.update(k1, m);
    let km = lemma_into_filter(u, capsule_kept(id2), k1);
    assert(t.capsules[km] == m);
    let owner = s.capsules[k1].contributor_id;
    assert(listed_by_contributor(t.contributors, t.capsules[km].contributor_id, t.capsules[km].id));
    let p = choose|p: int|
        0 <= p < t.contributors.len() && (#[trigger] t.contributors[p]).id == owner
            && t.contributors[p].capsule_ids.contains(id1);
    assert(no_repeats(t.contributors[p].capsule_ids));
    assert forall|q: int| 0 <= q < t.contributors.len() implies !(
    #[trigger] t.contributors[q]).capsule_ids.contains(id2) by {
        let ids = s.contributors[q].capsule_ids;
        assert(t.contributors[q].capsule_ids == ids.filter(crate::ids::id_kept(id2)));
        if t.contributors[q].capsule_ids.contains(id2) {
            let n = choose|n: int|
                0 <= n < t.contributors[q].capsule_ids.len() && t.contributors[q].capsule_ids[n]
                    == id2;
            ids.lemma_filter_pred(crate::ids::id_kept(id2), n);
        }
    }
}

} // verus!
