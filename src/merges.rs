//! Merging two capsules of one contributor, and the log of completed merges.
use vstd::prelude::*;

use crate::capsules::capsule_index;
use crate::capsules::capsule_keys;
use crate::capsules::capsule_kept;
use crate::capsules::capsules_view;
use crate::capsules::find_capsule;
use crate::capsules::remove_capsule_records;
use crate::capsules::Capsule;
use crate::capsules::CapsuleView;
use crate::clock::clock_now;
use crate::clock::is_clock_time;
use crate::clock::window_open;
use crate::clock::Timestamp;
use crate::consistency::lemma_merge_keeps;
use crate::contributors::drop_capsule_refs;
use crate::contributors::remove_capsule_refs;
use crate::ids::contains_id;
use crate::linkage::lemma_merge_links;
use crate::ids::copy_ids;
use crate::ids::id_kept;
use crate::items::items_view;
use crate::items::Item;
use crate::items::ItemView;
use crate::store::Store;
use crate::lists::lemma_merge_lists;
use crate::store::ledger_kept;
use crate::store::StoreError;
use crate::store::StoreView;

verus! {

/// A snapshot of a capsule, as recorded in the merge log.
#[derive(Debug)]
pub struct CapsuleDetails {
    pub id: u32,
    pub contributor_id: u32,
    pub time_created: Timestamp,
    pub time_changed: Option<Timestamp>,
    pub description: String,
    pub name: String,
    pub item_ids: Vec<u32>,
}

pub ghost struct CapsuleDetailsView {
    pub id: u32,
    pub contributor_id: u32,
    pub time_created: Timestamp,
    pub time_changed: Option<Timestamp>,
    pub description: Seq<char>,
    pub name: Seq<char>,
    pub item_ids: Seq<u32>,
}

impl View for CapsuleDetails {
    type V = CapsuleDetailsView;

    open spec fn view(&self) -> CapsuleDetailsView {
        CapsuleDetailsView {
            id: self.id,
            contributor_id: self.contributor_id,
            time_created: self.time_created,
            time_changed: self.time_changed,
            description: self.description@,
            name: self.name@,
            item_ids: self.item_ids@,
        }
    }
}

impl Clone for CapsuleDetails {
    fn clone(&self) -> (r: Self)
        ensures
            r@ == self@,
    {
        CapsuleDetails {
            id: self.id,
            contributor_id: self.contributor_id,
            time_created: self.time_created,
            time_changed: self.time_changed,
            description: self.description.clone(),
            name: self.name.clone(),
            item_ids: copy_ids(&self.item_ids),
        }
    }
}

/// The snapshot of a capsule with the given view.
pub open spec fn details_of(c: crate::capsules::CapsuleView) -> CapsuleDetailsView {
    CapsuleDetailsView {
        id: c.id,
        contributor_id: c.contributor_id,
        time_created: c.time_created,
        time_changed: c.time_changed,
        description: c.description,
        name: c.name,
        item_ids: c.item_ids,
    }
}

impl From<Capsule> for CapsuleDetails {
    fn from(capsule: Capsule) -> (r: CapsuleDetails) {
        CapsuleDetails {
            id: capsule.id,
            contributor_id: capsule.contributor_id,
            time_created: capsule.time_created,
            time_changed: capsule.time_changed,
            description: capsule.description,
            name: capsule.name,
            item_ids: capsule.item_ids,
        }
    }
}

impl vstd::std_specs::convert::FromSpecImpl<Capsule> for CapsuleDetails {
    open spec fn obeys_from_spec() -> bool {
        true
    }

    open spec fn from_spec(capsule: Capsule) -> CapsuleDetails {
        CapsuleDetails {
            id: capsule.id,
            contributor_id: capsule.contributor_id,
            time_created: capsule.time_created,
            time_changed: capsule.time_changed,
            description: capsule.description,
            name: capsule.name,
            item_ids: capsule.item_ids,
        }
    }
}

/// The record of one completed merge: both capsules before, and the result.
#[derive(Debug)]
pub struct MergeRecord {
    pub old_capsule1: CapsuleDetails,
    pub old_capsule2: CapsuleDetails,
    pub new_merged_capsule: CapsuleDetails,
}

pub ghost struct MergeRecordView {
    pub old_capsule1: CapsuleDetailsView,
    pub old_capsule2: CapsuleDetailsView,
    pub new_merged_capsule: CapsuleDetailsView,
}

impl View for MergeRecord {
    type V = MergeRecordView;

    open spec fn view(&self) -> MergeRecordView {
        MergeRecordView {
            old_capsule1: self.old_capsule1@,
            old_capsule2: self.old_capsule2@,
            new_merged_capsule: self.new_merged_capsule@,
        }
    }
}

impl Clone for MergeRecord {
    fn clone(&self) -> (r: Self)
        ensures
            r@ == self@,
    {
        MergeRecord {
            old_capsule1: self.old_capsule1.clone(),
            old_capsule2: self.old_capsule2.clone(),
            new_merged_capsule: self.new_merged_capsule.clone(),
        }
    }
}

pub open spec fn merge_records_view(s: Seq<MergeRecord>) -> Seq<MergeRecordView> {
    s.map_values(|m: MergeRecord| m@)
}

/// Capsule `c1` after the items of `c2` join it at `now`.
pub open spec fn merged_capsule(c1: CapsuleView, c2: CapsuleView, now: Timestamp) -> CapsuleView {
    CapsuleView { item_ids: c1.item_ids + c2.item_ids, time_changed: Some(now), ..c1 }
}

/// Whether item `i` belongs to capsule `c`: it names `c`, or `c` lists it.
pub open spec fn belongs_to(i: ItemView, c: CapsuleView) -> bool {
    i.id_capsule == c.id || c.item_ids.contains(i.id)
}

/// Item `i` moved to capsule `target` when it belongs to capsule `c2`.
pub open spec fn reparented(i: ItemView, target: u32, c2: CapsuleView) -> ItemView {
    if belongs_to(i, c2) {
        ItemView { id_capsule: target, ..i }
    } else {
        i
    }
}

pub open spec fn reparent_all(s: Seq<ItemView>, target: u32, c2: CapsuleView) -> Seq<ItemView> {
    s.map_values(|i: ItemView| reparented(i, target, c2))
}

/// The outcome of merging capsule `id2` into capsule `id1` at `now` on the
/// store `s`.
pub open spec fn merge_post(
    s: StoreView,
    t: StoreView,
    id1: u32,
    id2: u32,
    now: Timestamp,
    r: Result<CapsuleDetails, StoreError>,
) -> bool {
    let k1 = capsule_index(s.capsules, id1);
    let k2 = capsule_index(s.capsules, id2);
    if k1 == -1 || k2 == -1 {
        r == Err::<CapsuleDetails, StoreError>(StoreError::NotFound) && t == s
    } else {
        let c1 = s.capsules[k1];
        let c2 = s.capsules[k2];
        if c1.contributor_id != c2.contributor_id {
            r == Err::<CapsuleDetails, StoreError>(StoreError::DifferentOwners) && t == s
        } else if !window_open(now, c1.time_until_changed) || !window_open(
            now,
            c2.time_until_changed,
        ) {
            r == Err::<CapsuleDetails, StoreError>(StoreError::ModificationWindowClosed) && t == s
        } else if id1 == id2 {
            r == Err::<CapsuleDetails, StoreError>(StoreError::MergeWithItself) && t == s
        } else {
            let m = merged_capsule(c1, c2, now);
            r is Ok && r->Ok_0@ == details_of(m) && t == (StoreView {
                contributors: drop_capsule_refs(s.contributors, id2),
                capsules: s.capsules.update(k1, m).filter(capsule_kept(id2)),
                items: reparent_all(s.items, id1, c2),
                merge_records: s.merge_records.push(
                    MergeRecordView {
                        old_capsule1: details_of(c1),
                        old_capsule2: details_of(c2),
                        new_merged_capsule: details_of(m),
                    },
                ),
                ..s
            })
        }
    }
}

/// Moves every item of `v` that belongs to capsule `c2` to capsule `target`.
fn reparent_items(v: &mut Vec<Item>, target: u32, c2: &Capsule)
    ensures
        items_view(final(v)@) == reparent_all(items_view(old(v)@), target, c2@),
{
    let ghost s0 = items_view(v@);
    let mut i: usize = 0;
    while i < v.len()
        invariant
            i <= v@.len(),
            v@.len() == s0.len(),
            forall|j: int| 0 <= j < i ==> (#[trigger] v@[j])@ == reparented(s0[j], target, c2@),
            forall|j: int| i <= j < v@.len() ==> (#[trigger] v@[j])@ == s0[j],
        decreases v@.len() - i,
    {
        if v[i].id_capsule == c2.id || contains_id(&c2.item_ids, v[i].id) {
            v[i].id_capsule = target;
        }
        i += 1;
    }
    assert(items_view(v@) =~= reparent_all(s0, target, c2@));
}

/// Merges capsule `capsule_id2` into capsule `capsule_id1` at time `now`: the
/// items of the second move to the first, the second is deleted and leaves
/// its contributor, the first is marked changed at `now`, and the merge is
/// logged. Returns the merged capsule. Refused, in this order, with
/// `NotFound` when either capsule is missing, `DifferentOwners` when the
/// contributors differ, `ModificationWindowClosed` when either deadline has
/// passed, and `MergeWithItself` when both ids name the same capsule.
pub fn merge_capsules_at(store: &mut Store, capsule_id1: u32, capsule_id2: u32, now: Timestamp) -> (r:
    Result<CapsuleDetails, StoreError>)
    ensures
        old(store)@.well_formed() ==> final(store)@.well_formed(),
        old(store)@.consistent() ==> final(store)@.consistent(),
        ledger_kept(old(store)@.ledger, final(store)@.ledger),
        merge_post(old(store)@, final(store)@, capsule_id1, capsule_id2, now, r),
        r is Ok ==> final(store)@.items.len() == old(store)@.items.len() && forall|j: int|
            0 <= j < old(store)@.items.len() && (#[trigger] old(store)@.items[j]).id_capsule
                == capsule_id2 ==> final(store)@.items[j].id_capsule == capsule_id1,
        r is Ok ==> !capsule_keys(final(store)@.capsules).contains(capsule_id2),
        r is Ok ==> forall|j: int|
            0 <= j < final(store)@.contributors.len()
                ==> !(#[trigger] final(store)@.contributors[j]).capsule_ids.contains(capsule_id2),
        r is Ok ==> final(store)@.merge_records.len() == old(store)@.merge_records.len() + 1,
{
    let k1 = match find_capsule(&store.capsules, capsule_id1) {
        Some(k) => k,
        None => return Err(StoreError::NotFound),
    };
    let k2 = match find_capsule(&store.capsules, capsule_id2) {
        Some(k) => k,
        None => return Err(StoreError::NotFound),
    };
    if store.capsules[k1].contributor_id != store.capsules[k2].contributor_id {
        return Err(StoreError::DifferentOwners);
    }
    if now > store.capsules[k1].time_until_changed || now > store.capsules[k2].time_until_changed {
        return Err(StoreError::ModificationWindowClosed);
    }
    if capsule_id1 == capsule_id2 {
        return Err(StoreError::MergeWithItself);
    }
    let ghost s = store@;
    let c1 = store.capsules[k1].clone();
    let c2 = store.capsules[k2].clone();
    let mut merged = c1.clone();
    let mut moved = copy_ids(&c2.item_ids);
    merged.item_ids.append(&mut moved);
    merged.time_changed = Some(now);
    assert(merged@ == merged_capsule(c1@, c2@, now));
    reparent_items(&mut store.items, capsule_id1, &c2);
    let ghost caps = store.capsules@;
    store.capsules[k1] = merged.clone();
    assert(capsules_view(store.capsules@) =~= capsules_view(caps).update(k1 as int, merged@));
    remove_capsule_records(&mut store.capsules, capsule_id2);
    remove_capsule_refs(&mut store.contributors, capsule_id2);
    let record = MergeRecord {
        old_capsule1: CapsuleDetails::from(c1),
        old_capsule2: CapsuleDetails::from(c2),
        new_merged_capsule: CapsuleDetails::from(merged.clone()),
    };
    let ghost recs = store.merge_records@;
    store.merge_records.push(record);
    assert(merge_records_view(store.merge_records@) =~= merge_records_view(recs).push(record@));
    assert(store@ =~= (StoreView {
        contributors: drop_capsule_refs(s.contributors, capsule_id2),
        capsules: s.capsules.update(k1 as int, merged@).filter(capsule_kept(capsule_id2)),
        items: reparent_all(s.items, capsule_id1, c2@),
        merge_records: s.merge_records.push(record@),
        ..s
    }));
    proof {
        lemma_merge_effects(s, store@, capsule_id1, capsule_id2, k1 as int, merged@, c2@);
    }
    let r = CapsuleDetails::from(merged);
    proof {
        if s.well_formed() {
            lemma_merge_keeps(s, store@, capsule_id1, capsule_id2, now, Ok(r));
        }
        if s.consistent() {
            lemma_merge_links(s, store@, capsule_id1, capsule_id2, now, Ok(r));
        }
        if s.consistent() {
            lemma_merge_lists(s, store@, capsule_id1, capsule_id2, now, Ok(r));
        }
    }
    Ok(r)
}

proof fn lemma_merge_effects(
    s: StoreView,
    t: StoreView,
    id1: u32,
    id2: u32,
    k1: int,
    m: CapsuleView,
    c2: CapsuleView,
)
    requires
        0 <= k1 < s.capsules.len(),
        c2.id == id2,
        t.contributors == drop_capsule_refs(s.contributors, id2),
        t.capsules == s.capsules.update(k1, m).filter(capsule_kept(id2)),
        t.items == reparent_all(s.items, id1, c2),
    ensures
        t.items.len() == s.items.len(),
        forall|j: int|
            0 <= j < s.items.len() && (#[trigger] s.items[j]).id_capsule == id2
                ==> t.items[j].id_capsule == id1,
        !capsule_keys(t.capsules).contains(id2),
        forall|j: int|
            0 <= j < t.contributors.len() ==> !(#[trigger] t.contributors[j]).capsule_ids.contains(
                id2,
            ),
{
    assert forall|j: int| 0 <= j < t.contributors.len() implies !(
    #[trigger] t.contributors[j]).capsule_ids.contains(id2) by {
        let ids = s.contributors[j].capsule_ids.filter(id_kept(id2));
        assert(t.contributors[j].capsule_ids == ids);
        if ids.contains(id2) {
            let n = choose|n: int| 0 <= n < ids.len() && ids[n] == id2;
            s.contributors[j].capsule_ids.lemma_filter_pred(id_kept(id2), n);
        }
    }
    if capsule_keys(t.capsules).contains(id2) {
        let n = choose|n: int| 0 <= n < capsule_keys(t.capsules).len() && capsule_keys(t.capsules)[n]
            == id2;
        s.capsules.update(k1, m).lemma_filter_pred(capsule_kept(id2), n);
    }
}

/// Merges capsule `capsule_id2` into capsule `capsule_id1` at the current
/// time; see `merge_capsules_at`.
pub fn merge_capsules(store: &mut Store, capsule_id1: u32, capsule_id2: u32) -> (r: Result<
    CapsuleDetails,
    StoreError,
>)
    ensures
        old(store)@.well_formed() ==> final(store)@.well_formed(),
        old(store)@.consistent() ==> final(store)@.consistent(),
        ledger_kept(old(store)@.ledger, final(store)@.ledger),
        exists|now: Timestamp|
            is_clock_time(now) && merge_post(
                old(store)@,
                final(store)@,
                capsule_id1,
                capsule_id2,
                now,
                r,
            ),
{
    let now = clock_now();
    merge_capsules_at(store, capsule_id1, capsule_id2, now)
}

/// Copies of the merge records, oldest first.
pub fn get_merge_records(store: &Store) -> (r: Vec<MergeRecord>)
    ensures
        merge_records_view(r@) == store@.merge_records,
{
    let ghost all = store@.merge_records;
    let mut out: Vec<MergeRecord> = Vec::new();
    let mut i: usize = 0;
    while i < store.merge_records.len()
        invariant
            i <= store.merge_records@.len(),
            all == store@.merge_records,
            merge_records_view(out@) == all.take(i as int),
        decreases store.merge_records@.len() - i,
    {
        let m = store.merge_records[i].clone();
        let ghost before = out@;
        out.push(m);
        assert(merge_records_view(out@) =~= merge_records_view(before).push(m@));
        assert(all.take(i + 1) =~= all.take(i as int).push(all[i as int]));
        i += 1;
    }
    assert(all.take(all.len() as int) =~= all);
    out
}

} // verus!
