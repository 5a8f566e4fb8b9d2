//! Items: typed artifact references, each belonging to one capsule.
use vstd::prelude::*;

use crate::capsules::capsule_index;
use crate::capsules::capsules_view;
use crate::capsules::find_capsule;
use crate::capsules::CapsuleView;
use crate::clock::clock_now;
use crate::clock::is_clock_time;
use crate::clock::window_open;
use crate::clock::Timestamp;
use crate::consistency::lemma_add_item_keeps;
use crate::consistency::lemma_delete_item_keeps;
use crate::consistency::lemma_patch_item_keeps;
use crate::fingerprint::fingerprint_item_request;
use crate::fingerprint::item_fingerprint;
use crate::fingerprint::ledger_contains;
use crate::ids::contains_id;
use crate::linkage::lemma_add_item_links;
use crate::linkage::lemma_delete_item_links;
use crate::linkage::lemma_same_links;
use crate::linkage::same_links;
use crate::ids::id_kept;
use crate::ids::index_of;
use crate::ids::lemma_index_of;
use crate::ids::lemma_max_id_step;
use crate::ids::max_id;
use crate::ids::next_id;
use crate::ids::without_id;
use crate::pagination::page_bounds;
use crate::pagination::page_number;
use crate::pagination::page_parameters;
use crate::pagination::page_size;
use crate::pagination::page_slice;
use crate::pagination::valid_pagination;
pub use crate::pagination::CustomResponder;
pub use crate::pagination::Pagination;
use crate::store::ledger_has;
use crate::store::ledger_view;
use crate::store::LedgerEntry;
use crate::store::LedgerEntryView;
use crate::store::Snapshot;
use crate::store::SnapshotView;
use crate::store::Store;
use crate::lists::lemma_add_item_lists;
use crate::lists::lemma_delete_item_lists;
use crate::lists::lemma_same_links_lists;
use crate::store::ledger_kept;
use crate::store::lemma_ledger_push;
use crate::store::StoreError;
use crate::store::StoreView;
use crate::version::check_version;
use crate::version::version_error;

verus! {

#[derive(Debug)]
pub struct Item {
    pub id: u32,
    /// The capsule the item belongs to.
    pub id_capsule: u32,
    pub type_c: String,
    pub time_added: Timestamp,
    pub description: String,
    pub size: String,
    pub path: String,
    /// Structured metadata, held as its JSON text.
    pub metadata: String,
    pub version: u32,
}

pub ghost struct ItemView {
    pub id: u32,
    pub id_capsule: u32,
    pub type_c: Seq<char>,
    pub time_added: Timestamp,
    pub description: Seq<char>,
    pub size: Seq<char>,
    pub path: Seq<char>,
    pub metadata: Seq<char>,
    pub version: u32,
}

impl View for Item {
    type V = ItemView;

    open spec fn view(&self) -> ItemView {
        ItemView {
            id: self.id,
            id_capsule: self.id_capsule,
            type_c: self.type_c@,
            time_added: self.time_added,
            description: self.description@,
            size: self.size@,
            path: self.path@,
            metadata: self.metadata@,
            version: self.version,
        }
    }
}

impl Clone for Item {
    fn clone(&self) -> (r: Self)
        ensures
            r@ == self@,
    {
        Item {
            id: self.id,
            id_capsule: self.id_capsule,
            type_c: self.type_c.clone(),
            time_added: self.time_added,
            description: self.description.clone(),
            size: self.size.clone(),
            path: self.path.clone(),
            metadata: self.metadata.clone(),
            version: self.version,
        }
    }
}

pub open spec fn items_view(s: Seq<Item>) -> Seq<ItemView> {
    s.map_values(|i: Item| i@)
}

pub open spec fn item_keys(s: Seq<ItemView>) -> Seq<u32> {
    s.map_values(|i: ItemView| i.id)
}

/// The predicate that keeps the items whose id is not in `item_ids` and
/// whose capsule is not in `capsule_ids`.
pub open spec fn item_kept(item_ids: Seq<u32>, capsule_ids: Seq<u32>) -> spec_fn(ItemView) -> bool {
    |i: ItemView| !item_ids.contains(i.id) && !capsule_ids.contains(i.id_capsule)
}

/// Removes from `v` every item whose id is in `item_ids` or whose capsule is
/// in `capsule_ids`.
pub fn remove_items_in(v: &mut Vec<Item>, item_ids: &Vec<u32>, capsule_ids: &Vec<u32>)
    ensures
        items_view(final(v)@) == items_view(old(v)@).filter(item_kept(item_ids@, capsule_ids@)),
{
    let ghost s = items_view(v@);
    let ghost keep = item_kept(item_ids@, capsule_ids@);
    let mut out: Vec<Item> = Vec::new();
    let mut i: usize = 0;
    while i < v.len()
        invariant
            i <= v@.len(),
            s == items_view(v@),
            keep == item_kept(item_ids@, capsule_ids@),
            items_view(out@) == s.take(i as int).filter(keep),
        decreases v@.len() - i,
    {
        proof {
            assert(s.take(i + 1) =~= s.take(i as int).push(s[i as int]));
            s.take(i as int).lemma_filter_push(s[i as int], keep);
        }
        if !contains_id(item_ids, v[i].id) && !contains_id(capsule_ids, v[i].id_capsule) {
            let c = v[i].clone();
            let ghost before = out@;
            out.push(c);
            assert(items_view(out@) =~= items_view(before).push(c@));
        }
        i += 1;
    }
    assert(s.take(v@.len() as int) =~= s);
    *v = out;
}

/// A request to add an item to a capsule.
#[derive(Debug)]
pub struct NewItem {
    pub type_c: String,
    pub description: String,
    pub size: String,
    pub path: String,
    /// Structured metadata, as JSON text.
    pub metadata: String,
}

/// A new description for an item, and the version the caller last saw.
#[derive(Debug)]
pub struct NewItemUpdate {
    pub description: String,
    pub version: Option<u32>,
}

/// The position of the first item with id `id` in `s`, or -1.
pub open spec fn item_index(s: Seq<ItemView>, id: u32) -> int {
    index_of(item_keys(s), id)
}

/// The position of the first item with id `id`.
pub fn find_item(v: &Vec<Item>, id: u32) -> (r: Option<usize>)
    ensures
        match r {
            Some(i) => i == item_index(items_view(v@), id) && 0 <= i < v@.len() && v@[i as int].id
                == id,
            None => item_index(items_view(v@), id) == -1 && !item_keys(items_view(v@)).contains(id),
        },
{
    let ghost keys = item_keys(items_view(v@));
    let mut i: usize = 0;
    while i < v.len()
        invariant
            i <= v@.len(),
            keys == item_keys(items_view(v@)),
            forall|j: int| 0 <= j < i ==> keys[j] != id,
        decreases v@.len() - i,
    {
        if v[i].id == id {
            proof {
                lemma_index_of(keys, id, i as int);
            }
            return Some(i);
        }
        i += 1;
    }
    None
}

/// The id for a new item.
pub fn next_item_id(v: &Vec<Item>) -> (r: Option<u32>)
    ensures
        r == next_id(item_keys(items_view(v@))),
{
    let ghost keys = item_keys(items_view(v@));
    let mut m: u32 = 0;
    let mut i: usize = 0;
    while i < v.len()
        invariant
            i <= v@.len(),
            keys == item_keys(items_view(v@)),
            m == max_id(keys.take(i as int)),
        decreases v@.len() - i,
    {
        proof {
            lemma_max_id_step(keys, i as int);
        }
        if v[i].id > m {
            m = v[i].id;
        }
        i += 1;
    }
    assert(keys.take(v@.len() as int) =~= keys);
    if m < u32::MAX {
        Some(m + 1)
    } else {
        None
    }
}

/// Copies of the items on page `pagination`, with the number of items.
pub fn get_all_items(store: &Store, pagination: Pagination) -> (r: CustomResponder<Vec<Item>>)
    requires
        valid_pagination(pagination),
    ensures
        items_view(r.inner@) == page_slice(store@.items, pagination),
        r.total_items == store@.items.len(),
        r.page == page_number(pagination),
        r.per_page == page_size(pagination),
{
    let (start, end) = page_bounds(&pagination, store.items.len());
    let ghost all = store@.items;
    let mut out: Vec<Item> = Vec::new();
    let mut i: usize = start;
    while i < end
        invariant
            start <= i <= end <= store.items@.len(),
            all == store@.items,
            items_view(out@) == all.subrange(start as int, i as int),
        decreases end - i,
    {
        let c = store.items[i].clone();
        let ghost before = out@;
        out.push(c);
        assert(items_view(out@) =~= items_view(before).push(c@));
        assert(all.subrange(start as int, i + 1) =~= all.subrange(start as int, i as int).push(
            all[i as int],
        ));
        i += 1;
    }
    let (page, per_page) = page_parameters(&pagination);
    CustomResponder { inner: out, total_items: store.items.len(), page, per_page }
}

/// A copy of item `item_id`. Refused with `NotFound` when there is none.
pub fn get_item(store: &Store, item_id: u32) -> (r: Result<Item, StoreError>)
    ensures
        item_index(store@.items, item_id) == -1 ==> r == Err::<Item, StoreError>(
            StoreError::NotFound,
        ),
        item_index(store@.items, item_id) != -1 ==> r is Ok && r->Ok_0@ == store@.items[item_index(
            store@.items,
            item_id,
        )],
{
    match find_item(&store.items, item_id) {
        Some(k) => Ok(store.items[k].clone()),
        None => Err(StoreError::NotFound),
    }
}

/// The items among `s` named by `ids`, in the order of `ids`; ids that name
/// no item are skipped.
pub open spec fn items_named(ids: Seq<u32>, s: Seq<ItemView>) -> Seq<ItemView> {
    ids.filter(|id: u32| item_keys(s).contains(id)).map_values(|id: u32| s[index_of(item_keys(s), id)])
}

/// Copies of the items that capsule `cid` lists, in its order. Refused with
/// `NotFound` when there is no such capsule.
pub fn get_capsule_items(store: &Store, cid: u32) -> (r: Result<Vec<Item>, StoreError>)
    ensures
        capsule_index(store@.capsules, cid) == -1 ==> r == Err::<Vec<Item>, StoreError>(
            StoreError::NotFound,
        ),
        capsule_index(store@.capsules, cid) != -1 ==> r is Ok && items_view(r->Ok_0@) == items_named(
            store@.capsules[capsule_index(store@.capsules, cid)].item_ids,
            store@.items,
        ),
{
    let k = match find_capsule(&store.capsules, cid) {
        Some(k) => k,
        None => return Err(StoreError::NotFound),
    };
    let ghost ids = store.capsules@[k as int].item_ids@;
    let ghost all = store@.items;
    let ghost keep = |id: u32| item_keys(all).contains(id);
    let ghost pick = |id: u32| all[index_of(item_keys(all), id)];
    let mut out: Vec<Item> = Vec::new();
    let mut i: usize = 0;
    while i < store.capsules[k].item_ids.len()
        invariant
            k < store.capsules@.len(),
            i <= ids.len(),
            ids == store.capsules@[k as int].item_ids@,
            all == store@.items,
            keep == (|id: u32| item_keys(all).contains(id)),
            pick == (|id: u32| all[index_of(item_keys(all), id)]),
            items_view(out@) == ids.take(i as int).filter(keep).map_values(pick),
        decreases ids.len() - i,
    {
        let iid = store.capsules[k].item_ids[i];
        proof {
            assert(ids.take(i + 1) =~= ids.take(i as int).push(iid));
            ids.take(i as int).lemma_filter_push(iid, keep);
        }
        match find_item(&store.items, iid) {
            Some(j) => {
                let c = store.items[j].clone();
                proof {
                    assert(item_keys(all)[j as int] == iid);
                    assert(keep(iid));
                    assert(pick(iid) == c@);
                }
                let ghost before = out@;
                out.push(c);
                assert(items_view(out@) =~= items_view(before).push(c@));
                assert(ids.take(i + 1).filter(keep).map_values(pick) =~= ids.take(
                    i as int,
                ).filter(keep).map_values(pick).push(c@));
            },
            None => {
                assert(!keep(iid));
            },
        }
        i += 1;
    }
    assert(ids.take(ids.len() as int) =~= ids);
    Ok(out)
}

/// A copy of item `item_id` of capsule `capsule_id`. Refused with `NotFound`
/// when there is no such capsule, the capsule does not list the item, or there
/// is no such item.
pub fn get_capsule_item(store: &Store, capsule_id: u32, item_id: u32) -> (r: Result<Item, StoreError>)
    ensures
        ({
            let k = capsule_index(store@.capsules, capsule_id);
            let j = item_index(store@.items, item_id);
            if k != -1 && store@.capsules[k].item_ids.contains(item_id) && j != -1 {
                r is Ok && r->Ok_0@ == store@.items[j]
            } else {
                r == Err::<Item, StoreError>(StoreError::NotFound)
            }
        }),
{
    let k = match find_capsule(&store.capsules, capsule_id) {
        Some(k) => k,
        None => return Err(StoreError::NotFound),
    };
    if !contains_id(&store.capsules[k].item_ids, item_id) {
        return Err(StoreError::NotFound);
    }
    match find_item(&store.items, item_id) {
        Some(j) => Ok(store.items[j].clone()),
        None => Err(StoreError::NotFound),
    }
}

/// The item that a creation request served at `now` makes, with id `id`, in
/// capsule `cid`.
pub open spec fn created_item(id: u32, cid: u32, data: NewItem, now: Timestamp) -> ItemView {
    ItemView {
        id,
        id_capsule: cid,
        type_c: data.type_c@,
        time_added: now,
        description: data.description@,
        size: data.size@,
        path: data.path@,
        metadata: data.metadata@,
        version: 1,
    }
}

/// The capsule `c` after item `id` is added to it at `now`.
pub open spec fn with_item(c: CapsuleView, id: u32, now: Timestamp) -> CapsuleView {
    CapsuleView { item_ids: c.item_ids.push(id), time_changed: Some(now), ..c }
}

/// The outcome of adding an item to capsule `cid` at `now` on the store `s`.
pub open spec fn add_item_post(
    s: StoreView,
    t: StoreView,
    cid: u32,
    data: NewItem,
    now: Timestamp,
    r: Result<Item, StoreError>,
) -> bool {
    let k = capsule_index(s.capsules, cid);
    let f = item_fingerprint(data);
    if ledger_has(s.ledger, f) {
        r == Err::<Item, StoreError>(StoreError::DuplicateSubmission) && t == s
    } else if k == -1 {
        r == Err::<Item, StoreError>(StoreError::CapsuleNotFound) && t == s
    } else if !window_open(now, s.capsules[k].time_until_changed) {
        r == Err::<Item, StoreError>(StoreError::ModificationWindowClosed) && t == s
    } else {
        match next_id(item_keys(s.items)) {
            None => r == Err::<Item, StoreError>(StoreError::IdsExhausted) && t == s,
            Some(id) => r is Ok && r->Ok_0@ == created_item(id, cid, data, now) && t == (StoreView {
                capsules: s.capsules.update(k, with_item(s.capsules[k], id, now)),
                items: s.items.push(r->Ok_0@),
                ledger: s.ledger.push(
                    LedgerEntryView { fingerprint: f, snapshot: SnapshotView::Item(r->Ok_0@) },
                ),
                ..s
            }),
        }
    }
}

/// Adds an item to capsule `cid` at time `now`, at version 1. Refused, in
/// this order, with `DuplicateSubmission` when a request with the same type,
/// description, size, path and metadata has already been served, with
/// `CapsuleNotFound` when there is no such capsule, and with
/// `ModificationWindowClosed` after the capsule's deadline.
pub fn add_item_to_capsule_at(store: &mut Store, cid: u32, item_data: NewItem, now: Timestamp) -> (r:
    Result<Item, StoreError>)
    ensures
        old(store)@.well_formed() ==> final(store)@.well_formed(),
        old(store)@.consistent() ==> final(store)@.consistent(),
        ledger_kept(old(store)@.ledger, final(store)@.ledger),
        add_item_post(old(store)@, final(store)@, cid, item_data, now, r),
{
    let ghost data = item_data;
    let f = fingerprint_item_request(&item_data);
    if ledger_contains(&store.ledger, &f) {
        return Err(StoreError::DuplicateSubmission);
    }
    let k = match find_capsule(&store.capsules, cid) {
        Some(k) => k,
        None => return Err(StoreError::CapsuleNotFound),
    };
    if now > store.capsules[k].time_until_changed {
        return Err(StoreError::ModificationWindowClosed);
    }
    let id = match next_item_id(&store.items) {
        Some(id) => id,
        None => return Err(StoreError::IdsExhausted),
    };
    let item = Item {
        id,
        id_capsule: cid,
        type_c: item_data.type_c,
        time_added: now,
        description: item_data.description,
        size: item_data.size,
        path: item_data.path,
        metadata: item_data.metadata,
        version: 1,
    };
    let ghost caps = store.capsules@;
    let mut c = store.capsules[k].clone();
    c.item_ids.push(id);
    c.time_changed = Some(now);
    store.capsules[k] = c;
    assert(capsules_view(store.capsules@) =~= capsules_view(caps).update(
        k as int,
        with_item(capsules_view(caps)[k as int], id, now),
    ));
    let ghost its = store.items@;
    store.items.push(item.clone());
    assert(items_view(store.items@) =~= items_view(its).push(item@));
    let ghost led = store.ledger@;
    let entry = LedgerEntry { fingerprint: f, snapshot: Snapshot::Item(item.clone()) };
    store.ledger.push(entry);
    assert(ledger_view(store.ledger@) =~= ledger_view(led).push(entry@));
    proof {
        lemma_ledger_push(ledger_view(led), entry@);
        if old(store)@.well_formed() {
            lemma_add_item_keeps(old(store)@, store@, cid, data, now, Ok(item));
        }
        if old(store)@.linked() {
            lemma_add_item_links(old(store)@, store@, cid, data, now, Ok(item));
        }
        if old(store)@.consistent() {
            lemma_add_item_lists(old(store)@, store@, cid, data, now, Ok(item));
        }
    }
    Ok(item)
}

/// Adds an item to capsule `cid` at the current time; see
/// `add_item_to_capsule_at`.
pub fn add_item_to_capsule(store: &mut Store, cid: u32, item_data: NewItem) -> (r: Result<
    Item,
    StoreError,
>)
    ensures
        old(store)@.well_formed() ==> final(store)@.well_formed(),
        old(store)@.consistent() ==> final(store)@.consistent(),
        ledger_kept(old(store)@.ledger, final(store)@.ledger),
        exists|now: Timestamp|
            is_clock_time(now) && add_item_post(old(store)@, final(store)@, cid, item_data, now, r),
{
    let now = clock_now();
    add_item_to_capsule_at(store, cid, item_data, now)
}

/// The outcome of changing the description of item `item_id` of capsule
/// `capsule_id` at `now` on the store `s`.
pub open spec fn patch_item_post(
    s: StoreView,
    t: StoreView,
    capsule_id: u32,
    item_id: u32,
    etag: Option<u32>,
    u: NewItemUpdate,
    now: Timestamp,
    r: Result<Item, StoreError>,
) -> bool {
    let k = capsule_index(s.capsules, capsule_id);
    let j = item_index(s.items, item_id);
    if k == -1 || !s.capsules[k].item_ids.contains(item_id) {
        r == Err::<Item, StoreError>(StoreError::NotFound) && t == s
    } else if !window_open(now, s.capsules[k].time_until_changed) {
        r == Err::<Item, StoreError>(StoreError::ModificationWindowClosed) && t == s
    } else if j == -1 {
        r == Err::<Item, StoreError>(StoreError::NotFound) && t == s
    } else if version_error(etag, u.version, s.items[j].version) is Some {
        r == Err::<Item, StoreError>(version_error(etag, u.version, s.items[j].version).unwrap())
            && t == s
    } else if s.items[j].version == u32::MAX {
        r == Err::<Item, StoreError>(StoreError::VersionExhausted) && t == s
    } else {
        r is Ok && r->Ok_0@ == (ItemView {
            description: u.description@,
            version: (s.items[j].version + 1) as u32,
            ..s.items[j]
        }) && t == (StoreView {
            capsules: s.capsules.update(
                k,
                CapsuleView { time_changed: Some(now), ..s.capsules[k] },
            ),
            items: s.items.update(j, r->Ok_0@),
            ..s
        })
    }
}

/// Changes the description of item `item_id` of capsule `capsule_id` at time
/// `now`, given the version of the item the caller last saw. The item's
/// version goes up by one and the capsule is marked changed at `now`.
pub fn patch_capsule_item_description_at(
    store: &mut Store,
    capsule_id: u32,
    item_id: u32,
    etag: Option<u32>,
    item_update: NewItemUpdate,
    now: Timestamp,
) -> (r: Result<Item, StoreError>)
    ensures
        old(store)@.well_formed() ==> final(store)@.well_formed(),
        old(store)@.consistent() ==> final(store)@.consistent(),
        ledger_kept(old(store)@.ledger, final(store)@.ledger),
        patch_item_post(old(store)@, final(store)@, capsule_id, item_id, etag, item_update, now, r),
{
    let ghost update = item_update;
    let k = match find_capsule(&store.capsules, capsule_id) {
        Some(k) => k,
        None => return Err(StoreError::NotFound),
    };
    if !contains_id(&store.capsules[k].item_ids, item_id) {
        return Err(StoreError::NotFound);
    }
    if now > store.capsules[k].time_until_changed {
        return Err(StoreError::ModificationWindowClosed);
    }
    let j = match find_item(&store.items, item_id) {
        Some(j) => j,
        None => return Err(StoreError::NotFound),
    };
    match check_version(etag, item_update.version, store.items[j].version) {
        Ok(()) => {},
        Err(e) => return Err(e),
    }
    if store.items[j].version == u32::MAX {
        return Err(StoreError::VersionExhausted);
    }
    let mut item = store.items[j].clone();
    item.description = item_update.description;
    item.version = item.version + 1;
    let ghost its = store.items@;
    store.items[j] = item.clone();
    assert(items_view(store.items@) =~= items_view(its).update(j as int, item@));
    let ghost caps = store.capsules@;
    let mut c = store.capsules[k].clone();
    c.time_changed = Some(now);
    store.capsules[k] = c;
    assert(capsules_view(store.capsules@) =~= capsules_view(caps).update(
        k as int,
        CapsuleView { time_changed: Some(now), ..capsules_view(caps)[k as int] },
    ));
    proof {
        if old(store)@.well_formed() {
            lemma_patch_item_keeps(old(store)@, store@, capsule_id, item_id, etag, update, now, Ok(item));
        }
        if old(store)@.linked() {
            assert(same_links(old(store)@, store@));
            lemma_same_links(old(store)@, store@);
        }
        if old(store)@.lists_distinct() {
            assert(same_links(old(store)@, store@));
            lemma_same_links_lists(old(store)@, store@);
        }
    }
    Ok(item)
}

/// Changes an item's description at the current time; see
/// `patch_capsule_item_description_at`.
pub fn patch_capsule_item_description(
    store: &mut Store,
    capsule_id: u32,
    item_id: u32,
    etag: Option<u32>,
    item_update: NewItemUpdate,
) -> (r: Result<Item, StoreError>)
    ensures
        old(store)@.well_formed() ==> final(store)@.well_formed(),
        old(store)@.consistent() ==> final(store)@.consistent(),
        ledger_kept(old(store)@.ledger, final(store)@.ledger),
        exists|now: Timestamp|
            is_clock_time(now) && patch_item_post(
                old(store)@,
                final(store)@,
                capsule_id,
                item_id,
                etag,
                item_update,
                now,
                r,
            ),
{
    let now = clock_now();
    patch_capsule_item_description_at(store, capsule_id, item_id, etag, item_update, now)
}

/// The predicate that keeps every item but the one with id `id`.
pub open spec fn item_other_than(id: u32) -> spec_fn(ItemView) -> bool {
    |i: ItemView| i.id != id
}

/// The outcome of deleting item `item_id` of capsule `capsule_id` at `now`.
pub open spec fn delete_item_post(
    s: StoreView,
    t: StoreView,
    capsule_id: u32,
    item_id: u32,
    now: Timestamp,
    r: Result<(), StoreError>,
) -> bool {
    let k = capsule_index(s.capsules, capsule_id);
    if k == -1 {
        r == Err::<(), StoreError>(StoreError::NotFound) && t == s
    } else if !window_open(now, s.capsules[k].time_until_changed) {
        r == Err::<(), StoreError>(StoreError::ModificationWindowClosed) && t == s
    } else if !s.capsules[k].item_ids.contains(item_id) {
        r == Err::<(), StoreError>(StoreError::NotFound) && t == s
    } else {
        r is Ok && t == (StoreView {
            capsules: s.capsules.update(
                k,
                CapsuleView {
                    item_ids: s.capsules[k].item_ids.filter(id_kept(item_id)),
                    time_changed: Some(now),
                    ..s.capsules[k]
                },
            ),
            items: s.items.filter(item_other_than(item_id)),
            ..s
        })
    }
}

/// Removes every item with id `id` from `v`.
fn remove_item_records(v: &mut Vec<Item>, id: u32)
    ensures
        items_view(final(v)@) == items_view(old(v)@).filter(item_other_than(id)),
{
    let ghost s = items_view(v@);
    let mut out: Vec<Item> = Vec::new();
    let mut i: usize = 0;
    while i < v.len()
        invariant
            i <= v@.len(),
            s == items_view(v@),
            items_view(out@) == s.take(i as int).filter(item_other_than(id)),
        decreases v@.len() - i,
    {
        proof {
            assert(s.take(i + 1) =~= s.take(i as int).push(s[i as int]));
            s.take(i as int).lemma_filter_push(s[i as int], item_other_than(id));
        }
        if v[i].id != id {
            let c = v[i].clone();
            let ghost before = out@;
            out.push(c);
            assert(items_view(out@) =~= items_view(before).push(c@));
        }
        i += 1;
    }
    assert(s.take(v@.len() as int) =~= s);
    *v = out;
}

/// Deletes item `item_id` of capsule `capsule_id` at time `now`. Refused with
/// `NotFound` when there is no such capsule or it does not list the item, and
/// with `ModificationWindowClosed` after the capsule's deadline.
pub fn delete_capsule_item_at(store: &mut Store, capsule_id: u32, item_id: u32, now: Timestamp) -> (r:
    Result<(), StoreError>)
    ensures
        old(store)@.well_formed() ==> final(store)@.well_formed(),
        old(store)@.consistent() ==> final(store)@.consistent(),
        ledger_kept(old(store)@.ledger, final(store)@.ledger),
        delete_item_post(old(store)@, final(store)@, capsule_id, item_id, now, r),
{
    let k = match find_capsule(&store.capsules, capsule_id) {
        Some(k) => k,
        None => return Err(StoreError::NotFound),
    };
    if now > store.capsules[k].time_until_changed {
        return Err(StoreError::ModificationWindowClosed);
    }
    if !contains_id(&store.capsules[k].item_ids, item_id) {
        return Err(StoreError::NotFound);
    }
    let ghost caps = store.capsules@;
    let mut c = store.capsules[k].clone();
    c.item_ids = without_id(&c.item_ids, item_id);
    c.time_changed = Some(now);
    store.capsules[k] = c;
    assert(capsules_view(store.capsules@) =~= capsules_view(caps).update(
        k as int,
        CapsuleView {
            item_ids: capsules_view(caps)[k as int].item_ids.filter(id_kept(item_id)),
            time_changed: Some(now),
            ..capsules_view(caps)[k as int]
        },
    ));
    remove_item_records(&mut store.items, item_id);
    proof {
        if old(store)@.well_formed() {
            lemma_delete_item_keeps(old(store)@, store@, capsule_id, item_id, now, Ok(()));
        }
        if old(store)@.consistent() {
            lemma_delete_item_links(old(store)@, store@, capsule_id, item_id, now, Ok(()));
        }
        if old(store)@.lists_distinct() {
            lemma_delete_item_lists(old(store)@, store@, capsule_id, item_id, now, Ok(()));
        }
    }
    Ok(())
}

/// Deletes an item at the current time; see `delete_capsule_item_at`.
pub fn delete_capsule_item(store: &mut Store, capsule_id: u32, item_id: u32) -> (r: Result<
    (),
    StoreError,
>)
    ensures
        old(store)@.well_formed() ==> final(store)@.well_formed(),
        old(store)@.consistent() ==> final(store)@.consistent(),
        ledger_kept(old(store)@.ledger, final(store)@.ledger),
        exists|now: Timestamp|
            is_clock_time(now) && delete_item_post(
                old(store)@,
                final(store)@,
                capsule_id,
                item_id,
                now,
                r,
            ),
{
    let now = clock_now();
    delete_capsule_item_at(store, capsule_id, item_id, now)
}

} // verus!
