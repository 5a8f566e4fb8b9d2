//! Capsules: named, time-windowed containers of items owned by one contributor.
use vstd::prelude::*;

use crate::clock::clock_now;
use crate::clock::deadline_after;
use crate::clock::is_clock_time;
use crate::clock::modification_deadline;
use crate::clock::window_open;
use crate::clock::Timestamp;
use crate::consistency::lemma_create_capsule_keeps;
use crate::consistency::lemma_delete_capsule_keeps;
use crate::consistency::lemma_patch_capsule_keeps;
use crate::consistency::lemma_update_capsule_keeps;
use crate::contributors::add_capsule_ref;
use crate::contributors::contributor_index;
use crate::contributors::contributors_view;
use crate::contributors::drop_capsule_refs;
use crate::contributors::find_contributor;
use crate::contributors::remove_capsule_refs;
use crate::fingerprint::capsule_fingerprint;
use crate::fingerprint::fingerprint_capsule_request;
use crate::fingerprint::ledger_contains;
use crate::ids::copy_ids;
use crate::linkage::lemma_create_capsule_links;
use crate::linkage::lemma_delete_capsule_links;
use crate::linkage::lemma_same_links;
use crate::linkage::same_links;
use crate::ids::id_kept;
use crate::ids::index_of;
use crate::ids::lemma_index_of;
use crate::ids::lemma_max_id_step;
use crate::ids::max_id;
use crate::ids::next_id;
use crate::items::item_kept;
use crate::items::remove_items_in;
use crate::pagination::page_bounds;
use crate::pagination::page_number;
use crate::pagination::page_size;
use crate::pagination::page_slice;
use crate::pagination::valid_pagination;
pub use crate::pagination::CustomResponder;
pub use crate::pagination::Pagination;
use crate::store::ledger_has;
use crate::store::ledger_view;
use crate::store::LedgerEntry;
use crate::store::LedgerEntryView;
use crate::store::Snapshot;
use crate::store::SnapshotView;
use crate::store::Store;
use crate::lists::lemma_create_capsule_lists;
use crate::lists::lemma_delete_capsule_lists;
use crate::lists::lemma_same_links_lists;
use crate::store::ledger_kept;
use crate::store::lemma_ledger_push;
use crate::store::StoreError;
use crate::store::StoreView;
use crate::version::check_version;
use crate::version::version_error;

verus! {

#[derive(Debug)]
pub struct Capsule {
    pub id: u32,
    pub contributor_id: u32,
    pub name: String,
    pub description: String,
    pub time_created: Timestamp,
    pub time_changed: Option<Timestamp>,
    pub time_open: Timestamp,
    /// No change to the capsule or its items is accepted after this instant.
    pub time_until_changed: Timestamp,
    pub item_ids: Vec<u32>,
    pub version: u32,
}

pub ghost struct CapsuleView {
    pub id: u32,
    pub contributor_id: u32,
    pub name: Seq<char>,
    pub description: Seq<char>,
    pub time_created: Timestamp,
    pub time_changed: Option<Timestamp>,
    pub time_open: Timestamp,
    pub time_until_changed: Timestamp,
    pub item_ids: Seq<u32>,
    pub version: u32,
}

impl View for Capsule {
    type V = CapsuleView;

    open spec fn view(&self) -> CapsuleView {
        CapsuleView {
            id: self.id,
            contributor_id: self.contributor_id,
            name: self.name@,
            description: self.description@,
            time_created: self.time_created,
            time_changed: self.time_changed,
            time_open: self.time_open,
            time_until_changed: self.time_until_changed,
            item_ids: self.item_ids@,
            version: self.version,
        }
    }
}

impl Clone for Capsule {
    fn clone(&self) -> (r: Self)
        ensures
            r@ == self@,
    {
        Capsule {
            id: self.id,
            contributor_id: self.contributor_id,
            name: self.name.clone(),
            description: self.description.clone(),
            time_created: self.time_created,
            time_changed: self.time_changed,
            time_open: self.time_open,
            time_until_changed: self.time_until_changed,
            item_ids: copy_ids(&self.item_ids),
            version: self.version,
        }
    }
}

pub open spec fn capsules_view(s: Seq<Capsule>) -> Seq<CapsuleView> {
    s.map_values(|c: Capsule| c@)
}

pub open spec fn capsule_keys(s: Seq<CapsuleView>) -> Seq<u32> {
    s.map_values(|c: CapsuleView| c.id)
}

/// The position of the first capsule with id `id` in `s`, or -1.
pub open spec fn capsule_index(s: Seq<CapsuleView>, id: u32) -> int {
    index_of(capsule_keys(s), id)
}

/// The position of the first capsule with id `id`.
pub fn find_capsule(v: &Vec<Capsule>, id: u32) -> (r: Option<usize>)
    ensures
        match r {
            Some(i) => i == capsule_index(capsules_view(v@), id) && 0 <= i < v@.len() && v@[i as int].id
                == id,
            None => capsule_index(capsules_view(v@), id) == -1 && !capsule_keys(
                capsules_view(v@),
            ).contains(id),
        },
{
    let ghost keys = capsule_keys(capsules_view(v@));
    let mut i: usize = 0;
    while i < v.len()
        invariant
            i <= v@.len(),
            keys == capsule_keys(capsules_view(v@)),
            forall|j: int| 0 <= j < i ==> keys[j] != id,
        decreases v@.len() - i,
    {
        if v[i].id == id {
            proof {
                lemma_index_of(keys, id, i as int);
            }
            return Some(i);
        }
        i += 1;
    }
    None
}

/// The id for a new capsule.
pub fn next_capsule_id(v: &Vec<Capsule>) -> (r: Option<u32>)
    ensures
        r == next_id(capsule_keys(capsules_view(v@))),
{
    let ghost keys = capsule_keys(capsules_view(v@));
    let mut m: u32 = 0;
    let mut i: usize = 0;
    while i < v.len()
        invariant
            i <= v@.len(),
            keys == capsule_keys(capsules_view(v@)),
            m == max_id(keys.take(i as int)),
        decreases v@.len() - i,
    {
        proof {
            lemma_max_id_step(keys, i as int);
        }
        if v[i].id > m {
            m = v[i].id;
        }
        i += 1;
    }
    assert(keys.take(v@.len() as int) =~= keys);
    if m < u32::MAX {
        Some(m + 1)
    } else {
        None
    }
}

/// The predicate that keeps every capsule but the one with id `id`.
pub open spec fn capsule_kept(id: u32) -> spec_fn(CapsuleView) -> bool {
    |c: CapsuleView| c.id != id
}

/// The predicate that keeps every capsule not owned by contributor `owner`.
pub open spec fn capsule_not_owned_by(owner: u32) -> spec_fn(CapsuleView) -> bool {
    |c: CapsuleView| c.contributor_id != owner
}

/// The predicate that keeps the capsules owned by contributor `owner`.
pub open spec fn capsule_owned_by(owner: u32) -> spec_fn(CapsuleView) -> bool {
    |c: CapsuleView| c.contributor_id == owner
}

/// The ids of the capsules in `s` owned by contributor `owner`.
pub open spec fn capsules_owned_by(s: Seq<CapsuleView>, owner: u32) -> Seq<u32> {
    capsule_keys(s.filter(capsule_owned_by(owner)))
}

/// Removes every capsule with id `id` from `v`.
pub fn remove_capsule_records(v: &mut Vec<Capsule>, id: u32)
    ensures
        capsules_view(final(v)@) == capsules_view(old(v)@).filter(capsule_kept(id)),
{
    let ghost s = capsules_view(v@);
    let mut out: Vec<Capsule> = Vec::new();
    let mut i: usize = 0;
    while i < v.len()
        invariant
            i <= v@.len(),
            s == capsules_view(v@),
            capsules_view(out@) == s.take(i as int).filter(capsule_kept(id)),
        decreases v@.len() - i,
    {
        proof {
            assert(s.take(i + 1) =~= s.take(i as int).push(s[i as int]));
            s.take(i as int).lemma_filter_push(s[i as int], capsule_kept(id));
        }
        if v[i].id != id {
            let c = v[i].clone();
            let ghost before = out@;
            out.push(c);
            assert(capsules_view(out@) =~= capsules_view(before).push(c@));
        }
        i += 1;
    }
    assert(s.take(v@.len() as int) =~= s);
    *v = out;
}

/// Removes every capsule owned by contributor `owner` from `v`, and returns
/// the ids of the removed capsules.
pub fn remove_capsules_of(v: &mut Vec<Capsule>, owner: u32) -> (r: Vec<u32>)
    ensures
        capsules_view(final(v)@) == capsules_view(old(v)@).filter(capsule_not_owned_by(owner)),
        r@ == capsules_owned_by(capsules_view(old(v)@), owner),
{
    let ghost s = capsules_view(v@);
    let mut out: Vec<Capsule> = Vec::new();
    let mut removed: Vec<u32> = Vec::new();
    let mut i: usize = 0;
    while i < v.len()
        invariant
            i <= v@.len(),
            s == capsules_view(v@),
            capsules_view(out@) == s.take(i as int).filter(capsule_not_owned_by(owner)),
            removed@ == capsule_keys(s.take(i as int).filter(capsule_owned_by(owner))),
        decreases v@.len() - i,
    {
        proof {
            assert(s.take(i + 1) =~= s.take(i as int).push(s[i as int]));
            s.take(i as int).lemma_filter_push(s[i as int], capsule_not_owned_by(owner));
            s.take(i as int).lemma_filter_push(s[i as int], capsule_owned_by(owner));
        }
        if v[i].contributor_id != owner {
            let c = v[i].clone();
            let ghost before = out@;
            out.push(c);
            assert(capsules_view(out@) =~= capsules_view(before).push(c@));
        } else {
            let ghost before = removed@;
            removed.push(v[i].id);
            assert(removed@ =~= capsule_keys(s.take(i + 1).filter(capsule_owned_by(owner))));
        }
        i += 1;
    }
    assert(s.take(v@.len() as int) =~= s);
    *v = out;
    removed
}

/// The fields of a capsule to change, and the version the caller last saw.
#[derive(Debug)]
pub struct CapsulePatch {
    pub name: Option<String>,
    pub description: Option<String>,
    pub version: Option<u32>,
}

/// A request to create a capsule.
#[derive(Debug)]
pub struct NewCapsule {
    pub name: String,
    pub description: String,
    pub contributor_id: u32,
    pub time_open: Timestamp,
}

/// The capsule that a creation request served at `now` makes, with id `id`.
pub open spec fn created_capsule(id: u32, data: NewCapsule, now: Timestamp) -> CapsuleView {
    CapsuleView {
        id,
        contributor_id: data.contributor_id,
        name: data.name@,
        description: data.description@,
        time_created: now,
        time_changed: Some(now),
        time_open: data.time_open,
        time_until_changed: deadline_after(now),
        item_ids: Seq::empty(),
        version: 1,
    }
}

/// The outcome of a capsule creation request served at `now` on the store
/// `s`: the result `r` and the store `t` after it.
pub open spec fn create_capsule_post(
    s: StoreView,
    t: StoreView,
    data: NewCapsule,
    now: Timestamp,
    r: Result<Capsule, StoreError>,
) -> bool {
    let f = capsule_fingerprint(data);
    if ledger_has(s.ledger, f) {
        r == Err::<Capsule, StoreError>(StoreError::DuplicateSubmission) && t == s
    } else if contributor_index(s.contributors, data.contributor_id) == -1 {
        r == Err::<Capsule, StoreError>(StoreError::ContributorNotFound) && t == s
    } else {
        match next_id(capsule_keys(s.capsules)) {
            None => r == Err::<Capsule, StoreError>(StoreError::IdsExhausted) && t == s,
            Some(id) => r is Ok && r->Ok_0@ == created_capsule(id, data, now) && t == (StoreView {
                contributors: add_capsule_ref(s.contributors, data.contributor_id, id),
                capsules: s.capsules.push(r->Ok_0@),
                ledger: s.ledger.push(
                    LedgerEntryView { fingerprint: f, snapshot: SnapshotView::Capsule(r->Ok_0@) },
                ),
                ..s
            }),
        }
    }
}

/// Creates a capsule at time `now`: it belongs to the contributor the request
/// names, starts at version 1, and may be changed until one week after `now`.
/// Refused with `DuplicateSubmission` when a request with the same name,
/// description, owner and opening time has already been served, else with
/// `ContributorNotFound` when that contributor does not exist.
pub fn create_capsule_at(store: &mut Store, capsule_data: NewCapsule, now: Timestamp) -> (r: Result<
    Capsule,
    StoreError,
>)
    requires
        is_clock_time(now),
    ensures
        old(store)@.well_formed() ==> final(store)@.well_formed(),
        old(store)@.consistent() ==> final(store)@.consistent(),
        ledger_kept(old(store)@.ledger, final(store)@.ledger),
        create_capsule_post(old(store)@, final(store)@, capsule_data, now, r),
{
    let ghost data = capsule_data;
    let f = fingerprint_capsule_request(&capsule_data);
    if ledger_contains(&store.ledger, &f) {
        return Err(StoreError::DuplicateSubmission);
    }
    let owner = match find_contributor(&store.contributors, capsule_data.contributor_id) {
        Some(k) => k,
        None => return Err(StoreError::ContributorNotFound),
    };
    let id = match next_capsule_id(&store.capsules) {
        Some(id) => id,
        None => return Err(StoreError::IdsExhausted),
    };
    let ghost s = store@;
    let capsule = Capsule {
        id,
        contributor_id: capsule_data.contributor_id,
        name: capsule_data.name,
        description: capsule_data.description,
        time_created: now,
        time_changed: Some(now),
        time_open: capsule_data.time_open,
        time_until_changed: modification_deadline(now),
        item_ids: Vec::new(),
        version: 1,
    };
    assert(capsule@.item_ids =~= Seq::<u32>::empty());
    let ghost caps = store.capsules@;
    store.capsules.push(capsule.clone());
    assert(capsules_view(store.capsules@) =~= capsules_view(caps).push(capsule@));
    let ghost conts = store.contributors@;
    let mut owner_record = store.contributors[owner].clone();
    owner_record.capsule_ids.push(id);
    store.contributors[owner] = owner_record;
    assert(contributors_view(store.contributors@) =~= add_capsule_ref(
        contributors_view(conts),
        capsule_data.contributor_id,
        id,
    ));
    let ghost led = store.ledger@;
    let entry = LedgerEntry { fingerprint: f, snapshot: Snapshot::Capsule(capsule.clone()) };
    store.ledger.push(entry);
    assert(ledger_view(store.ledger@) =~= ledger_view(led).push(entry@));
    proof {
        lemma_ledger_push(ledger_view(led), entry@);
        if s.well_formed() {
            lemma_create_capsule_keeps(s, store@, data, now, Ok(capsule));
        }
        if s.linked() {
            lemma_create_capsule_links(s, store@, data, now, Ok(capsule));
        }
        if s.consistent() {
            lemma_create_capsule_lists(s, store@, data, now, Ok(capsule));
        }
    }
    Ok(capsule)
}

/// Creates a capsule at the current time; see `create_capsule_at`.
pub fn create_and_update_capsule(store: &mut Store, capsule_data: NewCapsule) -> (r: Result<
    Capsule,
    StoreError,
>)
    ensures
        old(store)@.well_formed() ==> final(store)@.well_formed(),
        old(store)@.consistent() ==> final(store)@.consistent(),
        ledger_kept(old(store)@.ledger, final(store)@.ledger),
        exists|now: Timestamp|
            is_clock_time(now) && create_capsule_post(
                old(store)@,
                final(store)@,
                capsule_data,
                now,
                r,
            ),
{
    let now = clock_now();
    create_capsule_at(store, capsule_data, now)
}

/// Copies of the capsules on page `pagination`, with the number of capsules.
pub fn list_capsules(store: &Store, pagination: Pagination) -> (r: CustomResponder<Vec<Capsule>>)
    requires
        valid_pagination(pagination),
    ensures
        capsules_view(r.inner@) == page_slice(store@.capsules, pagination),
        r.total_items == store@.capsules.len(),
        r.page == page_number(pagination),
        r.per_page == page_size(pagination),
{
    let (start, end) = page_bounds(&pagination, store.capsules.len());
    let ghost all = store@.capsules;
    let mut out: Vec<Capsule> = Vec::new();
    let mut i: usize = start;
    while i < end
        invariant
            start <= i <= end <= store.capsules@.len(),
            all == store@.capsules,
            capsules_view(out@) == all.subrange(start as int, i as int),
        decreases end - i,
    {
        let c = store.capsules[i].clone();
        let ghost before = out@;
        out.push(c);
        assert(capsules_view(out@) =~= capsules_view(before).push(c@));
        assert(all.subrange(start as int, i + 1) =~= all.subrange(start as int, i as int).push(
            all[i as int],
        ));
        i += 1;
    }
    let (page, per_page) = crate::pagination::page_parameters(&pagination);
    CustomResponder { inner: out, total_items: store.capsules.len(), page, per_page }
}

/// A copy of capsule `cid`, if there is one.
pub fn capsule_detail(store: &Store, cid: u32) -> (r: Option<Capsule>)
    ensures
        capsule_index(store@.capsules, cid) == -1 ==> r is None,
        capsule_index(store@.capsules, cid) != -1 ==> r is Some && r->Some_0@
            == store@.capsules[capsule_index(store@.capsules, cid)],
{
    match find_capsule(&store.capsules, cid) {
        Some(k) => Some(store.capsules[k].clone()),
        None => None,
    }
}

/// The capsule `c` after a patch served at `now`.
pub open spec fn patched_capsule(c: CapsuleView, p: CapsulePatch, now: Timestamp) -> CapsuleView {
    CapsuleView {
        name: match p.name {
            Some(n) => n@,
            None => c.name,
        },
        description: match p.description {
            Some(d) => d@,
            None => c.description,
        },
        time_changed: Some(now),
        version: (c.version + 1) as u32,
        ..c
    }
}

/// The outcome of patching capsule `cid` at `now` on the store `s`.
pub open spec fn patch_capsule_post(
    s: StoreView,
    t: StoreView,
    cid: u32,
    etag: Option<u32>,
    p: CapsulePatch,
    now: Timestamp,
    r: Result<Capsule, StoreError>,
) -> bool {
    let k = capsule_index(s.capsules, cid);
    if k == -1 {
        r == Err::<Capsule, StoreError>(StoreError::NotFound) && t == s
    } else {
        let c = s.capsules[k];
        if !window_open(now, c.time_until_changed) {
            r == Err::<Capsule, StoreError>(StoreError::ModificationWindowClosed) && t == s
        } else if version_error(etag, p.version, c.version) is Some {
            r == Err::<Capsule, StoreError>(version_error(etag, p.version, c.version).unwrap())
                && t == s
        } else if p.name is None && p.description is None {
            r == Err::<Capsule, StoreError>(StoreError::NoOpUpdate) && t == s
        } else if c.version == u32::MAX {
            r == Err::<Capsule, StoreError>(StoreError::VersionExhausted) && t == s
        } else {
            r is Ok && r->Ok_0@ == patched_capsule(c, p, now) && t == (StoreView {
                capsules: s.capsules.update(k, r->Ok_0@),
                ..s
            })
        }
    }
}

/// Changes the name and description of capsule `cid` at time `now`, given
/// the version the caller last saw. The version goes up by one and the
/// capsule is marked changed at `now`.
pub fn patch_capsule_at(
    store: &mut Store,
    cid: u32,
    etag: Option<u32>,
    capsule_data: CapsulePatch,
    now: Timestamp,
) -> (r: Result<Capsule, StoreError>)
    ensures
        old(store)@.well_formed() ==> final(store)@.well_formed(),
        old(store)@.consistent() ==> final(store)@.consistent(),
        ledger_kept(old(store)@.ledger, final(store)@.ledger),
        patch_capsule_post(old(store)@, final(store)@, cid, etag, capsule_data, now, r),
        r is Ok ==> r->Ok_0.version == old(store)@.capsules[capsule_index(
            old(store)@.capsules,
            cid,
        )].version + 1 && r->Ok_0.time_changed == Some(now),
{
    let ghost patch = capsule_data;
    let k = match find_capsule(&store.capsules, cid) {
        Some(k) => k,
        None => return Err(StoreError::NotFound),
    };
    if now > store.capsules[k].time_until_changed {
        return Err(StoreError::ModificationWindowClosed);
    }
    match check_version(etag, capsule_data.version, store.capsules[k].version) {
        Ok(()) => {},
        Err(e) => return Err(e),
    }
    if capsule_data.name.is_none() && capsule_data.description.is_none() {
        return Err(StoreError::NoOpUpdate);
    }
    if store.capsules[k].version == u32::MAX {
        return Err(StoreError::VersionExhausted);
    }
    let mut c = store.capsules[k].clone();
    match capsule_data.name {
        Some(n) => {
            c.name = n;
        },
        None => {},
    }
    match capsule_data.description {
        Some(d) => {
            c.description = d;
        },
        None => {},
    }
    c.time_changed = Some(now);
    c.version = c.version + 1;
    let ghost caps = store.capsules@;
    store.capsules[k] = c.clone();
    assert(capsules_view(store.capsules@) =~= capsules_view(caps).update(k as int, c@));
    proof {
        if old(store)@.well_formed() {
            lemma_patch_capsule_keeps(old(store)@, store@, cid, etag, patch, now, Ok(c));
        }
        if old(store)@.linked() {
            assert(same_links(old(store)@, store@));
            lemma_same_links(old(store)@, store@);
        }
        if old(store)@.lists_distinct() {
            assert(same_links(old(store)@, store@));
            lemma_same_links_lists(old(store)@, store@);
        }
    }
    Ok(c)
}

/// Patches capsule `cid` at the current time; see `patch_capsule_at`.
pub fn patch_capsule(store: &mut Store, cid: u32, etag: Option<u32>, capsule_data: CapsulePatch) -> (r:
    Result<Capsule, StoreError>)
    ensures
        old(store)@.well_formed() ==> final(store)@.well_formed(),
        old(store)@.consistent() ==> final(store)@.consistent(),
        ledger_kept(old(store)@.ledger, final(store)@.ledger),
        exists|now: Timestamp|
            is_clock_time(now) && patch_capsule_post(
                old(store)@,
                final(store)@,
                cid,
                etag,
                capsule_data,
                now,
                r,
            ),
{
    let now = clock_now();
    patch_capsule_at(store, cid, etag, capsule_data, now)
}

/// The capsule `c` after its content is replaced by that of `body` at `now`.
pub open spec fn replaced_capsule(c: CapsuleView, body: CapsuleView, now: Timestamp) -> CapsuleView {
    CapsuleView {
        name: body.name,
        description: body.description,
        time_open: body.time_open,
        time_changed: Some(now),
        version: (c.version + 1) as u32,
        ..c
    }
}

/// The outcome of replacing the content of capsule `cid` at `now`.
pub open spec fn update_capsule_post(
    s: StoreView,
    t: StoreView,
    cid: u32,
    body: CapsuleView,
    now: Timestamp,
    r: Result<Capsule, StoreError>,
) -> bool {
    let k = capsule_index(s.capsules, cid);
    if k == -1 {
        r == Err::<Capsule, StoreError>(StoreError::NotFound) && t == s
    } else {
        let c = s.capsules[k];
        if !window_open(now, c.time_until_changed) {
            r == Err::<Capsule, StoreError>(StoreError::ModificationWindowClosed) && t == s
        } else if body.version != c.version {
            r == Err::<Capsule, StoreError>(StoreError::StaleVersion) && t == s
        } else if c.version == u32::MAX {
            r == Err::<Capsule, StoreError>(StoreError::VersionExhausted) && t == s
        } else {
            r is Ok && r->Ok_0@ == replaced_capsule(c, body, now) && t == (StoreView {
                capsules: s.capsules.update(k, r->Ok_0@),
                ..s
            })
        }
    }
}

/// Replaces the name, description and opening time of capsule `cid` with
/// those of `capsule_data` at time `now`. The body's version is the version
/// the caller last saw. The id, owner, items, creation time and deadline
/// stay; the version goes up by one.
pub fn update_capsule_at(store: &mut Store, cid: u32, capsule_data: Capsule, now: Timestamp) -> (r:
    Result<Capsule, StoreError>)
    ensures
        old(store)@.well_formed() ==> final(store)@.well_formed(),
        old(store)@.consistent() ==> final(store)@.consistent(),
        ledger_kept(old(store)@.ledger, final(store)@.ledger),
        update_capsule_post(old(store)@, final(store)@, cid, capsule_data@, now, r),
{
    let ghost body = capsule_data@;
    let k = match find_capsule(&store.capsules, cid) {
        Some(k) => k,
        None => return Err(StoreError::NotFound),
    };
    if now > store.capsules[k].time_until_changed {
        return Err(StoreError::ModificationWindowClosed);
    }
    if capsule_data.version != store.capsules[k].version {
        return Err(StoreError::StaleVersion);
    }
    if store.capsules[k].version == u32::MAX {
        return Err(StoreError::VersionExhausted);
    }
    let mut c = store.capsules[k].clone();
    c.name = capsule_data.name;
    c.description = capsule_data.description;
    c.time_open = capsule_data.time_open;
    c.time_changed = Some(now);
    c.version = c.version + 1;
    let ghost caps = store.capsules@;
    store.capsules[k] = c.clone();
    assert(capsules_view(store.capsules@) =~= capsules_view(caps).update(k as int, c@));
    proof {
        if old(store)@.well_formed() {
            lemma_update_capsule_keeps(old(store)@, store@, cid, body, now, Ok(c));
        }
        if old(store)@.linked() {
            assert(same_links(old(store)@, store@));
            lemma_same_links(old(store)@, store@);
        }
        if old(store)@.lists_distinct() {
            assert(same_links(old(store)@, store@));
            lemma_same_links_lists(old(store)@, store@);
        }
    }
    Ok(c)
}

/// Replaces the content of capsule `cid` at the current time; see
/// `update_capsule_at`.
pub fn update_capsule(store: &mut Store, cid: u32, capsule_data: Capsule) -> (r: Result<
    Capsule,
    StoreError,
>)
    ensures
        old(store)@.well_formed() ==> final(store)@.well_formed(),
        old(store)@.consistent() ==> final(store)@.consistent(),
        ledger_kept(old(store)@.ledger, final(store)@.ledger),
        exists|now: Timestamp|
            is_clock_time(now) && update_capsule_post(
                old(store)@,
                final(store)@,
                cid,
                capsule_data@,
                now,
                r,
            ),
{
    let now = clock_now();
    update_capsule_at(store, cid, capsule_data, now)
}

/// The store after capsule `cid` is deleted: the capsule goes, with the items
/// it lists and the items that name it, and no contributor refers to it.
pub open spec fn without_capsule(s: StoreView, cid: u32) -> StoreView {
    let c = s.capsules[capsule_index(s.capsules, cid)];
    StoreView {
        contributors: drop_capsule_refs(s.contributors, cid),
        capsules: s.capsules.filter(capsule_kept(cid)),
        items: s.items.filter(item_kept(c.item_ids, seq![cid])),
        ..s
    }
}

/// Deletes capsule `cid` together with its items, and removes it from its
/// contributor. Refused with `NotFound` when there is no such capsule.
pub fn delete_capsule(store: &mut Store, cid: u32) -> (r: Result<(), StoreError>)
    ensures
        old(store)@.well_formed() ==> final(store)@.well_formed(),
        old(store)@.consistent() ==> final(store)@.consistent(),
        ledger_kept(old(store)@.ledger, final(store)@.ledger),
        capsule_index(old(store)@.capsules, cid) == -1 ==> r == Err::<(), StoreError>(
            StoreError::NotFound,
        ) && final(store)@ == old(store)@,
        capsule_index(old(store)@.capsules, cid) != -1 ==> r is Ok && final(store)@
            == without_capsule(old(store)@, cid),
        r is Ok ==> forall|j: int|
            0 <= j < final(store)@.items.len() ==> (#[trigger] final(store)@.items[j]).id_capsule
                != cid,
        r is Ok ==> forall|j: int|
            0 <= j < final(store)@.contributors.len()
                ==> !(#[trigger] final(store)@.contributors[j]).capsule_ids.contains(cid),
        r is Ok ==> !capsule_keys(final(store)@.capsules).contains(cid),
{
    let k = match find_capsule(&store.capsules, cid) {
        Some(k) => k,
        None => return Err(StoreError::NotFound),
    };
    let ghost s = store@;
    let item_ids = copy_ids(&store.capsules[k].item_ids);
    let mut this_capsule: Vec<u32> = Vec::new();
    this_capsule.push(cid);
    remove_capsule_records(&mut store.capsules, cid);
    remove_items_in(&mut store.items, &item_ids, &this_capsule);
    remove_capsule_refs(&mut store.contributors, cid);
    assert(this_capsule@ =~= seq![cid]);
    assert(store@ =~= without_capsule(s, cid));
    proof {
        lemma_without_capsule(s, cid);
        if s.well_formed() {
            lemma_delete_capsule_keeps(s, cid);
        }
        if s.consistent() {
            lemma_delete_capsule_links(s, cid);
        }
        if s.lists_distinct() {
            lemma_delete_capsule_lists(s, cid);
        }
    }
    Ok(())
}

/// After capsule `cid` is deleted, no item names it, no contributor refers to
/// it and no capsule carries its id.
pub proof fn lemma_without_capsule(s: StoreView, cid: u32)
    requires
        capsule_index(s.capsules, cid) != -1,
    ensures
        forall|j: int|
            0 <= j < without_capsule(s, cid).items.len() ==> (#[trigger] without_capsule(
                s,
                cid,
            ).items[j]).id_capsule != cid,
        forall|j: int|
            0 <= j < without_capsule(s, cid).contributors.len() ==> !(#[trigger] without_capsule(
                s,
                cid,
            ).contributors[j]).capsule_ids.contains(cid),
        !capsule_keys(without_capsule(s, cid).capsules).contains(cid),
{
    let t = without_capsule(s, cid);
    let c = s.capsules[capsule_index(s.capsules, cid)];
    assert forall|j: int| 0 <= j < t.items.len() implies (#[trigger] t.items[j]).id_capsule != cid by {
        s.items.lemma_filter_pred(item_kept(c.item_ids, seq![cid]), j);
        assert(seq![cid][0] == cid);
    }
    assert forall|j: int| 0 <= j < t.contributors.len() implies !(
    #[trigger] t.contributors[j]).capsule_ids.contains(cid) by {
        let ids = s.contributors[j].capsule_ids.filter(id_kept(cid));
        assert(t.contributors[j].capsule_ids == ids);
        if ids.contains(cid) {
            let m = choose|m: int| 0 <= m < ids.len() && ids[m] == cid;
            s.contributors[j].capsule_ids.lemma_filter_pred(id_kept(cid), m);
        }
    }
    if capsule_keys(t.capsules).contains(cid) {
        let m = choose|m: int| 0 <= m < capsule_keys(t.capsules).len() && capsule_keys(t.capsules)[m]
            == cid;
        s.capsules.lemma_filter_pred(capsule_kept(cid), m);
    }
}

} // verus!
