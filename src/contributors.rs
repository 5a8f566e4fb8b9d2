//! Contributors: the accounts that own capsules.
use vstd::prelude::*;

use crate::capsules::capsule_keys;
use crate::capsules::capsules_view;
use crate::capsules::find_capsule;
use crate::capsules::capsule_not_owned_by;
use crate::capsules::capsules_owned_by;
use crate::capsules::remove_capsules_of;
use crate::capsules::Capsule;
use crate::capsules::CapsuleView;
use crate::consistency::lemma_create_contributor_keeps;
use crate::consistency::lemma_delete_contributor_keeps;
use crate::consistency::lemma_update_contributor_keeps;
use crate::ids::copy_ids;
use crate::linkage::lemma_create_contributor_links;
use crate::linkage::lemma_delete_contributor_links;
use crate::linkage::lemma_same_links;
use crate::linkage::same_links;
use crate::ids::id_kept;
use crate::ids::index_of;
use crate::ids::lemma_index_of;
use crate::ids::lemma_max_id_step;
use crate::ids::max_id;
use crate::ids::next_id;
use crate::ids::without_id;
use crate::items::item_kept;
use crate::items::remove_items_in;
use crate::pagination::page_bounds;
use crate::pagination::page_slice;
use crate::pagination::valid_pagination;
pub use crate::pagination::Pagination;
use crate::store::Store;
use crate::lists::lemma_create_contributor_lists;
use crate::lists::lemma_delete_contributor_lists;
use crate::lists::lemma_same_links_lists;
use crate::store::ledger_kept;
use crate::store::StoreError;
use crate::store::StoreView;

verus! {

#[derive(Debug)]
pub struct Contributor {
    pub id: u32,
    pub capsule_ids: Vec<u32>,
    pub name: String,
    pub email: String,
}

pub ghost struct ContributorView {
    pub id: u32,
    pub capsule_ids: Seq<u32>,
    pub name: Seq<char>,
    pub email: Seq<char>,
}

impl View for Contributor {
    type V = ContributorView;

    open spec fn view(&self) -> ContributorView {
        ContributorView {
            id: self.id,
            capsule_ids: self.capsule_ids@,
            name: self.name@,
            email: self.email@,
        }
    }
}

impl Clone for Contributor {
    fn clone(&self) -> (r: Self)
        ensures
            r@ == self@,
    {
        Contributor {
            id: self.id,
            capsule_ids: copy_ids(&self.capsule_ids),
            name: self.name.clone(),
            email: self.email.clone(),
        }
    }
}

pub open spec fn contributors_view(s: Seq<Contributor>) -> Seq<ContributorView> {
    s.map_values(|c: Contributor| c@)
}

pub open spec fn contributor_keys(s: Seq<ContributorView>) -> Seq<u32> {
    s.map_values(|c: ContributorView| c.id)
}

/// The fields of a contributor to be created.
#[derive(Debug)]
pub struct NewContributor {
    pub name: String,
    pub email: String,
}

/// A contributor together with the capsules it owns.
#[derive(Debug)]
pub struct ContributorCapsules {
    pub contributor: Contributor,
    pub capsules: Vec<Capsule>,
}

/// The fields of a contributor to change; `None` leaves a field as it is.
#[derive(Debug)]
pub struct ContributorUpdate {
    pub name: Option<String>,
    pub email: Option<String>,
}

/// Whether some contributor in `s` uses `email`.
pub open spec fn email_taken(s: Seq<ContributorView>, email: Seq<char>) -> bool {
    exists|i: int| 0 <= i < s.len() && #[trigger] s[i].email == email
}

/// Whether some contributor in `s` other than the one with id `id` uses `email`.
pub open spec fn email_taken_by_other(s: Seq<ContributorView>, id: u32, email: Seq<char>) -> bool {
    exists|i: int| 0 <= i < s.len() && s[i].id != id && #[trigger] s[i].email == email
}

/// The position of the contributor with id `id` in `s`, or -1.
pub open spec fn contributor_index(s: Seq<ContributorView>, id: u32) -> int {
    index_of(contributor_keys(s), id)
}

/// The position of the first contributor with id `id`.
pub fn find_contributor(v: &Vec<Contributor>, id: u32) -> (r: Option<usize>)
    ensures
        match r {
            Some(i) => i == contributor_index(contributors_view(v@), id) && 0 <= i < v@.len()
                && v@[i as int].id == id,
            None => contributor_index(contributors_view(v@), id) == -1
                && !contributor_keys(contributors_view(v@)).contains(id),
        },
{
    let ghost keys = contributor_keys(contributors_view(v@));
    let mut i: usize = 0;
    while i < v.len()
        invariant
            i <= v@.len(),
            keys == contributor_keys(contributors_view(v@)),
            forall|j: int| 0 <= j < i ==> keys[j] != id,
        decreases v@.len() - i,
    {
        if v[i].id == id {
            proof {
                lemma_index_of(keys, id, i as int);
            }
            return Some(i);
        }
        i += 1;
    }
    None
}

/// The id for a new contributor.
pub fn next_contributor_id(v: &Vec<Contributor>) -> (r: Option<u32>)
    ensures
        r == next_id(contributor_keys(contributors_view(v@))),
{
    let ghost keys = contributor_keys(contributors_view(v@));
    let mut m: u32 = 0;
    let mut i: usize = 0;
    while i < v.len()
        invariant
            i <= v@.len(),
            keys == contributor_keys(contributors_view(v@)),
            m == max_id(keys.take(i as int)),
        decreases v@.len() - i,
    {
        proof {
            lemma_max_id_step(keys, i as int);
        }
        if v[i].id > m {
            m = v[i].id;
        }
        i += 1;
    }
    assert(keys.take(v@.len() as int) =~= keys);
    if m < u32::MAX {
        Some(m + 1)
    } else {
        None
    }
}

/// Whether some contributor in `v` uses `email`.
fn email_in_use(v: &Vec<Contributor>, email: &String) -> (r: bool)
    ensures
        r == email_taken(contributors_view(v@), email@),
{
    let ghost s = contributors_view(v@);
    let mut i: usize = 0;
    while i < v.len()
        invariant
            i <= v@.len(),
            s == contributors_view(v@),
            forall|j: int| 0 <= j < i ==> s[j].email != email@,
        decreases v@.len() - i,
    {
        if v[i].email == *email {
            assert(s[i as int].email == email@);
            return true;
        }
        i += 1;
    }
    false
}

/// Whether a contributor in `v` other than the one with id `id` uses `email`.
fn email_in_use_by_other(v: &Vec<Contributor>, id: u32, email: &String) -> (r: bool)
    ensures
        r == email_taken_by_other(contributors_view(v@), id, email@),
{
    let ghost s = contributors_view(v@);
    let mut i: usize = 0;
    while i < v.len()
        invariant
            i <= v@.len(),
            s == contributors_view(v@),
            forall|j: int| 0 <= j < i ==> !(s[j].id != id && s[j].email == email@),
        decreases v@.len() - i,
    {
        if v[i].id != id && v[i].email == *email {
            assert(s[i as int].id != id && s[i as int].email == email@);
            return true;
        }
        i += 1;
    }
    false
}

/// The contributor that a creation request makes, with id `id`.
pub open spec fn created_contributor(id: u32, data: NewContributor) -> ContributorView {
    ContributorView { id, capsule_ids: Seq::empty(), name: data.name@, email: data.email@ }
}

/// Creates a contributor with a fresh id and no capsules. Refused with
/// `EmailInUse` when another contributor already has the email address.
pub fn create_contributor(store: &mut Store, contributor_data: NewContributor) -> (r: Result<
    Contributor,
    StoreError,
>)
    ensures
        old(store)@.well_formed() ==> final(store)@.well_formed(),
        old(store)@.consistent() ==> final(store)@.consistent(),
        ledger_kept(old(store)@.ledger, final(store)@.ledger),
        email_taken(old(store)@.contributors, contributor_data.email@) ==> r == Err::<
            Contributor,
            StoreError,
        >(StoreError::EmailInUse),
        !email_taken(old(store)@.contributors, contributor_data.email@) && next_id(
            contributor_keys(old(store)@.contributors),
        ) is None ==> r == Err::<Contributor, StoreError>(StoreError::IdsExhausted),
        !email_taken(old(store)@.contributors, contributor_data.email@) && next_id(
            contributor_keys(old(store)@.contributors),
        ) is Some ==> r is Ok,
        r is Err ==> final(store)@ == old(store)@,
        r is Ok ==> r->Ok_0@ == created_contributor(
            next_id(contributor_keys(old(store)@.contributors)).unwrap(),
            contributor_data,
        ) && final(store)@ == (StoreView {
            contributors: old(store)@.contributors.push(r->Ok_0@),
            ..old(store)@
        }),
{
    if email_in_use(&store.contributors, &contributor_data.email) {
        return Err(StoreError::EmailInUse);
    }
    let id = match next_contributor_id(&store.contributors) {
        Some(id) => id,
        None => return Err(StoreError::IdsExhausted),
    };
    let contributor = Contributor {
        id,
        capsule_ids: Vec::new(),
        name: contributor_data.name,
        email: contributor_data.email,
    };
    let ghost before = store.contributors@;
    store.contributors.push(contributor.clone());
    assert(contributors_view(store.contributors@) =~= contributors_view(before).push(contributor@));
    assert(contributor@.capsule_ids =~= Seq::<u32>::empty());
    proof {
        if old(store)@.well_formed() {
            lemma_create_contributor_keeps(old(store)@, contributor@);
        }
        if old(store)@.linked() {
            lemma_create_contributor_links(old(store)@, contributor@);
        }
        if old(store)@.lists_distinct() {
            lemma_create_contributor_lists(old(store)@, contributor@);
        }
    }
    Ok(contributor)
}

/// Copies of the contributors on page `pagination`.
pub fn list_contributors(store: &Store, pagination: Pagination) -> (r: Vec<Contributor>)
    requires
        valid_pagination(pagination),
    ensures
        contributors_view(r@) == page_slice(store@.contributors, pagination),
{
    let (start, end) = page_bounds(&pagination, store.contributors.len());
    let ghost all = store@.contributors;
    let mut out: Vec<Contributor> = Vec::new();
    let mut i: usize = start;
    while i < end
        invariant
            start <= i <= end <= store.contributors@.len(),
            all == store@.contributors,
            contributors_view(out@) == all.subrange(start as int, i as int),
        decreases end - i,
    {
        let c = store.contributors[i].clone();
        let ghost before = out@;
        out.push(c);
        assert(contributors_view(out@) =~= contributors_view(before).push(c@));
        assert(all.subrange(start as int, i + 1) =~= all.subrange(start as int, i as int).push(
            all[i as int],
        ));
        i += 1;
    }
    out
}

/// The capsules among `s` named by `ids`, in the order of `ids`; ids that
/// name no capsule are skipped.
pub open spec fn capsules_named(ids: Seq<u32>, s: Seq<CapsuleView>) -> Seq<CapsuleView> {
    ids.filter(|id: u32| capsule_keys(s).contains(id)).map_values(
        |id: u32| s[index_of(capsule_keys(s), id)],
    )
}

/// The contributor with id `contributor_id`, together with copies of its
/// capsules. Refused with `NotFound` when there is no such contributor.
pub fn get_contributor_with_capsules(store: &Store, contributor_id: u32) -> (r: Result<
    ContributorCapsules,
    StoreError,
>)
    ensures
        contributor_index(store@.contributors, contributor_id) == -1 ==> r is Err && r->Err_0
            == StoreError::NotFound,
        contributor_index(store@.contributors, contributor_id) != -1 ==> r is Ok && ({
            let c = store@.contributors[contributor_index(store@.contributors, contributor_id)];
            &&& r->Ok_0.contributor@ == c
            &&& capsules_view(r->Ok_0.capsules@) == capsules_named(c.capsule_ids, store@.capsules)
        }),
{
    let idx = match find_contributor(&store.contributors, contributor_id) {
        Some(i) => i,
        None => return Err(StoreError::NotFound),
    };
    let contributor = store.contributors[idx].clone();
    let ghost ids = contributor.capsule_ids@;
    let ghost caps = store@.capsules;
    let ghost keep = |id: u32| capsule_keys(caps).contains(id);
    let ghost pick = |id: u32| caps[index_of(capsule_keys(caps), id)];
    let mut capsules: Vec<Capsule> = Vec::new();
    let mut i: usize = 0;
    while i < contributor.capsule_ids.len()
        invariant
            i <= ids.len(),
            ids == contributor.capsule_ids@,
            caps == store@.capsules,
            keep == (|id: u32| capsule_keys(caps).contains(id)),
            pick == (|id: u32| caps[index_of(capsule_keys(caps), id)]),
            capsules_view(capsules@) == ids.take(i as int).filter(keep).map_values(pick),
        decreases ids.len() - i,
    {
        let cid = contributor.capsule_ids[i];
        proof {
            assert(ids.take(i + 1) =~= ids.take(i as int).push(cid));
            ids.take(i as int).lemma_filter_push(cid, keep);
        }
        match find_capsule(&store.capsules, cid) {
            Some(k) => {
                let c = store.capsules[k].clone();
                proof {
                    assert(capsule_keys(caps)[k as int] == cid);
                    assert(keep(cid));
                    assert(pick(cid) == c@);
                }
                let ghost before = capsules@;
                capsules.push(c);
                assert(capsules_view(capsules@) =~= capsules_view(before).push(c@));
                assert(ids.take(i + 1).filter(keep).map_values(pick) =~= ids.take(
                    i as int,
                ).filter(keep).map_values(pick).push(c@));
            },
            None => {
                assert(!keep(cid));
            },
        }
        i += 1;
    }
    assert(ids.take(ids.len() as int) =~= ids);
    Ok(ContributorCapsules { contributor, capsules })
}

/// The contributor `c` after the changes of `u`.
pub open spec fn updated_contributor(c: ContributorView, u: ContributorUpdate) -> ContributorView {
    ContributorView {
        name: match u.name {
            Some(n) => n@,
            None => c.name,
        },
        email: match u.email {
            Some(e) => e@,
            None => c.email,
        },
        ..c
    }
}

/// Changes the name and email of contributor `id`. Refused with `EmailInUse`
/// when another contributor has the new email, else with `NotFound` when
/// there is no such contributor.
pub fn update_contributor(store: &mut Store, id: u32, contributor_data: ContributorUpdate) -> (r:
    Result<Contributor, StoreError>)
    ensures
        old(store)@.well_formed() ==> final(store)@.well_formed(),
        old(store)@.consistent() ==> final(store)@.consistent(),
        ledger_kept(old(store)@.ledger, final(store)@.ledger),
        ({
            let s = old(store)@.contributors;
            let conflict = contributor_data.email is Some && email_taken_by_other(
                s,
                id,
                contributor_data.email->Some_0@,
            );
            let k = contributor_index(s, id);
            &&& conflict ==> r == Err::<Contributor, StoreError>(StoreError::EmailInUse)
            &&& !conflict && k == -1 ==> r == Err::<Contributor, StoreError>(StoreError::NotFound)
            &&& r is Err ==> final(store)@ == old(store)@
            &&& !conflict && k != -1 ==> r is Ok && r->Ok_0@ == updated_contributor(
                s[k],
                contributor_data,
            ) && final(store)@ == (StoreView {
                contributors: s.update(k, r->Ok_0@),
                ..old(store)@
            })
        }),
{
    match &contributor_data.email {
        Some(e) => {
            if email_in_use_by_other(&store.contributors, id, e) {
                return Err(StoreError::EmailInUse);
            }
        },
        None => {},
    }
    let idx = match find_contributor(&store.contributors, id) {
        Some(i) => i,
        None => return Err(StoreError::NotFound),
    };
    let mut c = store.contributors[idx].clone();
    match contributor_data.name {
        Some(n) => {
            c.name = n;
        },
        None => {},
    }
    match contributor_data.email {
        Some(e) => {
            c.email = e;
        },
        None => {},
    }
    let ghost before = store.contributors@;
    store.contributors[idx] = c.clone();
    assert(contributors_view(store.contributors@) =~= contributors_view(before).update(
        idx as int,
        c@,
    ));
    proof {
        if old(store)@.well_formed() {
            lemma_update_contributor_keeps(old(store)@, idx as int, c@);
        }
        if old(store)@.linked() {
            assert(same_links(old(store)@, store@));
            lemma_same_links(old(store)@, store@);
        }
        if old(store)@.lists_distinct() {
            assert(same_links(old(store)@, store@));
            lemma_same_links_lists(old(store)@, store@);
        }
    }
    Ok(c)
}

/// The predicate that keeps every contributor but the one with id `id`.
pub open spec fn contributor_kept(id: u32) -> spec_fn(ContributorView) -> bool {
    |c: ContributorView| c.id != id
}

/// Removes every contributor with id `id` from `v`.
fn remove_contributor_records(v: &mut Vec<Contributor>, id: u32)
    ensures
        contributors_view(final(v)@) == contributors_view(old(v)@).filter(contributor_kept(id)),
{
    let ghost s = contributors_view(v@);
    let mut out: Vec<Contributor> = Vec::new();
    let mut i: usize = 0;
    while i < v.len()
        invariant
            i <= v@.len(),
            s == contributors_view(v@),
            contributors_view(out@) == s.take(i as int).filter(contributor_kept(id)),
        decreases v@.len() - i,
    {
        proof {
            assert(s.take(i + 1) =~= s.take(i as int).push(s[i as int]));
            s.take(i as int).lemma_filter_push(s[i as int], contributor_kept(id));
        }
        if v[i].id != id {
            let c = v[i].clone();
            let ghost before = out@;
            out.push(c);
            assert(contributors_view(out@) =~= contributors_view(before).push(c@));
        }
        i += 1;
    }
    assert(s.take(v@.len() as int) =~= s);
    *v = out;
}

/// The store after contributor `id`, its capsules and their items are removed.
pub open spec fn without_contributor(s: StoreView, id: u32) -> StoreView {
    let owned = capsules_owned_by(s.capsules, id);
    StoreView {
        contributors: s.contributors.filter(contributor_kept(id)),
        capsules: s.capsules.filter(capsule_not_owned_by(id)),
        items: s.items.filter(item_kept(Seq::empty(), owned)),
        ..s
    }
}

/// Deletes contributor `contributor_id`, every capsule it owns and every item
/// of those capsules. Refused with `NotFound` when there is no such
/// contributor.
pub fn delete_contributor(store: &mut Store, contributor_id: u32) -> (r: Result<(), StoreError>)
    ensures
        old(store)@.well_formed() ==> final(store)@.well_formed(),
        old(store)@.consistent() ==> final(store)@.consistent(),
        ledger_kept(old(store)@.ledger, final(store)@.ledger),
        contributor_index(old(store)@.contributors, contributor_id) == -1 ==> r == Err::<
            (),
            StoreError,
        >(StoreError::NotFound) && final(store)@ == old(store)@,
        contributor_index(old(store)@.contributors, contributor_id) != -1 ==> r is Ok
            && final(store)@ == without_contributor(old(store)@, contributor_id),
{
    match find_contributor(&store.contributors, contributor_id) {
        Some(_) => {},
        None => return Err(StoreError::NotFound),
    }
    let ghost s = store@;
    remove_contributor_records(&mut store.contributors, contributor_id);
    let removed = remove_capsules_of(&mut store.capsules, contributor_id);
    let no_items: Vec<u32> = Vec::new();
    remove_items_in(&mut store.items, &no_items, &removed);
    assert(store@ =~= without_contributor(s, contributor_id));
    proof {
        if s.well_formed() {
            lemma_delete_contributor_keeps(s, contributor_id);
        }
        if s.consistent() {
            lemma_delete_contributor_links(s, contributor_id);
        }
        if s.lists_distinct() {
            lemma_delete_contributor_lists(s, contributor_id);
        }
    }
    Ok(())
}

/// `c` without any reference to capsule `cid`.
pub open spec fn without_capsule_ref(c: ContributorView, cid: u32) -> ContributorView {
    ContributorView { capsule_ids: c.capsule_ids.filter(id_kept(cid)), ..c }
}

/// Every contributor of `s` with its references to capsule `cid` removed.
pub open spec fn drop_capsule_refs(s: Seq<ContributorView>, cid: u32) -> Seq<ContributorView> {
    s.map_values(|c: ContributorView| without_capsule_ref(c, cid))
}

/// `s` with capsule `cid` added to the capsules of contributor `owner`.
pub open spec fn add_capsule_ref(s: Seq<ContributorView>, owner: u32, cid: u32) -> Seq<
    ContributorView,
> {
    let k = contributor_index(s, owner);
    s.update(k, ContributorView { capsule_ids: s[k].capsule_ids.push(cid), ..s[k] })
}

/// Removes every reference to capsule `cid` from the contributors of `v`.
pub fn remove_capsule_refs(v: &mut Vec<Contributor>, cid: u32)
    ensures
        contributors_view(final(v)@) == drop_capsule_refs(contributors_view(old(v)@), cid),
{
    let ghost s0 = contributors_view(v@);
    let mut i: usize = 0;
    while i < v.len()
        invariant
            i <= v@.len(),
            v@.len() == s0.len(),
            forall|j: int| 0 <= j < i ==> (#[trigger] v@[j])@ == without_capsule_ref(s0[j], cid),
            forall|j: int| i <= j < v@.len() ==> (#[trigger] v@[j])@ == s0[j],
        decreases v@.len() - i,
    {
        let ids = without_id(&v[i].capsule_ids, cid);
        v[i].capsule_ids = ids;
        i += 1;
    }
    assert(contributors_view(v@) =~= drop_capsule_refs(s0, cid));
}

} // verus!
