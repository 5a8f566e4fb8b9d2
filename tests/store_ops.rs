use capsule_store::capsules::{
    capsule_detail, create_and_update_capsule, create_capsule_at, delete_capsule, list_capsules,
    patch_capsule, patch_capsule_at, update_capsule, update_capsule_at, Capsule, CapsulePatch,
    NewCapsule,
};
use capsule_store::clock::MODIFICATION_WINDOW;
use capsule_store::contributors::{
    create_contributor, delete_contributor, get_contributor_with_capsules, list_contributors,
    update_contributor, Contributor, ContributorUpdate, NewContributor,
};
use capsule_store::items::{
    add_item_to_capsule, add_item_to_capsule_at, delete_capsule_item, delete_capsule_item_at,
    get_all_items, get_capsule_item, get_capsule_items, get_item, patch_capsule_item_description,
    patch_capsule_item_description_at, Item, NewItem, NewItemUpdate,
};
use capsule_store::merges::{get_merge_records, merge_capsules, merge_capsules_at};
use capsule_store::pagination::Pagination;
use capsule_store::store::{ErrorKind, Store, StoreError};

const T0: i64 = 1_700_000_000_000;

fn s(x: &str) -> String {
    String::from(x)
}

fn new_contributor(name: &str, email: &str) -> NewContributor {
    NewContributor { name: s(name), email: s(email) }
}

fn new_capsule(name: &str, owner: u32) -> NewCapsule {
    NewCapsule { name: s(name), description: s("d"), contributor_id: owner, time_open: T0 }
}

fn new_item(description: &str) -> NewItem {
    NewItem {
        type_c: s("photo"),
        description: s(description),
        size: s("1MB"),
        path: s("/p"),
        metadata: s("{\"k\":1}"),
    }
}

fn name_patch(name: &str, version: Option<u32>) -> CapsulePatch {
    CapsulePatch { name: Some(s(name)), description: None, version }
}

fn capsule(id: u32, owner: u32, item_ids: Vec<u32>) -> Capsule {
    Capsule {
        id,
        contributor_id: owner,
        name: format!("C{}", id),
        description: s("d"),
        time_created: T0,
        time_changed: Some(T0),
        time_open: T0,
        time_until_changed: T0 + MODIFICATION_WINDOW,
        item_ids,
        version: 1,
    }
}

fn item(id: u32, capsule_id: u32) -> Item {
    Item {
        id,
        id_capsule: capsule_id,
        type_c: s("t"),
        time_added: T0,
        description: format!("item {}", id),
        size: s("1"),
        path: s("/x"),
        metadata: s("null"),
        version: 1,
    }
}

fn contributor(id: u32, email: &str, capsule_ids: Vec<u32>) -> Contributor {
    Contributor { id, capsule_ids, name: s("n"), email: s(email) }
}

fn page(page: usize, per_page: usize) -> Pagination {
    Pagination { page: Some(page), per_page: Some(per_page) }
}

#[test]
fn scenario_create_patch_delete_contributor() {
    let mut store = Store::new();
    let a = create_contributor(&mut store, new_contributor("A", "a@x.com")).unwrap();
    assert_eq!(a.id, 1);
    assert!(a.capsule_ids.is_empty());
    let c = create_capsule_at(&mut store, new_capsule("C1", 1), T0).unwrap();
    assert_eq!(c.id, 1);
    assert_eq!(c.version, 1);
    let stale = patch_capsule_at(&mut store, 1, Some(99), name_patch("C1b", None), T0 + 1);
    assert_eq!(stale.unwrap_err(), StoreError::StaleVersion);
    let p = patch_capsule_at(&mut store, 1, Some(1), name_patch("C1b", None), T0 + 2).unwrap();
    assert_eq!(p.version, 2);
    assert_eq!(p.name, "C1b");
    add_item_to_capsule_at(&mut store, 1, new_item("one"), T0 + 3).unwrap();
    add_item_to_capsule_at(&mut store, 1, new_item("two"), T0 + 4).unwrap();
    assert_eq!(store.items.len(), 2);
    assert_eq!(delete_contributor(&mut store, 1), Ok(()));
    assert!(store.contributors.is_empty());
    assert!(store.capsules.is_empty());
    assert!(store.items.is_empty());
}

#[test]
fn scenario_merge_same_owner() {
    let mut store = Store::from_records(
        vec![contributor(5, "five@x.com", vec![1, 2])],
        vec![capsule(1, 5, vec![10, 11]), capsule(2, 5, vec![20])],
        vec![item(10, 1), item(11, 1), item(20, 2)],
    );
    let merged = merge_capsules_at(&mut store, 1, 2, T0 + 10).unwrap();
    assert_eq!(merged.id, 1);
    assert_eq!(merged.item_ids, vec![10, 11, 20]);
    assert_eq!(merged.time_changed, Some(T0 + 10));
    for it in store.items.iter() {
        assert_eq!(it.id_capsule, 1);
    }
    assert_eq!(store.capsules.len(), 1);
    assert_eq!(store.capsules[0].id, 1);
    assert_eq!(store.capsules[0].item_ids, vec![10, 11, 20]);
    assert_eq!(store.contributors[0].capsule_ids, vec![1]);
    let records = get_merge_records(&store);
    assert_eq!(records.len(), 1);
    assert_eq!(records[0].old_capsule1.item_ids, vec![10, 11]);
    assert_eq!(records[0].old_capsule2.id, 2);
    assert_eq!(records[0].new_merged_capsule.item_ids, vec![10, 11, 20]);
}

#[test]
fn scenario_merge_different_owners() {
    let mut store = Store::from_records(
        vec![contributor(5, "five@x.com", vec![1]), contributor(6, "six@x.com", vec![2])],
        vec![capsule(1, 5, vec![10]), capsule(2, 6, vec![20])],
        vec![item(10, 1), item(20, 2)],
    );
    let r = merge_capsules_at(&mut store, 1, 2, T0 + 10);
    assert_eq!(r.unwrap_err(), StoreError::DifferentOwners);
    assert_eq!(store.capsules.len(), 2);
    assert_eq!(store.capsules[0].item_ids, vec![10]);
    assert_eq!(store.capsules[1].item_ids, vec![20]);
    assert_eq!(store.capsules[0].time_changed, Some(T0));
    assert_eq!(store.items[1].id_capsule, 2);
    assert!(get_merge_records(&store).is_empty());
}

#[test]
fn merge_errors() {
    let mut store = Store::from_records(
        vec![contributor(5, "five@x.com", vec![1, 2])],
        vec![capsule(1, 5, vec![]), capsule(2, 5, vec![])],
        vec![],
    );
    assert_eq!(merge_capsules_at(&mut store, 1, 3, T0).unwrap_err(), StoreError::NotFound);
    assert_eq!(merge_capsules_at(&mut store, 1, 1, T0).unwrap_err(), StoreError::MergeWithItself);
    let late = T0 + MODIFICATION_WINDOW + 1;
    // a closed window is reported before the ids are compared
    assert_eq!(
        merge_capsules_at(&mut store, 1, 1, late).unwrap_err(),
        StoreError::ModificationWindowClosed
    );
    assert_eq!(
        merge_capsules_at(&mut store, 1, 2, late).unwrap_err(),
        StoreError::ModificationWindowClosed
    );
    assert_eq!(store.capsules.len(), 2);
    // the deadline itself is still inside the window
    assert!(merge_capsules_at(&mut store, 1, 2, T0 + MODIFICATION_WINDOW).is_ok());
}

#[test]
fn merge_with_clock_window_closed_for_old_capsules() {
    let mut store = Store::from_records(
        vec![contributor(5, "five@x.com", vec![1, 2])],
        vec![capsule(1, 5, vec![]), capsule(2, 5, vec![])],
        vec![],
    );
    // the capsules' deadlines lie in 2023, long before the clock's now
    assert_eq!(merge_capsules(&mut store, 1, 2).unwrap_err(), StoreError::ModificationWindowClosed);
}

#[test]
fn duplicate_capsule_request_refused() {
    let mut store = Store::new();
    create_contributor(&mut store, new_contributor("A", "a@x.com")).unwrap();
    let first = create_capsule_at(&mut store, new_capsule("C", 1), T0).unwrap();
    assert_eq!(first.id, 1);
    let second = create_capsule_at(&mut store, new_capsule("C", 1), T0 + 5);
    assert_eq!(second.unwrap_err(), StoreError::DuplicateSubmission);
    assert_eq!(store.capsules.len(), 1);
    assert_eq!(store.contributors[0].capsule_ids, vec![1]);
    assert_eq!(store.ledger.len(), 1);
    // a different request goes through and gets the next id
    let third = create_capsule_at(&mut store, new_capsule("D", 1), T0 + 6).unwrap();
    assert_eq!(third.id, 2);
}

#[test]
fn duplicate_item_request_refused() {
    let mut store = Store::new();
    create_contributor(&mut store, new_contributor("A", "a@x.com")).unwrap();
    create_capsule_at(&mut store, new_capsule("C", 1), T0).unwrap();
    let first = add_item_to_capsule_at(&mut store, 1, new_item("x"), T0 + 1).unwrap();
    assert_eq!(first.id, 1);
    assert_eq!(first.version, 1);
    let again = add_item_to_capsule_at(&mut store, 1, new_item("x"), T0 + 2);
    assert_eq!(again.unwrap_err(), StoreError::DuplicateSubmission);
    assert_eq!(store.items.len(), 1);
    assert_eq!(store.capsules[0].item_ids, vec![1]);
}

#[test]
fn capsule_creation_needs_contributor() {
    let mut store = Store::new();
    let r = create_capsule_at(&mut store, new_capsule("C", 7), T0);
    assert_eq!(r.unwrap_err(), StoreError::ContributorNotFound);
    assert_eq!(r_kind(StoreError::ContributorNotFound), ErrorKind::NotFound);
    assert!(store.capsules.is_empty());
}

fn r_kind(e: StoreError) -> ErrorKind {
    e.kind()
}

#[test]
fn created_capsule_fields() {
    let mut store = Store::new();
    create_contributor(&mut store, new_contributor("A", "a@x.com")).unwrap();
    let c = create_capsule_at(&mut store, new_capsule("C", 1), T0).unwrap();
    assert_eq!(c.contributor_id, 1);
    assert_eq!(c.time_created, T0);
    assert_eq!(c.time_changed, Some(T0));
    assert_eq!(c.time_until_changed, T0 + 604_800_000);
    assert!(c.item_ids.is_empty());
    assert_eq!(store.contributors[0].capsule_ids, vec![1]);
}

#[test]
fn create_with_clock_uses_current_time() {
    let mut store = Store::new();
    create_contributor(&mut store, new_contributor("A", "a@x.com")).unwrap();
    let before = chrono::Utc::now().timestamp_millis();
    let c = create_and_update_capsule(&mut store, new_capsule("C", 1)).unwrap();
    let after = chrono::Utc::now().timestamp_millis();
    assert!(before <= c.time_created && c.time_created <= after);
    assert_eq!(c.time_until_changed, c.time_created + MODIFICATION_WINDOW);
}

#[test]
fn patch_bumps_version_and_marks_time() {
    let mut store = Store::new();
    create_contributor(&mut store, new_contributor("A", "a@x.com")).unwrap();
    create_and_update_capsule(&mut store, new_capsule("C", 1)).unwrap();
    let start = chrono::Utc::now().timestamp_millis();
    let p = patch_capsule(&mut store, 1, None, name_patch("N", Some(1))).unwrap();
    assert_eq!(p.version, 2);
    assert!(p.time_changed.unwrap() >= start);
    assert_eq!(store.capsules[0].version, 2);
}

#[test]
fn patch_reissued_bumps_again() {
    let mut store = Store::new();
    create_contributor(&mut store, new_contributor("A", "a@x.com")).unwrap();
    create_capsule_at(&mut store, new_capsule("C", 1), T0).unwrap();
    let first = patch_capsule_at(&mut store, 1, Some(1), name_patch("N", None), T0 + 1).unwrap();
    assert_eq!(first.version, 2);
    let again = patch_capsule_at(&mut store, 1, None, name_patch("N", Some(2)), T0 + 2).unwrap();
    assert_eq!(again.version, 3);
    assert_eq!(again.name, "N");
    assert_eq!(again.time_changed, Some(T0 + 2));
}

#[test]
fn patch_version_errors() {
    let mut store = Store::new();
    create_contributor(&mut store, new_contributor("A", "a@x.com")).unwrap();
    create_capsule_at(&mut store, new_capsule("C", 1), T0).unwrap();
    let both = patch_capsule_at(&mut store, 1, Some(1), name_patch("N", Some(2)), T0);
    assert_eq!(both.unwrap_err(), StoreError::VersionConflictRequest);
    let none = patch_capsule_at(&mut store, 1, None, name_patch("N", None), T0);
    assert_eq!(none.unwrap_err(), StoreError::VersionRequired);
    let stale = patch_capsule_at(&mut store, 1, None, name_patch("N", Some(3)), T0);
    assert_eq!(stale.unwrap_err(), StoreError::StaleVersion);
    let empty = CapsulePatch { name: None, description: None, version: Some(1) };
    assert_eq!(patch_capsule_at(&mut store, 1, None, empty, T0).unwrap_err(), StoreError::NoOpUpdate);
    let missing = patch_capsule_at(&mut store, 9, Some(1), name_patch("N", None), T0);
    assert_eq!(missing.unwrap_err(), StoreError::NotFound);
    let late = T0 + MODIFICATION_WINDOW + 1;
    let closed = patch_capsule_at(&mut store, 1, Some(1), name_patch("N", None), late);
    assert_eq!(closed.unwrap_err(), StoreError::ModificationWindowClosed);
    assert_eq!(store.capsules[0].version, 1);
    assert_eq!(store.capsules[0].name, "C");
    // same etag and body version is not ambiguous
    let agreed = patch_capsule_at(&mut store, 1, Some(1), name_patch("N", Some(1)), T0).unwrap();
    assert_eq!(agreed.version, 2);
    assert_eq!(StoreError::StaleVersion.kind(), ErrorKind::Conflict);
    assert_eq!(StoreError::NoOpUpdate.kind(), ErrorKind::PreconditionFailed);
}

#[test]
fn patch_description_only() {
    let mut store = Store::new();
    create_contributor(&mut store, new_contributor("A", "a@x.com")).unwrap();
    create_capsule_at(&mut store, new_capsule("C", 1), T0).unwrap();
    let p = CapsulePatch { name: None, description: Some(s("new")), version: Some(1) };
    let c = patch_capsule_at(&mut store, 1, None, p, T0 + 1).unwrap();
    assert_eq!(c.name, "C");
    assert_eq!(c.description, "new");
}

#[test]
fn update_capsule_replaces_content() {
    let mut store = Store::new();
    create_contributor(&mut store, new_contributor("A", "a@x.com")).unwrap();
    create_capsule_at(&mut store, new_capsule("C", 1), T0).unwrap();
    let mut body = capsule(77, 99, vec![5]);
    body.name = s("Replaced");
    body.time_open = T0 + 100;
    let u = update_capsule_at(&mut store, 1, body, T0 + 1).unwrap();
    assert_eq!(u.id, 1);
    assert_eq!(u.contributor_id, 1);
    assert_eq!(u.name, "Replaced");
    assert_eq!(u.time_open, T0 + 100);
    assert!(u.item_ids.is_empty());
    assert_eq!(u.version, 2);
    assert_eq!(u.time_changed, Some(T0 + 1));
    let stale = update_capsule_at(&mut store, 1, capsule(1, 1, vec![]), T0 + 2);
    assert_eq!(stale.unwrap_err(), StoreError::StaleVersion);
    let missing = update_capsule_at(&mut store, 3, capsule(3, 1, vec![]), T0 + 2);
    assert_eq!(missing.unwrap_err(), StoreError::NotFound);
}

#[test]
fn delete_capsule_cascades() {
    let mut store = Store::from_records(
        vec![contributor(5, "five@x.com", vec![1, 2])],
        vec![capsule(1, 5, vec![10, 11]), capsule(2, 5, vec![20])],
        vec![item(10, 1), item(11, 1), item(20, 2), item(12, 1)],
    );
    assert_eq!(delete_capsule(&mut store, 1), Ok(()));
    assert_eq!(store.capsules.len(), 1);
    assert_eq!(store.capsules[0].id, 2);
    // items listed by the capsule and items naming it are gone
    assert_eq!(store.items.len(), 1);
    assert_eq!(store.items[0].id, 20);
    assert_eq!(store.contributors[0].capsule_ids, vec![2]);
    assert_eq!(delete_capsule(&mut store, 1), Err(StoreError::NotFound));
}

#[test]
fn delete_contributor_cascades_by_capsule() {
    let mut store = Store::from_records(
        vec![contributor(5, "five@x.com", vec![1]), contributor(6, "six@x.com", vec![2])],
        vec![capsule(1, 5, vec![10]), capsule(2, 6, vec![20])],
        vec![item(10, 1), item(20, 2), item(1, 2)],
    );
    assert_eq!(delete_contributor(&mut store, 5), Ok(()));
    assert_eq!(store.contributors.len(), 1);
    assert_eq!(store.capsules.len(), 1);
    assert_eq!(store.capsules[0].id, 2);
    // item 1 belongs to capsule 2; only the item of capsule 1 goes
    assert_eq!(store.items.len(), 2);
    assert_eq!(store.items[0].id, 20);
    assert_eq!(store.items[1].id, 1);
    assert_eq!(delete_contributor(&mut store, 5), Err(StoreError::NotFound));
}

#[test]
fn contributor_email_rules() {
    let mut store = Store::new();
    create_contributor(&mut store, new_contributor("A", "a@x.com")).unwrap();
    let b = create_contributor(&mut store, new_contributor("B", "b@x.com")).unwrap();
    assert_eq!(b.id, 2);
    let dup = create_contributor(&mut store, new_contributor("C", "a@x.com"));
    assert_eq!(dup.unwrap_err(), StoreError::EmailInUse);
    assert_eq!(store.contributors.len(), 2);
    let clash = ContributorUpdate { name: None, email: Some(s("a@x.com")) };
    assert_eq!(update_contributor(&mut store, 2, clash).unwrap_err(), StoreError::EmailInUse);
    // keeping one's own email is no clash
    let own = ContributorUpdate { name: Some(s("Bee")), email: Some(s("b@x.com")) };
    let updated = update_contributor(&mut store, 2, own).unwrap();
    assert_eq!(updated.name, "Bee");
    assert_eq!(store.contributors[1].name, "Bee");
    let missing = ContributorUpdate { name: Some(s("Z")), email: None };
    assert_eq!(update_contributor(&mut store, 9, missing).unwrap_err(), StoreError::NotFound);
}

#[test]
fn contributor_ids_follow_maximum() {
    let mut store = Store::from_records(vec![contributor(7, "x@x.com", vec![])], vec![], vec![]);
    let c = create_contributor(&mut store, new_contributor("A", "a@x.com")).unwrap();
    assert_eq!(c.id, 8);
    delete_contributor(&mut store, 8).unwrap();
    let d = create_contributor(&mut store, new_contributor("B", "b@x.com")).unwrap();
    assert_eq!(d.id, 8);
}

#[test]
fn ids_exhausted() {
    let mut store = Store::from_records(vec![contributor(u32::MAX, "x@x.com", vec![])], vec![], vec![]);
    let r = create_contributor(&mut store, new_contributor("A", "a@x.com"));
    assert_eq!(r.unwrap_err(), StoreError::IdsExhausted);
    assert_eq!(store.contributors.len(), 1);
}

#[test]
fn contributor_with_capsules() {
    let store = Store::from_records(
        vec![contributor(5, "five@x.com", vec![2, 9, 1])],
        vec![capsule(1, 5, vec![]), capsule(2, 5, vec![])],
        vec![],
    );
    let cc = get_contributor_with_capsules(&store, 5).unwrap();
    assert_eq!(cc.contributor.id, 5);
    let ids: Vec<u32> = cc.capsules.iter().map(|c| c.id).collect();
    assert_eq!(ids, vec![2, 1]);
    assert_eq!(get_contributor_with_capsules(&store, 6).unwrap_err(), StoreError::NotFound);
}

#[test]
fn listing_pages() {
    let mut contributors = Vec::new();
    for i in 1..=5u32 {
        contributors.push(contributor(i, &format!("{}@x.com", i), vec![]));
    }
    let store = Store::from_records(contributors, vec![], vec![]);
    let p2 = list_contributors(&store, page(2, 2));
    let ids: Vec<u32> = p2.iter().map(|c| c.id).collect();
    assert_eq!(ids, vec![3, 4]);
    let p3 = list_contributors(&store, page(3, 2));
    assert_eq!(p3.len(), 1);
    assert_eq!(p3[0].id, 5);
    assert!(list_contributors(&store, page(4, 2)).is_empty());
    assert!(list_contributors(&store, page(usize::MAX, usize::MAX)).is_empty());
    let defaults = list_contributors(&store, Pagination { page: None, per_page: None });
    assert_eq!(defaults.len(), 5);
    assert!(list_contributors(&store, page(1, 0)).is_empty());
}

#[test]
fn capsule_and_item_listings() {
    let store = Store::from_records(
        vec![contributor(5, "five@x.com", vec![1, 2, 3])],
        vec![capsule(1, 5, vec![10]), capsule(2, 5, vec![]), capsule(3, 5, vec![])],
        vec![item(10, 1), item(11, 1), item(12, 1)],
    );
    let caps = list_capsules(&store, page(2, 2));
    assert_eq!(caps.total_items, 3);
    assert_eq!(caps.page, 2);
    assert_eq!(caps.per_page, 2);
    assert_eq!(caps.inner.len(), 1);
    assert_eq!(caps.inner[0].id, 3);
    let items = get_all_items(&store, Pagination { page: None, per_page: Some(2) });
    assert_eq!(items.total_items, 3);
    assert_eq!(items.page, 1);
    assert_eq!(items.inner.len(), 2);
    assert_eq!(items.inner[1].id, 11);
    assert_eq!(capsule_detail(&store, 2).unwrap().id, 2);
    assert!(capsule_detail(&store, 4).is_none());
}

#[test]
fn item_lookups() {
    let store = Store::from_records(
        vec![contributor(5, "five@x.com", vec![1])],
        vec![capsule(1, 5, vec![11, 10, 99])],
        vec![item(10, 1), item(11, 1), item(12, 1)],
    );
    assert_eq!(get_item(&store, 12).unwrap().id, 12);
    assert_eq!(get_item(&store, 13).unwrap_err(), StoreError::NotFound);
    let listed: Vec<u32> = get_capsule_items(&store, 1).unwrap().iter().map(|i| i.id).collect();
    assert_eq!(listed, vec![11, 10]);
    assert_eq!(get_capsule_items(&store, 2).unwrap_err(), StoreError::NotFound);
    assert_eq!(get_capsule_item(&store, 1, 10).unwrap().id, 10);
    assert_eq!(get_capsule_item(&store, 1, 12).unwrap_err(), StoreError::NotFound);
    assert_eq!(get_capsule_item(&store, 1, 99).unwrap_err(), StoreError::NotFound);
    assert_eq!(get_capsule_item(&store, 2, 10).unwrap_err(), StoreError::NotFound);
}

#[test]
fn add_item_errors_and_effects() {
    let mut store = Store::from_records(
        vec![contributor(5, "five@x.com", vec![1])],
        vec![capsule(1, 5, vec![10])],
        vec![item(10, 1)],
    );
    let missing = add_item_to_capsule_at(&mut store, 2, new_item("x"), T0);
    assert_eq!(missing.unwrap_err(), StoreError::CapsuleNotFound);
    let late = T0 + MODIFICATION_WINDOW + 1;
    let closed = add_item_to_capsule_at(&mut store, 1, new_item("x"), late);
    assert_eq!(closed.unwrap_err(), StoreError::ModificationWindowClosed);
    let it = add_item_to_capsule_at(&mut store, 1, new_item("x"), T0 + 3).unwrap();
    assert_eq!(it.id, 11);
    assert_eq!(it.id_capsule, 1);
    assert_eq!(it.time_added, T0 + 3);
    assert_eq!(it.metadata, "{\"k\":1}");
    assert_eq!(store.capsules[0].item_ids, vec![10, 11]);
    assert_eq!(store.capsules[0].time_changed, Some(T0 + 3));
    // with the clock, the 2023 deadline has long passed
    let now_closed = add_item_to_capsule(&mut store, 1, new_item("y"));
    assert_eq!(now_closed.unwrap_err(), StoreError::ModificationWindowClosed);
}

#[test]
fn patch_item_description() {
    let mut store = Store::from_records(
        vec![contributor(5, "five@x.com", vec![1, 2])],
        vec![capsule(1, 5, vec![10]), capsule(2, 5, vec![])],
        vec![item(10, 1)],
    );
    let upd = |v: Option<u32>| NewItemUpdate { description: s("fresh"), version: v };
    let wrong = patch_capsule_item_description_at(&mut store, 2, 10, Some(1), upd(None), T0);
    assert_eq!(wrong.unwrap_err(), StoreError::NotFound);
    let stale = patch_capsule_item_description_at(&mut store, 1, 10, Some(4), upd(None), T0);
    assert_eq!(stale.unwrap_err(), StoreError::StaleVersion);
    let none = patch_capsule_item_description_at(&mut store, 1, 10, None, upd(None), T0);
    assert_eq!(none.unwrap_err(), StoreError::VersionRequired);
    let late = T0 + MODIFICATION_WINDOW + 1;
    let closed = patch_capsule_item_description_at(&mut store, 1, 10, Some(1), upd(None), late);
    assert_eq!(closed.unwrap_err(), StoreError::ModificationWindowClosed);
    let ok = patch_capsule_item_description_at(&mut store, 1, 10, None, upd(Some(1)), T0 + 7).unwrap();
    assert_eq!(ok.description, "fresh");
    assert_eq!(ok.version, 2);
    assert_eq!(store.items[0].version, 2);
    assert_eq!(store.capsules[0].time_changed, Some(T0 + 7));
}

#[test]
fn delete_item_from_capsule() {
    let mut store = Store::from_records(
        vec![contributor(5, "five@x.com", vec![1])],
        vec![capsule(1, 5, vec![10, 11])],
        vec![item(10, 1), item(11, 1)],
    );
    let late = T0 + MODIFICATION_WINDOW + 1;
    assert_eq!(delete_capsule_item_at(&mut store, 1, 10, late), Err(StoreError::ModificationWindowClosed));
    assert_eq!(delete_capsule_item_at(&mut store, 1, 12, T0), Err(StoreError::NotFound));
    assert_eq!(delete_capsule_item_at(&mut store, 2, 10, T0), Err(StoreError::NotFound));
    assert_eq!(delete_capsule_item_at(&mut store, 1, 10, T0 + 9), Ok(()));
    assert_eq!(store.capsules[0].item_ids, vec![11]);
    assert_eq!(store.capsules[0].time_changed, Some(T0 + 9));
    assert_eq!(store.items.len(), 1);
    assert_eq!(store.items[0].id, 11);
}

#[test]
fn version_counter_limit() {
    let mut top = capsule(1, 5, vec![10]);
    top.version = u32::MAX;
    let mut last_item = item(10, 1);
    last_item.version = u32::MAX;
    let mut store = Store::from_records(vec![contributor(5, "five@x.com", vec![1])], vec![top], vec![last_item]);
    let p = patch_capsule_at(&mut store, 1, Some(u32::MAX), name_patch("N", None), T0);
    assert_eq!(p.unwrap_err(), StoreError::VersionExhausted);
    let u = NewItemUpdate { description: s("x"), version: Some(u32::MAX) };
    let i = patch_capsule_item_description_at(&mut store, 1, 10, None, u, T0);
    assert_eq!(i.unwrap_err(), StoreError::VersionExhausted);
    assert_eq!(store.capsules[0].name, "C1");
    assert_eq!(store.items[0].description, "item 10");
}

#[test]
fn capsule_and_item_ids_exhausted() {
    let mut store = Store::from_records(
        vec![contributor(5, "five@x.com", vec![u32::MAX])],
        vec![capsule(u32::MAX, 5, vec![u32::MAX])],
        vec![item(u32::MAX, u32::MAX)],
    );
    let c = create_capsule_at(&mut store, new_capsule("C", 5), T0);
    assert_eq!(c.unwrap_err(), StoreError::IdsExhausted);
    let i = add_item_to_capsule_at(&mut store, u32::MAX, new_item("x"), T0);
    assert_eq!(i.unwrap_err(), StoreError::IdsExhausted);
    assert_eq!(store.capsules.len(), 1);
    assert_eq!(store.items.len(), 1);
    assert!(store.ledger.is_empty());
}

#[test]
fn operations_at_the_current_time() {
    let mut store = Store::new();
    create_contributor(&mut store, new_contributor("A", "a@x.com")).unwrap();
    let one = create_and_update_capsule(&mut store, new_capsule("one", 1)).unwrap();
    let two = create_and_update_capsule(&mut store, new_capsule("two", 1)).unwrap();
    assert_eq!((one.id, two.id), (1, 2));
    let it = add_item_to_capsule(&mut store, 2, new_item("x")).unwrap();
    assert_eq!(it.id_capsule, 2);
    let upd = NewItemUpdate { description: s("y"), version: Some(1) };
    let patched = patch_capsule_item_description(&mut store, 2, it.id, None, upd).unwrap();
    assert_eq!(patched.version, 2);
    let mut body = store.capsules[0].clone();
    body.description = s("new description");
    let replaced = update_capsule(&mut store, 1, body).unwrap();
    assert_eq!(replaced.description, "new description");
    assert_eq!(replaced.version, 2);
    let merged = merge_capsules(&mut store, 1, 2).unwrap();
    assert_eq!(merged.item_ids, vec![it.id]);
    assert_eq!(store.items[0].id_capsule, 1);
    assert_eq!(delete_capsule_item(&mut store, 1, it.id), Ok(()));
    assert!(store.items.is_empty());
    assert!(store.is_consistent());
}

#[test]
fn duplicate_refused_before_other_checks() {
    let mut store = Store::new();
    create_contributor(&mut store, new_contributor("A", "a@x.com")).unwrap();
    create_capsule_at(&mut store, new_capsule("C", 1), T0).unwrap();
    add_item_to_capsule_at(&mut store, 1, new_item("x"), T0 + 1).unwrap();
    // the same item sent to a capsule that does not exist
    let missing = add_item_to_capsule_at(&mut store, 9, new_item("x"), T0 + 2);
    assert_eq!(missing.unwrap_err(), StoreError::DuplicateSubmission);
    // the same item after the window has closed
    let late = T0 + MODIFICATION_WINDOW + 1;
    let closed = add_item_to_capsule_at(&mut store, 1, new_item("x"), late);
    assert_eq!(closed.unwrap_err(), StoreError::DuplicateSubmission);
    // the same capsule after its owner is gone
    delete_contributor(&mut store, 1).unwrap();
    let gone = create_capsule_at(&mut store, new_capsule("C", 1), T0 + 3);
    assert_eq!(gone.unwrap_err(), StoreError::DuplicateSubmission);
    assert!(store.capsules.is_empty());
    assert!(store.items.is_empty());
    assert_eq!(store.ledger.len(), 2);
}

#[test]
fn patch_reissued_through_query_version() {
    let mut store = Store::new();
    create_contributor(&mut store, new_contributor("A", "a@x.com")).unwrap();
    create_capsule_at(&mut store, new_capsule("C", 1), T0).unwrap();
    let first = patch_capsule_at(&mut store, 1, Some(1), name_patch("N", None), T0 + 1).unwrap();
    let again = patch_capsule_at(&mut store, 1, Some(first.version), name_patch("N", None), T0 + 2).unwrap();
    assert_eq!(again.version, first.version + 1);
    assert_eq!(again.name, first.name);
    assert_eq!(again.description, first.description);
}
