use capsule_store::capsules::{create_capsule_at, delete_capsule, patch_capsule_at, Capsule, CapsulePatch, NewCapsule};
use capsule_store::contributors::{create_contributor, delete_contributor, Contributor, NewContributor};
use capsule_store::items::{add_item_to_capsule_at, delete_capsule_item_at, Item, NewItem};
use capsule_store::merges::merge_capsules_at;
use capsule_store::store::Store;

const T0: i64 = 1_700_000_000_000;

fn contributor(id: u32, email: &str, capsule_ids: Vec<u32>) -> Contributor {
    Contributor { id, capsule_ids, name: String::from("n"), email: String::from(email) }
}

fn capsule(id: u32, owner: u32, item_ids: Vec<u32>) -> Capsule {
    Capsule {
        id,
        contributor_id: owner,
        name: String::from("c"),
        description: String::from("d"),
        time_created: T0,
        time_changed: None,
        time_open: T0,
        time_until_changed: T0 + 1000,
        item_ids,
        version: 1,
    }
}

fn item(id: u32, capsule_id: u32) -> Item {
    Item {
        id,
        id_capsule: capsule_id,
        type_c: String::from("t"),
        time_added: T0,
        description: String::from("i"),
        size: String::from("s"),
        path: String::from("p"),
        metadata: String::from("{}"),
        version: 1,
    }
}

fn new_item(description: &str) -> NewItem {
    NewItem {
        type_c: String::from("t"),
        description: String::from(description),
        size: String::from("s"),
        path: String::from("p"),
        metadata: String::from("{}"),
    }
}

#[test]
fn empty_store_is_consistent() {
    let store = Store::new();
    assert!(store.is_well_formed());
    assert!(store.is_consistent());
}

#[test]
fn consistent_seed_accepted() {
    let store = Store::from_records(
        vec![contributor(1, "a@x", vec![1, 2]), contributor(2, "b@x", vec![])],
        vec![capsule(1, 1, vec![10]), capsule(2, 1, vec![])],
        vec![item(10, 1)],
    );
    assert!(store.is_consistent());
}

#[test]
fn repeated_ids_or_emails_refused() {
    let twice = Store::from_records(vec![contributor(1, "a@x", vec![]), contributor(1, "b@x", vec![])], vec![], vec![]);
    assert!(!twice.is_well_formed());
    let same_email = Store::from_records(vec![contributor(1, "a@x", vec![]), contributor(2, "a@x", vec![])], vec![], vec![]);
    assert!(!same_email.is_well_formed());
    assert!(!same_email.is_consistent());
    let items_twice = Store::from_records(
        vec![contributor(1, "a@x", vec![1])],
        vec![capsule(1, 1, vec![10])],
        vec![item(10, 1), item(10, 1)],
    );
    assert!(!items_twice.is_well_formed());
}

#[test]
fn broken_links_refused() {
    // capsule lists an item that names another capsule
    let a = Store::from_records(
        vec![contributor(1, "a@x", vec![1, 2])],
        vec![capsule(1, 1, vec![10]), capsule(2, 1, vec![])],
        vec![item(10, 2)],
    );
    assert!(a.is_well_formed());
    assert!(!a.is_consistent());
    // an item no capsule lists
    let b = Store::from_records(vec![contributor(1, "a@x", vec![1])], vec![capsule(1, 1, vec![])], vec![item(10, 1)]);
    assert!(!b.is_consistent());
    // a contributor lists a capsule it does not own
    let c = Store::from_records(
        vec![contributor(1, "a@x", vec![1]), contributor(2, "b@x", vec![1])],
        vec![capsule(1, 1, vec![])],
        vec![],
    );
    assert!(!c.is_consistent());
    // a capsule whose owner does not list it
    let d = Store::from_records(vec![contributor(1, "a@x", vec![])], vec![capsule(1, 1, vec![])], vec![]);
    assert!(!d.is_consistent());
}

#[test]
fn operations_keep_consistency() {
    let mut store = Store::new();
    create_contributor(&mut store, NewContributor { name: String::from("A"), email: String::from("a@x") }).unwrap();
    create_contributor(&mut store, NewContributor { name: String::from("B"), email: String::from("b@x") }).unwrap();
    let request = |name: &str, owner: u32| NewCapsule {
        name: String::from(name),
        description: String::from("d"),
        contributor_id: owner,
        time_open: T0,
    };
    create_capsule_at(&mut store, request("one", 1), T0).unwrap();
    create_capsule_at(&mut store, request("two", 1), T0).unwrap();
    create_capsule_at(&mut store, request("three", 2), T0).unwrap();
    add_item_to_capsule_at(&mut store, 1, new_item("a"), T0).unwrap();
    add_item_to_capsule_at(&mut store, 2, new_item("b"), T0).unwrap();
    add_item_to_capsule_at(&mut store, 2, new_item("c"), T0).unwrap();
    add_item_to_capsule_at(&mut store, 3, new_item("d"), T0).unwrap();
    assert!(store.is_consistent());
    let patch = CapsulePatch { name: Some(String::from("uno")), description: None, version: Some(1) };
    patch_capsule_at(&mut store, 1, None, patch, T0).unwrap();
    assert!(store.is_consistent());
    merge_capsules_at(&mut store, 1, 2, T0).unwrap();
    assert!(store.is_consistent());
    assert_eq!(store.capsules[0].item_ids, vec![1, 2, 3]);
    delete_capsule_item_at(&mut store, 1, 2, T0).unwrap();
    assert!(store.is_consistent());
    delete_capsule(&mut store, 3).unwrap();
    assert!(store.is_consistent());
    assert_eq!(store.contributors[1].capsule_ids, Vec::<u32>::new());
    delete_contributor(&mut store, 1).unwrap();
    assert!(store.is_consistent());
    assert!(store.capsules.is_empty());
    assert!(store.items.is_empty());
}

#[test]
fn repeated_list_entries_refused() {
    let twice_in_contributor = Store::from_records(
        vec![contributor(1, "a@x", vec![1, 1])],
        vec![capsule(1, 1, vec![])],
        vec![],
    );
    assert!(twice_in_contributor.is_well_formed());
    assert!(!twice_in_contributor.lists_are_distinct());
    assert!(!twice_in_contributor.is_consistent());
    let twice_in_capsule = Store::from_records(
        vec![contributor(1, "a@x", vec![1])],
        vec![capsule(1, 1, vec![10, 10])],
        vec![item(10, 1)],
    );
    assert!(!twice_in_capsule.is_consistent());
}
