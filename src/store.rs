//! The store: the three collections, the ledger of creation requests already
//! served, and the merge log, mutated together by the operations of the
//! `contributors`, `capsules`, `items` and `merges` modules.
//!
//! Every operation takes the whole store, `&Store` to read and `&mut Store`
//! to write, so a caller that shares a store between threads holds one lock
//! over all of it for the length of an operation. That is the unit of work:
//! each operation checks all its preconditions before it changes anything,
//! and no caller ever sees a change half made.
use vstd::prelude::*;

use crate::capsules::capsules_view;
use crate::capsules::Capsule;
use crate::capsules::CapsuleView;
use crate::contributors::contributors_view;
use crate::contributors::Contributor;
use crate::contributors::ContributorView;
use crate::items::items_view;
use crate::items::Item;
use crate::items::ItemView;
use crate::merges::merge_records_view;
use crate::merges::MergeRecord;
use crate::merges::MergeRecordView;
use crate::ids::pairwise;

verus! {

/// Why an operation was refused. A refused operation changes nothing.
#[derive(Clone, Copy, Debug, PartialEq, Eq, Structural)]
pub enum StoreError {
    /// The record addressed does not exist.
    NotFound,
    /// The contributor named by a new capsule does not exist.
    ContributorNotFound,
    /// The capsule named by a new item does not exist.
    CapsuleNotFound,
    /// Another contributor already uses the email address.
    EmailInUse,
    /// An identical creation request has already been served.
    DuplicateSubmission,
    /// An update named no expected version.
    VersionRequired,
    /// The expected version is not the record's current version.
    StaleVersion,
    /// The query and the body name two different expected versions.
    VersionConflictRequest,
    /// An update changes no field.
    NoOpUpdate,
    /// The capsule's modification window has closed.
    ModificationWindowClosed,
    /// The two capsules of a merge belong to different contributors.
    DifferentOwners,
    /// A capsule cannot be merged with itself.
    MergeWithItself,
    /// No id is left for a new record.
    IdsExhausted,
    /// The record's version counter cannot go higher.
    VersionExhausted,
}

/// The broad class of an error, as a request layer reports it.
#[derive(Clone, Copy, Debug, PartialEq, Eq, Structural)]
pub enum ErrorKind {
    NotFound,
    Conflict,
    PreconditionFailed,
}

pub open spec fn kind_of(e: StoreError) -> ErrorKind {
    match e {
        StoreError::NotFound | StoreError::ContributorNotFound | StoreError::CapsuleNotFound => ErrorKind::NotFound,
        StoreError::EmailInUse | StoreError::DuplicateSubmission | StoreError::StaleVersion
        | StoreError::VersionConflictRequest | StoreError::DifferentOwners
        | StoreError::MergeWithItself => ErrorKind::Conflict,
        StoreError::VersionRequired | StoreError::NoOpUpdate
        | StoreError::ModificationWindowClosed | StoreError::IdsExhausted
        | StoreError::VersionExhausted => ErrorKind::PreconditionFailed,
    }
}

impl StoreError {
    pub fn kind(&self) -> (r: ErrorKind)
        ensures
            r == kind_of(*self),
    {
        match self {
            StoreError::NotFound | StoreError::ContributorNotFound | StoreError::CapsuleNotFound => ErrorKind::NotFound,
            StoreError::EmailInUse | StoreError::DuplicateSubmission | StoreError::StaleVersion
            | StoreError::VersionConflictRequest | StoreError::DifferentOwners
            | StoreError::MergeWithItself => ErrorKind::Conflict,
            StoreError::VersionRequired | StoreError::NoOpUpdate
            | StoreError::ModificationWindowClosed | StoreError::IdsExhausted
        | StoreError::VersionExhausted => ErrorKind::PreconditionFailed,
        }
    }
}

/// What a served creation request produced.
#[derive(Debug)]
pub enum Snapshot {
    Capsule(Capsule),
    Item(Item),
}

pub ghost enum SnapshotView {
    Capsule(CapsuleView),
    Item(ItemView),
}

impl View for Snapshot {
    type V = SnapshotView;

    open spec fn view(&self) -> SnapshotView {
        match self {
            Snapshot::Capsule(c) => SnapshotView::Capsule(c@),
            Snapshot::Item(i) => SnapshotView::Item(i@),
        }
    }
}

/// A served creation request: its fingerprint and what it produced.
#[derive(Debug)]
pub struct LedgerEntry {
    pub fingerprint: Vec<u8>,
    pub snapshot: Snapshot,
}

pub ghost struct LedgerEntryView {
    pub fingerprint: Seq<u8>,
    pub snapshot: SnapshotView,
}

impl View for LedgerEntry {
    type V = LedgerEntryView;

    open spec fn view(&self) -> LedgerEntryView {
        LedgerEntryView { fingerprint: self.fingerprint@, snapshot: self.snapshot@ }
    }
}

pub open spec fn ledger_view(s: Seq<LedgerEntry>) -> Seq<LedgerEntryView> {
    s.map_values(|e: LedgerEntry| e@)
}

/// Whether a request with fingerprint `f` has already been served.
pub open spec fn ledger_has(ledger: Seq<LedgerEntryView>, f: Seq<u8>) -> bool {
    exists|i: int| 0 <= i < ledger.len() && #[trigger] ledger[i].fingerprint == f
}

/// Every request served before is still recorded: the ledger only grows.
pub open spec fn ledger_kept(before: Seq<LedgerEntryView>, after: Seq<LedgerEntryView>) -> bool {
    forall|f: Seq<u8>| ledger_has(before, f) ==> ledger_has(after, f)
}

/// Recording one more request keeps every earlier one.
pub proof fn lemma_ledger_push(l: Seq<LedgerEntryView>, e: LedgerEntryView)
    ensures
        ledger_kept(l, l.push(e)),
{
    assert forall|f: Seq<u8>| ledger_has(l, f) implies ledger_has(l.push(e), f) by {
        let i = choose|i: int| 0 <= i < l.len() && #[trigger] l[i].fingerprint == f;
        assert(l.push(e)[i] == l[i]);
    }
}

#[derive(Debug)]
pub struct Store {
    pub contributors: Vec<Contributor>,
    pub capsules: Vec<Capsule>,
    pub items: Vec<Item>,
    pub ledger: Vec<LedgerEntry>,
    pub merge_records: Vec<MergeRecord>,
}

pub ghost struct StoreView {
    pub contributors: Seq<ContributorView>,
    pub capsules: Seq<CapsuleView>,
    pub items: Seq<ItemView>,
    pub ledger: Seq<LedgerEntryView>,
    pub merge_records: Seq<MergeRecordView>,
}

pub open spec fn contributor_ids_differ() -> spec_fn(ContributorView, ContributorView) -> bool {
    |a: ContributorView, b: ContributorView| a.id != b.id
}

pub open spec fn emails_differ() -> spec_fn(ContributorView, ContributorView) -> bool {
    |a: ContributorView, b: ContributorView| a.email != b.email
}

pub open spec fn capsule_ids_differ() -> spec_fn(CapsuleView, CapsuleView) -> bool {
    |a: CapsuleView, b: CapsuleView| a.id != b.id
}

pub open spec fn item_ids_differ() -> spec_fn(ItemView, ItemView) -> bool {
    |a: ItemView, b: ItemView| a.id != b.id
}

impl StoreView {
    /// Ids are unique within each collection, and no two contributors share
    /// an email address.
    pub open spec fn well_formed(self) -> bool {
        &&& pairwise(self.contributors, contributor_ids_differ())
        &&& pairwise(self.contributors, emails_differ())
        &&& pairwise(self.capsules, capsule_ids_differ())
        &&& pairwise(self.items, item_ids_differ())
    }
}

impl View for Store {
    type V = StoreView;

    open spec fn view(&self) -> StoreView {
        StoreView {
            contributors: contributors_view(self.contributors@),
            capsules: capsules_view(self.capsules@),
            items: items_view(self.items@),
            ledger: ledger_view(self.ledger@),
            merge_records: merge_records_view(self.merge_records@),
        }
    }
}

impl Store {
    /// An empty store.
    pub fn new() -> (r: Store)
        ensures
            r@.contributors.len() == 0,
            r@.capsules.len() == 0,
            r@.items.len() == 0,
            r@.ledger.len() == 0,
            r@.merge_records.len() == 0,
            r@.well_formed(),
            r@.consistent(),
    {
        Store {
            contributors: Vec::new(),
            capsules: Vec::new(),
            items: Vec::new(),
            ledger: Vec::new(),
            merge_records: Vec::new(),
        }
    }

    /// A store holding the given records, with an empty ledger and merge log.
    pub fn from_records(contributors: Vec<Contributor>, capsules: Vec<Capsule>, items: Vec<Item>) -> (r: Store)
        ensures
            r@.contributors == contributors_view(contributors@),
            r@.capsules == capsules_view(capsules@),
            r@.items == items_view(items@),
            r@.ledger.len() == 0,
            r@.merge_records.len() == 0,
    {
        Store { contributors, capsules, items, ledger: Vec::new(), merge_records: Vec::new() }
    }
}

fn contributors_distinct(v: &Vec<Contributor>) -> (r: bool)
    ensures
        r == (pairwise(contributors_view(v@), contributor_ids_differ()) && pairwise(
            contributors_view(v@),
            emails_differ(),
        )),
{
    let ghost s = contributors_view(v@);
    let mut j: usize = 0;
    while j < v.len()
        invariant
            j <= v@.len(),
            s == contributors_view(v@),
            forall|a: int, b: int| 0 <= a < b < j ==> s[a].id != s[b].id && s[a].email != s[b].email,
        decreases v@.len() - j,
    {
        let mut i: usize = 0;
        while i < j
            invariant
                i <= j < v@.len(),
                s == contributors_view(v@),
                forall|a: int| 0 <= a < i ==> s[a].id != s[j as int].id && s[a].email != s[j as int].email,
            decreases j - i,
        {
            if v[i].id == v[j].id || v[i].email == v[j].email {
                assert(!contributor_ids_differ()(s[i as int], s[j as int]) || !emails_differ()(
                    s[i as int],
                    s[j as int],
                ));
                return false;
            }
            i += 1;
        }
        j += 1;
    }
    assert forall|a: int, b: int| 0 <= a < b < s.len() implies #[trigger] contributor_ids_differ()(
        s[a],
        s[b],
    ) by {}
    assert forall|a: int, b: int| 0 <= a < b < s.len() implies #[trigger] emails_differ()(
        s[a],
        s[b],
    ) by {}
    true
}

fn capsules_distinct(v: &Vec<Capsule>) -> (r: bool)
    ensures
        r == pairwise(capsules_view(v@), capsule_ids_differ()),
{
    let ghost s = capsules_view(v@);
    let mut j: usize = 0;
    while j < v.len()
        invariant
            j <= v@.len(),
            s == capsules_view(v@),
            forall|a: int, b: int| 0 <= a < b < j ==> s[a].id != s[b].id,
        decreases v@.len() - j,
    {
        let mut i: usize = 0;
        while i < j
            invariant
                i <= j < v@.len(),
                s == capsules_view(v@),
                forall|a: int| 0 <= a < i ==> s[a].id != s[j as int].id,
            decreases j - i,
        {
            if v[i].id == v[j].id {
                assert(!capsule_ids_differ()(s[i as int], s[j as int]));
                return false;
            }
            i += 1;
        }
        j += 1;
    }
    assert forall|a: int, b: int| 0 <= a < b < s.len() implies #[trigger] capsule_ids_differ()(
        s[a],
        s[b],
    ) by {}
    true
}

fn items_distinct(v: &Vec<Item>) -> (r: bool)
    ensures
        r == pairwise(items_view(v@), item_ids_differ()),
{
    let ghost s = items_view(v@);
    let mut j: usize = 0;
    while j < v.len()
        invariant
            j <= v@.len(),
            s == items_view(v@),
            forall|a: int, b: int| 0 <= a < b < j ==> s[a].id != s[b].id,
        decreases v@.len() - j,
    {
        let mut i: usize = 0;
        while i < j
            invariant
                i <= j < v@.len(),
                s == items_view(v@),
                forall|a: int| 0 <= a < i ==> s[a].id != s[j as int].id,
            decreases j - i,
        {
            if v[i].id == v[j].id {
                assert(!item_ids_differ()(s[i as int], s[j as int]));
                return false;
            }
            i += 1;
        }
        j += 1;
    }
    assert forall|a: int, b: int| 0 <= a < b < s.len() implies #[trigger] item_ids_differ()(
        s[a],
        s[b],
    ) by {}
    true
}

impl Store {
    /// Whether ids are unique within each collection and email addresses
    /// unique among contributors, as for records loaded from outside.
    pub fn is_well_formed(&self) -> (r: bool)
        ensures
            r == self@.well_formed(),
    {
        contributors_distinct(&self.contributors) && capsules_distinct(&self.capsules)
            && items_distinct(&self.items)
    }
}

} // verus!
