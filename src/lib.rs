//! An in-memory store of contributors, capsules and items, with optimistic
//! versioning, duplicate-submission suppression and cascading operations
//! that keep the cross references between the three collections intact.

pub mod capsules;
pub mod clock;
pub mod consistency;
pub mod contributors;
pub mod fingerprint;
pub mod ids;
pub mod items;
pub mod laws;
pub mod linkage;
pub mod lists;
pub mod merges;
pub mod pagination;
pub mod store;
pub mod version;
