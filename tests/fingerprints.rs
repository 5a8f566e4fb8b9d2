use capsule_store::capsules::NewCapsule;
use capsule_store::fingerprint::{fingerprint_capsule_request, fingerprint_item_request};
use capsule_store::items::NewItem;
use sha2::Digest;

fn field(bytes: &[u8]) -> Vec<u8> {
    let mut out = Vec::new();
    for &b in bytes {
        if b == 0 {
            out.push(0);
            out.push(1);
        } else {
            out.push(b);
        }
    }
    out.push(0);
    out.push(0);
    out
}

fn capsule_request(name: &str, description: &str) -> NewCapsule {
    NewCapsule {
        name: String::from(name),
        description: String::from(description),
        contributor_id: 3,
        time_open: 258,
    }
}

#[test]
fn capsule_fingerprint_is_sha256_of_encoding() {
    let r = capsule_request("ab", "c");
    let mut bytes = vec![1u8];
    bytes.extend(field(b"ab"));
    bytes.extend(field(b"c"));
    bytes.extend(field(&3u64.to_le_bytes()));
    bytes.extend(field(&258u64.to_le_bytes()));
    let expected = sha2::Sha256::digest(&bytes).to_vec();
    let got = fingerprint_capsule_request(&r);
    assert_eq!(got.len(), 32);
    assert_eq!(got, expected);
}

#[test]
fn item_fingerprint_is_sha256_of_encoding() {
    let r = NewItem {
        type_c: String::from("photo"),
        description: String::from("d"),
        size: String::from("1MB"),
        path: String::from("/p"),
        metadata: String::from("{}"),
    };
    let mut bytes = vec![2u8];
    for f in ["photo", "d", "1MB", "/p", "{}"] {
        bytes.extend(field(f.as_bytes()));
    }
    let expected = sha2::Sha256::digest(&bytes).to_vec();
    assert_eq!(fingerprint_item_request(&r), expected);
}

#[test]
fn fingerprint_separates_fields() {
    let a = fingerprint_capsule_request(&capsule_request("ab", "c"));
    let b = fingerprint_capsule_request(&capsule_request("a", "bc"));
    let c = fingerprint_capsule_request(&capsule_request("a\u{0}", "c"));
    let d = fingerprint_capsule_request(&capsule_request("ab", "c"));
    assert_ne!(a, b);
    assert_ne!(a, c);
    assert_eq!(a, d);
}
