//! Fingerprints of creation requests: the SHA-256 digest of an unambiguous
//! byte encoding of the request's significant fields, in a fixed order.
//! Requests with the same significant fields have the same fingerprint.
use vstd::prelude::*;
use vstd::utf8::encode_utf8;

use crate::capsules::NewCapsule;
use crate::items::NewItem;
use crate::store::ledger_has;
use crate::store::ledger_view;
use crate::store::LedgerEntry;

verus! {

/// The SHA-256 digest of `data`.
pub uninterp spec fn sha256_of(data: Seq<u8>) -> Seq<u8>;

/// Relies on sha2's `Sha256` through `Digest::digest`: the SHA-256 digest of
/// `data`. Its output size is 32 bytes.
#[verifier::external_body]
fn sha256(data: &Vec<u8>) -> (r: Vec<u8>)
    ensures
        r@ == sha256_of(data@),
        r@.len() == 32,
{
    <sha2::Sha256 as sha2::Digest>::digest(data.as_slice()).to_vec()
}

/// A zero byte is written as 0, 1; any other byte as itself.
pub open spec fn escape_byte(b: u8) -> Seq<u8> {
    if b == 0 {
        seq![0u8, 1u8]
    } else {
        seq![b]
    }
}

pub open spec fn escaped(bytes: Seq<u8>) -> Seq<u8>
    decreases bytes.len(),
{
    if bytes.len() == 0 {
        Seq::empty()
    } else {
        escaped(bytes.drop_last()) + escape_byte(bytes.last())
    }
}

/// One field of an encoding: its escaped bytes, closed by 0, 0.
pub open spec fn field(bytes: Seq<u8>) -> Seq<u8> {
    escaped(bytes) + seq![0u8, 0u8]
}

/// The eight bytes of `n`, least significant first.
pub open spec fn le_bytes(n: u64) -> Seq<u8> {
    seq![
        (n % 0x100) as u8,
        (n / 0x100 % 0x100) as u8,
        (n / 0x1_0000 % 0x100) as u8,
        (n / 0x100_0000 % 0x100) as u8,
        (n / 0x1_0000_0000 % 0x100) as u8,
        (n / 0x100_0000_0000 % 0x100) as u8,
        (n / 0x1_0000_0000_0000 % 0x100) as u8,
        (n / 0x100_0000_0000_0000 % 0x100) as u8,
    ]
}

pub open spec fn text_field(s: Seq<char>) -> Seq<u8> {
    field(encode_utf8(s))
}

pub open spec fn number_field(n: u64) -> Seq<u8> {
    field(le_bytes(n))
}

pub const CAPSULE_TAG: u8 = 1;

pub const ITEM_TAG: u8 = 2;

/// The encoding of a capsule creation request: name, description, owner and
/// opening time.
pub open spec fn capsule_request_bytes(r: NewCapsule) -> Seq<u8> {
    seq![CAPSULE_TAG] + text_field(r.name@) + text_field(r.description@) + number_field(
        r.contributor_id as u64,
    ) + number_field(r.time_open as u64)
}

/// The encoding of an item creation request: type, description, size, path
/// and metadata.
pub open spec fn item_request_bytes(r: NewItem) -> Seq<u8> {
    seq![ITEM_TAG] + text_field(r.type_c@) + text_field(r.description@) + text_field(r.size@)
        + text_field(r.path@) + text_field(r.metadata@)
}

pub open spec fn capsule_fingerprint(r: NewCapsule) -> Seq<u8> {
    sha256_of(capsule_request_bytes(r))
}

pub open spec fn item_fingerprint(r: NewItem) -> Seq<u8> {
    sha256_of(item_request_bytes(r))
}

/// Appends the field encoding of `bytes` to `out`.
fn push_field(out: &mut Vec<u8>, bytes: &[u8])
    ensures
        final(out)@ == old(out)@ + field(bytes@),
{
    let ghost start = out@;
    let mut i: usize = 0;
    while i < bytes.len()
        invariant
            i <= bytes@.len(),
            out@ == start + escaped(bytes@.take(i as int)),
        decreases bytes@.len() - i,
    {
        let b = bytes[i];
        proof {
            assert(bytes@.take(i + 1).drop_last() =~= bytes@.take(i as int));
        }
        if b == 0 {
            out.push(0);
            out.push(1);
        } else {
            out.push(b);
        }
        proof {
            assert(out@ =~= start + escaped(bytes@.take(i + 1)));
        }
        i += 1;
    }
    assert(bytes@.take(bytes@.len() as int) =~= bytes@);
    out.push(0);
    out.push(0);
    assert(out@ =~= start + field(bytes@));
}

fn push_text(out: &mut Vec<u8>, s: &String)
    ensures
        final(out)@ == old(out)@ + text_field(s@),
{
    push_field(out, s.as_str().as_bytes());
}

fn push_number(out: &mut Vec<u8>, n: u64)
    ensures
        final(out)@ == old(out)@ + number_field(n),
{
    let bytes: [u8; 8] = [
        (n % 0x100) as u8,
        (n / 0x100 % 0x100) as u8,
        (n / 0x1_0000 % 0x100) as u8,
        (n / 0x100_0000 % 0x100) as u8,
        (n / 0x1_0000_0000 % 0x100) as u8,
        (n / 0x100_0000_0000 % 0x100) as u8,
        (n / 0x1_0000_0000_0000 % 0x100) as u8,
        (n / 0x100_0000_0000_0000 % 0x100) as u8,
    ];
    assert(bytes@ =~= le_bytes(n));
    push_field(out, bytes.as_slice());
}

/// The fingerprint of a capsule creation request.
pub fn fingerprint_capsule_request(r: &NewCapsule) -> (f: Vec<u8>)
    ensures
        f@ == capsule_fingerprint(*r),
{
    let mut bytes: Vec<u8> = Vec::new();
    bytes.push(CAPSULE_TAG);
    push_text(&mut bytes, &r.name);
    push_text(&mut bytes, &r.description);
    push_number(&mut bytes, r.contributor_id as u64);
    push_number(&mut bytes, r.time_open as u64);
    assert(bytes@ =~= capsule_request_bytes(*r));
    sha256(&bytes)
}

/// The fingerprint of an item creation request.
pub fn fingerprint_item_request(r: &NewItem) -> (f: Vec<u8>)
    ensures
        f@ == item_fingerprint(*r),
{
    let mut bytes: Vec<u8> = Vec::new();
    bytes.push(ITEM_TAG);
    push_text(&mut bytes, &r.type_c);
    push_text(&mut bytes, &r.description);
    push_text(&mut bytes, &r.size);
    push_text(&mut bytes, &r.path);
    push_text(&mut bytes, &r.metadata);
    assert(bytes@ =~= item_request_bytes(*r));
    sha256(&bytes)
}

fn same_bytes(a: &Vec<u8>, b: &Vec<u8>) -> (r: bool)
    ensures
        r == (a@ == b@),
{
    if a.len() != b.len() {
        return false;
    }
    let mut i: usize = 0;
    while i < a.len()
        invariant
            i <= a@.len(),
            a@.len() == b@.len(),
            forall|j: int| 0 <= j < i ==> a@[j] == b@[j],
        decreases a@.len() - i,
    {
        if a[i] != b[i] {
            return false;
        }
        i += 1;
    }
    assert(a@ =~= b@);
    true
}

/// Whether a request with fingerprint `f` has already been served.
pub fn ledger_contains(ledger: &Vec<LedgerEntry>, f: &Vec<u8>) -> (r: bool)
    ensures
        r == ledger_has(ledger_view(ledger@), f@),
{
    let ghost s = ledger_view(ledger@);
    let mut i: usize = 0;
    while i < ledger.len()
        invariant
            i <= ledger@.len(),
            s == ledger_view(ledger@),
            forall|j: int| 0 <= j < i ==> s[j].fingerprint != f@,
        decreases ledger@.len() - i,
    {
        if same_bytes(&ledger[i].fingerprint, f) {
            assert(s[i as int].fingerprint == f@);
            return true;
        }
        i += 1;
    }
    false
}

} // verus!
