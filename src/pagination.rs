//! Pages of a listing: page `p` of size `n` holds the records at positions
//! `(p - 1) * n` up to `p * n`, cut off at the end of the listing.
use vstd::prelude::*;

verus! {

/// The page asked for; page numbers start at 1. Defaults: page 1, 10 per page.
#[derive(Clone, Copy, Debug)]
pub struct Pagination {
    pub page: Option<usize>,
    pub per_page: Option<usize>,
}

/// One page of a listing, with the listing's total length.
#[derive(Debug)]
pub struct CustomResponder<T> {
    pub inner: T,
    pub total_items: usize,
    pub page: usize,
    pub per_page: usize,
}

pub const DEFAULT_PAGE: usize = 1;

pub const DEFAULT_PER_PAGE: usize = 10;

pub open spec fn page_number(p: Pagination) -> nat {
    match p.page {
        Some(n) => n as nat,
        None => DEFAULT_PAGE as nat,
    }
}

pub open spec fn page_size(p: Pagination) -> nat {
    match p.per_page {
        Some(n) => n as nat,
        None => DEFAULT_PER_PAGE as nat,
    }
}

/// Page numbers start at 1.
pub open spec fn valid_pagination(p: Pagination) -> bool {
    page_number(p) >= 1
}

pub open spec fn min_int(a: int, b: int) -> int {
    if a <= b {
        a
    } else {
        b
    }
}

/// Where the page starts in a listing of `len` records.
pub open spec fn page_start(p: Pagination, len: nat) -> int {
    min_int((page_number(p) - 1) * page_size(p), len as int)
}

/// Where the page ends in a listing of `len` records.
pub open spec fn page_end(p: Pagination, len: nat) -> int {
    min_int((page_number(p) - 1) * page_size(p) + page_size(p), len as int)
}

/// The records of `s` on the page `p`.
pub open spec fn page_slice<A>(s: Seq<A>, p: Pagination) -> Seq<A> {
    s.subrange(page_start(p, s.len()), page_end(p, s.len()))
}

/// The page number and page size that `p` asks for, defaults filled in.
pub fn page_parameters(p: &Pagination) -> (r: (usize, usize))
    ensures
        r.0 == page_number(*p),
        r.1 == page_size(*p),
{
    let page = match p.page {
        Some(n) => n,
        None => DEFAULT_PAGE,
    };
    let per_page = match p.per_page {
        Some(n) => n,
        None => DEFAULT_PER_PAGE,
    };
    (page, per_page)
}

/// The bounds of the page `p` in a listing of `len` records.
pub fn page_bounds(p: &Pagination, len: usize) -> (r: (usize, usize))
    requires
        valid_pagination(*p),
    ensures
        r.0 == page_start(*p, len as nat),
        r.1 == page_end(*p, len as nat),
        r.0 <= r.1 <= len,
{
    let (page, per_page) = page_parameters(p);
    let start: usize = match (page - 1).checked_mul(per_page) {
        Some(s) => if s <= len {
            s
        } else {
            len
        },
        None => len,
    };
    let end: usize = if start == len {
        len
    } else {
        match start.checked_add(per_page) {
            Some(e) => if e <= len {
                e
            } else {
                len
            },
            None => len,
        }
    };
    proof {
        let a: int = page_number(*p) - 1;
        let b: int = page_size(*p) as int;
        assert(a * b >= 0) by (nonlinear_arith)
            requires
                a >= 0,
                b >= 0,
        ;
        let raw = a * b;
        if start == len {
            assert(raw >= len);
        }
    }
    (start, end)
}

} // verus!
