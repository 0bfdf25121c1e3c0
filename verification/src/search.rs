use vstd::prelude::*;
use crate::address::{decode_address, kaspa_address_of};
use crate::bytesutil::{bytes_eq, copy_range};
use crate::errors::KeyError;
use crate::keys::{derive_child_public, spec_derive_child_public, xpub_wf, ExtendedPublicKey,
    XPubView};

verus! {

/// The x-coordinate a child index contributes: the child point with its
/// parity prefix dropped; a failed derivation contributes nothing.
pub open spec fn spec_candidate_x(chain: XPubView, i: u32) -> Result<Seq<u8>, KeyError> {
    match spec_derive_child_public(chain, i) {
        Ok(c) => if c.point[0] == 2 || c.point[0] == 3 {
            Ok(c.point.subrange(1, 33))
        } else {
            Err(KeyError::BadPointEncoding)
        },
        Err(e) => Err(e),
    }
}

/// What scanning the indices `[from, until)` in order returns: the first
/// index whose candidate x-coordinate equals the payload, `None` when all
/// derive and none matches, and a failure when a derivation breaks before
/// any match.
pub open spec fn spec_scan(chain: XPubView, payload: Seq<u8>, from: int, until: int) -> Result<
    Option<u32>,
    KeyError,
>
    decreases until - from,
{
    if from >= until || from > u32::MAX as int {
        Ok(None)
    } else {
        match spec_candidate_x(chain, from as u32) {
            Err(_) => Err(KeyError::SearchFailed),
            Ok(x) => if x == payload {
                Ok(Some(from as u32))
            } else {
                spec_scan(chain, payload, from + 1, until)
            },
        }
    }
}

/// A scan that found nothing hands the rest of the range an unchanged scan.
pub proof fn lemma_spec_scan_concat(chain: XPubView, payload: Seq<u8>, a: int, m: int, b: int)
    requires
        a <= m <= b,
        spec_scan(chain, payload, a, m) == Ok::<Option<u32>, KeyError>(None::<u32>),
    ensures
        spec_scan(chain, payload, a, b) == spec_scan(chain, payload, m, b),
    decreases m - a,
{
    if a < m && a <= u32::MAX as int {
        lemma_spec_scan_concat(chain, payload, a + 1, m, b);
    }
}

/// A found index stays found when the scan bound grows.
pub proof fn lemma_spec_scan_found_extends(
    chain: XPubView,
    payload: Seq<u8>,
    a: int,
    b: int,
    b2: int,
    i: u32,
)
    requires
        a <= b <= b2,
        spec_scan(chain, payload, a, b) == Ok::<Option<u32>, KeyError>(Some(i)),
    ensures
        spec_scan(chain, payload, a, b2) == Ok::<Option<u32>, KeyError>(Some(i)),
    decreases b - a,
{
    if a < b && a <= u32::MAX as int {
        if spec_candidate_x(chain, a as u32) matches Ok(x) && x != payload {
            lemma_spec_scan_found_extends(chain, payload, a + 1, b, b2, i);
        }
    }
}

/// A failure stays a failure when the scan bound grows.
pub proof fn lemma_spec_scan_err_extends(
    chain: XPubView,
    payload: Seq<u8>,
    a: int,
    b: int,
    b2: int,
    e: KeyError,
)
    requires
        a <= b <= b2,
        spec_scan(chain, payload, a, b) == Err::<Option<u32>, KeyError>(e),
    ensures
        spec_scan(chain, payload, a, b2) == Err::<Option<u32>, KeyError>(e),
    decreases b - a,
{
    if a < b && a <= u32::MAX as int {
        if spec_candidate_x(chain, a as u32) matches Ok(x) && x != payload {
            lemma_spec_scan_err_extends(chain, payload, a + 1, b, b2, e);
        }
    }
}

/// Scans one contiguous range of child indices for the target payload.
#[verifier::loop_isolation(false)]
pub fn scan_range(chain: &ExtendedPublicKey, payload: &[u8], start: u32, end: u32) -> (r: Result<
    Option<u32>,
    KeyError,
>)
    requires
        xpub_wf(chain@),
        start <= end,
    ensures
        r == spec_scan(chain@, payload@, start as int, end as int),
{
    let mut i = start;
    while i < end
        invariant
            start <= i <= end,
            spec_scan(chain@, payload@, start as int, end as int) == spec_scan(
                chain@,
                payload@,
                i as int,
                end as int,
            ),
        decreases end - i,
    {
        match derive_child_public(chain, i) {
            Ok(c) => {
                let p0 = c.point[0];
                if p0 != 2 && p0 != 3 {
                    return Err(KeyError::SearchFailed);
                }
                let x = copy_range(c.point.as_slice(), 1, 33);
                if bytes_eq(x.as_slice(), payload) {
                    return Ok(Some(i));
                }
            },
            Err(_) => {
                return Err(KeyError::SearchFailed);
            },
        }
        i = i + 1;
    }
    Ok(None)
}

/// The chunks that partition `[0, limit)` for a worker count: each is
/// `ceil(limit / workers)` indices, the last may be shorter, and a worker
/// whose chunk would start past the limit gets none.
pub open spec fn spec_chunk_size(limit: u32, workers: u32) -> int {
    (limit + workers - 1) / (workers as int)
}

/// Cuts `[0, limit)` into contiguous chunks, one per busy worker.
#[verifier::loop_isolation(false)]
pub fn chunk_bounds(limit: u32, workers: u32) -> (r: Vec<(u32, u32)>)
    requires
        workers >= 1,
    ensures
        forall|j: int|
            0 <= j < r@.len() ==> (#[trigger] r@[j]).0 == j * spec_chunk_size(limit, workers)
                && r@[j].1 == (if j * spec_chunk_size(limit, workers) + spec_chunk_size(
                limit,
                workers,
            ) < limit {
                j * spec_chunk_size(limit, workers) + spec_chunk_size(limit, workers)
            } else {
                limit as int
            }),
        forall|j: int| 0 <= j < r@.len() ==> (#[trigger] r@[j]).0 < r@[j].1,
        forall|j: int| 0 < j < r@.len() ==> (#[trigger] r@[j]).0 == r@[j - 1].1,
        r@.len() > 0 ==> r@[0].0 == 0 && r@[r@.len() - 1].1 == limit,
        r@.len() == 0 <==> limit == 0,
{
    let c64: u64 = ((limit as u64) + (workers as u64) - 1) / (workers as u64);
    proof {
        assert(c64 == spec_chunk_size(limit, workers));
        if limit > 0 {
            assert(c64 >= 1) by (nonlinear_arith)
                requires
                    workers >= 1,
                    limit >= 1,
                    c64 == ((limit + workers - 1) as int) / (workers as int),
            ;
        }
    }
    let mut r: Vec<(u32, u32)> = Vec::new();
    let mut start: u64 = 0;
    proof {
        assert(r@.len() * c64 == 0) by (nonlinear_arith)
            requires
                r@.len() == 0,
        ;
    }
    while start < limit as u64
        invariant
            c64 == spec_chunk_size(limit, workers),
            start == r@.len() * c64,
            limit > 0 ==> c64 >= 1,
            forall|j: int|
                0 <= j < r@.len() ==> (#[trigger] r@[j]).0 == j * c64 && r@[j].1 == (if j * c64
                    + c64 < limit {
                    j * c64 + c64
                } else {
                    limit as int
                }),
            forall|j: int| 0 <= j < r@.len() ==> (#[trigger] r@[j]).0 < r@[j].1,
            forall|j: int| 0 < j < r@.len() ==> (#[trigger] r@[j]).0 == r@[j - 1].1,
            r@.len() > 0 ==> r@[0].0 == 0,
            r@.len() > 0 ==> r@[r@.len() - 1].1 == (if start < limit {
                start as int
            } else {
                limit as int
            }),
        decreases (if start < limit as u64 {
            limit as int - start
        } else {
            0
        }),
    {
        let e64: u64 = if start + c64 < limit as u64 {
            start + c64
        } else {
            limit as u64
        };
        let ghost n = r@.len() as int;
        r.push((start as u32, e64 as u32));
        proof {
            assert(r@[n].0 == n * c64);
            assert((n + 1) * c64 == n * c64 + c64) by (nonlinear_arith);
        }
        start = start + c64;
    }
    r
}

/// A scan returns the known position of its target: when every index up to
/// `i` derives, `i` carries the payload and no earlier index does, the scan
/// of any range holding `i` finds exactly `i`.
pub proof fn lemma_scan_finds_known_child(
    chain: XPubView,
    payload: Seq<u8>,
    a: int,
    i: u32,
    limit: int,
)
    requires
        0 <= a <= i < limit,
        forall|j: int| a <= j <= i ==> (#[trigger] spec_candidate_x(chain, j as u32)) is Ok,
        spec_candidate_x(chain, i) == Ok::<Seq<u8>, KeyError>(payload),
        forall|j: int|
            a <= j < i ==> (#[trigger] spec_candidate_x(chain, j as u32)) != Ok::<
                Seq<u8>,
                KeyError,
            >(payload),
    ensures
        spec_scan(chain, payload, a, limit) == Ok::<Option<u32>, KeyError>(Some(i)),
    decreases i - a,
{
    if a < i {
        lemma_scan_finds_known_child(chain, payload, a + 1, i, limit);
    }
}

/// A scan of indices that all derive and never carry the payload comes back
/// empty-handed.
pub proof fn lemma_scan_exhausts_absent_payload(
    chain: XPubView,
    payload: Seq<u8>,
    a: int,
    limit: int,
)
    requires
        forall|j: int|
            a <= j < limit ==> (#[trigger] spec_candidate_x(chain, j as u32)) is Ok
                && spec_candidate_x(chain, j as u32) != Ok::<Seq<u8>, KeyError>(payload),
    ensures
        spec_scan(chain, payload, a, limit) == Ok::<Option<u32>, KeyError>(None::<u32>),
    decreases limit - a,
{
    if a < limit && a <= u32::MAX as int {
        lemma_scan_exhausts_absent_payload(chain, payload, a + 1, limit);
    }
}

/// Chunks that abut come in order: an earlier chunk ends no later than a
/// later one starts.
proof fn lemma_chunk_order(chunks: Seq<(u32, u32)>, j1: int, j2: int)
    requires
        0 <= j1 < j2 < chunks.len(),
        forall|j: int| 0 <= j < chunks.len() ==> (#[trigger] chunks[j]).0 < chunks[j].1,
        forall|j: int| 0 < j < chunks.len() ==> (#[trigger] chunks[j]).0 == chunks[j - 1].1,
    ensures
        chunks[j1].1 <= chunks[j2].0,
    decreases j2 - j1,
{
    if j1 + 1 < j2 {
        lemma_chunk_order(chunks, j1, j2 - 1);
    }
}

/// Chunks that start at zero, abut, and end at the limit hold every index
/// below the limit exactly once: none is skipped, none is handed out twice.
pub proof fn lemma_chunks_partition(chunks: Seq<(u32, u32)>, limit: u32, i: u32)
    requires
        i < limit,
        chunks.len() > 0,
        chunks[0].0 == 0,
        chunks[chunks.len() - 1].1 == limit,
        forall|j: int| 0 <= j < chunks.len() ==> (#[trigger] chunks[j]).0 < chunks[j].1,
        forall|j: int| 0 < j < chunks.len() ==> (#[trigger] chunks[j]).0 == chunks[j - 1].1,
    ensures
        exists|j: int| 0 <= j < chunks.len() && (#[trigger] chunks[j]).0 <= i < chunks[j].1,
        forall|j1: int, j2: int|
            (0 <= j1 < chunks.len() && 0 <= j2 < chunks.len() && (#[trigger] chunks[j1]).0 <= i
                < chunks[j1].1 && (#[trigger] chunks[j2]).0 <= i < chunks[j2].1) ==> j1 == j2,
    decreases chunks.len(),
{
    let n = chunks.len() as int;
    if chunks[n - 1].0 <= i {
        assert(chunks[n - 1].0 <= i < chunks[n - 1].1);
    } else {
        let front = chunks.drop_last();
        assert(n >= 2);
        assert(front[front.len() - 1] == chunks[n - 2]);
        assert(chunks[n - 1].0 == chunks[n - 2].1);
        lemma_chunks_partition(front, chunks[n - 2].1 as u32, i);
        let j = choose|j: int|
            0 <= j < front.len() && (#[trigger] front[j]).0 <= i < front[j].1;
        assert(chunks[j].0 <= i < chunks[j].1);
    }
    assert forall|j1: int, j2: int|
        (0 <= j1 < chunks.len() && 0 <= j2 < chunks.len() && (#[trigger] chunks[j1]).0 <= i
            < chunks[j1].1 && (#[trigger] chunks[j2]).0 <= i < chunks[j2].1) implies j1 == j2 by {
        if j1 < j2 {
            lemma_chunk_order(chunks, j1, j2);
        }
        if j2 < j1 {
            lemma_chunk_order(chunks, j2, j1);
        }
    }
}

/// The only failure a scan reports is an interrupted search.
pub proof fn lemma_spec_scan_err_is_search_failed(
    chain: XPubView,
    payload: Seq<u8>,
    a: int,
    b: int,
)
    ensures
        spec_scan(chain, payload, a, b) matches Err(e) ==> e == KeyError::SearchFailed,
    decreases b - a,
{
    if a < b && a <= u32::MAX as int {
        if spec_candidate_x(chain, a as u32) matches Ok(x) && x != payload {
            lemma_spec_scan_err_is_search_failed(chain, payload, a + 1, b);
        }
    }
}

/// The child chain and scan a search performs: the external chain key is
/// the first plain child of the target key, and its first `limit` children
/// are scanned in index order.
pub open spec fn spec_search(xpub: XPubView, payload: Seq<u8>, limit: u32) -> Result<
    Option<u32>,
    KeyError,
> {
    match spec_derive_child_public(xpub, 0) {
        Ok(chain) => spec_scan(chain, payload, 0, limit as int),
        Err(e) => Err(e),
    }
}

/// Searches the first `limit` derived children of a key for the payload of
/// a target address, chunk by chunk in index order.
#[verifier::loop_isolation(false)]
pub fn search_derived_addresses(
    xpub: &ExtendedPublicKey,
    payload: &[u8],
    search_limit: u32,
    num_workers: u32,
) -> (r: Result<Option<u32>, KeyError>)
    requires
        xpub_wf(xpub@),
        num_workers >= 1,
    ensures
        r == spec_search(xpub@, payload@, search_limit),
{
    let chain = match derive_child_public(xpub, 0) {
        Ok(c) => c,
        Err(e) => {
            return Err(e);
        },
    };
    let chunks = chunk_bounds(search_limit, num_workers);
    let mut done: u32 = 0;
    let mut ci: usize = 0;
    while ci < chunks.len()
        invariant
            ci <= chunks@.len(),
            done == (if ci == 0 {
                0
            } else {
                chunks@[ci as int - 1].1
            }),
            done as int <= search_limit,
            spec_scan(chain@, payload@, 0, done as int) == Ok::<Option<u32>, KeyError>(
                None::<u32>,
            ),
        decreases chunks@.len() - ci,
    {
        let (s, e) = chunks[ci];
        proof {
            if ci > 0 {
                assert(chunks@[ci as int].0 == chunks@[ci as int - 1].1);
            }
            assert(s == done);
            assert(e <= search_limit);
        }
        match scan_range(&chain, payload, s, e) {
            Ok(Some(i)) => {
                proof {
                    lemma_spec_scan_found_extends(
                        chain@,
                        payload@,
                        s as int,
                        e as int,
                        search_limit as int,
                        i,
                    );
                    lemma_spec_scan_concat(chain@, payload@, 0, s as int, search_limit as int);
                }
                return Ok(Some(i));
            },
            Ok(None) => {
                proof {
                    lemma_spec_scan_concat(chain@, payload@, 0, s as int, e as int);
                }
                done = e;
            },
            Err(err) => {
                proof {
                    lemma_spec_scan_err_extends(
                        chain@,
                        payload@,
                        s as int,
                        e as int,
                        search_limit as int,
                        err,
                    );
                    lemma_spec_scan_concat(chain@, payload@, 0, s as int, search_limit as int);
                }
                return Err(err);
            },
        }
        ci = ci + 1;
    }
    proof {
        if chunks@.len() == 0 {
            assert(search_limit == 0);
        }
    }
    Ok(None)
}

/// Searches the first `search_limit` derived children of an extended public
/// key for a target address.  A well-formed address pins the result
/// exactly; text that is no address of any payload is refused.
pub fn check_address_belongs_to_xpub(
    xpub: &ExtendedPublicKey,
    address: &str,
    search_limit: u32,
    num_workers: u32,
) -> (r: Result<Option<u32>, KeyError>)
    requires
        xpub_wf(xpub@),
        num_workers >= 1,
    ensures
        forall|p: Seq<u8>|
            p.len() == 32 && kaspa_address_of(p) == address@ ==> r == spec_search(
                xpub@,
                p,
                search_limit,
            ),
        r == Err::<Option<u32>, KeyError>(KeyError::MalformedAddress) ==> forall|p: Seq<u8>|
            p.len() == 32 ==> kaspa_address_of(p) != address@,
{
    let payload = match decode_address(address) {
        Some(p) => p,
        None => {
            return Err(KeyError::MalformedAddress);
        },
    };
    let r = search_derived_addresses(xpub, payload.as_slice(), search_limit, num_workers);
    proof {
        match spec_derive_child_public(xpub@, 0) {
            Ok(chain) => {
                lemma_spec_scan_err_is_search_failed(chain, payload@, 0, search_limit as int);
            },
            Err(_) => {},
        }
        assert(r != Err::<Option<u32>, KeyError>(KeyError::MalformedAddress));
    }
    r
}

} // verus!
