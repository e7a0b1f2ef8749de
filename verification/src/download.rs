//! The download measurement: the address it fetches, how the download is
//! cut into parts, what each part asks for, and the bytes each part counts.

use vstd::prelude::*;

use crate::decimal::{decimal, push_decimal};

verus! {

/// The address of a download of `total_size` bytes from `url`, with a
/// cache-busting `nonce`: `{url}?size={total_size}&r={nonce}`.
pub open spec fn download_url_spec(url: Seq<char>, total_size: u64, nonce: Seq<char>) -> Seq<char> {
    url + "?size="@ + decimal(total_size as nat) + "&r="@ + nonce
}

/// Builds the address of a download of `total_size` bytes.
pub fn download_url(url: &str, total_size: u64, nonce: &str) -> (r: String)
    ensures
        r@ == download_url_spec(url@, total_size, nonce@),
{
    let mut r = String::new();
    r.append(url);
    r.append("?size=");
    push_decimal(&mut r, total_size);
    r.append("&r=");
    r.append(nonce);
    r
}

/// The `Range` header value that asks for bytes `start` to `end`.
pub open spec fn range_header_spec(start: u64, end: u64) -> Seq<char> {
    "bytes="@ + decimal(start as nat) + "-"@ + decimal(end as nat)
}

/// Builds the `Range` header value `bytes={start}-{end}`.
pub fn range_header(start: u64, end: u64) -> (r: String)
    ensures
        r@ == range_header_spec(start, end),
{
    let mut r = String::new();
    r.append("bytes=");
    push_decimal(&mut r, start);
    r.append("-");
    push_decimal(&mut r, end);
    r
}

/// The number of parts of a download of `total` bytes in parts of `chunk`
/// bytes: `total / chunk` rounded up. With parts of no bytes there is no
/// part when there is nothing to download, and as many as a `u64` counts
/// otherwise.
pub open spec fn chunk_count_spec(total: u64, chunk: u64) -> u64 {
    if chunk == 0 {
        if total == 0 { 0 } else { u64::MAX }
    } else {
        ((total as int + chunk as int - 1) / chunk as int) as u64
    }
}

/// Counts the parts of a download of `total` bytes in parts of `chunk` bytes.
pub fn chunk_count(total: u64, chunk: u64) -> (r: u64)
    ensures
        r == chunk_count_spec(total, chunk),
{
    if chunk == 0 {
        if total == 0 { 0 } else { u64::MAX }
    } else {
        let q = total / chunk;
        let rem = total % chunk;
        proof {
            lemma_ceil_div(total as int, chunk as int);
        }
        if rem == 0 { q } else { q + 1 }
    }
}

proof fn lemma_ceil_div(total: int, chunk: int)
    requires
        total >= 0,
        chunk > 0,
    ensures
        (total + chunk - 1) / chunk == total / chunk + (if total % chunk == 0 { 0int } else { 1int }),
        total / chunk <= total,
        total % chunk != 0 ==> total / chunk < total,
        (total + chunk - 1) / chunk <= total,
{
    let q = total / chunk;
    let r = total % chunk;
    assert(total == q * chunk + r && 0 <= r < chunk) by (nonlinear_arith)
        requires chunk > 0, q == total / chunk, r == total % chunk;
    assert(0 <= q && q <= total && (r != 0 ==> q < total)) by (nonlinear_arith)
        requires chunk > 0, total == q * chunk + r, 0 <= r < chunk, total >= 0;
    if r == 0 {
        assert((total + chunk - 1) / chunk == q) by (nonlinear_arith)
            requires chunk > 0, total == q * chunk, r == 0;
    } else {
        assert((total + chunk - 1) / chunk == q + 1) by (nonlinear_arith)
            requires chunk > 0, total == q * chunk + r, 0 < r < chunk;
    }
}

/// The first byte of part `i`.
pub open spec fn part_start(i: int, chunk: int) -> int {
    i * chunk
}

/// The last byte that part `i` asks for: the start of the next part, or
/// the end of the download for the last part.
pub open spec fn part_end(i: int, total: int, chunk: int) -> int {
    if part_start(i, chunk) + chunk < total { part_start(i, chunk) + chunk } else { total }
}

/// The bounds of part `i` of a download of `total` bytes in parts of
/// `chunk` bytes, or `None` where they do not fit in a `u64`.
pub fn part_bounds(i: u64, total: u64, chunk: u64) -> (r: Option<(u64, u64)>)
    ensures
        r is None <==> i as int * chunk as int + chunk as int > u64::MAX,
        r matches Some((start, end)) ==> start == part_start(i as int, chunk as int) && end
            == part_end(i as int, total as int, chunk as int),
{
    match i.checked_mul(chunk) {
        None => {
            assert(i as int * chunk as int + chunk as int > u64::MAX) by (nonlinear_arith)
                requires i as int * chunk as int > u64::MAX, chunk >= 0;
            None
        },
        Some(start) => match start.checked_add(chunk) {
            None => None,
            Some(next) => {
                let end = if next < total { next } else { total };
                Some((start, end))
            },
        },
    }
}

/// The gap that part `i` records when it starts at `now`, the previous
/// part having started at `last`: none for the first part, and the
/// difference truncated to an `i32` for the others.
pub fn part_gap(i: u64, now: i64, last: i64) -> (r: Option<i32>)
    requires
        i64::MIN <= now - last <= i64::MAX,
    ensures
        i == 0 ==> r is None,
        i > 0 ==> r == Some((now - last) as i32),
{
    if i > 0 {
        let d: i64 = now - last;
        Some(d as i32)
    } else {
        None
    }
}

/// The bytes that one part has received so far.
pub struct PartProgress {
    pub received: u64,
}

impl PartProgress {
    /// A part that has received nothing.
    pub fn new() -> (p: PartProgress)
        ensures
            p.received == 0,
    {
        PartProgress { received: 0 }
    }

    /// Counts a block of `size` bytes; returns `false`, and counts nothing,
    /// where the count would pass `u64::MAX`.
    pub fn add_block(&mut self, size: u64) -> (ok: bool)
        ensures
            ok <==> old(self).received + size <= u64::MAX,
            ok ==> final(self).received == old(self).received + size,
            !ok ==> final(self).received == old(self).received,
    {
        match self.received.checked_add(size) {
            Some(n) => {
                self.received = n;
                true
            },
            None => false,
        }
    }
}

/// The parts of a download cut into parts of `chunk` bytes cover it
/// without a gap: the first starts at byte 0, each part asks up to the
/// start of the next, the last asks up to the end, and every part starts
/// before the end of the download.
pub proof fn lemma_parts_cover_download(total: u64, chunk: u64)
    requires
        chunk > 0,
        total > 0,
    ensures
        part_start(0, chunk as int) == 0,
        forall|i: int|
            0 <= i < chunk_count_spec(total, chunk) - 1 ==> #[trigger] part_end(
                i,
                total as int,
                chunk as int,
            ) == part_start(i + 1, chunk as int),
        part_end(chunk_count_spec(total, chunk) - 1, total as int, chunk as int) == total,
        forall|i: int|
            0 <= i < chunk_count_spec(total, chunk) ==> #[trigger] part_start(i, chunk as int)
                < total,
{
    let n = chunk_count_spec(total, chunk) as int;
    let c = chunk as int;
    let t = total as int;
    lemma_ceil_div(t, c);
    assert((n - 1) * c < t && t <= n * c) by (nonlinear_arith)
        requires
            c > 0,
            t > 0,
            n == (t + c - 1) / c,
    {
        let q = (t + c - 1) / c;
        let r = (t + c - 1) % c;
        assert(t + c - 1 == q * c + r && 0 <= r < c);
    }
    assert forall|i: int| 0 <= i < n implies #[trigger] part_start(i, c) < t by {
        assert(i * c <= (n - 1) * c) by (nonlinear_arith)
            requires i <= n - 1, c > 0;
    }
    assert forall|i: int| 0 <= i < n - 1 implies #[trigger] part_end(i, t, c) == part_start(
        i + 1,
        c,
    ) by {
        assert(i * c + c == (i + 1) * c) by (nonlinear_arith);
        assert((i + 1) * c <= (n - 1) * c) by (nonlinear_arith)
            requires i + 1 <= n - 1, c > 0;
    }
    assert((n - 1) * c + c == n * c) by (nonlinear_arith);
}

} // verus!
