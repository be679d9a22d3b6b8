//! The nightly-refresh helpers: recovering each previously downloaded
//! channel from stored metadata and canonicalizing channel URLs so one
//! channel is only refreshed once. Walking the media tree and launching
//! the downloader stay with the caller.

use vstd::prelude::*;

use crate::downloader::{first_nonblank, lower_of, to_ascii_lower, url_candidates, MinimalInfo};
use crate::text::{chars_to_string, find_char, find_from, spec_trim, str_to_chars, trim_range};

verus! {

/// The first usable channel URL of a stored metadata record, exactly as
/// written there.
pub fn first_url(info: &MinimalInfo) -> (r: Option<String>)
    ensures
        r.deep_view() == first_nonblank(url_candidates(*info)),
{
    crate::downloader::first_channel_url(info)
}

/// Index of the first of the trailing `/` characters before `j`.
pub open spec fn rtrim_slash_idx(s: Seq<char>, j: int) -> int
    decreases j,
{
    if j <= 0 || j > s.len() {
        0
    } else if s[j - 1] == '/' {
        rtrim_slash_idx(s, j - 1)
    } else {
        j
    }
}

/// The canonical form of a channel URL used for deduplication: trimmed,
/// cut before any fragment and any query, stripped of trailing slashes,
/// and lowercased.
pub open spec fn spec_canonical_url(u: Seq<char>) -> Seq<char> {
    let t = spec_trim(u);
    let a = t.subrange(
        0,
        match find_from(t, 0, '#') {
            Some(k) => k,
            None => t.len() as int,
        },
    );
    let b = a.subrange(
        0,
        match find_from(a, 0, '?') {
            Some(k) => k,
            None => a.len() as int,
        },
    );
    lower_of(b.subrange(0, rtrim_slash_idx(b, b.len() as int)))
}

/// Canonicalizes a channel URL for deduplication.
pub fn canonicalize_channel_url(url: &str) -> (r: String)
    ensures
        r@ == spec_canonical_url(url@),
{
    let v = str_to_chars(url);
    let n = v.len();
    let (lo, hi) = trim_range(&v, 0, n);
    let ghost t = spec_trim(url@);
    proof {
        assert(v@.subrange(0, n as int) =~= v@);
        crate::text::lemma_find_from_subrange(v@, lo as int, hi as int, 0, '#');
    }
    let h: usize = match find_char(&v, lo, hi, '#') {
        Some(k) => k,
        None => hi,
    };
    let ghost a = t.subrange(
        0,
        match find_from(t, 0, '#') {
            Some(k) => k,
            None => t.len() as int,
        },
    );
    proof {
        assert(a =~= v@.subrange(lo as int, h as int));
        crate::text::lemma_find_from_subrange(v@, lo as int, h as int, 0, '?');
    }
    let q: usize = match find_char(&v, lo, h, '?') {
        Some(k) => k,
        None => h,
    };
    let ghost b = a.subrange(
        0,
        match find_from(a, 0, '?') {
            Some(k) => k,
            None => a.len() as int,
        },
    );
    proof {
        assert(b =~= v@.subrange(lo as int, q as int));
    }
    let mut e: usize = q;
    while e > lo && v[e - 1] == '/'
        invariant
            lo <= e <= q <= n,
            n == v@.len(),
            v@ == url@,
            b == v@.subrange(lo as int, q as int),
            rtrim_slash_idx(b, b.len() as int) == rtrim_slash_idx(b, e - lo),
        decreases e,
    {
        proof {
            assert(b[e - lo - 1] == v@[e - 1]);
        }
        e = e - 1;
    }
    proof {
        if e > lo {
            assert(b[e - lo - 1] == v@[e - 1]);
            assert(rtrim_slash_idx(b, e - lo) == e - lo);
        } else {
            assert(rtrim_slash_idx(b, e - lo) == 0);
        }
        assert(b.subrange(0, rtrim_slash_idx(b, b.len() as int)) =~= v@.subrange(
            lo as int,
            e as int,
        ));
    }
    let trimmed = chars_to_string(&v, lo, e);
    to_ascii_lower(trimmed.as_str())
}

} // verus!
