//! Byte-range handling for the media streaming path: parsing of `Range`
//! header values, the decision between a whole-file, partial, or
//! unsatisfiable response, and the `Content-Range` header text.
//!
//! A malformed header is treated as absent, so the response degrades to the
//! whole file rather than erroring.

use vstd::prelude::*;

use crate::text::{
    dec_digits, find_char, find_from, parse_u64_range, push_dec, spec_parse_u64, spec_trim,
    str_to_chars, trim_range, lemma_find_from_subrange,
};

verus! {

/// The only accepted range unit.
pub open spec fn bytes_unit() -> Seq<char> {
    seq!['b', 'y', 't', 'e', 's']
}

/// The last byte offset of a file, with an empty file mapped to 0.
pub open spec fn last_offset(size: u64) -> u64 {
    if size == 0 {
        0
    } else {
        (size - 1) as u64
    }
}

/// Resolution of a suffix form `-N`: the last `N` bytes. A zero suffix is
/// invalid; a suffix covering the whole file yields the whole file.
pub open spec fn spec_suffix_range(sfx: Option<u64>, size: u64) -> Option<(u64, u64)> {
    match sfx {
        None => None,
        Some(n) => if n == 0 {
            None
        } else if n >= size {
            Some((0u64, last_offset(size)))
        } else {
            Some(((size - n) as u64, (size - 1) as u64))
        },
    }
}

/// Resolution of the `start-end` and `start-` forms. A missing end means
/// the end of the file; an explicitly given end before the start is
/// rejected. An open-ended range starting past the end of the file stays
/// a range, so the response can report it unsatisfiable.
pub open spec fn spec_explicit_range(start_s: Seq<char>, end_s: Seq<char>, size: u64) -> Option<
    (u64, u64),
> {
    match spec_parse_u64(start_s) {
        None => None,
        Some(start) => {
            if end_s.len() == 0 {
                Some((start, last_offset(size)))
            } else {
                match spec_parse_u64(end_s) {
                    None => None,
                    Some(end) => if end < start {
                        None
                    } else {
                        Some((start, end))
                    },
                }
            }
        },
    }
}

/// Splits a range expression at its first `-` and resolves it.
pub open spec fn spec_range_pair(range_s: Seq<char>, size: u64) -> Option<(u64, u64)> {
    match find_from(range_s, 0, '-') {
        None => None,
        Some(k) => {
            let start_s = range_s.subrange(0, k);
            let end_s = range_s.subrange(k + 1, range_s.len() as int);
            if start_s.len() == 0 {
                spec_suffix_range(spec_parse_u64(end_s), size)
            } else {
                spec_explicit_range(start_s, end_s, size)
            }
        },
    }
}

/// Full interpretation of a `Range` header value against a file of
/// `size` bytes: the unit must be literally `bytes`, the expression is the
/// text between the first and second `=`, and anything malformed yields
/// `None`.
pub open spec fn spec_parse_range(value: Seq<char>, size: u64) -> Option<(u64, u64)> {
    let t = spec_trim(value);
    match find_from(t, 0, '=') {
        None => None,
        Some(i) => {
            let unit = spec_trim(t.subrange(0, i));
            if unit != bytes_unit() {
                None
            } else {
                let seg_end = match find_from(t, i + 1, '=') {
                    Some(j) => j,
                    None => t.len() as int,
                };
                let range_s = spec_trim(t.subrange(i + 1, seg_end));
                if range_s.len() == 0 {
                    None
                } else {
                    spec_range_pair(range_s, size)
                }
            }
        },
    }
}

/// A parsed range that starts inside the file has its start at or before
/// its end.
pub proof fn lemma_parse_range_ordered(value: Seq<char>, size: u64)
    ensures
        spec_parse_range(value, size) matches Some(p) ==> (p.0 < size ==> p.0 <= p.1),
{
}

/// Parses a `Range` header value, returning the requested start and end
/// offsets (the end not yet clamped to the file size).
#[verifier::rlimit(60)]
pub fn parse_range_header(value: &str, size: u64) -> (r: Option<(u64, u64)>)
    ensures
        r == spec_parse_range(value@, size),
{
    let v = str_to_chars(value);
    let n: usize = v.len();
    let (tlo, thi) = trim_range(&v, 0, n);
    let ghost t = spec_trim(value@);
    proof {
        assert(v@.subrange(0, n as int) =~= v@);
        assert(v@.subrange(tlo as int, thi as int) == t);
    }
    let eqo = find_char(&v, tlo, thi, '=');
    proof {
        lemma_find_from_subrange(v@, tlo as int, thi as int, 0, '=');
    }
    let e = match eqo {
        None => {
            return None;
        },
        Some(e) => e,
    };
    let ghost i = e - tlo;
    assert(find_from(t, 0, '=') == Some(i as int));

    // Unit before the first `=`.
    let (ulo, uhi) = trim_range(&v, tlo, e);
    proof {
        assert(v@.subrange(tlo as int, e as int) =~= t.subrange(0, i as int));
    }
    let is_bytes = uhi - ulo == 5 && v[ulo] == 'b' && v[ulo + 1] == 'y' && v[ulo + 2] == 't'
        && v[ulo + 3] == 'e' && v[ulo + 4] == 's';
    proof {
        let unit = v@.subrange(ulo as int, uhi as int);
        assert(bytes_unit().len() == 5);
        assert(bytes_unit()[0] == 'b' && bytes_unit()[1] == 'y' && bytes_unit()[2] == 't'
            && bytes_unit()[3] == 'e' && bytes_unit()[4] == 's');
        if is_bytes {
            assert(unit =~= bytes_unit());
        } else if unit == bytes_unit() {
            assert(unit.len() == 5);
            assert(unit[0] == v@[ulo as int] && unit[1] == v@[ulo + 1] && unit[2] == v@[ulo + 2]
                && unit[3] == v@[ulo + 3] && unit[4] == v@[ulo + 4]);
            assert(false);
        }
    }
    if !is_bytes {
        return None;
    }

    // Range expression between the first and second `=`.
    proof {
        lemma_find_from_subrange(v@, tlo as int, thi as int, e + 1 - tlo, '=');
    }
    let seg_end = match find_char(&v, e + 1, thi, '=') {
        Some(j) => j,
        None => thi,
    };
    let (rlo, rhi) = trim_range(&v, e + 1, seg_end);
    let ghost range_s = v@.subrange(rlo as int, rhi as int);
    proof {
        let seg_end_spec = match find_from(t, i + 1, '=') {
            Some(j) => j,
            None => t.len() as int,
        };
        assert(seg_end - tlo == seg_end_spec);
        assert(v@.subrange(e + 1, seg_end as int) =~= t.subrange(i + 1, seg_end_spec));
        assert(range_s == spec_trim(t.subrange(i + 1, seg_end_spec)));
    }
    if rlo == rhi {
        return None;
    }
    proof {
        lemma_find_from_subrange(v@, rlo as int, rhi as int, 0, '-');
    }
    let k = match find_char(&v, rlo, rhi, '-') {
        None => {
            return None;
        },
        Some(k) => k,
    };
    proof {
        assert(find_from(range_s, 0, '-') == Some(k - rlo));
        assert(v@.subrange(rlo as int, k as int) =~= range_s.subrange(0, k - rlo));
        assert(v@.subrange(k + 1, rhi as int) =~= range_s.subrange(
            k - rlo + 1,
            range_s.len() as int,
        ));
    }
    if k == rlo {
        // Suffix form `-N`.
        let sfx = match parse_u64_range(&v, k + 1, rhi) {
            None => {
                return None;
            },
            Some(s) => s,
        };
        if sfx == 0 {
            return None;
        }
        if sfx >= size {
            if size == 0 {
                Some((0, 0))
            } else {
                Some((0, size - 1))
            }
        } else {
            Some((size - sfx, size - 1))
        }
    } else {
        let start = match parse_u64_range(&v, rlo, k) {
            None => {
                return None;
            },
            Some(s) => s,
        };
        if k + 1 == rhi {
            if size == 0 {
                Some((start, 0))
            } else {
                Some((start, size - 1))
            }
        } else {
            let end = match parse_u64_range(&v, k + 1, rhi) {
                None => {
                    return None;
                },
                Some(e2) => e2,
            };
            if end < start {
                None
            } else {
                Some((start, end))
            }
        }
    }
}

/// What the streaming path should do for one request: send the whole file,
/// send one byte window, or report that the range cannot be satisfied.
#[derive(Clone, Copy, Debug, PartialEq, Eq, Structural)]
pub enum StreamPlan {
    Whole,
    Window { start: u64, end: u64, length: u64 },
    Unsatisfiable,
}

/// The plan for a file of `size` bytes and an optional `Range` header:
/// no or malformed header streams the whole file; a start past the end of
/// the file is unsatisfiable; otherwise the end is clamped to the last
/// byte and exactly `end - start + 1` bytes are sent.
pub open spec fn spec_plan_stream(size: u64, header: Option<Seq<char>>) -> StreamPlan {
    let parsed = match header {
        None => None,
        Some(h) => spec_parse_range(h, size),
    };
    match parsed {
        None => StreamPlan::Whole,
        Some((start, end)) => if start >= size {
            StreamPlan::Unsatisfiable
        } else {
            let e = if end < (size - 1) as u64 {
                end
            } else {
                (size - 1) as u64
            };
            StreamPlan::Window { start, end: e, length: (e - start + 1) as u64 }
        },
    }
}

pub fn plan_stream(size: u64, header: Option<&str>) -> (p: StreamPlan)
    ensures
        p == spec_plan_stream(
            size,
            match header {
                Some(h) => Some(h@),
                None => None::<Seq<char>>,
            },
        ),
        p matches StreamPlan::Window { start, end, length } ==> start <= end < size && length == end
            - start + 1,
{
    let parsed = match header {
        None => None,
        Some(h) => parse_range_header(h, size),
    };
    match parsed {
        None => StreamPlan::Whole,
        Some((start, end)) => {
            if start >= size {
                StreamPlan::Unsatisfiable
            } else {
                proof {
                    if header is Some {
                        lemma_parse_range_ordered(header->0@, size);
                    }
                }
                let e = if end < size - 1 {
                    end
                } else {
                    size - 1
                };
                StreamPlan::Window { start, end: e, length: e - start + 1 }
            }
        },
    }
}

/// `Content-Range` text for a satisfied range: `bytes {start}-{end}/{size}`.
pub fn content_range_window(start: u64, end: u64, size: u64) -> (r: String)
    ensures
        r@ == "bytes "@ + dec_digits(start as nat) + seq!['-'] + dec_digits(end as nat) + seq!['/']
            + dec_digits(size as nat),
{
    let mut s = String::from_str("bytes ");
    push_dec(&mut s, start);
    crate::text::push_char(&mut s, '-');
    push_dec(&mut s, end);
    crate::text::push_char(&mut s, '/');
    push_dec(&mut s, size);
    proof {
        assert(s@ =~= "bytes "@ + dec_digits(start as nat) + seq!['-'] + dec_digits(end as nat)
            + seq!['/'] + dec_digits(size as nat));
    }
    s
}

/// `Content-Range` text for an unsatisfiable range: `bytes */{size}`.
pub fn content_range_unsatisfiable(size: u64) -> (r: String)
    ensures
        r@ == "bytes */"@ + dec_digits(size as nat),
{
    let mut s = String::from_str("bytes */");
    push_dec(&mut s, size);
    s
}

} // verus!
