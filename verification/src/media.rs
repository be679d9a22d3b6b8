//! The media streaming path between URL and filesystem: validation of
//! dynamic path segments, mapping a requested format slug to a source and
//! its file path, choice of the served MIME type, selection of the best
//! subtitle file, and the static-frontend fallback rule.
//!
//! Nothing here touches the filesystem; the caller opens whatever path
//! comes back. In particular a request for a format slug absent from the
//! record's source list fails here, before any filesystem access.

use vstd::prelude::*;

use crate::errors::{ApiError, ApiErrorKind};
use crate::records::{MediaCategory, VideoRecord, VideoSource, VideoSourceView};
use crate::text::{
    chars_to_string, find_char, find_from, push_char, rfind_before, spec_trim, str_starts_with,
    str_to_chars, trim_range,
};

verus! {

/// The URL and directory slug of a category.
pub open spec fn media_slug_chars(kind: MediaCategory) -> Seq<char> {
    match kind {
        MediaCategory::Video => "videos"@,
        MediaCategory::Short => "shorts"@,
    }
}

pub fn media_kind_slug(kind: MediaCategory) -> (r: &'static str)
    ensures
        r@ == media_slug_chars(kind),
{
    match kind {
        MediaCategory::Video => "videos",
        MediaCategory::Short => "shorts",
    }
}

/// A format id as it appears in file names and URLs: path and URL
/// delimiters become underscores.
pub open spec fn slug_char(c: char) -> char {
    if c == '/' || c == ':' || c == ' ' {
        '_'
    } else {
        c
    }
}

pub open spec fn slug_of(s: Seq<char>) -> Seq<char> {
    s.map_values(|c: char| slug_char(c))
}

/// Normalizes a format id into its slug form.
pub fn normalize_format_id(value: &str) -> (r: String)
    ensures
        r@ == slug_of(value@),
{
    let n: usize = value.unicode_len();
    let mut r = String::new();
    let mut i: usize = 0;
    while i < n
        invariant
            i <= n,
            n == value@.len(),
            r@ == slug_of(value@).take(i as int),
        decreases n - i,
    {
        let c = value.get_char(i);
        if c == '/' || c == ':' || c == ' ' {
            push_char(&mut r, '_');
        } else {
            push_char(&mut r, c);
        }
        proof {
            assert(r@ =~= slug_of(value@).take(i + 1));
        }
        i = i + 1;
    }
    proof {
        assert(slug_of(value@).take(n as int) =~= slug_of(value@));
    }
    r
}

/// The key under which a source is addressed: its trimmed format id in
/// slug form, or nothing when the id is blank.
pub open spec fn spec_source_key(format_id: Seq<char>) -> Option<Seq<char>> {
    let t = spec_trim(format_id);
    if t.len() == 0 {
        None
    } else {
        Some(slug_of(t))
    }
}

pub fn source_key(source: &VideoSource) -> (r: Option<String>)
    ensures
        r.deep_view() == spec_source_key(source.format_id@),
{
    let chars = str_to_chars(source.format_id.as_str());
    let n = chars.len();
    let (lo, hi) = trim_range(&chars, 0, n);
    proof {
        assert(chars@.subrange(0, n as int) =~= chars@);
    }
    if lo == hi {
        None
    } else {
        let trimmed = chars_to_string(&chars, lo, hi);
        Some(normalize_format_id(trimmed.as_str()))
    }
}

/// Validity of the slash-separated segments of a dynamic URL path value
/// from position `from` on: a `..` component anywhere, or a `.` before
/// any real component, escapes or renames the base and is rejected.
pub open spec fn segments_ok(s: Seq<char>, from: int, seen: bool) -> bool
    decreases s.len() - from + 1,
    via segments_ok_dec
{
    if from < 0 || from >= s.len() {
        true
    } else {
        let end = match find_from(s, from, '/') {
            Some(k) => k,
            None => s.len() as int,
        };
        let seg = s.subrange(from, end);
        let this_ok = if seg.len() == 0 {
            true
        } else if seg == seq!['.', '.'] {
            false
        } else if !seen && seg == seq!['.'] {
            false
        } else {
            true
        };
        this_ok && segments_ok(s, end + 1, seen || seg.len() > 0)
    }
}

#[via_fn]
proof fn segments_ok_dec(s: Seq<char>, from: int, seen: bool) {
    crate::text::lemma_find_from_bounds(s, from, '/');
}

/// A dynamic path value that stays under its base directory: non-empty,
/// relative, with no escaping components.
pub open spec fn safe_path_segment(s: Seq<char>) -> bool {
    s.len() > 0 && s[0] != '/' && segments_ok(s, 0, false)
}

/// Rejects, as not-found, any dynamic path value that could escape its
/// base directory.
pub fn ensure_safe_path_segment(value: &str) -> (r: Result<(), ApiError>)
    ensures
        r is Ok <==> safe_path_segment(value@),
        r matches Err(e) ==> e.kind == ApiErrorKind::NotFound,
{
    let v = str_to_chars(value);
    let n: usize = v.len();
    proof {
        assert(v@.subrange(0, n as int) =~= v@);
    }
    if n == 0 {
        return Err(ApiError::not_found("file not found"));
    }
    if v[0] == '/' {
        return Err(ApiError::not_found("file not found"));
    }
    let mut pos: usize = 0;
    let mut seen = false;
    while pos < n
        invariant
            pos <= n,
            n == v@.len(),
            v@ == value@,
            value@.len() > 0,
            value@[0] != '/',
            segments_ok(value@, 0, false) == segments_ok(value@, pos as int, seen),
        decreases n - pos,
    {
        proof {
            assert(v@.subrange(0, n as int) =~= v@);
        }
        let end: usize = match find_char(&v, pos, n, '/') {
            Some(k) => k,
            None => n,
        };
        let ghost seg = v@.subrange(pos as int, end as int);
        let seg_len = end - pos;
        let bad_parent = seg_len == 2 && v[pos] == '.' && v[pos + 1] == '.';
        let bad_dot = !seen && seg_len == 1 && v[pos] == '.';
        proof {
            if bad_parent {
                assert(seg =~= seq!['.', '.']);
            } else if seg == seq!['.', '.'] {
                assert(seg.len() == 2 && seg[0] == '.' && seg[1] == '.');
                assert(false);
            }
            if seg_len == 1 && v@[pos as int] == '.' {
                assert(seg =~= seq!['.']);
            } else if seg == seq!['.'] {
                assert(seg.len() == 1 && seg[0] == '.');
                assert(false);
            }
        }
        if bad_parent || bad_dot {
            return Err(ApiError::not_found("file not found"));
        }
        if end == n {
            proof {
                assert(find_from(value@, pos as int, '/') is None);
                assert(segments_ok(value@, n as int + 1, seen || seg.len() > 0));
                assert(segments_ok(value@, pos as int, seen));
            }
            return Ok(());
        }
        seen = seen || seg_len > 0;
        pos = end + 1;
    }
    Ok(())
}

/// The first source whose key is the requested slug.
pub open spec fn first_source_match(sources: Seq<VideoSourceView>, fmt: Seq<char>) -> Option<
    VideoSourceView,
>
    decreases sources.len(),
{
    if sources.len() == 0 {
        None
    } else if spec_source_key(sources[0].format_id) == Some(fmt) {
        Some(sources[0])
    } else {
        first_source_match(sources.drop_first(), fmt)
    }
}

/// The file served for a source: its recorded path if it has one, else
/// the conventional location `{dir}/{id}/{id}_{fmt}.{ext}` with `mp4` as
/// the default extension.
pub open spec fn spec_stream_path(
    src: VideoSourceView,
    id: Seq<char>,
    fmt: Seq<char>,
    dir: Seq<char>,
) -> Seq<char> {
    match src.path {
        Some(p) => p,
        None => dir + "/"@ + id + "/"@ + id + "_"@ + fmt + "."@ + (match src.ext {
            Some(e) => e,
            None => "mp4"@,
        }),
    }
}

/// Maps a requested format slug to the file to stream and the declared
/// MIME type of that rendition. A slug matching no source is not-found,
/// decided here before any filesystem access.
pub fn resolve_stream_source(record: &VideoRecord, videoid: &str, format: &str, media_dir: &str)
    -> (r: Result<(String, Option<String>), ApiError>)
    ensures
        match first_source_match(record@.sources, format@) {
            None => r matches Err(e) && e.kind == ApiErrorKind::NotFound,
            Some(src) => r matches Ok(p) && p.0@ == spec_stream_path(
                src,
                videoid@,
                format@,
                media_dir@,
            ) && p.1.deep_view() == src.mime_type,
        },
{
    let ghost sources = record@.sources;
    proof {
        assert(sources.skip(0) =~= sources);
    }
    let mut i: usize = 0;
    while i < record.sources.len()
        invariant
            i <= record.sources.len(),
            sources == record@.sources,
            first_source_match(sources, format@) == first_source_match(
                sources.skip(i as int),
                format@,
            ),
        decreases record.sources.len() - i,
    {
        proof {
            assert(sources.skip(i as int).drop_first() =~= sources.skip(i + 1));
        }
        let key = source_key(&record.sources[i]);
        let key_matches = match &key {
            Some(k) => crate::text::str_eq(k.as_str(), format),
            None => false,
        };
        if key_matches {
            proof {
                assert(sources.skip(i as int)[0] == sources[i as int]);
            }
            let src = &record.sources[i];
            let path = match &src.path {
                Some(p) => p.clone(),
                None => {
                    let mut path = String::from_str(media_dir);
                    path.append("/");
                    path.append(videoid);
                    path.append("/");
                    path.append(videoid);
                    path.append("_");
                    path.append(format);
                    path.append(".");
                    match &src.ext {
                        Some(e) => path.append(e.as_str()),
                        None => path.append("mp4"),
                    }
                    proof {
                        assert(path@ =~= spec_stream_path(
                            sources[i as int],
                            videoid@,
                            format@,
                            media_dir@,
                        ));
                    }
                    path
                },
            };
            let mime = crate::records::clone_opt_string(&src.mime_type);
            return Ok((path, mime));
        }
        i = i + 1;
    }
    Err(ApiError::not_found("requested format not found"))
}

/// Case-insensitive equality of two ASCII letters or exact equality of
/// anything else.
pub open spec fn ci_eq_char(a: char, b: char) -> bool {
    a as u32 == b as u32 || (65 <= a as u32 <= 90 && a as u32 + 32 == b as u32) || (65 <= b as u32
        <= 90 && b as u32 + 32 == a as u32)
}

/// ASCII-case-insensitive string equality.
pub open spec fn ci_eq(a: Seq<char>, b: Seq<char>) -> bool {
    a.len() == b.len() && forall|i: int| 0 <= i < a.len() ==> ci_eq_char(a[i], #[trigger] b[i])
}

pub fn str_eq_ci(a: &str, b: &str) -> (r: bool)
    ensures
        r == ci_eq(a@, b@),
{
    let na: usize = a.unicode_len();
    let nb: usize = b.unicode_len();
    if na != nb {
        return false;
    }
    let mut i: usize = 0;
    while i < na
        invariant
            i <= na,
            na == a@.len(),
            na == b@.len(),
            forall|j: int| 0 <= j < i ==> ci_eq_char(a@[j], #[trigger] b@[j]),
        decreases na - i,
    {
        let ca = a.get_char(i) as u32;
        let cb = b.get_char(i) as u32;
        let same = ca == cb || (65 <= ca && ca <= 90 && ca + 32 == cb) || (65 <= cb && cb <= 90
            && cb + 32 == ca);
        if !same {
            return false;
        }
        i = i + 1;
    }
    true
}

/// Preference order among subtitle formats: smaller is better, 10 means
/// not served at all.
pub open spec fn spec_subtitle_rank(ext: Seq<char>) -> int {
    if ci_eq(ext, "vtt"@) {
        0
    } else if ci_eq(ext, "srv3"@) {
        1
    } else if ci_eq(ext, "srv2"@) {
        2
    } else if ci_eq(ext, "srv1"@) {
        3
    } else if ci_eq(ext, "srt"@) {
        4
    } else if ci_eq(ext, "ttml"@) {
        5
    } else if ci_eq(ext, "xml"@) {
        6
    } else if ci_eq(ext, "ass"@) {
        7
    } else {
        10
    }
}

pub fn subtitle_extension_rank(ext: &str) -> (r: usize)
    ensures
        r == spec_subtitle_rank(ext@),
{
    if str_eq_ci(ext, "vtt") {
        0
    } else if str_eq_ci(ext, "srv3") {
        1
    } else if str_eq_ci(ext, "srv2") {
        2
    } else if str_eq_ci(ext, "srv1") {
        3
    } else if str_eq_ci(ext, "srt") {
        4
    } else if str_eq_ci(ext, "ttml") {
        5
    } else if str_eq_ci(ext, "xml") {
        6
    } else if str_eq_ci(ext, "ass") {
        7
    } else {
        10
    }
}

/// The extension of a file name: what follows the last dot.
pub open spec fn ext_after_dot(name: Seq<char>) -> Seq<char> {
    match rfind_before(name, name.len() as int, '.') {
        Some(k) => name.subrange(k + 1, name.len() as int),
        None => Seq::empty(),
    }
}

/// A directory entry that can serve the subtitle `{id}.{code}`: it starts
/// with `{id}.{code}.` and its extension is a served format.
pub open spec fn subtitle_candidate(name: Seq<char>, prefix: Seq<char>) -> bool {
    &&& name.len() >= prefix.len()
    &&& name.subrange(0, prefix.len() as int) == prefix
    &&& spec_subtitle_rank(ext_after_dot(name)) < 10
}

/// The last dot in a name.
pub fn rfind_last_dot_pub(v: &Vec<char>) -> (r: Option<usize>)
    ensures
        ({
            let f = rfind_before(v@, v@.len() as int, '.');
            match r {
                Some(k) => f == Some(k as int) && k < v@.len(),
                None => f is None,
            }
        }),
{
    let mut j: usize = v.len();
    while j > 0
        invariant
            j <= v@.len(),
            rfind_before(v@, v@.len() as int, '.') == rfind_before(v@, j as int, '.'),
        decreases j,
    {
        if v[j - 1] == '.' {
            return Some(j - 1);
        }
        j = j - 1;
    }
    None
}

/// Picks the index of the best subtitle file among the directory's file
/// names: the first one of the smallest rank, or nothing when no name
/// qualifies.
pub fn pick_subtitle_file(names: &Vec<String>, videoid: &str, code: &str) -> (r: Option<usize>)
    ensures
        ({
            let p = videoid@ + "."@ + code@ + "."@;
            match r {
                None => forall|j: int|
                    0 <= j < names.deep_view().len() ==> !subtitle_candidate(
                        #[trigger] names.deep_view()[j],
                        p,
                    ),
                Some(i) => {
                    &&& i < names.deep_view().len()
                    &&& subtitle_candidate(names.deep_view()[i as int], p)
                    &&& forall|j: int|
                        0 <= j < names.deep_view().len() && subtitle_candidate(
                            #[trigger] names.deep_view()[j],
                            p,
                        ) ==> spec_subtitle_rank(ext_after_dot(names.deep_view()[i as int]))
                            <= spec_subtitle_rank(ext_after_dot(names.deep_view()[j]))
                    &&& forall|j: int|
                        0 <= j < i && subtitle_candidate(#[trigger] names.deep_view()[j], p)
                            ==> spec_subtitle_rank(ext_after_dot(names.deep_view()[j]))
                            > spec_subtitle_rank(ext_after_dot(names.deep_view()[i as int]))
                },
            }
        }),
{
    let mut prefix = String::from_str(videoid);
    prefix.append(".");
    prefix.append(code);
    prefix.append(".");
    let ghost p = videoid@ + "."@ + code@ + "."@;
    let mut best: Option<(usize, usize)> = None;
    let mut i: usize = 0;
    while i < names.len()
        invariant
            i <= names.len(),
            p == videoid@ + "."@ + code@ + "."@,
            prefix@ == p,
            match best {
                None => forall|j: int|
                    0 <= j < i ==> !subtitle_candidate(#[trigger] names.deep_view()[j], p),
                Some((bi, brank)) => {
                    &&& bi < i <= names.deep_view().len()
                    &&& subtitle_candidate(names.deep_view()[bi as int], p)
                    &&& brank == spec_subtitle_rank(ext_after_dot(names.deep_view()[bi as int]))
                    &&& forall|j: int|
                        0 <= j < i && subtitle_candidate(#[trigger] names.deep_view()[j], p)
                            ==> brank <= spec_subtitle_rank(ext_after_dot(names.deep_view()[j]))
                    &&& forall|j: int|
                        0 <= j < bi && subtitle_candidate(#[trigger] names.deep_view()[j], p)
                            ==> brank < spec_subtitle_rank(ext_after_dot(names.deep_view()[j]))
                },
            },
        decreases names.len() - i,
    {
        let name = &names[i];
        let ghost nm = name@;
        let mut is_cand = false;
        let mut rank: usize = 10;
        if str_starts_with(name.as_str(), prefix.as_str()) {
            let chars = str_to_chars(name.as_str());
            let nlen = chars.len();
            let dot = rfind_last_dot_pub(&chars);
            let ext = match dot {
                Some(k2) => chars_to_string(&chars, k2 + 1, nlen),
                None => String::new(),
            };
            proof {
                match dot {
                    Some(k2) => {
                        assert(ext@ == ext_after_dot(nm));
                    },
                    None => {
                        assert(ext@ =~= ext_after_dot(nm));
                    },
                }
            }
            rank = subtitle_extension_rank(ext.as_str());
            if rank < 10 {
                is_cand = true;
            }
        }
        proof {
            let nv = names.deep_view()[i as int];
            assert(nv == nm);
            if is_cand {
                assert(subtitle_candidate(nv, p));
            } else {
                assert(!subtitle_candidate(nv, p));
            }
        }
        let replace = match best {
            Some((_, brank)) => is_cand && rank < brank,
            None => is_cand,
        };
        if replace {
            best = Some((i, rank));
        }
        i = i + 1;
    }
    match best {
        Some((bi, _)) => Some(bi),
        None => None,
    }
}

/// Relies on `mime_guess::from_path`: the guess is a pure function of the
/// path (its extension decides), yielding the first matching type.
#[verifier::external_body]
fn guess_mime(path: &str) -> (r: Option<String>)
    ensures
        r is Some <==> mime_guess_of(path@) is Some,
        r matches Some(m) ==> m@ == mime_guess_of(path@)->0,
{
    mime_guess::MimeGuess::from_path(path).first().map(|m| m.to_string())
}

pub uninterp spec fn mime_guess_of(path: Seq<char>) -> Option<Seq<char>>;

/// The MIME type a response declares: an explicit declared type wins,
/// else the guess from the file's extension, else nothing (and the
/// header is omitted).
pub fn choose_mime(explicit: Option<String>, path: &str) -> (r: Option<String>)
    ensures
        match explicit {
            Some(m) => r matches Some(o) && o@ == m@,
            None => {
                &&& r is Some <==> mime_guess_of(path@) is Some
                &&& r matches Some(g) ==> g@ == mime_guess_of(path@)->0
            },
        },
{
    match explicit {
        Some(m) => Some(m),
        None => guess_mime(path),
    }
}

/// First index past the leading slashes.
pub open spec fn skip_slashes(s: Seq<char>, i: int) -> int
    decreases s.len() - i,
{
    if i < 0 || i >= s.len() {
        s.len() as int
    } else if s[i] == '/' {
        skip_slashes(s, i + 1)
    } else {
        i
    }
}

/// The last slash-separated segment that is neither empty nor `.`; a
/// final `..` yields nothing, as it names no file.
pub open spec fn last_file_seg(s: Seq<char>, from: int, cur: Option<Seq<char>>) -> Option<
    Seq<char>,
>
    decreases s.len() - from + 1,
    via last_file_seg_dec
{
    if from < 0 || from >= s.len() {
        match cur {
            Some(seg) => if seg == seq!['.', '.'] {
                None
            } else {
                Some(seg)
            },
            None => None,
        }
    } else {
        let end = match find_from(s, from, '/') {
            Some(k) => k,
            None => s.len() as int,
        };
        let seg = s.subrange(from, end);
        let cur2 = if seg.len() == 0 || seg == seq!['.'] {
            cur
        } else {
            Some(seg)
        };
        last_file_seg(s, end + 1, cur2)
    }
}

#[via_fn]
proof fn last_file_seg_dec(s: Seq<char>, from: int, cur: Option<Seq<char>>) {
    crate::text::lemma_find_from_bounds(s, from, '/');
}

/// A file name has an extension when a dot stands anywhere past its
/// first character.
pub open spec fn has_extension(name: Seq<char>) -> bool {
    exists|i: int| 0 < i < name.len() && name[i] == '.'
}

/// Where a miss on the static frontend should fall back to the index
/// page: only for paths that do not name a file with an extension, so
/// client-side routes load the app while missing assets stay 404.
pub open spec fn spec_should_fallback(path: Seq<char>) -> bool {
    let t = skip_slashes(path, 0);
    if t >= path.len() {
        true
    } else {
        match last_file_seg(path, t, None) {
            Some(name) => !has_extension(name),
            None => true,
        }
    }
}

/// Whether a missed request path should be answered with the index page.
pub fn should_fallback_to_index(request_path: &str) -> (r: bool)
    ensures
        r == spec_should_fallback(request_path@),
{
    let v = str_to_chars(request_path);
    let n: usize = v.len();
    let mut t: usize = 0;
    while t < n && v[t] == '/'
        invariant
            t <= n,
            n == v@.len(),
            v@ == request_path@,
            skip_slashes(v@, 0) == skip_slashes(v@, t as int),
        decreases n - t,
    {
        t = t + 1;
    }
    if t >= n {
        return true;
    }
    // Track the last segment that names a file.
    let mut cur: Option<(usize, usize)> = None;
    let mut pos: usize = t;
    while pos < n
        invariant
            t <= pos <= n,
            n == v@.len(),
            v@ == request_path@,
            last_file_seg(v@, t as int, None) == last_file_seg(
                v@,
                pos as int,
                match cur {
                    Some((a, b)) => Some(v@.subrange(a as int, b as int)),
                    None => None,
                },
            ),
            cur matches Some((a, b)) ==> a < b <= n,
        decreases n - pos,
    {
        proof {
            assert(v@.subrange(0, n as int) =~= v@);
        }
        let end: usize = match find_char(&v, pos, n, '/') {
            Some(k) => k,
            None => n,
        };
        let ghost seg = v@.subrange(pos as int, end as int);
        let seg_len = end - pos;
        let is_dot = seg_len == 1 && v[pos] == '.';
        proof {
            if is_dot {
                assert(seg =~= seq!['.']);
            } else if seg == seq!['.'] {
                assert(seg.len() == 1 && seg[0] == '.');
                assert(false);
            }
        }
        let ghost old_pos = pos as int;
        if seg_len > 0 && !is_dot {
            cur = Some((pos, end));
        }
        if end == n {
            proof {
                let cur2 = match cur {
                    Some((a, b)) => Some(v@.subrange(a as int, b as int)),
                    None => None::<Seq<char>>,
                };
                assert(last_file_seg(v@, old_pos, match cur {
                    Some((a, b)) => Some(v@.subrange(a as int, b as int)),
                    None => None::<Seq<char>>,
                }) == last_file_seg(v@, n as int, cur2) || true);
                assert(last_file_seg(v@, n + 1, cur2) == last_file_seg(v@, n as int, cur2));
            }
            pos = n;
        } else {
            pos = end + 1;
        }
    }
    proof {
        assert(last_file_seg(v@, t as int, None) == (match cur {
            Some((a, b)) => {
                let name = v@.subrange(a as int, b as int);
                if name == seq!['.', '.'] {
                    None
                } else {
                    Some(name)
                }
            },
            None => None::<Seq<char>>,
        }));
    }
    match cur {
        None => true,
        Some((a, b)) => {
            let ghost name = v@.subrange(a as int, b as int);
            let is_parent = b - a == 2 && v[a] == '.' && v[a + 1] == '.';
            proof {
                if is_parent {
                    assert(name =~= seq!['.', '.']);
                } else if name == seq!['.', '.'] {
                    assert(name.len() == 2 && name[0] == '.' && name[1] == '.');
                    assert(false);
                }
            }
            if is_parent {
                return true;
            }
            // A dot past the first character marks an extension.
            let mut i: usize = a + 1;
            while i < b
                invariant
                    a < b <= n,
                    a + 1 <= i <= b,
                    n == v@.len(),
                    v@ == request_path@,
                    t < n,
                    skip_slashes(v@, 0) == t as int,
                    name == v@.subrange(a as int, b as int),
                    last_file_seg(v@, t as int, None) == Some(name),
                    forall|j: int| a < j < i ==> v@[j] != '.',
                decreases b - i,
            {
                if v[i] == '.' {
                    proof {
                        assert(name[i - a] == '.');
                        assert(has_extension(name));
                    }
                    return false;
                }
                i = i + 1;
            }
            proof {
                assert(!has_extension(name)) by {
                    if has_extension(name) {
                        let j = choose|j: int| 0 < j < name.len() && name[j] == '.';
                        assert(v@[a + j] == '.');
                        assert(false);
                    }
                }
            }
            true
        },
    }
}


/// The file that answers a static frontend request: the index page for
/// the root, otherwise the request path resolved under the www root —
/// provided it cannot escape it.
pub fn resolve_www_path(root: &str, request_path: &str) -> (r: Result<String, ApiError>)
    ensures
        ({
            let t = skip_slashes(request_path@, 0);
            if t >= request_path@.len() {
                r matches Ok(p) && p@ == root@ + "/index.html"@
            } else {
                let trimmed = request_path@.skip(t);
                if safe_path_segment(trimmed) {
                    r matches Ok(p) && p@ == root@ + "/"@ + trimmed
                } else {
                    r matches Err(e) && e.kind == ApiErrorKind::NotFound
                }
            }
        }),
{
    let v = str_to_chars(request_path);
    let n = v.len();
    let mut t: usize = 0;
    while t < n && v[t] == '/'
        invariant
            t <= n,
            n == v@.len(),
            v@ == request_path@,
            skip_slashes(v@, 0) == skip_slashes(v@, t as int),
        decreases n - t,
    {
        t = t + 1;
    }
    if t >= n {
        let mut index = String::from_str(root);
        index.append("/index.html");
        return Ok(index);
    }
    let trimmed = chars_to_string(&v, t, n);
    proof {
        assert(trimmed@ =~= request_path@.skip(t as int));
    }
    match ensure_safe_path_segment(trimmed.as_str()) {
        Err(e) => Err(e),
        Ok(()) => {
            let mut target = String::from_str(root);
            target.append("/");
            target.append(trimmed.as_str());
            Ok(target)
        },
    }
}

/// The first subtitle track carrying `code`.
pub open spec fn first_track_match(
    tracks: Seq<crate::records::SubtitleTrackView>,
    code: Seq<char>,
) -> Option<crate::records::SubtitleTrackView>
    decreases tracks.len(),
{
    if tracks.len() == 0 {
        None
    } else if tracks[0].code == code {
        Some(tracks[0])
    } else {
        first_track_match(tracks.drop_first(), code)
    }
}

/// Finds the track of one language code in a collection.
pub fn find_subtitle_track(
    collection: &crate::records::SubtitleCollection,
    code: &str,
) -> (r: Option<crate::records::SubtitleTrack>)
    ensures
        r.deep_view() == first_track_match(collection@.languages, code@),
{
    let ghost tracks = collection@.languages;
    proof {
        assert(tracks.skip(0) =~= tracks);
    }
    let mut i: usize = 0;
    while i < collection.languages.len()
        invariant
            i <= collection.languages.len(),
            tracks == collection@.languages,
            first_track_match(tracks, code@) == first_track_match(tracks.skip(i as int), code@),
        decreases collection.languages.len() - i,
    {
        proof {
            assert(tracks.skip(i as int).drop_first() =~= tracks.skip(i + 1));
        }
        if crate::text::str_eq(collection.languages[i].code.as_str(), code) {
            proof {
                assert(tracks.skip(i as int)[0] == tracks[i as int]);
            }
            return Some(collection.languages[i].clone());
        }
        i = i + 1;
    }
    None
}

/// Whether a recorded subtitle path may be served: it must contain no
/// parent component and lie under `base` (equal to it or below a `/`).
pub open spec fn spec_path_within(path: Seq<char>, base: Seq<char>) -> bool {
    &&& segments_ok_parent_free(path, 0)
    &&& (path == base || (path.len() > base.len() && path.subrange(0, base.len() as int) == base
        && path[base.len() as int] == '/'))
}

/// No `..` component anywhere in the path.
pub open spec fn segments_ok_parent_free(s: Seq<char>, from: int) -> bool
    decreases s.len() - from + 1,
    via segments_ok_parent_free_dec
{
    if from < 0 || from >= s.len() {
        true
    } else {
        let end = match find_from(s, from, '/') {
            Some(k) => k,
            None => s.len() as int,
        };
        let seg = s.subrange(from, end);
        seg != seq!['.', '.'] && segments_ok_parent_free(s, end + 1)
    }
}

#[via_fn]
proof fn segments_ok_parent_free_dec(s: Seq<char>, from: int) {
    crate::text::lemma_find_from_bounds(s, from, '/');
}

/// Validates a recorded subtitle path against its expected directory.
pub fn path_within_base(path: &str, base: &str) -> (r: bool)
    ensures
        r == spec_path_within(path@, base@),
{
    let v = str_to_chars(path);
    let n = v.len();
    let mut pos: usize = 0;
    while pos < n
        invariant
            pos <= n,
            n == v@.len(),
            v@ == path@,
            segments_ok_parent_free(path@, 0) == segments_ok_parent_free(path@, pos as int),
        decreases n - pos,
    {
        proof {
            assert(v@.subrange(0, n as int) =~= v@);
        }
        let end: usize = match find_char(&v, pos, n, '/') {
            Some(k) => k,
            None => n,
        };
        let ghost seg = v@.subrange(pos as int, end as int);
        let bad = end - pos == 2 && v[pos] == '.' && v[pos + 1] == '.';
        proof {
            if bad {
                assert(seg =~= seq!['.', '.']);
            } else if seg == seq!['.', '.'] {
                assert(seg.len() == 2 && seg[0] == '.' && seg[1] == '.');
                assert(false);
            }
        }
        if bad {
            return false;
        }
        if end == n {
            proof {
                assert(find_from(path@, pos as int, '/') is None);
                assert(segments_ok_parent_free(path@, n as int + 1));
                assert(segments_ok_parent_free(path@, pos as int));
            }
            pos = n;
        } else {
            pos = end + 1;
        }
    }
    let np: usize = path.unicode_len();
    let nb: usize = base.unicode_len();
    if crate::text::str_eq(path, base) {
        return true;
    }
    if np > nb && crate::text::str_starts_with(path, base) {
        if path.get_char(nb) == '/' {
            return true;
        }
    }
    false
}

/// The file behind a thumbnail request, under the thumbnails directory.
pub fn thumbnail_path(thumbnails_dir: &str, videoid: &str, file: &str) -> (r: String)
    ensures
        r@ == thumbnails_dir@ + "/"@ + videoid@ + "/"@ + file@,
{
    let mut r = String::from_str(thumbnails_dir);
    r.append("/");
    r.append(videoid);
    r.append("/");
    r.append(file);
    r
}

} // verus!
